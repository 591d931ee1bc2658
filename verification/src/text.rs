//! Small text helpers: equality against `&str`, Unicode whitespace
//! trimming and ASCII upper-casing.
use vstd::prelude::*;
use vstd::string::StrSliceExecFns;

verus! {

/// Unicode `White_Space`, the property `char::is_whitespace` and
/// `str::trim` go by.
pub open spec fn is_whitespace(c: char) -> bool {
    let u = c as u32;
    ||| 0x9 <= u <= 0xd
    ||| u == 0x20
    ||| u == 0x85
    ||| u == 0xa0
    ||| u == 0x1680
    ||| 0x2000 <= u <= 0x200a
    ||| u == 0x2028
    ||| u == 0x2029
    ||| u == 0x202f
    ||| u == 0x205f
    ||| u == 0x3000
}

/// `s` without its leading and trailing whitespace.
pub open spec fn trimmed(s: Seq<char>) -> Seq<char>
    decreases s.len(),
{
    if s.len() > 0 && is_whitespace(s[0]) {
        trimmed(s.drop_first())
    } else if s.len() > 0 && is_whitespace(s.last()) {
        trimmed(s.drop_last())
    } else {
        s
    }
}

pub open spec fn is_ascii_hexdigit(c: char) -> bool {
    ('0' <= c && c <= '9') || ('a' <= c && c <= 'f') || ('A' <= c && c <= 'F')
}

pub open spec fn ascii_upper(c: char) -> char {
    if 'a' <= c && c <= 'z' {
        ((c as u32) - 32) as char
    } else {
        c
    }
}

pub open spec fn ascii_uppercased(s: Seq<char>) -> Seq<char> {
    Seq::new(s.len(), |i: int| ascii_upper(s[i]))
}

/// Whether `s` is empty once trimmed: every character is whitespace.
pub open spec fn is_blank(s: Seq<char>) -> bool {
    forall|i: int| 0 <= i < s.len() ==> is_whitespace(#[trigger] s[i])
}

fn is_whitespace_char(c: char) -> (r: bool)
    ensures
        r == is_whitespace(c),
{
    let u = c as u32;
    (0x9 <= u && u <= 0xd) || u == 0x20 || u == 0x85 || u == 0xa0 || u == 0x1680 || (0x2000 <= u && u <= 0x200a)
        || u == 0x2028 || u == 0x2029 || u == 0x202f || u == 0x205f || u == 0x3000
}

/// `trimmed` is the stretch between the leading and the trailing
/// whitespace.
proof fn lemma_trimmed_range(s: Seq<char>, lo: int, hi: int)
    requires
        0 <= lo <= hi <= s.len(),
        forall|j: int| 0 <= j < lo ==> is_whitespace(#[trigger] s[j]),
        forall|j: int| hi <= j < s.len() ==> is_whitespace(#[trigger] s[j]),
        lo < hi ==> !is_whitespace(s[lo]) && !is_whitespace(s[hi - 1]),
    ensures
        trimmed(s) == s.subrange(lo, hi),
    decreases s.len(),
{
    if lo == hi {
        assert forall|j: int| 0 <= j < s.len() implies is_whitespace(#[trigger] s[j]) by {
            if j < lo {
            } else {
            }
        }
        lemma_trimmed_blank(s);
        assert(trimmed(s) =~= s.subrange(lo, hi));
    } else if s.len() > 0 && is_whitespace(s[0]) {
        let t = s.drop_first();
        assert forall|j: int| 0 <= j < lo - 1 implies is_whitespace(#[trigger] t[j]) by {
            assert(t[j] == s[j + 1]);
        }
        assert forall|j: int| hi - 1 <= j < t.len() implies is_whitespace(#[trigger] t[j]) by {
            assert(t[j] == s[j + 1]);
        }
        assert(t[lo - 1] == s[lo]);
        assert(t[hi - 2] == s[hi - 1]);
        lemma_trimmed_range(t, lo - 1, hi - 1);
        assert(t.subrange(lo - 1, hi - 1) =~= s.subrange(lo, hi));
    } else if s.len() > 0 && is_whitespace(s.last()) {
        let t = s.drop_last();
        assert(s.last() == s[s.len() - 1]);
        assert forall|j: int| 0 <= j < lo implies is_whitespace(#[trigger] t[j]) by {
            assert(t[j] == s[j]);
        }
        assert forall|j: int| hi <= j < t.len() implies is_whitespace(#[trigger] t[j]) by {
            assert(t[j] == s[j]);
        }
        assert(t[lo] == s[lo]);
        assert(t[hi - 1] == s[hi - 1]);
        lemma_trimmed_range(t, lo, hi);
        assert(t.subrange(lo, hi) =~= s.subrange(lo, hi));
    } else {
        if s.len() > 0 {
            assert(s.last() == s[s.len() - 1]);
        }
        assert(s.subrange(lo, hi) =~= s);
    }
}

/// The slice with leading and trailing Unicode whitespace removed, as
/// `str::trim` gives it.
pub(crate) fn trim_str(s: &str) -> (r: &str)
    ensures
        r@ == trimmed(s@),
{
    let n = s.unicode_len();
    let mut lo: usize = 0;
    while lo < n && is_whitespace_char(s.get_char(lo))
        invariant
            lo <= n,
            n == s@.len(),
            forall|j: int| 0 <= j < lo ==> is_whitespace(#[trigger] s@[j]),
        decreases n - lo,
    {
        lo = lo + 1;
    }
    let mut hi: usize = n;
    while hi > lo && is_whitespace_char(s.get_char(hi - 1))
        invariant
            lo <= hi <= n,
            n == s@.len(),
            lo < n ==> !is_whitespace(s@[lo as int]),
            forall|j: int| 0 <= j < lo ==> is_whitespace(#[trigger] s@[j]),
            forall|j: int| hi <= j < n ==> is_whitespace(#[trigger] s@[j]),
        decreases hi - lo,
    {
        hi = hi - 1;
    }
    proof {
        lemma_trimmed_range(s@, lo as int, hi as int);
    }
    s.substring_char(lo, hi)
}

/// `str::to_ascii_uppercase`: a copy with `a`..=`z` mapped to `A`..=`Z`
/// and every other character unchanged.
#[verifier::external_body]
pub(crate) fn ascii_uppercase(s: &str) -> (r: String)
    ensures
        r@ == ascii_uppercased(s@),
{
    s.to_ascii_uppercase()
}

/// Whether a `String` holds exactly the characters of `b`.
pub fn str_eq(a: &String, b: &str) -> (r: bool)
    ensures
        r == (a@ == b@),
{
    let c = b.to_owned();
    *a == c
}

/// A fresh `String` with the characters of `s`.
pub fn owned(s: &str) -> (r: String)
    ensures
        r@ == s@,
{
    s.to_owned()
}

pub proof fn lemma_trimmed_blank(s: Seq<char>)
    ensures
        (trimmed(s).len() == 0) == is_blank(s),
    decreases s.len(),
{
    if s.len() > 0 && is_whitespace(s[0]) {
        lemma_trimmed_blank(s.drop_first());
        if is_blank(s.drop_first()) {
            assert forall|i: int| 0 <= i < s.len() implies is_whitespace(#[trigger] s[i]) by {
                if i > 0 {
                    assert(s[i] == s.drop_first()[i - 1]);
                }
            }
        } else {
            let j = choose|j: int| 0 <= j < s.drop_first().len() && !is_whitespace(#[trigger] s.drop_first()[j]);
            assert(s[j + 1] == s.drop_first()[j]);
        }
    } else if s.len() > 0 && is_whitespace(s.last()) {
        lemma_trimmed_blank(s.drop_last());
        if is_blank(s.drop_last()) {
            assert forall|i: int| 0 <= i < s.len() implies is_whitespace(#[trigger] s[i]) by {
                if i < s.len() - 1 {
                    assert(s[i] == s.drop_last()[i]);
                }
            }
        } else {
            let j = choose|j: int| 0 <= j < s.drop_last().len() && !is_whitespace(#[trigger] s.drop_last()[j]);
            assert(s[j] == s.drop_last()[j]);
        }
    } else {
        if s.len() > 0 {
            assert(!is_whitespace(s[0]));
        }
    }
}

/// Whether `s` holds nothing but whitespace (`s.trim().is_empty()`).
pub fn is_blank_str(s: &str) -> (r: bool)
    ensures
        r == is_blank(s@),
{
    let t = trim_str(s);
    proof {
        lemma_trimmed_blank(s@);
    }
    t.is_empty()
}

} // verus!
