//! The decisions of the clipboard watcher: on every poll, which
//! `WhenClipboardChanged` strands fire, and what is remembered for the next
//! poll.
//!
//! Only the selected macro is watched, plus every macro whose settings ask
//! to always listen. A strand fires when the clipboard differs from what it
//! saw at the previous poll; a strand seen for the first time only records
//! a baseline.
use vstd::prelude::*;
use crate::macros::{Macro, MacroV, StrandV};
use crate::program::{opt_str_view, InstructionKind, KindV};
use crate::seqs::views;
use crate::text::str_eq;

verus! {

/// What is on the clipboard, as far as the watcher compares it.
#[derive(Debug)]
pub struct Fingerprint {
    pub text: Option<String>,
    pub has_image: bool,
    pub has_file_list: bool,
}

pub ghost struct FingerprintV {
    pub text: Option<Seq<char>>,
    pub has_image: bool,
    pub has_file_list: bool,
}

impl View for Fingerprint {
    type V = FingerprintV;

    open spec fn view(&self) -> FingerprintV {
        FingerprintV { text: opt_str_view(self.text), has_image: self.has_image, has_file_list: self.has_file_list }
    }
}

impl Fingerprint {
    /// Whether two fingerprints describe the same clipboard contents.
    pub fn same(&self, other: &Fingerprint) -> (r: bool)
        ensures
            r == (self@ == other@),
    {
        let text = match (&self.text, &other.text) {
            (Some(a), Some(b)) => *a == *b,
            (None, None) => true,
            _ => false,
        };
        text && self.has_image == other.has_image && self.has_file_list == other.has_file_list
    }

    pub fn duplicate(&self) -> (r: Fingerprint)
        ensures
            r@ == self@,
    {
        let text = match &self.text {
            Some(t) => Some(t.clone()),
            None => None,
        };
        Fingerprint { text, has_image: self.has_image, has_file_list: self.has_file_list }
    }
}

/// The fingerprint last observed for one strand of one macro.
#[derive(Debug)]
pub struct SeenEntry {
    pub macro_id: String,
    pub strand_id: String,
    pub fingerprint: Fingerprint,
}

pub ghost struct SeenV {
    pub macro_id: Seq<char>,
    pub strand_id: Seq<char>,
    pub fingerprint: FingerprintV,
}

impl View for SeenEntry {
    type V = SeenV;

    open spec fn view(&self) -> SeenV {
        SeenV { macro_id: self.macro_id@, strand_id: self.strand_id@, fingerprint: self.fingerprint@ }
    }
}

/// Whether a macro's event strands are live.
pub open spec fn is_watched(m: MacroV, selected: Option<Seq<char>>) -> bool {
    m.settings.always_listen || selected == Some(m.id)
}

/// Whether a strand is headed by `WhenClipboardChanged`.
pub open spec fn is_clipboard_strand(s: StrandV) -> bool {
    s.instructions.len() > 0 && s.instructions[0].kind == KindV::WhenClipboardChanged
}

/// The positions `(j, k)` of the clipboard strands `k` of macro `j`
/// among `s`, its strands.
pub open spec fn clipboard_strands(j: int, s: Seq<StrandV>) -> Seq<(int, int)>
    decreases s.len(),
{
    if s.len() == 0 {
        Seq::empty()
    } else {
        let rest = clipboard_strands(j, s.drop_last());
        if is_clipboard_strand(s.last()) {
            rest.push((j, s.len() - 1))
        } else {
            rest
        }
    }
}

/// The positions of the watched clipboard strands, macro by macro.
pub open spec fn watched_strands(ms: Seq<MacroV>, selected: Option<Seq<char>>) -> Seq<(int, int)>
    decreases ms.len(),
{
    if ms.len() == 0 {
        Seq::empty()
    } else {
        let rest = watched_strands(ms.drop_last(), selected);
        if is_watched(ms.last(), selected) {
            rest + clipboard_strands(ms.len() - 1, ms.last().strands)
        } else {
            rest
        }
    }
}

/// The fingerprint first recorded for a macro and strand.
pub open spec fn seen_before(seen: Seq<SeenV>, macro_id: Seq<char>, strand_id: Seq<char>) -> Option<FingerprintV>
    decreases seen.len(),
{
    if seen.len() == 0 {
        None
    } else if seen[0].macro_id == macro_id && seen[0].strand_id == strand_id {
        Some(seen[0].fingerprint)
    } else {
        seen_before(seen.drop_first(), macro_id, strand_id)
    }
}

/// Whether the strand at `p` fires: it was seen before, with another
/// fingerprint.
pub open spec fn fires(ms: Seq<MacroV>, seen: Seq<SeenV>, current: FingerprintV, p: (int, int)) -> bool {
    match seen_before(seen, ms[p.0].id, ms[p.0].strands[p.1].id) {
        Some(previous) => previous != current,
        None => false,
    }
}

/// What is remembered for the strand at `p`.
pub open spec fn seen_now(ms: Seq<MacroV>, current: FingerprintV, p: (int, int)) -> SeenV {
    SeenV { macro_id: ms[p.0].id, strand_id: ms[p.0].strands[p.1].id, fingerprint: current }
}

pub open spec fn index_pairs(s: Seq<(usize, usize)>) -> Seq<(int, int)> {
    Seq::new(s.len(), |i: int| (s[i].0 as int, s[i].1 as int))
}

fn find_seen(seen: &Vec<SeenEntry>, macro_id: &String, strand_id: &String) -> (r: Option<usize>)
    ensures
        r matches Some(i) ==> i < seen@.len() && seen_before(views(seen@), macro_id@, strand_id@) == Some(
            seen@[i as int]@.fingerprint,
        ),
        r is None ==> seen_before(views(seen@), macro_id@, strand_id@) is None,
{
    let ghost s = views(seen@);
    assert(s.skip(0) =~= s);
    let mut i: usize = 0;
    while i < seen.len()
        invariant
            i <= seen@.len(),
            s == views(seen@),
            seen_before(s, macro_id@, strand_id@) == seen_before(s.skip(i as int), macro_id@, strand_id@),
        decreases seen.len() - i,
    {
        assert(s.skip(i as int).drop_first() =~= s.skip(i + 1));
        assert(s.skip(i as int)[0] == s[i as int]);
        if seen[i].macro_id == *macro_id && seen[i].strand_id == *strand_id {
            return Some(i);
        }
        i = i + 1;
    }
    None
}

fn is_clipboard_start(s: &crate::macros::Strand) -> (r: bool)
    ensures
        r == is_clipboard_strand(s@),
{
    if s.instructions.len() == 0 {
        false
    } else {
        match &s.instructions[0].kind {
            InstructionKind::WhenClipboardChanged => true,
            _ => false,
        }
    }
}

/// One poll of the clipboard watcher: given the macros, the id of the
/// selected one, the clipboard now and what each strand saw at the
/// previous poll, returns the strands to fire (macro and strand
/// positions) and what to remember for the next poll.
pub fn watch_tick(
    macros: &Vec<Macro>,
    selected_id: Option<&str>,
    current: &Fingerprint,
    last_seen: &Vec<SeenEntry>,
) -> (r: (Vec<(usize, usize)>, Vec<SeenEntry>))
    ensures
        index_pairs(r.0@) == watched_strands(views(macros@), opt_str_ref_view(selected_id)).filter(
            |p: (int, int)| fires(views(macros@), views(last_seen@), current@, p),
        ),
        views(r.1@) == Seq::new(
            watched_strands(views(macros@), opt_str_ref_view(selected_id)).len(),
            |k: int| seen_now(views(macros@), current@, watched_strands(views(macros@), opt_str_ref_view(selected_id))[k]),
        ),
{
    let ghost ms = views(macros@);
    let ghost sel = opt_str_ref_view(selected_id);
    let ghost seen = views(last_seen@);
    let mut fire: Vec<(usize, usize)> = Vec::new();
    let mut next: Vec<SeenEntry> = Vec::new();
    let mut j: usize = 0;
    while j < macros.len()
        invariant
            j <= macros@.len(),
            ms == views(macros@),
            sel == opt_str_ref_view(selected_id),
            seen == views(last_seen@),
            index_pairs(fire@) == watched_strands(ms.take(j as int), sel).filter(
                |p: (int, int)| fires(ms, seen, current@, p),
            ),
            views(next@) == Seq::new(
                watched_strands(ms.take(j as int), sel).len(),
                |k: int| seen_now(ms, current@, watched_strands(ms.take(j as int), sel)[k]),
            ),
            forall|k: int| 0 <= k < watched_strands(ms.take(j as int), sel).len() ==> {
                let p = #[trigger] watched_strands(ms.take(j as int), sel)[k];
                0 <= p.0 < j && 0 <= p.1 < ms[p.0].strands.len()
            },
        decreases macros.len() - j,
    {
        proof {
            assert(ms.take(j + 1).drop_last() =~= ms.take(j as int));
            assert(ms.take(j + 1).last() == ms[j as int]);
        }
        let mac = &macros[j];
        let watched = mac.settings.always_listen || match selected_id {
            Some(id) => str_eq(&mac.id, id),
            None => false,
        };
        if watched {
            let ghost w0 = watched_strands(ms.take(j as int), sel);
            let ghost f0 = fire@;
            let ghost n0 = views(next@);
            let mut k: usize = 0;
            while k < mac.strands.len()
                invariant
                    j < macros@.len(),
                    mac == macros@[j as int],
                    k <= mac.strands@.len(),
                    ms == views(macros@),
                    seen == views(last_seen@),
                    index_pairs(fire@) == (w0 + clipboard_strands(j as int, ms[j as int].strands.take(k as int))).filter(
                        |p: (int, int)| fires(ms, seen, current@, p),
                    ),
                    views(next@) == Seq::new(
                        (w0 + clipboard_strands(j as int, ms[j as int].strands.take(k as int))).len(),
                        |i: int|
                            seen_now(
                                ms,
                                current@,
                                (w0 + clipboard_strands(j as int, ms[j as int].strands.take(k as int)))[i],
                            ),
                    ),
                    forall|i: int| 0 <= i < w0.len() ==> {
                        let p = #[trigger] w0[i];
                        0 <= p.0 < j && 0 <= p.1 < ms[p.0].strands.len()
                    },
                    forall|i: int| 0 <= i < clipboard_strands(j as int, ms[j as int].strands.take(k as int)).len() ==> {
                        let p = #[trigger] clipboard_strands(j as int, ms[j as int].strands.take(k as int))[i];
                        p.0 == j && 0 <= p.1 < k
                    },
                decreases mac.strands.len() - k,
            {
                let ghost st = ms[j as int].strands;
                let ghost before = w0 + clipboard_strands(j as int, st.take(k as int));
                proof {
                    assert(st.take(k + 1).drop_last() =~= st.take(k as int));
                    assert(st.take(k + 1).last() == st[k as int]);
                }
                if is_clipboard_start(&mac.strands[k]) {
                    let ghost p = (j as int, k as int);
                    assert(w0 + clipboard_strands(j as int, st.take(k + 1)) =~= before.push(p));
                    proof {
                        crate::seqs::lemma_filter_push(before, |q: (int, int)| fires(ms, seen, current@, q), p);
                    }
                    match find_seen(last_seen, &mac.id, &mac.strands[k].id) {
                        Some(i) => {
                            if !last_seen[i].fingerprint.same(current) {
                                fire.push((j, k));
                                assert(index_pairs(fire@) =~= index_pairs(fire@.drop_last()).push(p));
                            }
                        },
                        None => {},
                    }
                    let e = SeenEntry {
                        macro_id: mac.id.clone(),
                        strand_id: mac.strands[k].id.clone(),
                        fingerprint: current.duplicate(),
                    };
                    assert(e@ == seen_now(ms, current@, p));
                    let ghost n_old = views(next@);
                    next.push(e);
                    assert(views(next@) =~= n_old.push(e@));
                    assert(views(next@) =~= Seq::new(
                        before.push(p).len(),
                        |i: int| seen_now(ms, current@, before.push(p)[i]),
                    ));
                } else {
                    assert(w0 + clipboard_strands(j as int, st.take(k + 1)) =~= before);
                }
                k = k + 1;
            }
            proof {
                assert(ms[j as int].strands.take(mac.strands@.len() as int) =~= ms[j as int].strands);
            }
        }
        j = j + 1;
    }
    proof {
        assert(ms.take(macros@.len() as int) =~= ms);
    }
    (fire, next)
}

pub open spec fn opt_str_ref_view(o: Option<&str>) -> Option<Seq<char>> {
    match o {
        Some(s) => Some(s@),
        None => None,
    }
}

} // verus!
