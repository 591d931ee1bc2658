# blockwork_core

The core of a block-based macro editor: the instruction tree of a macro,
the edits that rename or rewire references inside it, the upgrades applied
when an older save is loaded, custom-block ("My Blocks") maintenance, and
the decisions of the clipboard watcher. The library under `src/` is
verified with Verus; `app/` holds the clipboard access, the watcher's
polling thread and the JSON save format.

Layout of `src/`:

- `program`: values, input tokens, instructions and their views.
- `edit`, `rewrite`, `instructions`: whole-tree edits (renames, boolean-slot
  repair, call-site realignment, scrubbing calls) and the public operations
  on values and instructions; `equality` and `copy`: id-blind equality and
  deep copies.
- `slots`, `walk`, `purge`: walks over nested bodies and branches.
- `blocks`: custom block prototypes, shapes and colours.
- `macros`, `editing`, `custom`: a whole macro and its edits.
- `load`: load-time upgrades of older saves.
- `watch`: one poll of the clipboard watcher.
- `docs`: equality and copies of the parts of a macro.
- `names`: references by name, for the statements that renames reach them
  and that renaming back undoes a rename.
- `laws`: properties that span several operations.

Numbers are carried as the bit patterns of `f64` values; the library never
does arithmetic on them. Two number literals compare as `f64` numbers do:
equal when their bit patterns are, except that `0.0` and `-0.0` are equal
and a NaN equals nothing, itself included.
