# diskray

A read-only storage inventory for macOS volumes, and the rules of the
interface that presents it.

`src/` is the verified library. Every function there carries a contract
that Verus proves, except four small wrappers around outside calls whose
contracts are trusted: `String::push` (`text::push_char`),
`str::to_lowercase` (`assistant::to_lowercase`), and ratatui's
`Rect::new` and `Rect::inner` (`layout::ratatui_rect_new`,
`layout::ratatui_rect_inner`). The modules:

- `text`, `path`, `sort`: characters, paths compared by component, and a
  stable merge sort with its ordering and permutation lemmas.
- `storage`, `scanner`, `measure`: classification of paths, the breakdown
  of a volume (its items never nest and never lie below a cleanup target),
  the parsers for `df`, `diskutil` and `tmutil` output, and the step
  functions of the directory walks (each inode counted once, errors kept up
  to a cap, the largest items selected, a cache location measured in
  bounded slices).
- `layout`, `display`: screen geometry (the folder map, menus, dialogs) and
  the short texts of the interface.
- `care_keys`, `care_workspace`: the key layers of the care workspace
  (Control-C, the retained process list, help, clearing the history, the
  plan review and the checks a plan passes before it runs, the navigation
  bar, approvals and answers), each a step over a small state; the order in
  which the layers are tried; and the workspace's own table of keys.
- `session`, `menu`, `shell`, `explorer`, `screens`: the key and mouse
  handling of the cleanup review, of the storage interface and of its list
  screens, as transition functions from state and event to new state and
  the action the program must run.
- `assistant`, `guidance`, `sources`: the command palette, follow-up
  questions and model ranking checks, the deletion guidance, and the folders
  offered for moving.

`app/` is the program around the library: it reads the filesystem and runs
the accounting tools, hands the library plain values, converts terminal
events, and holds the serialisable copies of the report types.

Not here: the terminal program itself (its event loop and drawing), and
what the care workspace's steps ask the program to do with the care
records, the local model and the plan's actions (deleting, signalling,
moving). The steps say which action is owed and when; carrying it out
belongs to those parts of the program.
