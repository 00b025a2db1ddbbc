# prexp

A process explorer: it lists processes with their open files, sockets and
pipes, groups open files by path, answers which processes hold a path, and
shows per-process detail, history charts and a system summary in a terminal
interface. It can also print snapshots as TSV or JSON.

## Layout

- `src/` is the verified library (Verus). Every function in it carries a
  contract that Verus proves.
  - `models`, `system`, `error`: the data of a process snapshot, system
    counters and errors, with the messages shown to the user.
  - `output`: TSV and JSON output of snapshots, and the JSON of the info
    panel.
  - `backend/linux`: parsing of `/proc` text (states, `/proc/net` lines,
    hexadecimal addresses) and the building of snapshots from what was read.
  - `backend/macos`, `ffi`: the pure steps of the macOS backend
    (classification of descriptors, BSD states, socket addresses, C strings).
  - `tui`: the explorer's state machine: the process and file lists (search,
    sort, tree order, selection that follows a process), the history of each
    process, the overlays, and the decision of what each key does.
  - `sort`, `text`, `json`: a verified stable insertion sort, text helpers and
    a JSON value model.
  - `tui/app/laws.rs`: properties that span several operations;
    `tui/app/forest.rs` and `tui/app/lineage.rs`: the shape of the process
    tree (depths, parents, prefixes, last-child connectors) and that it
    lists every process once when parent links have no cycle.
  - `username`: the user shown for a uid.
- `tests/`: tests of the library.
- `app/`: the program around it: command line, reading `/proc` through
  `procfs`, the terminal loop (crossterm) and drawing (ratatui), and the
  clipboard.
