# tuipmgr

A Linux process manager whose logic is verified with Verus.

- `src/` is the verified library:
  - `text`: decimal rendering, string order and equality, comma joining;
  - `order`: stable sorting by key, with the sorted arrangement proved
    unique;
  - `procs`: the raw values of a process and the row the table shows;
  - `table`: ordering, searching, the cells of rows, and the processes to
    terminate;
  - `listing`: the one-shot listing, its order, rows and CSV lines;
  - `ui`: the state machine of the terminal interface;
  - `screens`: tab-bar entries and the system description lines.
- `app/` reads `/proc` and the system, draws with `tui`, serves JSON with
  `actix-web`, and prints the listing with `prettytable`. Run it with no
  argument for the terminal interface, `backend` or `cpu-server` for the web
  servers, and `listing` for the one-shot listing.
- `tests/` runs the library on concrete values.
