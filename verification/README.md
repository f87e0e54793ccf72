# bullet

A command-line bullet journal. Bullets have a priority (Safe, Euclid, Keter)
and a state (Active, Completed, Discarded) and belong to a migration; a
migration opens the next period and carries into it the bullets that are
neither safe nor closed.

- `src/` is the verified library: the names of priorities and states and how
  text reads back as them (`storage`, `text`), the choice of the latest
  migration, the migration plan, the header counts, the rows and SQL
  statements that the program writes, and how a listing is styled (`listing`).
- `app/` is the program: argument handling, the SQLite database and the
  coloured output. It reads rows, hands them to the library, and writes what
  the library decides.
- `tests/` runs the library on concrete values.
