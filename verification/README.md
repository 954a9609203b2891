# asst

Tasks and reminders on a CalDAV server, for a Linux desktop: what the clients
of the daemon `asstd` decide, as a library proved with Verus, and the programs
around it.

- `src/` is the library. What a task, a day, a zone and a view are (`task`,
  `date`, `zone`, `nav`); which tasks a view shows and in what order (`plan`,
  `arrange`, `order`, `sorting`, `counts`, `reorder`); dates, repeats and
  reminders (`due`, `schedule`, `repeat`, `remind`); the command line and the
  bar (`cli`, `said`, `out`, `bar`); the window as a machine that takes messages
  and answers, and says what to do (`window`, `update`, `handle`, `answer`,
  `keys`, `batch`, `steps`, `sight`, `render`); and its parts (`editor`,
  `addcard`, `row`, `content`, `sidebar`, `find`, `settings`, `linked`, `notes`,
  `menus`).
  The `*_law` modules state what holds of several of them together.
- `tests/` runs it on examples.
- `app/` is the rest: arguments, the bus, files and widgets. `asst` and
  `asst-gtk` are one program under two names; both need `asst_core`, the crate
  that the daemon shares with its clients.
