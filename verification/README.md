# lkr_planner

The planning logic of LKR Planner, a weekly project planner that takes its
projects and fitters from Daylite and writes assignments to the fitters' ZEP
CalDAV calendars. The logic is written in Verus and proved against its
contracts.

## Layout

- `src/` — the verified library.
  - `calendar/` — reading CalDAV REPORT answers and iCalendar text,
    classifying events into assignments and absences, resolving them against
    Daylite projects, the week of every employee, the fixed-appointment
    protection, and the deterministic allocation of time slots within a day.
  - `daylite/` — the Daylite records (projects, contacts, categories), the
    search requests, the token refresh and rotation steps, the shared token
    session and the project cache.
  - `local_store.rs`, `holidays.rs`, `health.rs` — the persisted
    configuration, the public-holiday cache and the health report.
  - `dates.rs`, `text.rs`, `sort.rs` — day numbers, text rules and the stable
    sort the rest builds on.
- `tests/` — tests of the library on concrete values.
- `app/` — the application layer: file and network I/O, the JSON shapes of
  the wire, and the commands that hand what they read to the library.
