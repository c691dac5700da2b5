# unicom

A traffic query service for China Unicom lines: it signs in to the
carrier's API, sorts a line's packages into nine traffic buckets, keeps
per-day and per-notification baselines, and sends Telegram notifications
from user templates on a per-user schedule. An admin web API and a command
line manage users, schedules and the service itself.

## Layout

- `src/` — the library, verified with Verus. Every public function carries
  a `requires`/`ensures` contract; the properties that span functions are
  stated and proved as `law_*` proof functions next to the functions they
  are about.
  - `text` — string primitives (search, trim, split, replace, join,
    decimal parsing and printing) over Unicode scalar sequences.
  - `config` — the configuration, its defaults, and loading from read values.
  - `cron` — cron expressions (second, minute, hour, day of month, month,
    weekday; or the five fields without seconds), due tasks, the schedule a
    query interval stands for, and what a scheduled query writes.
  - `session`, `ratelimit` — the admin session cache and the login rate
    limiter, on the monotonic clock (`clock`).
  - `flow` — package classification, bucket keys and names, masked number
    matching, interval texts.
  - `datetime` — stored times, cookie renewal and the choice of baselines.
  - `notify` — Telegram requests and replies, notification templates.
  - `unicom` — the carrier's replies and the step-by-step query.
  - `auth`, `accounts`, `admin` — sign-in decisions, new records and
    secrets, update statements, settings and the log filter.
  - `cli`, `static_files` — command-line decisions and served files.
- `app/` — the program around the library: the HTTP server, database,
  HTTP clients, scheduler, terminal and the floating-point traffic
  arithmetic. It serves the front end's built files, which it reads from
  `dist/` next to the program at start-up.
- `tests/` — tests of the library.
