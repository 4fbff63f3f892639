# vzdv

Core logic of the vZDV (Denver ARTCC, VATSIM) facility website, its background
tasks and its Discord bot, written in Verus: each function states what it does
in `requires`/`ensures`, and Verus proves it.

## Layout

- `src/` — the verified library.
  - `lib.rs`: airspace membership, staff positions, controller ratings.
  - `text.rs`, `ordering.rs`: strings as character sequences, number parsing
    and printing, `str` ordering and stable sorting by name.
  - `aviation.rs`, `homepage.rs`: METAR parsing, the weather brief, online
    flight counts.
  - `vatsim.rs`, `vatusa.rs`: network data, online controllers, OAuth
    addresses, VATUSA roster and training records.
  - `activity.rs`, `roster.rs`, `staff.rs`, `resources.rs`, `feedback.rs`,
    `events.rs`, `controller.rs`, `admin.rs`, `email.rs`, `timestamps.rs`,
    `flashed_messages.rs`, `site.rs`: what the site's pages show and decide.
  - `discord_roles.rs`, `discord_oauth.rs`, `bot.rs`: the Discord bot's role
    and nickname upkeep, account linking, and its online message.
  - `import.rs`: importing controllers from the previous facility site.
  - `config.rs`, `sql.rs`: configuration and stored records.
- `tests/` — tests of the library on concrete values.
- `app/` — the command-line runner: configuration file, database, HTTP
  calls to VATUSA and VATSIM, and printing.

Calls into other crates (`chrono`, `chrono-tz`, `base64`, `urlencoding`,
`voca_rs`, `minijinja`) stand behind small trusted wrappers whose contracts
say what those crates document.
