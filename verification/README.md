# sid — screen logic, verified

The decisions behind the sid developer cockpit's screens, written in Verus and proved
against their contracts: the command palette's fuzzy matching, the host and database
connection forms (validation, the add-mode guard, the keyring lifecycle of a save),
the connect-time password and vault prompts, the config-file editor's modes, unlock
and save flow, the Database tab (query runs, paging, explain, schema fetches, the
results grid's filter and stable sort, CSV export, query history, inline rename and
folders), the Network tab (ports, services, containers, pods, interfaces, and the
fetches that fill them) and the schema diagram's content and layout.

Work that waits on something outside — a database, the keyring, the file system, a
`kubectl` or `docker` probe — is started by the caller from what a `begin_*` method
returns, and its outcome is handed back to the matching `finish_*` method (a keyring
lookup a press needs first comes back as `Lookup`, its answer going to `resume_*`;
a save's keyring write and delete are named by `stage_secret` and
`secret_to_delete`, their answers going to `after_put` and `finish_db_save`). Outcomes
carry a generation where the screen can move on meanwhile, and a superseded outcome
changes nothing.

## Layout

- `src/` — the verified library (`lib.rs` lists the modules). `text`, `order` and
  `numeral` hold the string, ordering and decimal primitives the screens share;
  `model` the saved records; each screen has its module.
- `tests/` — tests run against the compiled library.
- `app/` — plain Rust around it: reading and saving files, CSV export paths, and the
  floating-point parts (diagram geometry, byte units, the float order of result
  cells).
