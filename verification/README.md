# whatrust

The rules of a multi-account WhatsApp desktop client, verified with Verus, and the
Tauri shell around them.

- `src/` is the library. What a rule needs from the outside is an argument, and what
  is to be done outside is its result. The one thing that it reads itself is the
  clock, for the identifiers of webview stores.
  - `accounts`, `account_laws`: the accounts file, the account to start with, unread
    counts, window labels.
  - `commands`, `command_laws`: the commands of the windows, who may call them, and
    the app-lock configuration.
  - `deeplink`, `link_laws`: parsing of `whatsapp://` links.
  - `lock`: what locking hides and unlocking restores.
  - `notify`: when a toast is raised, and what it says.
  - `settings`: the preferences, the Flatpak autostart entry, and the steps of
    applying the settings.
  - `store_id`: the identifiers of webview stores.
  - `aumid`: the registry entry of the AppUserModelID.
  - `text`, `text_map`: strings, and maps keyed by strings.
- `app/` is the shell: commands, windows, files, the registry. It carries the types
  that are stored or sent, and the zoom, which is a floating-point number.
- `tests/` runs the library on concrete values.
