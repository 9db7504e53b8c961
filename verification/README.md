# link_helm

A browser identity router: it receives web links and decides, from the
application they came from, their domain and the user's rules, which browser
profile opens them — or asks the user, or refuses them.

The library under `src/` is written in Verus and verified. Each public
function states in `requires`/`ensures` what it does, over mathematical
models (`Seq`, `Set`, views of the data types); Verus proves the code meets
them.

- `text`, `ids`, `domain`, `web_url` — text primitives, identifiers, domain
  names (IDNA through the `idna` crate) and parsed URLs (`url` crate).
- `config`, `config_store` — routing rules, their validation, and the check
  that a stored configuration is readable.
- `engine`, `routing`, `guard`, `laws` — the routing decision and the
  properties it keeps.
- `browser`, `browser_adapters`, `chromium`, `firefox`, `local_state` —
  browser profiles: discovery and how a link is opened in one.
- `platform_api`, `platform_macos`, `platform_windows`, `platform_linux` —
  what each platform contributes: paths, executables, handler status,
  registration steps and the reading of what system tools print.
- `desktop`, `diagnostics`, `preferences`, `commands`, `service_laws` — the
  desktop router's state: configuration, observed identities, pending links,
  the bounded privacy-preserving log, and the properties they keep.

Work that touches the operating system (files, processes, environment) is
done by the caller, which hands plain values to the library. `app/` is such
a caller: a small command-line program that reads and writes the router's
files with serde, launches browsers and feeds the library what the system
reports.

`tests/` runs the library on concrete inputs.
