# aur-guard

A safety net against compromised PKGBUILDs from the AUR. A PKGBUILD and the
scriptlets next to it are scanned before they are built; the outcome is a list
of findings, a trust score from 0 to 100 and one of five tiers.

| Tier | Trust | What follows |
|---|---|---|
| `TRUSTED` | 90–100 | the build runs in silence |
| `OK` | 70–89 | the build runs in silence |
| `SKETCHY` | 50–69 | the report is shown, and the build runs |
| `SUSPICIOUS` | 25–49 | the report is shown, and the user is asked |
| `MALICIOUS` | 0–24 | the report is shown, and the user is asked |

Each finding costs points; a finding of an override gate costs all of them.
Files that the user accepted within the last five minutes, at a tier at least
as bad, are not asked about again. Without a terminal to ask at, the answer is
no, unless `AUR_GUARD_ASSUME=yes`. With `AUR_GUARD_DISABLE=1` the shim does not
scan.

## Layout

- `src/` is the library, verified with Verus: the detection rules and field
  checks (`patterns`, `checks`, `scanner`), scoring and ordering (`report`,
  `ordering`), the comparison with the previous version (`diff`), the AUR
  record (`rpc`), the cache of accepted verdicts (`verdict_cache`), the
  decisions of the `makepkg` shim and of the pacman hook (`audit`, `hook`,
  `parent`), and all that is shown or logged (`ui`, `wrap`, `listing`). Every
  function says what it returns; the proof functions named `law_` say what
  holds of several of them together.
- `src/outside.rs` holds what is taken on trust: the regular-expression
  engine, SHA-256, and a few functions of the standard library.
- `app/` is the command: arguments, files, the network and the terminal.
- `tests/` runs the library on concrete values.
