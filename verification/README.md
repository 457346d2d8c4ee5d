# moleman

A terminal dashboard for AWS tunnels and SSO sessions: SSM port-forwards to
Cloud Map services and RDS databases, `ssh -L` tunnels to Temporal UIs, and the
validity of the cached SSO tokens.

## Layout

- `src/` is the library, verified with Verus. It decides and computes; it does
  no I/O.
  - `tunnel` - a tunnel, its commands, and how it starts, is maintained and stops
  - `app` - the dashboard's state and what its actions do to it
  - `event` - what the keys do
  - `ui`, `layout` - what the screen shows, and where
  - `ports` - choosing local ports
  - `config` - configuration values and the places where files live
  - `aws` - what the `aws` tool is asked and how its answers are read: services
    (`discovery`), databases (`rds`), profiles (`profiles`), tokens (`sso`)
  - `json`, `strmap`, `text` - documents, an ordered map, strings
- `app/` is the program around it: the terminal, the processes, the files and the
  clock. Where the library asks for something to be done outside it returns an
  action; the program performs it and hands back the event.
- `tests/` run the library.

Paths are Unix paths. Functions named `law_*` state what holds of the library as
a whole.
