# capsudo

Privilege by capability: a daemon that already holds a privilege listens on an endpoint,
and whoever can reach the endpoint can have a program run with it. There is no setuid bit;
the endpoint is the capability. The caller's standard streams are delegated to the program,
as descriptors over a local socket, or as multiplexed streams over any byte channel.

## Layout

| Path | Role |
|------|------|
| `src/` | The library, verified with Verus: wire protocol, multiplexer, pumps, session logic of client, daemon and authenticating front-end, command lines. |
| `tests/` | Tests of the library. |
| `app/` | The programs `capsudo`, `capsudod` and `capsudod-pwauth`: sockets, processes, terminals, signals. |

In `src/`, each executable type has a mathematical view, and each function states over the
views what it returns. `laws.rs` files, and proof functions at the end of the other modules,
state what holds of several functions together: that a client's configuration is what the
daemon runs within its policy, that it crosses a socket or a multiplexed channel unchanged,
that no byte of a stream is lost or reordered, and that no client gets around the policy.

What is trusted and not proved stands in `src/system.rs` (user and group database, host
name) and in `utf8_text` of `src/proto/message.rs` (UTF-8 decoding by the standard library).

## Use

```
capsudod -S /run/capsudo/sudo -o root:wheel -m 0770 &
capsudo  -S /run/capsudo/sudo -- id

capsudod -S /run/capsudo/reboot -f /sbin/reboot &
capsudo  -S /run/capsudo/reboot

capsudod-pwauth -S /run/capsudo/auth -o root:wheel -m 0770 -- capsudod &
capsudo -S /run/capsudo/auth -- id
```
