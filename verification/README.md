# Portway

Portway lets a phone or another computer control the mouse and the keyboard of a machine from a
browser. A controller pairs with a single-use code or with the setup token, gets a session cookie,
and then sends its input over a WebSocket. A code is either six digits that the running server
issues through its local socket and remembers by their signature, or a longer text that whoever
holds the setup token can sign without asking the server.

The crate has two parts.

- `src/` is a library whose code is verified with Verus. It holds every decision of the server:
  - `protocol`, `session`, `sensitivity`: the messages of a controller, their bounds and order, the
    commands they lead to, what a session holds down, and the message rate limit;
  - `input`: the backends, the US key map, the event records of the Linux virtual devices, and the
    choice between the backends;
  - `auth`: the setup token, pairing codes, sessions, and their lifetimes;
  - `server`: origins, cookies, pairing attempts, the replies to requests, and the control channel;
  - `config`, `address`, `local_pairing`: the configuration, the advertised URLs, and the local
    pairing service;
  - `crypto`, `clock`, `uri`: the calls into other crates and into std that are trusted;
  - `table`, `text`: small tables of values that expire, and text.
- `app/` is the program around it: the command line, files, sockets, HTTP, TLS and logging.

Times and durations are counts of nanoseconds. The pointer sensitivity is a binary64 number, held
as its bit pattern, so that scaling a pointer delta is exact integer arithmetic.

What holds over several calls is stated in proof functions whose names begin with `law_`: what the
local client reads is a code that is accepted once, a new local code replaces the one before, a
signed code is accepted once, a session lasts exactly for its lifetime and activity does not
lengthen it, an address gets a limited number of attempts, typing a text leaves every modifier as
it was, presses and releases of a key alternate in a recording, and the end of a control channel
asks the backend to release each key and button that the controller held, once each and past any
failure.
