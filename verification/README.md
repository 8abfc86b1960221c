# crabhole

A host that shares an interactive shell with the clients of a room on a
socket.io relay, and a scripted pseudo-terminal client.

- `src/` is the verified library:
  - `payload`: socket event payloads, and which of them name a room;
  - `session`: what `room` and `command` events do, and what the shell's
    output and typed lines become;
  - `render`: escape-sequence stripping (regex) and HTML conversion
    (ansi-to-html) of output lines;
  - `input_queue`: typed lines matched with the tasks that wait for them,
    over two bounded ring buffers (ringbuf), with its laws;
  - `term`: styled text for the host's terminal;
  - `demo`: the scripted client's keystrokes and read loop decisions.
- `app/` runs the programs: sockets, processes, terminals and timers.
- `tests/` exercises the library on concrete values.
