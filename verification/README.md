# lan-cat

Secure sharing between devices on one local network: the clipboard, files, and
the pointer and keyboard.

- `src/` is the library. It decides and computes what a device copies, sends,
  accepts and refuses. Verus proves its code against its contracts.
- `src/foreign.rs` declares the calls into cryptographic and encoding crates,
  and says what is believed of each.
- `app/` is the program around it: arguments, files, sockets, windows, threads,
  and the arithmetic on floating-point numbers.
- `tests/` runs the library on concrete values, with the real crates linked.

| Module | What it holds |
| --- | --- |
| `ordering`, `protocol` | version vectors, clipboard payloads and events |
| `daemon`, `ipc`, `config` | which changes win, who is connected, what the user asks for |
| `network` | device ids, pairing, handshakes, records and message chunks |
| `clipboard` | copied files and forms, what counts as a new copy |
| `transfer` | offers, chunks and acknowledgements of file transfers |
| `input` | who has the cursor, the datagrams of input sharing, capture and injection |
| `gui`, `integration`, `service` | window decisions, file manager actions, service files |
| `bytes`, `text`, `path`, `float`, `strmap`, `idmap` | what the others are built on |

Functions whose names begin with `law_` state what holds of several operations
together.
