# sharectrl

Screen sharing and remote control between two machines. One machine hosts: its
screen is captured, encoded and streamed over a peer-to-peer media connection.
The other one views it and, if the host allows, controls its mouse and keyboard.

`src/` is the library: the rules and the decisions that the program goes by,
each with a contract that Verus proves:

- who is let in: `config`, `handshake`, `engine`, `inbox`, `secret`, `ids`
- the wire: `signaling`, `control`, `input`, `transfer`, `packet`, `fec`, `stun`
- the path between the machines: `ice`, `turn`, `transport`
- a running session: `driver`, `session`, `liveness`, `media`, `codec`
- input: `scancode`, `injector`, `keyhook`, `window`
- files and the clipboard: `names`, `receiver`, `sender`, `clipboard`
- the machine: `autostart`, `elevation`
- what they share: `assoc`, `bytes`, `double`, `random`, `text`, `utf16`

The modules are state machines. A function takes what has happened and returns
what is to be done; sockets, threads, the GPU, the desktop and the floating-point
geometry of the window stay outside.
Functions named `law_...` state what holds across modules or over many steps.

`app/` is the program around the library. `tests/` runs the library on concrete
values.

Calls into other crates stand behind small functions marked `external_body`,
each with a comment that says what is relied on.
