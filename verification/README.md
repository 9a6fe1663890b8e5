# at_gateway

A gateway between an AT modem, reached over the network or a serial port, and
browsers, which give it commands over a WebSocket and are told of what the modem
says on its own accord.

`src/` is the gateway's logic, verified with Verus. It performs no I/O: state
machines say what has to be done next and take in what came of it.

| module     | what it decides |
|------------|-----------------|
| `text`     | trimming, searching, lines and decimal numbers over characters |
| `at`       | how a command is framed, when an answer is complete, what it means |
| `exchange` | one round trip: drop left-over data, write, gather the answer |
| `urc`      | which lines of the modem are notifications |
| `actor`    | connecting, set-up, commands, notifications, heartbeats |
| `session`  | one client's WebSocket session |
| `message`  | the JSON messages that a client gets |
| `web`      | which page a request asks for, and how it is answered |
| `config`   | the configuration, addresses, the kind of connection |
| `link`     | actions, events and time limits |

`app/` is the program around it: sockets, serial port, HTTP server, configuration
file and log.
