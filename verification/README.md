# smart_home

A smart home library verified with Verus: rooms hold devices (sockets and
thermometers) under distinct names, a home holds rooms, and everything can
describe itself in a text report.

- `src/` is the verified library. Rooms and homes are modelled as maps from
  names to values (`registry`), reports are specified character by
  character, name listings are proved sorted, and the emulator configuration
  format and the web service's request rules are specified and proved. For
  the socket's line protocol, the emulator's answers are proved, and so is,
  on the client side, which command is sent and how each reply is read.
  What a device actually answers is outside the library: a `SocketLink` or
  `TemperatureFeed` states it as a relation that its implementation defines,
  and the library's contracts hold for every reply that relation allows.
  A room subscriber may keep a record of what it was told; subscribing adds
  that record unchanged, adding a device is proved to extend every such
  record once, and removing one to leave them all as they were. A room also
  keeps a ghost trace of the calls it makes, which shows that each addition
  calls the subscribers once each, in the order they subscribed.
  `laws` states properties that span several operations.
- Measured values (power, temperature) are kept as a `Reading`: the bit
  pattern of the single-precision number and the text that reports show.
  Its text is always one word, as a number's text is. The library does no
  floating-point arithmetic; turning numbers into readings and back happens
  outside it.
- `app/` holds what talks to the outside world: the demo program, TCP and UDP
  device channels and their threads, the device emulators' loops, the axum
  web service with its JSON types, and the C interface of the plain socket.
- `tests/` runs the library on concrete values.
