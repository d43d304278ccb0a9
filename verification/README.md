# dbus_tree

Trees of D-Bus objects. A tree holds object paths, an object path holds interfaces, and an
interface holds methods, signals and properties. Handed a message, a tree gives the messages to
be sent back: it answers the standard interfaces for properties, introspection and managed
objects itself, and calls callbacks of the user for everything else.

- `src/` is the library. Its functions carry contracts over mathematical values (`TreeV`,
  `ObjectV`, `IfaceV`, `Msg`, ...), and Verus proves them. Not proved are two contracts on std
  (`share` in `method`, `debug_text` in `text`), and what callbacks of the user (`MCall` in
  `dispatch`) owe: they keep the shape of a tree, which the type that they are handed sees to,
  and the texts of their errors hold no NUL, which `app/` tests.
  - `text`, `names`, `item`, `show`, `message`, `error`, `args`: what messages are made of
  - `sorted`: collections of named things, in the order of their names
  - `argument`, `annotation`, `method`, `signal`, `property`, `interface`, `object`, `tree`,
    `xml`: the parts of a tree, how they are put together, and how they describe themselves
  - `dispatch`, `server`: what is done about a message, and about the items of a connection
  - `factory`: how the parts are made
  - `laws`, `typing`, `sending`: what holds across the operations of a tree
- `app/` holds callbacks in boxes, and the loops that talk to a connection.
- `tests/` runs the library.
