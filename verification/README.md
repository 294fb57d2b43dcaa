# jarvisd

The daemon of a household assistant: it pairs devices, serves the owner's
surfaces, drives runs, and keeps what it does on record.

- `src/` is the library. What the daemon decides stands here, each function with a
  contract that Verus proves: who may ask, what is refused and with which problem,
  what goes on record, which routes there are, how a map archive is read, how
  arguments are put into their canonical form, and how the loops pace themselves.
- `tests/` runs the library with the outside crates linked.
- `app/` is the program: configuration files, sockets, the database pool, tasks and
  signals. It hands the library plain values and does what the library answers.

Three kinds of statement stand in `src/`:

- contracts, over spec functions and views: a problem is compared as a
  `ProblemView`, a record as an `AuditView`, a JSON document by its `Meaning`;
- laws, named `law_*`: what holds of several functions together, such as that a
  pairing code is good for one device, that no two map tiles share an identifier,
  or that a decision which could not be recorded can be made again;
- trusted items, marked `external_body` or `assume_specification`: thin calls into
  other crates (SHA-256, Ed25519, base64, gzip, JSON, RFC 3339, ULIDs, random
  bytes, how a number is written). Each says what is believed of the call.

What depends on floating point stays in `app/`: degrees, the footprint of a tile
and the configured home coordinate. A number that is no integer goes through the
library as text.
