# samsung_artmode

The verified core of `samsung-artmode`, a command-line client for the Art Mode of
Samsung "The Frame" TVs on the local network, written in Verus.

- `src/` is the library. Every function of it is verified, except a few marked
  `#[verifier::external_body]` that call std or the `http` URI parser and whose contracts
  are trusted (in `text`, `client` and `clock`):
  - `error` - error classes, their stable exit codes and names, and the error values;
  - `text` - character-level string operations (trimming, lines, searching, ordering,
    number formatting) with exact specifications;
  - `json` - a plain model of JSON documents and member lookup;
  - `calendar` - the proleptic Gregorian calendar (days since 1970 to a date);
  - `clock` - the system clock, read through std;
  - `client` - the Art Mode protocol: connection targets, request payloads, envelopes,
    reading the TV's replies, the upload announcement and framing, request ids and dates;
  - `discovery` - reading SSDP answers and collecting the TVs found;
  - `account` - configured accounts (an ordered map by name) and how the target TV of a
    command is found;
  - `cli` - the command values;
  - `commands` - what each command comes to, and the account commands;
  - `readme` - the operating manual for agents.
- `tests/` exercises the library on concrete values.
- `app/` is the program around the library: the clap command line, files, the token
  store, the sockets, TLS and WebSocket, and the output.
