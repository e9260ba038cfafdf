# nexum_apdu

A smart-card library for ISO/IEC 7816-4 APDUs and GlobalPlatform card management over
SCP02, written in Verus: the functions of `src/` carry contracts that Verus proves, apart from
the few trusted wrappers around the outside crates (ciphers, TLV parsing, ZIP reading, random
numbers), whose contracts state what those crates do.

- `status`, `response`, `command`: status words, response and command byte encodings.
- `security`, `transport`, `processor`, `executor`: security levels, card transports,
  command processors (GET RESPONSE chaining) and the card executor.
- `tlv`, `fci`: SIMPLE-TLV lookups and the FCI returned by SELECT (parsing by `iso7816_tlv`).
- `crypto`, `session`, `secure_channel`: SCP02 key derivation, cryptograms, C-MAC and the
  secure channel (ciphers from the `des`, `cbc` and `cbc-mac` crates).
- `gp_commands`, `gp_responses`, `get_status`, `load`, `application`: GlobalPlatform
  commands, their responses, registry status, CAP archives (entries read by the `zip`
  crate) and loading, and the card management API.

`app/` is the `cap-info` command-line tool: it reads a CAP file from disk and prints what the
library extracts from its bytes.
