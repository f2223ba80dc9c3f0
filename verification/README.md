# msg_reader

Reads Outlook `.msg` files (MS-OXMSG compound files).

- `src/` is the verified library. It works on a snapshot of what a storage
  of the compound file holds (`storage::MsgStorage`): the `__substg1.0_`
  streams it consults, keyed by property tag and type, and its child
  storages. `message::try_get_msg` reads a message from such a snapshot and
  the root property stream; its contract is `message::spec_get_msg`.
  `properties` decodes the property stream, `names` builds stream names,
  `rtf_html` extracts HTML encapsulated in RTF (MS-OXRTFEX), `decode` holds
  the calls into `encoding_rs`, std's lossy UTF-8 decoding and
  `compressed-rtf`, and `laws` the properties proved of reading a message.
- `app/` opens the file with `cfb`, reads the snapshot, converts times to
  `chrono` values and errors to `anyhow` errors.
