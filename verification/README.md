# era_connect

Brings an installation of a game up to date: it reads the documents that the release server
publishes, finds out which files are missing or damaged, and fetches those.

* `src/` holds the decisions, verified with Verus: which libraries a system requires, which files
  have to be fetched and where they go, how checksums are compared, how the arguments and the class
  path are put together, and how progress is counted. It performs no input or output; what was found
  on disk or received is handed in as a value.
* `app/` is the program around it: network, files, tasks and the deserialization of the documents.
* `tests/` runs the library on concrete values, with the outside crates it calls.

What the proofs rest on besides Verus are the contracts of five small functions that call other
crates: `sha1_of`, `hex_decode`, `hex_encode` and `hex_error_message` in `src/checksum.rs`, and
`path_segments` in `src/address.rs`. Three results of theirs are only named, not described:
`sha1_digest` (the digest of a message), `invalid_character_text` (what is said of a character that
is no hexadecimal digit) and `url_path_segments` (how an address is parsed).
