# vls

Parsing and validation of vers-like specifiers (VLS), the `<constraints>` part of a vers URI
(`>10.9a|!=10.9c|<=10.9k`), verified with Verus.

- `src/` is the library. Each parser has a contract over the mathematical value it stands
  for (`spec_parse_vls`, `spec_parse_constraint`, `spec_parse_version`), and `src/laws.rs`
  proves what holds across functions: printing a parsed VLS gives back its input, parsing a
  well-formed VLS's text gives it back, whatever parses is well formed, and the duplicate and
  invalid-character reports are exact.
- `tests/` runs the library on concrete inputs.
- `app/` gives the error and comparator types the `thiserror` and `strum` derives, on copies
  that convert to and from the library's types, and `Display` adapters.
