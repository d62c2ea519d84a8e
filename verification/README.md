# image_tags

Descriptions and tags of analysed images, on their way into the database of an
[Immich](https://immich.app) server.

`src/` is a library whose functions are verified with Verus. It decides which tags a
description has, writes the SQL statements and the requests to the CLIP text encoder,
and says what the replies mean. `app/` is ordinary Rust: it holds the connections,
sends what the library says and hands the replies back. `tests/` runs the library.

What is not proved is stated in the few functions that call other crates:

- `asset::uuid_text` writes a UUID down (`uuid`);
- `json::nested_text`, `json::read_member` and `json::read_numbers` write and read JSON
  (`serde_json`);
- `String::push` of the standard library, in `text`.

Two names without a definition, `json::document_member` and `json::number_list`, stand
for what `serde_json` reads of given bytes and of a given text.

Public proof functions whose names start with `law_` state what holds of the library
as a whole: that the literals of a statement read as what they stand for, whatever
characters a description or a tag is made of, that a new description or a new analysis
replaces the one before, that a vector of one number or more is a valid embedding, and
so on.
