# gsn2x

Reads arguments in Goal Structuring Notation from YAML documents, checks them and has them rendered.

- `src/` is the library. Its functions state what they do in their contracts, and Verus proves it.
  Not proved but believed is what is said of a few functions of the standard library and of
  `serde_yaml_ng`: `text_from_utf8`, the functions on paths in `uses` and `outputs`, `String::push`,
  and where an error of the parser is located. Of most of the functions on paths nothing is said,
  because their answers differ between operating systems.
  - `text`, `order`, `text_map`: strings, their order, and maps that are kept in that order.
  - `gsn`, `documents`, `modules`: elements and modules, and how documents are taken in.
  - `inputs`, `uses`: which file is read next, and what it adds.
  - `checks`, `completion`, `process`: what is checked in which order, stand-ins for elements that
    are not defined, and the way from the text of one document to its rendering.
  - `outputs`, `render`, `report`, `diagnostics`, `yaml`: what is rendered and what is said.
  - `engine`: what the library asks of the parser, the individual checks and the renderers.
  - `laws`: what holds of the library as a whole; `reading`: what holds of a whole run of reading;
    `repetition`: what holds of processing a text again.
- `tests/` runs the library on concrete documents.
- `app/` is the command line and the entry point for WebAssembly. Rules and renderers are linked in
  through `backend::install`.
