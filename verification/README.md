# studio_core

A document engine: documents described as JSON (paragraphs, headings,
lists, tables with loop rows and formulas, images, shapes, QR codes,
charts, placed content and columns, with page headers, footers,
letterheads and watermarks) are turned into Typst markup for PDF output,
or into HTML.

- `src/` is the library, verified with Verus: the JSON model, the formula
  language (lexer, parser, transpiler to Typst, locale number formats),
  the Typst and HTML converters, the per-document resolution of QR codes
  and table rows, image sources and the remote-image policy, PDF
  encryption settings, and the HTTP answers.
- `app/` is the server around it: HTTP routes, fetching remote images,
  evaluating formulas and drawing charts (floating point), the layout
  cache, and compiling Typst to PDF.
- `tests/` exercises the library on concrete documents.

`app/world.rs` compiles the Typst markup with the `typst`, `typst-pdf` and
`fontdb` crates, which `Cargo.toml` does not list: add `typst = "0.14"`,
`typst-pdf = "0.14"` and `fontdb = "0.23"` to build the server; the library
and its tests do not need them.
