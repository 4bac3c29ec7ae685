# latex-to-unicode

Renders LaTeX math as Unicode text: an inline formula becomes one clean line
(`\alpha^2` → `α²`), a display formula may be laid out in 2D (matrices, lone
fractions, binomials and braces), and a Markdown document has its `$…$`,
`$$…$$`, `\(…\)` and `\[…\]` spans converted in place.

The library in `src/` is verified with Verus: every function carries a
contract over a mathematical model of what it computes.

- `ast` — the syntax tree and its model (`SpecNode`).
- `grammar` — what the parser builds from a character sequence.
- `parser` — the recursive-descent parser, proved to build exactly that.
- `layout` — what each tree renders to, inline and as a display block.
- `renderer` — the renderer, proved to produce exactly that.
- `symbols` — command names to Unicode, accents, alphabet styles, scripts.
- `document` — delimiter stripping and the Markdown scan.
- `text` — character-level helpers (whitespace, trimming, conversions).
- `laws` — properties that hold for every input (clean inline output, one
  line per matrix row, equal widths of 2D lines, in-place Markdown spans,
  delimiter stripping, scripts attached to their base); `markdown_laws` —
  the Markdown transformation copies text and converts spans in place.

`app/` holds the command-line tool, the C ABI and the WebAssembly bindings.
