# kodama

A static Zettelkasten site generator for Markdown and Typst notes, whose core
is verified with Verus.

- `src/` is the verified library: slugs and paths, subtree extraction from
  Markdown and Typst HTML, the Markdown event processors (metadata, footnotes,
  figures, formulas, Typst images, CJK text, embeds and links), the section
  compiler with its parent/backlink bookkeeping, the site graph, RSS, the
  watch-mode change analysis and the command-line decisions. Every public
  function states its result in `ensures` over spec functions; the laws that
  relate several operations are public proof functions (`law_*`).
- `app/` is the program around it: argument parsing, configuration files,
  the Markdown parser and renderer, calls to the `typst` command, file
  scanning, writing the output, and the polling watcher.
- `tests/` exercises the library on concrete inputs.
