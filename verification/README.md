# quickpaste

The core of QuickPaste, a clipboard, snippet and text-expansion tool, as a library
verified with Verus.

- `src/` is the verified library: the expansion model and its normal form (`expansion`),
  the default catalog format and its packs (`catalog`, `packs`, `seeding`), variables in
  replacements (`variables`, `numeric`), the live expansion set, matching and suggestions
  (`runtime`, `suggest`), the keyboard hook's decisions (`keyboard`), snippets and
  settings (`store`), the clipboard monitor (`monitor`) and the window and hotkey rules
  (`shell`).  `text` and `segment` hold the string and grapheme operations they share;
  `sources` holds the calls for identifiers, random numbers and the clock.
- `app/` is the application layer: the JSON files, the system clipboard, and the
  commands, which hand every decision to the library.
- `tests/` exercises the library on concrete values.

The default catalog is read at run time from `defaults/text_expansion_catalog.txt`; its
format is one `## ` heading per section and one ``- `trigger` → replacement`` line per
entry.
