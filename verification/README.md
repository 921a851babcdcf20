# zond

The terminal front end of the zond network reconnaissance tool, as a
verified library with a thin program around it.

- `src/` is the library, checked by Verus: the command-line grammar
  (`cli`), address text and classification (`net`), the styled lines of the
  reports (`style`, `layout`, `host`, `format`, `netfmt`, `info`), the
  decisions of the log format (`logging`), the spinner's frames and the
  rotating tips (`spinner`, `insights`), the abort keys (`input`), and the
  assembly of the discovery and scan reports (`commands`).
- `app/` is the program: argument handling, the tracing subscriber and
  progress bar, the key listener, the calls into the scanning engine and the
  system, colors, and the printing of what the library lays out.
- `tests/` runs the library on concrete values.
