# nemu

The verified core of Nemu, a launcher for Wayland compositors in the style of
`dmenu`, `fuzzel` or `krunner`: an application launcher, an emoji picker, a
dmenu mode and a help page, switched by the first character of the search text.

- `src/` is the library, verified with Verus: scoring and ranking of search
  results (`app_launcher`, `ranking`, `fuzzy`), desktop entries and their
  actions (`desktop_entry`), the emoji catalog and search (`emoji`), dmenu input
  splitting (`dmenu`, `text`), the modes (`modes`), output (`output`), the
  configuration paths (`config`) and the state machine of the window (`app`).
- `app/` is the GTK program around it: command line, reading desktop entries
  and input, and the relm4 window that performs what the library decides.
- `tests/` runs the library on concrete values.
