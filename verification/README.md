# fedora_kernel_manager

The decision logic of a GTK kernel manager for Fedora, verified with Verus.

- `src/` is the verified library:
  - `text`: character-level string operations (trim, prefixes, search, first
    line, decimal numbers) with their specifications;
  - `json`: a plain model of JSON documents filled by `serde_json`, and lookups;
  - `scheduler`: which CPU scheduler the running kernel uses;
  - `kernel`: the running kernel, kernel branches, branch databases, badges and
    the CPU feature level;
  - `sched_ext`: the sched_ext schedulers and their saved flags;
  - `search`: the row filter of the search boxes;
  - `banner`, `actions`: the state of the window banner, of the package
    controls and of the install dialog;
  - `i18n`: translation tables per locale.
- `tests/` runs the library on concrete values.
- `app/` is the GTK program: windows, commands, files and network, calling the
  library for every decision.
