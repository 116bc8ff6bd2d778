# pvm — Python Version Manager

pvm installs several Python versions side by side under `~/.pvm` and
switches between them through small shim executables (`python`, `pip`, ...)
that forward to the active version.

## Layout

- `src/` — the library, verified with Verus: version and path checks, the
  layout of `~/.pvm`, command-line rewriting, version parsing and ordering
  (with `semver`'s precedence), the python.org listing and the
  python-build-standalone release data, the decisions of every command
  (`use`, `default`, `uninstall`, `install`, `list`, `list-remote`, `venv`,
  `env`, `lang`, `uninstall-self`), the shims, the profile cleaning and the
  Windows installer's prompts and scripts.
- `app/` — the program around the library: argument parsing with `clap`,
  downloads, archives, the file system, processes and terminal output.
- `tests/` — tests of the library.
