# license

A license manager for projects: it adds SPDX license texts (or custom
templates) to a project, filling in the year, the copyright holder and the
project's name and description, which it detects from the project's
manifest files.

`src/` is the verified library:

- `text` — searching, replacing, trimming and line splitting on characters;
- `document` — the tree that TOML, JSON and YAML manifests are parsed into;
- `project` — detection of a project's name, description and author;
- `config` — the stored configuration and its resolution for a directory;
- `paths` — the path operations the library relies on;
- `licenses` — the SPDX list: lookup, text, listing;
- `templates` — where custom templates are kept;
- `commands` — the decisions of the command-line commands.

`app/` is the command-line program: argument parsing, the configuration
file, the file system and printing.
