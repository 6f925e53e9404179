# schema_forge

Database dictionaries and ER diagrams from database metadata, with the
metadata logic verified by Verus.

- `src/` is the verified library: reading the configuration, table filters,
  relation discovery and merging, relation files and templates, the
  Markdown, HTML and Word documents, the ER diagram layout and page, and the
  properties that hold across them (`laws.rs`).
- `app/` runs the library: it reads JSON configuration and relation files,
  queries the MySQL catalogue, writes the generated files and opens the output
  directory.
- `tests/` exercises the library on concrete schemas.

Confidences are kept in hundredths (`95` stands for `0.95`).
