# notecypher

A desktop tool that takes slides from PDF files and lays them out several to
a printed page (1, 2, 3, 4 or 6 per sheet), with optional colour filters.

- `src/` is the verified library (Verus): the interface state and how every
  user action changes it, page selection, the export plan, the document model
  that an export writes, the catalogue of loaded files, the stored
  preferences and the numbers and labels the window shows. Calls into
  `lopdf`, `image`, `miniz_oxide` and `serde_json` sit behind small
  trusted wrappers whose contracts are stated in their doc comments.
- `app/` is the window (iced), the disk, the file picker and the fractional
  work: colour filters, slide placement in points, and widget colours.
- `tests/` exercises the library with the real outside crates linked.
