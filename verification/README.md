# office2pdf (verified core)

A part of the decisions an Office (DOCX/PPTX/XLSX) to PDF converter makes
when it maps Office markup onto its intermediate representation, written in
Verus and proved against their contracts. The slide reader (a slide
layer's shapes and connectors, with their text) is here, proved event by
event; the group-shape, table and package readers are not, and a slide's
groups, graphic frames and pictures are passed over.

## Layout

- `src/ir/` — the intermediate representation: styles (with the overlay
  algebra of `merge_from`), document elements, and the fixed elements of a
  slide (drawn shapes and text boxes). Lengths read from the file stay in
  EMU; other measures are generic over a type `N` that the library only
  moves around; the converter uses points as `f64`.
- `src/xml.rs` — a cursor over the events `quick_xml` reads, each converted to
  plain values, with the scanners' stream model.
- `src/parser/` — Word numbering resolution and list grouping, table header
  scanning, VML style strings, highlight colors; presentation placeholder
  inheritance and list styles (read in the units the file writes, colors and
  fonts resolved against plain theme values), text style defaults, list
  markers and list grouping, preset geometry, finishing a shape into the
  elements it draws, reading a slide layer's shape tree into those
  elements, SmartArt drawing caches and their elements, slide
  images, hidden slides and paths; spreadsheet icon sets.
- `app/` — what stands around the library: opening and reading packages,
  converting `docx_rs` values into the library's inputs, and turning file
  units into points.
- `tests/` — tests of the library through its public interface.
