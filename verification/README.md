# luminol (verified core)

The logic of the editor's web front end and graphic picker, written in Verus
and proved against its contracts:

- `src/percent.rs`: percent-decoding of URL components (through the
  `percent-encoding` crate and std's lossy UTF-8 reading).
- `src/order.rs`: the byte order of `str` keys and its laws.
- `src/query_map.rs`: `QueryMap`, a sorted key to values map, and
  `build_query_map`.
- `src/query.rs`: `parse_query_map`, splitting a query at `&` and `=`.
- `src/location.rs`: the decoded browser location built from raw parts.
- `src/web_input.rs`: focus handling of the gathered web input.
- `src/graphic_picker.rs`: the decisions of the graphic picker window.
- `src/field.rs`: the labelled form field.

`app/` holds what needs the browser, egui or floating point: the repaint
clock, frame input, widget drawing, and a small command-line `main` that
prints the map of a query.
