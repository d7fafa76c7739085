# whiteboard_browser

The verified model of a whiteboard web browser: browser tiles placed on an
infinite, zoomable canvas, each with a URL bar and a text rendering of the
page it shows, that can be expanded into one native window per tile.

- `src/` is the library, verified with Verus:
  - `html.rs` turns an HTML page into text lines; the lines are specified
    by a scan over the page's characters (`page_lines`), and
    `html_laws.rs` proves what holds of every result.
  - `text.rs` holds white-space trimming and word splitting on characters.
  - `tile.rs` is a tile and its content; `canvas_view.rs` the set of tiles
    on the canvas (adding, closing, syncing, loading, mode switches, what a
    mouse press does); `tile_window.rs` a tile in its own window and the
    rows that show a tile's content; `url_bar.rs` the URL bar's key
    handling; `url.rs` parsed addresses.
- `app/` is the program around it: the gpui views, drawing, the
  floating-point geometry of tiles, panning and zooming, and fetching pages.
- `tests/` runs the library on concrete pages, keys and tile operations.
