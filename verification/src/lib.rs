//! The model behind a whiteboard web browser: text extraction from HTML
//! pages, the tiles placed on an infinite canvas, the windows that a tile
//! can be expanded into, and the URL bar that every tile carries.

pub mod text;
pub mod html;
pub mod html_laws;
pub mod tile;
pub mod url_bar;
pub mod canvas_view;
pub mod tile_window;
pub mod url;
