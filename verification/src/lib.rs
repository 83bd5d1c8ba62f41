//! Verified core of the editor's web front end and pickers: decoding of
//! percent-encoded query strings into a sorted key/value map, the browser
//! location record built from raw location parts, focus handling of the
//! web input state, and the decisions of the graphic picker window.

pub mod percent;
pub mod order;
pub mod query_map;
pub mod query;
pub mod location;
pub mod web_input;
pub mod graphic_picker;
pub mod field;
