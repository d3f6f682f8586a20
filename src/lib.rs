//! The logic of a minimal todo web server: an in-memory todo store keyed by
//! increasing ids, a router that reads a raw request by the text it begins
//! with, an HTML fragment renderer, and the framing of a response.

pub mod handler;
pub mod lemmas;
pub mod render;
pub mod request;
pub mod response;
pub mod store;
mod text;

pub use handler::{handle_request, status_line, Action};
pub use render::{render_entries, todo_hashmap_to_string};
pub use request::{classify, parse_add_request, parse_delete_request, Request, RequestError};
pub use response::{format_response, NOT_FOUND_STATUS, OK_STATUS};
pub use store::TodoStore;
