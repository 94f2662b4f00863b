//! Supervision of the coding-agent subprocess and the catalog of work
//! sessions it produces.
//!
//! The verified core: the session registry and its laws, the request
//! correlator, the event router, the transcript scanner, the search-path
//! builder and the wire protocol. Process handling, files and the async
//! runtime live outside this library and hand it plain values.

pub mod text;
pub mod table;
pub mod paths;
pub mod registry;
pub mod correlator;
pub mod json;
pub mod router;
pub mod scan;
pub mod search_path;
pub mod protocol;
pub mod supervisor;
pub mod settings;
pub mod history;
pub mod doctor;
