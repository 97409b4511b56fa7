//! A client core for the Server-Sent-Events protocol: the line-level state
//! machine that turns a stream of text lines into events, the registry of
//! listeners that decides who receives each event, and endpoint validation.

pub mod endpoint;
pub mod event;
pub mod field;
pub mod frame;
pub mod parser;
pub mod registry;

pub use endpoint::{Endpoint, OpenError};
pub use event::{Event, State};
pub use field::{parse_field, same_text};
pub use frame::split_lines;
pub use parser::{
    handle_stream_body, handle_stream_header, update_event, Action, StreamParser,
};
pub use registry::{dispatch_event, dispatch_open_event, ListenerRegistry};
