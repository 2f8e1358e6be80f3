//! Streams, links, and the builders of the four primitive stages.
pub mod classify_link;
pub mod clone_link;
pub mod counting;
pub mod join_link;
pub mod packet_stream;
pub mod process_link;
pub mod runnable;
