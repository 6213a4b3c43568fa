//! Core logic of a terminal tool for reviewing suggested edits to a
//! paragraph-structured document: the document buffer and its selection
//! cursor, the compact index-labeling scheme, the accept/reject review
//! state machine with its conversation log, the reference suggestion
//! agent, and the viewport scroll computation.

pub mod agent;
pub mod app;
pub mod document;
pub mod text;
pub mod viewport;
pub mod widgets;
