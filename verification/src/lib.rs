//! Moderation pipeline for a group-chat message stream.
//!
//! For each incoming message the pipeline decides whether the message may be
//! classified at all, builds the request for a language-model classifier,
//! reads the verdict out of the model's reply, and plans what has to happen
//! next: one sample record per verdict, and a delete request for each positive
//! one. Talking to the chat platform, to the model and to the sample log is
//! left to the caller; every decision in between is made, and proved, here.

pub mod message;
pub mod filter;
pub mod text;
pub mod verdict;
pub mod sample;
pub mod identifier;
pub mod prompt;
pub mod pipeline;
