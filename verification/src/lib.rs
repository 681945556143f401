//! Grading engine for hand-copied Morse-code transcripts.
//!
//! The heart of the crate is the copy-text matching engine: text
//! normalization, prosign-aware alignment, and the search for the longest
//! run of consecutively correct characters anywhere in a submission. Around
//! it sit the multiple-choice question grader, certificate rendering, and
//! the plain data types that the surrounding service exchanges with it.

pub mod admin;
pub mod api;
pub mod certificate;
pub mod config;
pub mod grading;
pub mod jwt;
pub mod normalize;
pub mod notify;
pub mod qrz;
pub mod strings;
