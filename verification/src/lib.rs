//! The rules of a music player's core.

pub mod auth;
pub mod config;
pub mod control;
pub mod dash;
pub mod decode;
pub mod diag;
pub mod engine;
pub mod manifests;
pub mod mpd;
pub mod openers;
pub mod output;
pub mod pieces;
pub mod queue;
pub mod segments;
pub mod stream;
pub mod suppliers;
pub mod testutil;
pub mod text;
pub mod tidal;
pub mod time;
pub mod timing;
pub mod words;
pub mod xml;
