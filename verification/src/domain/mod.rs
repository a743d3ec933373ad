//! Domain model: plain data structures shared by every layer.

pub mod album;
pub mod artist;
pub mod genre;
pub mod playlist;
pub mod source;
pub mod stream;
pub mod track;
