//! Descriptions and tags of analysed images, on their way into a database.
//!
//! A vision model describes an image and ends its description with a line of tags.
//! The description is written to the database; each tag is embedded by a CLIP text
//! encoder and stored in a row of its own, so that it can be searched for.
//!
//! This crate holds the rules of that: which tags a description has, how statements
//! are written, what is asked of the database and of the encoder, and what their
//! replies mean. It opens no connection. Where something has to be sent, a function
//! says what, and another takes the reply.
//!
//! - [`text`]: characters, lines, separators and digits;
//! - [`tags`]: the tags of a description;
//! - [`asset`]: assets and their identifiers;
//! - [`sql`]: the statements, and [`reading`]: how their literals read;
//! - [`database`]: what the replies of the database mean;
//! - [`descriptions`]: what writing a description does to the tables;
//! - [`embedding`]: embeddings as pgvector literals;
//! - [`json`] and [`clip`]: requests to the encoder, and its replies;
//! - [`store`]: the tags of an analysis, one after the other.

pub mod asset;
pub mod clip;
pub mod database;
pub mod descriptions;
pub mod embedding;
pub mod error;
pub mod json;
pub mod reading;
pub mod sql;
pub mod store;
pub mod tags;
pub mod text;
