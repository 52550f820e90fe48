//! Annotation of a unified diff with the commits that last touched its lines.
//!
//! For every line of a hunk the library names the annotation field that goes
//! in front of it: the identifier of the commit that the old line is blamed
//! on, or a row of marks of the same width. It runs no command and reads no
//! file. `annotate` holds the engine that follows the diff line by line,
//! `baserev` the search for the revision that blame starts from, `summary`
//! the list of the commits named, and `run` whole runs over a diff at hand.
pub mod annotate;
pub mod ansi;
pub mod baserev;
pub mod decimal;
pub mod error;
pub mod hunk;
pub mod line;
pub mod pairing;
pub mod query;
pub mod render;
pub mod revision;
pub mod run;
pub mod summary;
pub mod text;
