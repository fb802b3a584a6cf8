//! Classification of deletion arguments against a set of protected paths.
//!
//! The library builds a sorted, duplicate-free set of protected paths from
//! the lines of configuration files, brings each argument into a canonical
//! form that keeps a symbolic link's own location, and holds back exactly the
//! arguments whose canonical form is protected. It reads no file and prints
//! nothing itself: its caller hands it the lines and gets the warnings back.
//! Paths are Unix paths held as `String`.

pub mod text;
pub mod pathops;
pub mod pattern;
pub mod normalize;
pub mod expand;
pub mod protected;
pub mod defaults;
pub mod report;
pub mod config;
pub mod filter;
pub mod startup;
