//! Finding Python virtual environments in a directory tree.
//!
//! The library holds the rules of the search and none of its input or output:
//! where the files of an environment lie ([`detect`]), how a match is reported
//! and how a search fails ([`emit`]), in which order the tree is walked and
//! when the walk ends ([`scan`]). The caller looks at the disk and prints; the
//! [`scan::VenvScanner`] tells it what to look at next.
//!
//! [`world`] and [`tree`] say what a search prints on a given disk, and prove
//! it of the rules in [`scan`].

pub mod platform;
pub mod path;
pub mod detect;
pub mod emit;
pub mod scan;
pub mod world;
pub mod tree;
