//! Absolute and relative UTF-8 paths, and the discovery rules for the Rust
//! toolchain's executables.
//!
//! The path contracts follow the Unix path model that the `camino` crate
//! documents: a path is absolute when it starts with `/`, and it has no
//! Windows prefix component.

pub mod abs_path;
pub mod normalize;
pub mod rel_path;
pub mod toolchain;
pub mod utf8;

pub use abs_path::{AbsPath, AbsPathBuf};
pub use rel_path::{RelPath, RelPathBuf};
pub use toolchain::{Lookup, Tool};
pub use utf8::{ComponentKind, PathComponent};
