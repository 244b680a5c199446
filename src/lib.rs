//! Decision logic for wrapping build artifacts into relocatable packed units:
//! artifact classification, shebang parsing, library-closure resolution and
//! the choices each wrapping strategy makes.

pub mod closure;
pub mod config;
pub mod error;
pub mod kind;
pub mod paths;
pub mod shebang;
pub mod wrap;
