use vstd::prelude::*;

verus! {

/// Fatal failures of a wrap operation.
#[derive(Debug, Clone, PartialEq, Eq)]
pub enum AutowrapError {
    /// A needed library was found on no search path.
    LibraryNotFound(String),
    /// A program interpreter that does not start with `/`.
    InterpreterNotAbsolute(String),
    /// An entry of a link dependency's environment directory that is not a
    /// symlink.
    NotASymlink(String),
    /// An `env` shebang that names no command.
    MissingEnvCommand,
    /// The artifact already holds a pack; rewrapping is not implemented.
    RewrapNotImplemented(String),
}

} // verus!
