//! A command written to a `ghci` session.
use vstd::prelude::*;

verus! {

/// A `ghci` command.
///
/// This is a string that can be written to a `ghci` session, typically a Haskell expression or
/// `ghci` command starting with `:`.
#[derive(Debug, Clone, PartialEq, Eq)]
pub struct GhciCommand(pub String);

impl View for GhciCommand {
    type V = Seq<char>;

    open spec fn view(&self) -> Seq<char> {
        self.0@
    }
}

impl GhciCommand {
    /// Wrap a string as a command.
    pub fn new(command: String) -> (r: Self)
        ensures
            r@ == command@,
    {
        GhciCommand(command)
    }

    /// Consume this command, producing the wrapped string.
    pub fn into_string(self) -> (r: String)
        ensures
            r@ == self@,
    {
        self.0
    }

    /// The command's text.
    pub fn as_str(&self) -> (r: &str)
        ensures
            r@ == self@,
    {
        self.0.as_str()
    }
}

} // verus!
