//! The application object: its version and a greeting.
use vstd::prelude::*;
use crate::text::{push_str, string_of};

verus! {

/// The application object.
pub struct App {
    version: String,
}

impl App {
    /// The application at `version`.
    pub fn new(version: &str) -> (r: Self)
        ensures
            r.version_text() == version@,
    {
        App { version: version.to_owned() }
    }

    /// The version text.
    pub closed spec fn version_text(&self) -> Seq<char> {
        self.version@
    }

    /// The version.
    pub fn version(&self) -> (r: &str)
        ensures
            r@ == self.version_text(),
    {
        self.version.as_str()
    }

    /// `"Hello, <name>. uhatt is wired up."`
    pub fn greeting(&self, name: &str) -> (r: String)
        ensures
            r@ == "Hello, "@ + name@ + ". uhatt is wired up."@,
    {
        let mut out: Vec<char> = Vec::new();
        push_str(&mut out, "Hello, ");
        push_str(&mut out, name);
        push_str(&mut out, ". uhatt is wired up.");
        string_of(out.as_slice())
    }
}

} // verus!
