//! The server's configuration: the content root and the port, either one
//! optional, with the fixed defaults applied here.
use vstd::prelude::*;

verus! {

/// The configuration the server starts from. Both fields are optional on
/// the command line; the defaults are applied by the accessors.
#[derive(Debug, Default)]
pub struct Cli {
    /// The directory that bounds all servable files.
    pub root: Option<String>,
    /// The port for the server to listen on.
    pub port: Option<u16>,
}

impl Cli {
    /// The port to bind: the configured one, or 8080.
    pub fn effective_port(&self) -> (p: u16)
        ensures
            self.port matches Some(q) ==> p == q,
            self.port is None ==> p == 8080,
    {
        match &self.port {
            Some(q) => *q,
            None => 8080,
        }
    }

    /// The content root to serve: the configured one, or `static`.
    pub fn effective_root(&self) -> (r: String)
        ensures
            self.root matches Some(s) ==> r@ == s@,
            self.root is None ==> r@ == "static"@,
    {
        match &self.root {
            Some(s) => s.clone(),
            None => String::from_str("static"),
        }
    }
}

} // verus!
