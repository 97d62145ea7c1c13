use vstd::prelude::*;

verus! {

/// The command-line surface: one command selecting where the
/// specification comes from and where the server binds.
#[derive(Debug)]
pub struct Cli {
    pub command: Commands,
}

/// Serve a specification fetched from a URL, or one read from a file;
/// both carry the bind address, an optional artificial delay, and an
/// optional configuration file path.
#[derive(Debug)]
pub enum Commands {
    Scan { url: String, port: u16, host: String, delay: Option<u64>, config: Option<String> },
    File { path: String, port: u16, host: String, delay: Option<u64>, config: Option<String> },
}

} // verus!
