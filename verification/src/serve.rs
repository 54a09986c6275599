//! What is asked of the lookup service when it is started.

use vstd::prelude::*;
use vstd::string::*;

verus! {

/// The port that is listened on where none is given.
pub const DEFAULT_PORT: u16 = 8081;

/// What is asked of the lookup service.
#[derive(Debug, PartialEq, Eq)]
pub struct ServeParams {
    /// The address to bind to.
    pub address: String,
    /// The port to listen on.
    pub port: u16,
    /// The archive of git repositories.
    pub git_repo_archive: String,
    /// The archive of model repositories, if there is one.
    pub huggingface_archive: Option<String>,
    /// Whether the archives are read again when their files change.
    pub watch: bool,
}

impl ServeParams {
    /// The parameters of a service over one archive of git repositories,
    /// all else as it is when nothing is asked: the local address, the
    /// default port, no archive of model repositories, no watching.
    pub fn new(git_repo_archive: &str) -> (params: Self)
        ensures
            params.address@ == "127.0.0.1"@,
            params.port == DEFAULT_PORT,
            params.git_repo_archive@ == git_repo_archive@,
            params.huggingface_archive is None,
            !params.watch,
    {
        ServeParams {
            address: String::from_str("127.0.0.1"),
            port: DEFAULT_PORT,
            git_repo_archive: git_repo_archive.to_owned(),
            huggingface_archive: None,
            watch: false,
        }
    }
}

} // verus!
