//! The configuration that the handlers consult.

use vstd::prelude::*;

verus! {

/// One virtual host: the host names it answers to, the socket of its
/// backend and the places of its static files.
#[derive(Debug)]
pub struct ServerConf {
    pub name: String,
    pub hostnames: Vec<String>,
    pub socket_path: String,
    pub static_dir: String,
    pub dev_static_dir: String,
    pub index_path: String,
}

/// The whole configuration, read once at startup and never changed.
#[derive(Debug)]
pub struct Conf {
    pub ip: String,
    pub https_port: u16,
    pub http_port: u16,
    pub acme_challenge_dir: String,
    pub acme_challenge_url: String,
    pub index_url: String,
    pub tmp_dir: String,
    pub servers: Vec<ServerConf>,
    pub max_request_size_mb: usize,
}

} // verus!
