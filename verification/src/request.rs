//! The request as it is handed to a backend.

use vstd::prelude::*;
use vstd::string::*;
use crate::conf::Conf;
use vstd::slice::slice_to_vec;
use crate::text_map::{TextMap, map_of};

verus! {

/// An uploaded file: the name the client gave it and its bytes.
#[derive(Debug)]
pub struct RequestFile {
    pub name: String,
    pub content: Vec<u8>,
}

impl View for RequestFile {
    type V = (Seq<char>, Seq<u8>);

    open spec fn view(&self) -> (Seq<char>, Seq<u8>) {
        (self.name@, self.content@)
    }
}

impl TextMap<RequestFile> {
    /// A copy of the map.
    pub fn duplicate(&self) -> (r: Self)
        ensures
            r@ == self@,
    {
        let mut out: Vec<(String, RequestFile)> = Vec::new();
        let mut i: usize = 0;
        while i < self.entries.len()
            invariant
                i <= self.entries@.len(),
                map_of(out@) == map_of(self.entries@.subrange(0, i as int)),
            decreases self.entries@.len() - i,
        {
            let ghost before = out@;
            let ghost upto = self.entries@.subrange(0, i + 1);
            let file = RequestFile {
                name: self.entries[i].1.name.clone(),
                content: slice_to_vec(self.entries[i].1.content.as_slice()),
            };
            out.push((self.entries[i].0.clone(), file));
            assert(out@.drop_last() =~= before);
            assert(upto.drop_last() =~= self.entries@.subrange(0, i as int));
            i = i + 1;
        }
        assert(self.entries@.subrange(0, i as int) =~= self.entries@);
        TextMap { entries: out }
    }
}

/// What a backend gets of a request.
#[derive(Debug)]
pub struct Request {
    pub method: String,
    pub host: String,
    pub path: String,
    pub session_id: String,
    pub query: TextMap<String>,
    pub body_string: String,
    pub route: TextMap<String>,
    pub files: TextMap<RequestFile>,
}

/// Whether one of `names` is `host`, letter for letter.
pub open spec fn names_host(names: Seq<String>, host: Seq<char>) -> bool {
    exists|i: int| 0 <= i < names.len() && (#[trigger] names[i])@ == host
}

/// Whether one of `names` is `host`, letter for letter.
pub fn has_hostname(names: &Vec<String>, host: &String) -> (b: bool)
    ensures
        b == names_host(names@, host@),
{
    let mut i: usize = 0;
    while i < names.len()
        invariant
            i <= names@.len(),
            forall|j: int| 0 <= j < i ==> (#[trigger] names@[j])@ != host@,
        decreases names@.len() - i,
    {
        if names[i] == *host {
            return true;
        }
        i = i + 1;
    }
    false
}

/// The index of the first virtual host at or after `from` that answers to
/// `host`, or the number of virtual hosts where none does.
pub open spec fn server_index(conf: Conf, host: Seq<char>, from: int) -> int
    decreases conf.servers@.len() - from,
{
    if from < 0 || from >= conf.servers@.len() {
        conf.servers@.len() as int
    } else if names_host(conf.servers@[from].hostnames@, host) {
        from
    } else {
        server_index(conf, host, from + 1)
    }
}

/// The backend socket of the first virtual host that answers to `host`.
pub open spec fn socket_path_of(conf: Conf, host: Seq<char>) -> Option<Seq<char>> {
    let i = server_index(conf, host, 0);
    if i < conf.servers@.len() {
        Some(conf.servers@[i].socket_path@)
    } else {
        None
    }
}

/// The index of the first virtual host at or after `from` that answers to
/// `host`.
pub fn find_server(conf: &Conf, host: &String, from: usize) -> (r: Option<usize>)
    ensures
        match r {
            Some(i) => i < conf.servers@.len() && server_index(*conf, host@, from as int) == i,
            None => server_index(*conf, host@, from as int) == conf.servers@.len(),
        },
{
    let mut i: usize = from;
    while i < conf.servers.len()
        invariant
            from <= i,
            server_index(*conf, host@, from as int) == server_index(*conf, host@, i as int),
        decreases conf.servers@.len() - i,
    {
        if has_hostname(&conf.servers[i].hostnames, host) {
            return Some(i);
        }
        i = i + 1;
    }
    None
}

impl Request {
    /// The socket of the backend that serves this request's host: that of
    /// the first virtual host one of whose host names is the host, letter
    /// for letter.
    pub fn app_socket_path(&self, conf: &Conf) -> (r: Option<String>)
        ensures
            match r {
                Some(p) => socket_path_of(*conf, self.host@) == Some(p@),
                None => socket_path_of(*conf, self.host@) is None,
            },
    {
        match find_server(conf, &self.host, 0) {
            Some(i) => Some(conf.servers[i].socket_path.clone()),
            None => None,
        }
    }
}

} // verus!
