//! Finding the server: which of the port files on the way up from a
//! directory is the live one, and which socket the URI in it names.
//!
//! Looking at the file system and reading the port file are the caller's
//! part. What is decided here is decided on what the caller found.

use crate::text::str_eq;
use url::Url;
use vstd::prelude::*;
use vstd::string::StringExecFns;

verus! {

/// Why no socket could be named.
#[derive(Debug, PartialEq, Eq)]
pub enum LookupError {
    /// The port file's URI is not a URI.
    InvalidUri,
    /// The URI's scheme is not `local`. The scheme is kept for the report.
    UnknownProtocol { scheme: String },
}

/// What the `url` crate makes of a text: the scheme and the path of the
/// URI that it parses to, in this order, or `None` where it does not parse.
pub uninterp spec fn uri_parts(uri: Seq<char>) -> Option<(Seq<char>, Seq<char>)>;

/// The scheme and path in what `split_uri` returned.
pub open spec fn parts_view(parts: Option<(String, String)>) -> Option<(Seq<char>, Seq<char>)> {
    match parts {
        Some((scheme, path)) => Some((scheme@, path@)),
        None => None,
    }
}

/// `url::Url::parse`, then `Url::scheme` and `Url::path` of the result,
/// copied out: the scheme and path of the URI, or `None` where the text is
/// refused. Nothing is claimed about which texts parse or how; the result
/// is only given its name.
#[verifier::external_body]
fn split_uri(uri: &str) -> (parts: Option<(String, String)>)
    ensures
        parts_view(parts) == uri_parts(uri@),
{
    match Url::parse(uri) {
        Ok(url) => Some((url.scheme().to_owned(), url.path().to_owned())),
        Err(_) => None,
    }
}

/// The scheme of the URIs that name a local socket.
pub open spec fn local_scheme() -> Seq<char> {
    "local"@
}

/// Whether `socket` is what the parsed URI yields: the path of a `local`
/// URI, or the error that says why there is none.
pub open spec fn socket_of(
    parts: Option<(Seq<char>, Seq<char>)>,
    socket: Result<String, LookupError>,
) -> bool {
    match parts {
        None => socket matches Err(LookupError::InvalidUri),
        Some((scheme, path)) => if scheme == local_scheme() {
            socket matches Ok(found) && found@ == path
        } else {
            socket matches Err(LookupError::UnknownProtocol { scheme: refused }) && refused@
                == scheme
        },
    }
}

/// The socket that a parsed URI names: its path, if its scheme is `local`.
pub fn socket_path(parts: Option<(String, String)>) -> (socket: Result<String, LookupError>)
    ensures
        socket_of(parts_view(parts), socket),
{
    match parts {
        None => Err(LookupError::InvalidUri),
        Some((scheme, path)) => {
            if str_eq(scheme.as_str(), "local") {
                Ok(path)
            } else {
                Err(LookupError::UnknownProtocol { scheme })
            }
        },
    }
}

/// The socket of the running server, from the URI in the port file that
/// was found. Without a port file there is no server and no error.
pub fn lookup_from(uri: Option<&str>) -> (socket: Result<Option<String>, LookupError>)
    ensures
        match uri {
            None => socket matches Ok(None),
            Some(text) => match socket {
                Ok(Some(path)) => socket_of(uri_parts(text@), Ok(path)),
                Ok(None) => false,
                Err(e) => socket_of(uri_parts(text@), Err(e)),
            },
        },
{
    match uri {
        None => Ok(None),
        Some(text) => match socket_path(split_uri(text)) {
            Ok(path) => Ok(Some(path)),
            Err(e) => Err(e),
        },
    }
}

impl LookupError {
    /// How the error reads.
    pub open spec fn message_text(&self) -> Seq<char> {
        match self {
            LookupError::InvalidUri => "Invalid URI in port file"@,
            LookupError::UnknownProtocol { scheme } => "Unknown protocol: "@ + scheme@,
        }
    }

    /// The error as text.
    pub fn message(&self) -> (text: String)
        ensures
            text@ == self.message_text(),
    {
        match self {
            LookupError::InvalidUri => String::from_str("Invalid URI in port file"),
            LookupError::UnknownProtocol { scheme } => {
                let mut text = String::from_str("Unknown protocol: ");
                text.append(scheme.as_str());
                text
            },
        }
    }
}

/// What the caller saw at one place where a port file may lie.
#[derive(Debug, PartialEq, Eq)]
pub struct PortFileProbe {
    /// The place: `project/target/active.json` below a directory.
    pub path: String,
    /// Whether anything exists there.
    pub exists: bool,
    /// Whether what exists there is a directory.
    pub is_dir: bool,
}

impl PortFileProbe {
    /// Whether a port file lies at the place: something is there and it is
    /// not a directory.
    pub open spec fn is_port_file(&self) -> bool {
        self.exists && !self.is_dir
    }
}

/// Where the port file lies below a project's directory, component by
/// component.
pub fn port_file_components() -> (components: [&'static str; 3])
    ensures
        components[0]@ == "project"@,
        components[1]@ == "target"@,
        components[2]@ == "active.json"@,
{
    ["project", "target", "active.json"]
}

/// The nearest port file: the first of the probed places, taken from the
/// starting directory upwards, at which a port file lies.
pub fn find_port_file(probes: &Vec<PortFileProbe>) -> (found: Option<usize>)
    ensures
        match found {
            Some(i) => i < probes@.len() && probes@[i as int].is_port_file() && forall|j: int|
                0 <= j < i ==> !probes@[j].is_port_file(),
            None => forall|j: int| 0 <= j < probes@.len() ==> !probes@[j].is_port_file(),
        },
{
    let mut i: usize = 0;
    while i < probes.len()
        invariant
            i <= probes@.len(),
            forall|j: int| 0 <= j < i ==> !probes@[j].is_port_file(),
        decreases probes.len() - i,
    {
        if probes[i].exists && !probes[i].is_dir {
            return Some(i);
        }
        i += 1;
    }
    None
}

} // verus!
