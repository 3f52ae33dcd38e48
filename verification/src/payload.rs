//! Where a payload comes from: a local file or an HTTP(S) URL.
use vstd::prelude::*;

verus! {

/// The source of a payload.
#[derive(Clone, Debug)]
pub enum Payload {
    /// A path on the local file system.
    File(String),
    /// A URL served over HTTP(S).
    Url(String),
}

/// Why a payload source could not be named.
#[derive(Clone, Copy, Debug, PartialEq, Eq)]
pub enum PayloadTypeError {
    /// The numeric source kind is neither 0 (file) nor 1 (URL).
    UnknownType,
}

impl Payload {
    /// Whether this payload is read over HTTP.
    pub open spec fn is_url(&self) -> bool {
        self is Url
    }

    /// The path or URL of this payload, as characters.
    pub open spec fn location(&self) -> Seq<char> {
        match self {
            Payload::File(s) => s@,
            Payload::Url(s) => s@,
        }
    }

    /// A payload read from `url`.
    pub fn from_url(url: &str) -> (p: Self)
        ensures
            p.is_url(),
            p.location() == url@,
    {
        Payload::Url(url.to_owned())
    }

    /// A payload read from the file at `path`.
    pub fn from_file(path: &str) -> (p: Self)
        ensures
            p is File,
            p.location() == path@,
    {
        Payload::File(path.to_owned())
    }

    /// A payload from its numeric kind, as the Java side passes it:
    /// 0 names a file, 1 a URL; any other kind is refused.
    pub fn from_type(p_type: u8, path: &str) -> (r: Result<Self, PayloadTypeError>)
        ensures
            p_type == 0 ==> (r matches Ok(p) && p is File && p.location() == path@),
            p_type == 1 ==> (r matches Ok(p) && p is Url && p.location() == path@),
            p_type > 1 ==> r == Err::<Self, PayloadTypeError>(PayloadTypeError::UnknownType),
    {
        match p_type {
            0 => Ok(Payload::from_file(path)),
            1 => Ok(Payload::from_url(path)),
            _ => Err(PayloadTypeError::UnknownType),
        }
    }

    /// Whether this payload is read over HTTP.
    pub fn is_remote(&self) -> (b: bool)
        ensures
            b == self.is_url(),
    {
        match self {
            Payload::File(_) => false,
            Payload::Url(_) => true,
        }
    }
}

} // verus!
