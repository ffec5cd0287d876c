//! The request/response message set shared by the daemon and its clients.

use crate::text::same_text;
use vstd::prelude::*;

verus! {

/// Where a copy request originated.
///
/// A copy that came from the user is mirrored to the compositor; one that
/// came from the compositor is stored but never sent back, so an update can
/// not echo between the two clipboards.
#[derive(Debug, Clone, Copy, PartialEq, Eq, Structural)]
pub enum CopySource {
    /// The user copied something (for example from a terminal).
    User,
    /// The compositor's clipboard changed and the bridge relayed it.
    Wayland,
}

impl CopySource {
    /// The name a source goes by on a command line.
    pub open spec fn name_spec(self) -> Seq<char> {
        match self {
            CopySource::User => "user"@,
            CopySource::Wayland => "wayland"@,
        }
    }

    /// The source that goes by `name`, if there is one.
    pub open spec fn named(name: Seq<char>) -> Option<CopySource> {
        if name == "user"@ {
            Some(CopySource::User)
        } else if name == "wayland"@ {
            Some(CopySource::Wayland)
        } else {
            None
        }
    }

    /// The name this source goes by on a command line.
    pub fn name(self) -> (r: &'static str)
        ensures
            r@ == self.name_spec(),
    {
        match self {
            CopySource::User => "user",
            CopySource::Wayland => "wayland",
        }
    }

    /// The source that goes by `name`, if there is one.
    pub fn from_name(name: &str) -> (r: Option<CopySource>)
        ensures
            r == Self::named(name@),
    {
        if same_text(name, "user") {
            Some(CopySource::User)
        } else if same_text(name, "wayland") {
            Some(CopySource::Wayland)
        } else {
            None
        }
    }
}

/// Every source is found again by its name.
pub proof fn source_is_found_by_its_name(source: CopySource)
    ensures
        CopySource::named(source.name_spec()) == Some(source),
{
    reveal_strlit("user");
    reveal_strlit("wayland");
    assert("user"@.len() == 4);
    assert("wayland"@.len() == 7);
}

/// A request from a client to the daemon.
#[derive(Debug, PartialEq, Eq)]
pub enum Request {
    /// Replace the clipboard with `payload`.
    Copy { payload: Vec<u8>, source: CopySource },
    /// Fetch the current clipboard.
    Paste,
}

/// The daemon's answer to one request.
#[derive(Debug, PartialEq, Eq)]
pub enum Response {
    /// The copy was stored.
    Stored,
    /// The clipboard's content.
    Payload { data: Vec<u8> },
    /// The request failed; `message` says why.
    Error { message: String },
}

/// A request as a mathematical value.
pub enum RequestView {
    Copy { payload: Seq<u8>, source: CopySource },
    Paste,
}

/// A response as a mathematical value.
pub enum ResponseView {
    Stored,
    Payload { data: Seq<u8> },
    Error { message: Seq<char> },
}

impl View for Request {
    type V = RequestView;

    open spec fn view(&self) -> RequestView {
        match *self {
            Request::Copy { payload, source } => RequestView::Copy { payload: payload@, source },
            Request::Paste => RequestView::Paste,
        }
    }
}

impl View for Response {
    type V = ResponseView;

    open spec fn view(&self) -> ResponseView {
        match *self {
            Response::Stored => ResponseView::Stored,
            Response::Payload { data } => ResponseView::Payload { data: data@ },
            Response::Error { message } => ResponseView::Error { message: message@ },
        }
    }
}

} // verus!
