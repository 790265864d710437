//! Socket addresses as plain values.

use vstd::prelude::*;

verus! {

/// The address of a socket.
#[derive(Clone, Copy, Debug, PartialEq, Eq, Structural)]
pub enum SocketAddr {
    V4 { ip: u32, port: u16 },
    V6 { ip: u128, port: u16, flowinfo: u32, scope_id: u32 },
}

/// An IP address in its textual form.
#[derive(Clone, Debug, PartialEq, Eq)]
pub enum IpText {
    V4(String),
    V6(String),
}

/// What an `IpText` says.
pub enum IpTextView {
    V4(Seq<char>),
    V6(Seq<char>),
}

impl View for IpText {
    type V = IpTextView;

    open spec fn view(&self) -> IpTextView {
        match self {
            IpText::V4(text) => IpTextView::V4(text@),
            IpText::V6(text) => IpTextView::V6(text@),
        }
    }
}

/// The two ends of a client's connection, as far as its socket can tell them.
#[derive(Clone, Debug, PartialEq, Eq)]
pub struct Endpoints {
    pub peer: Option<IpText>,
    pub local: Option<IpText>,
}

/// What an `Endpoints` says.
pub struct EndpointsView {
    pub peer: Option<IpTextView>,
    pub local: Option<IpTextView>,
}

impl View for Endpoints {
    type V = EndpointsView;

    open spec fn view(&self) -> EndpointsView {
        EndpointsView {
            peer: match self.peer {
                Some(ip) => Some(ip@),
                None => None,
            },
            local: match self.local {
                Some(ip) => Some(ip@),
                None => None,
            },
        }
    }
}

} // verus!
