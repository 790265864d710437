//! The orders that configure the proxy, and what it answers to them.

use vstd::prelude::*;
use vstd::string::*;

use crate::address::SocketAddr;
use crate::text::decimal_text;

verus! {

/// Requests for `hostname` whose path begins with `path_begin` go to the application `app_id`.
#[derive(Debug, PartialEq, Eq)]
pub struct HttpFront {
    pub app_id: String,
    pub hostname: String,
    pub path_begin: String,
}

/// What an `HttpFront` says.
#[verifier::ext_equal]
pub struct HttpFrontView {
    pub app_id: Seq<char>,
    pub hostname: Seq<char>,
    pub path_begin: Seq<char>,
}

impl View for HttpFront {
    type V = HttpFrontView;

    open spec fn view(&self) -> HttpFrontView {
        HttpFrontView {
            app_id: self.app_id@,
            hostname: self.hostname@,
            path_begin: self.path_begin@,
        }
    }
}

impl Clone for HttpFront {
    fn clone(&self) -> (copy: HttpFront)
        ensures
            copy@ == self@,
    {
        HttpFront {
            app_id: self.app_id.clone(),
            hostname: self.hostname.clone(),
            path_begin: self.path_begin.clone(),
        }
    }
}

impl HttpFront {
    /// Whether two fronts agree in every part.
    pub fn same_as(&self, other: &HttpFront) -> (same: bool)
        ensures
            same == (self@ == other@),
    {
        self.app_id == other.app_id && self.hostname == other.hostname && self.path_begin
            == other.path_begin
    }
}

/// An instance of an application, as an order names it.
#[derive(Clone, Debug, PartialEq, Eq)]
pub struct Instance {
    pub app_id: String,
    pub ip_address: String,
    pub port: u16,
}

impl Instance {
    /// The text `ip_address:port`.
    pub open spec fn address_view(self) -> Seq<char> {
        self.ip_address@ + ":"@ + crate::text::decimal(self.port as nat)
    }

    /// The text of the instance's socket address, to be parsed.
    pub fn address_text(&self) -> (text: String)
        ensures
            text@ == self.address_view(),
    {
        let mut text = self.ip_address.clone();
        text.append(":");
        let port = decimal_text(self.port);
        text.append(port.as_str());
        text
    }
}

/// The settings of the proxy.
#[derive(Clone, Debug, PartialEq, Eq)]
pub struct HttpProxyConfiguration {
    pub front: SocketAddr,
    pub max_connections: usize,
    pub buffer_size: usize,
    pub front_timeout: u64,
    pub back_timeout: u64,
    pub answer_404: String,
    pub answer_503: String,
}

/// A change that is asked of the proxy. `Unsupported` stands for every other command.
#[derive(Clone, Debug, PartialEq, Eq)]
pub enum Command {
    AddHttpFront(HttpFront),
    RemoveHttpFront(HttpFront),
    AddInstance(Instance),
    RemoveInstance(Instance),
    HttpProxy(HttpProxyConfiguration),
    Unsupported,
}

/// An order to the proxy, with the identifier that its answer repeats.
#[derive(Clone, Debug, PartialEq, Eq)]
pub enum ProxyOrder {
    Command(String, Command),
    Stop(String),
}

impl ProxyOrder {
    /// The instance that the order adds or removes.
    pub open spec fn instance_view(self) -> Option<Instance> {
        match self {
            ProxyOrder::Command(_, Command::AddInstance(instance)) => Some(instance),
            ProxyOrder::Command(_, Command::RemoveInstance(instance)) => Some(instance),
            _ => None,
        }
    }

    /// The text of the address that has to be parsed before the order can be carried out.
    pub fn address_text(&self) -> (text: Option<String>)
        ensures
            match (text, self.instance_view()) {
                (Some(text), Some(instance)) => text@ == instance.address_view(),
                (None, None) => true,
                _ => false,
            },
    {
        match self {
            ProxyOrder::Command(_, Command::AddInstance(instance)) => Some(
                instance.address_text(),
            ),
            ProxyOrder::Command(_, Command::RemoveInstance(instance)) => Some(
                instance.address_text(),
            ),
            _ => None,
        }
    }
}

/// What became of an order.
#[derive(Clone, Debug, PartialEq, Eq)]
pub enum ServerMessageType {
    AddedFront,
    RemovedFront,
    AddedInstance,
    RemovedInstance,
    Stopped,
    Error(String),
}

/// What became of an order, in the model.
pub enum ServerMessageTypeView {
    AddedFront,
    RemovedFront,
    AddedInstance,
    RemovedInstance,
    Stopped,
    Error(Seq<char>),
}

impl View for ServerMessageType {
    type V = ServerMessageTypeView;

    open spec fn view(&self) -> ServerMessageTypeView {
        match self {
            ServerMessageType::AddedFront => ServerMessageTypeView::AddedFront,
            ServerMessageType::RemovedFront => ServerMessageTypeView::RemovedFront,
            ServerMessageType::AddedInstance => ServerMessageTypeView::AddedInstance,
            ServerMessageType::RemovedInstance => ServerMessageTypeView::RemovedInstance,
            ServerMessageType::Stopped => ServerMessageTypeView::Stopped,
            ServerMessageType::Error(text) => ServerMessageTypeView::Error(text@),
        }
    }
}

/// The answer to the order with the identifier `id`.
#[derive(Clone, Debug, PartialEq, Eq)]
pub struct ServerMessage {
    pub id: String,
    pub message: ServerMessageType,
}

/// An answer, in the model.
pub struct ServerMessageView {
    pub id: Seq<char>,
    pub message: ServerMessageTypeView,
}

impl View for ServerMessage {
    type V = ServerMessageView;

    open spec fn view(&self) -> ServerMessageView {
        ServerMessageView { id: self.id@, message: self.message@ }
    }
}

} // verus!
