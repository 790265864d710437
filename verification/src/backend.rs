//! The instances that serve an application.

use vstd::prelude::*;

use crate::address::SocketAddr;

verus! {

/// Whether an instance takes connections.
#[derive(Clone, Copy, Debug, PartialEq, Eq, Structural)]
pub enum BackendStatus {
    Normal,
    Closed,
}

/// One instance of an application, with the number of its open connections.
#[derive(Clone, Copy, Debug, PartialEq, Eq, Structural)]
pub struct Backend {
    pub address: SocketAddr,
    pub status: BackendStatus,
    pub active_connections: usize,
}

impl Backend {
    /// An instance at `address` that has no connection yet.
    pub open spec fn fresh(address: SocketAddr) -> Backend {
        Backend { address, status: BackendStatus::Normal, active_connections: 0 }
    }

    /// Whether a new connection may go to this instance.
    pub open spec fn is_open(self) -> bool {
        self.status is Normal
    }

    /// The instance with one connection more; a closed one takes none.
    pub open spec fn with_connection(self) -> Backend {
        if self.is_open() {
            Backend { active_connections: (self.active_connections + 1) as usize, ..self }
        } else {
            self
        }
    }

    /// The instance with one connection less. One that has none to give back is closed.
    pub open spec fn without_connection(self) -> Backend {
        if self.active_connections == 0 {
            Backend { status: BackendStatus::Closed, ..self }
        } else if self.is_open() {
            Backend { active_connections: (self.active_connections - 1) as usize, ..self }
        } else {
            self
        }
    }

    pub fn new(address: SocketAddr) -> (backend: Backend)
        ensures
            backend == Backend::fresh(address),
    {
        Backend { address, status: BackendStatus::Normal, active_connections: 0 }
    }

    /// Whether a new connection may go to this instance.
    pub fn can_open(&self) -> (open: bool)
        ensures
            open == self.is_open(),
    {
        self.status == BackendStatus::Normal
    }

    /// Counts one connection more, and returns the count if the instance is open.
    pub fn inc_connections(&mut self) -> (count: Option<usize>)
        requires
            old(self).active_connections < usize::MAX,
        ensures
            *final(self) == old(self).with_connection(),
            count == (if old(self).is_open() {
                Some(final(self).active_connections)
            } else {
                None
            }),
    {
        if self.status == BackendStatus::Normal {
            self.active_connections = self.active_connections + 1;
            Some(self.active_connections)
        } else {
            None
        }
    }

    /// Counts one connection less, and returns the count if there was one to give back.
    pub fn dec_connections(&mut self) -> (count: Option<usize>)
        ensures
            *final(self) == old(self).without_connection(),
            count == (if old(self).active_connections > 0 && old(self).is_open() {
                Some(final(self).active_connections)
            } else {
                None
            }),
    {
        if self.active_connections == 0 {
            self.status = BackendStatus::Closed;
            return None;
        }
        if self.status == BackendStatus::Normal {
            self.active_connections = self.active_connections - 1;
            Some(self.active_connections)
        } else {
            None
        }
    }
}

} // verus!
