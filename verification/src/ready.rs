//! Which socket events a connection waits for and which ones it may act on.

use vstd::prelude::*;

use mio::Ready;

verus! {

/// One kind of socket event.
#[derive(Clone, Copy, Debug, PartialEq, Eq, Structural)]
pub enum ReadyKind {
    Readable,
    Writable,
    Error,
    Hup,
}

/// `mio::Ready`, a set of event kinds. It is opaque here; what a value holds is `ready_kinds`.
#[verifier::external_type_specification]
#[verifier::external_body]
pub struct ExReady(mio::Ready);

/// The event kinds that a `mio::Ready` holds.
pub uninterp spec fn ready_kinds(ready: mio::Ready) -> Set<ReadyKind>;

/// `mio::Ready::empty` returns the set without any event kind.
pub assume_specification[ mio::Ready::empty ]() -> (ready: mio::Ready)
    ensures
        ready_kinds(ready) == Set::<ReadyKind>::empty(),
;

/// `mio::Ready::readable` returns the set that holds the readable kind alone.
pub assume_specification[ mio::Ready::readable ]() -> (ready: mio::Ready)
    ensures
        ready_kinds(ready) == set![ReadyKind::Readable],
;

/// `mio::Ready::writable` returns the set that holds the writable kind alone.
pub assume_specification[ mio::Ready::writable ]() -> (ready: mio::Ready)
    ensures
        ready_kinds(ready) == set![ReadyKind::Writable],
;

/// `mio::Ready::error` returns the set that holds the error kind alone.
pub assume_specification[ mio::Ready::error ]() -> (ready: mio::Ready)
    ensures
        ready_kinds(ready) == set![ReadyKind::Error],
;

/// `mio::Ready::hup` returns the set that holds the hang-up kind alone.
pub assume_specification[ mio::Ready::hup ]() -> (ready: mio::Ready)
    ensures
        ready_kinds(ready) == set![ReadyKind::Hup],
;

/// `mio::Ready::insert` adds the kinds of its argument to the set and keeps the others.
#[verifier::external_body]
pub(crate) fn ready_insert(ready: &mut Ready, other: Ready)
    ensures
        ready_kinds(*final(ready)) == ready_kinds(*old(ready)).union(ready_kinds(other)),
{
    ready.insert(other)
}

/// `mio::Ready::remove` takes the kinds of its argument out of the set and keeps the others.
#[verifier::external_body]
pub(crate) fn ready_remove(ready: &mut Ready, other: Ready)
    ensures
        ready_kinds(*final(ready)) == ready_kinds(*old(ready)).difference(ready_kinds(other)),
{
    ready.remove(other)
}

/// The `|` operator of `mio::Ready` returns the union of two sets.
#[verifier::external_body]
pub(crate) fn ready_or(left: Ready, right: Ready) -> (both: Ready)
    ensures
        ready_kinds(both) == ready_kinds(left).union(ready_kinds(right)),
{
    left | right
}

impl ReadyKind {
    /// The `mio::Ready` that holds this kind alone.
    pub fn to_ready(self) -> (ready: Ready)
        ensures
            ready_kinds(ready) == set![self],
    {
        match self {
            ReadyKind::Readable => Ready::readable(),
            ReadyKind::Writable => Ready::writable(),
            ReadyKind::Error => Ready::error(),
            ReadyKind::Hup => Ready::hup(),
        }
    }
}

/// What a `Readiness` holds, as sets of event kinds.
#[verifier::ext_equal]
pub struct ReadinessView {
    pub front_interest: Set<ReadyKind>,
    pub back_interest: Set<ReadyKind>,
    pub front_readiness: Set<ReadyKind>,
    pub back_readiness: Set<ReadyKind>,
}

impl ReadinessView {
    /// No interest in any event and no event to act on.
    pub open spec fn none() -> ReadinessView {
        ReadinessView {
            front_interest: Set::empty(),
            back_interest: Set::empty(),
            front_readiness: Set::empty(),
            back_readiness: Set::empty(),
        }
    }

    /// The front side waits for `kind` from now on.
    pub open spec fn want_front(self, kind: ReadyKind) -> ReadinessView {
        ReadinessView { front_interest: self.front_interest.insert(kind), ..self }
    }

    /// The front side no longer waits for `kind`.
    pub open spec fn leave_front(self, kind: ReadyKind) -> ReadinessView {
        ReadinessView { front_interest: self.front_interest.remove(kind), ..self }
    }

    /// The back side waits for `kind` from now on.
    pub open spec fn want_back(self, kind: ReadyKind) -> ReadinessView {
        ReadinessView { back_interest: self.back_interest.insert(kind), ..self }
    }

    /// The back side no longer waits for `kind`.
    pub open spec fn leave_back(self, kind: ReadyKind) -> ReadinessView {
        ReadinessView { back_interest: self.back_interest.remove(kind), ..self }
    }

    /// The front socket has nothing more to offer for `kind` until its next event.
    pub open spec fn block_front(self, kind: ReadyKind) -> ReadinessView {
        ReadinessView { front_readiness: self.front_readiness.remove(kind), ..self }
    }

    /// The back socket has nothing more to offer for `kind` until its next event.
    pub open spec fn block_back(self, kind: ReadyKind) -> ReadinessView {
        ReadinessView { back_readiness: self.back_readiness.remove(kind), ..self }
    }
}

/// The events that a connection waits for on its two sockets, and those that have come.
#[derive(Clone, Copy, Debug, PartialEq, Eq)]
pub struct Readiness {
    pub front_interest: Ready,
    pub back_interest: Ready,
    pub front_readiness: Ready,
    pub back_readiness: Ready,
}

impl View for Readiness {
    type V = ReadinessView;

    open spec fn view(&self) -> ReadinessView {
        ReadinessView {
            front_interest: ready_kinds(self.front_interest),
            back_interest: ready_kinds(self.back_interest),
            front_readiness: ready_kinds(self.front_readiness),
            back_readiness: ready_kinds(self.back_readiness),
        }
    }
}

impl Readiness {
    /// A readiness that waits for nothing.
    pub fn new() -> (readiness: Readiness)
        ensures
            readiness@ == ReadinessView::none(),
    {
        Readiness {
            front_interest: Ready::empty(),
            back_interest: Ready::empty(),
            front_readiness: Ready::empty(),
            back_readiness: Ready::empty(),
        }
    }

    /// Forgets every interest and every event.
    pub fn reset(&mut self)
        ensures
            final(self)@ == ReadinessView::none(),
    {
        self.front_interest = Ready::empty();
        self.back_interest = Ready::empty();
        self.front_readiness = Ready::empty();
        self.back_readiness = Ready::empty();
    }

    /// Adds `kind` to what the front side waits for.
    pub fn want_front(&mut self, kind: ReadyKind)
        ensures
            final(self)@ == old(self)@.want_front(kind),
    {
        ready_insert(&mut self.front_interest, kind.to_ready());
    }

    /// Takes `kind` out of what the front side waits for.
    pub fn leave_front(&mut self, kind: ReadyKind)
        ensures
            final(self)@ == old(self)@.leave_front(kind),
    {
        ready_remove(&mut self.front_interest, kind.to_ready());
    }

    /// Adds `kind` to what the back side waits for.
    pub fn want_back(&mut self, kind: ReadyKind)
        ensures
            final(self)@ == old(self)@.want_back(kind),
    {
        ready_insert(&mut self.back_interest, kind.to_ready());
    }

    /// Takes `kind` out of what the back side waits for.
    pub fn leave_back(&mut self, kind: ReadyKind)
        ensures
            final(self)@ == old(self)@.leave_back(kind),
    {
        ready_remove(&mut self.back_interest, kind.to_ready());
    }

    /// Notes that the front socket would block on `kind`.
    pub fn block_front(&mut self, kind: ReadyKind)
        ensures
            final(self)@ == old(self)@.block_front(kind),
    {
        ready_remove(&mut self.front_readiness, kind.to_ready());
    }

    /// Notes that the back socket would block on `kind`.
    pub fn block_back(&mut self, kind: ReadyKind)
        ensures
            final(self)@ == old(self)@.block_back(kind),
    {
        ready_remove(&mut self.back_readiness, kind.to_ready());
    }
}

} // verus!
