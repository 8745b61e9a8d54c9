//! The per-connection error slot: set once, then sticky.
use vstd::prelude::*;

verus! {

/// Holds the first error that condemned a connection. Once an error is
/// latched the connection is condemned and later latches change nothing.
pub struct ErrorSlot<E> {
    err: Option<E>,
}

/// The slot after latching each error of `es` in turn, starting from `s`.
pub open spec fn latch_all<E>(s: Option<E>, es: Seq<E>) -> Option<E>
    decreases es.len(),
{
    if es.len() == 0 {
        s
    } else {
        let first = match s {
            Some(e) => Some(e),
            None => Some(es[0]),
        };
        latch_all(first, es.drop_first())
    }
}

impl<E> ErrorSlot<E> {
    pub closed spec fn view(&self) -> Option<E> {
        self.err
    }

    /// An empty slot.
    pub fn new() -> (r: Self)
        ensures
            r@ is None,
    {
        ErrorSlot { err: None }
    }

    /// Whether the connection is condemned.
    pub fn is_latched(&self) -> (r: bool)
        ensures
            r == self@ is Some,
    {
        self.err.is_some()
    }

    /// The latched error, if any.
    pub fn error(&self) -> (r: Option<&E>)
        ensures
            r == match self@ {
                Some(e) => Some(&e),
                None => None::<&E>,
            },
    {
        match &self.err {
            Some(e) => Some(e),
            None => None,
        }
    }

    /// Latches `e` unless an error is already held. Returns whether this
    /// call condemned the connection.
    pub fn latch(&mut self, e: E) -> (r: bool)
        ensures
            r == old(self)@ is None,
            final(self)@ == match old(self)@ {
                Some(first) => Some(first),
                None => Some(e),
            },
    {
        if self.err.is_some() {
            false
        } else {
            self.err = Some(e);
            true
        }
    }
}

/// Latching is idempotent: whatever errors are latched afterwards, a
/// condemned slot keeps its first error.
pub proof fn lemma_latched_stays<E>(first: E, es: Seq<E>)
    ensures
        latch_all(Some(first), es) == Some(first),
    decreases es.len(),
{
    if es.len() > 0 {
        lemma_latched_stays(first, es.drop_first());
    }
}

/// Any non-empty run of latches on an empty slot leaves exactly the first
/// error of the run.
pub proof fn lemma_first_latch_wins<E>(es: Seq<E>)
    requires
        es.len() > 0,
    ensures
        latch_all(None, es) == Some(es[0]),
{
    lemma_latched_stays(es[0], es.drop_first());
}

} // verus!
