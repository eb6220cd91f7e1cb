//! Durable retry cache, in-memory side: a queue of messages that could not be
//! delivered yet, drained as a whole by each retry pass.  The queue is a
//! multiset keyed by nothing: several messages for the same destination are
//! all retained, in arrival order.  Writing the one-file-per-destination
//! durable records is the caller's concern; this type is the authoritative
//! in-memory list.

use vstd::prelude::*;

verus! {

/// A message waiting for delivery: destination endpoint id plus the
/// serialized envelope bytes, kept opaque here.
pub struct CachedMsg {
    pub dest: String,
    pub data: Vec<u8>,
}

/// Mathematical image of a cached message.
pub struct CachedMsgModel {
    pub dest: Seq<char>,
    pub data: Seq<u8>,
}

impl View for CachedMsg {
    type V = CachedMsgModel;

    open spec fn view(&self) -> CachedMsgModel {
        CachedMsgModel { dest: self.dest@, data: self.data@ }
    }
}

/// The retry queue.  Modelled as the sequence of messages in arrival order.
pub struct Cache {
    entries: Vec<CachedMsg>,
}

impl View for Cache {
    type V = Seq<CachedMsgModel>;

    closed spec fn view(&self) -> Seq<CachedMsgModel> {
        self.entries@.map_values(|m: CachedMsg| m@)
    }
}

impl Cache {
    /// A fresh, empty queue.
    pub fn new() -> (r: Cache)
        ensures
            r@ == Seq::<CachedMsgModel>::empty(),
    {
        let r = Cache { entries: Vec::new() };
        proof {
            assert(r@ =~= Seq::<CachedMsgModel>::empty());
        }
        r
    }

    /// Number of queued messages.
    pub fn len(&self) -> (n: usize)
        ensures
            n == self@.len(),
    {
        self.entries.len()
    }

    /// Append a message.  Nothing is deduplicated: a second message for the
    /// same destination stands beside the first.
    pub fn put(&mut self, msg: CachedMsg)
        ensures
            final(self)@ == old(self)@.push(msg@),
    {
        let ghost before = self.entries@;
        let ghost m = msg@;
        self.entries.push(msg);
        proof {
            assert(self@ =~= old(self)@.push(m));
        }
    }

    /// Atomically hand out the whole queue, over every destination, and leave
    /// the queue empty.  The retry pass must re-`put` whatever it still
    /// cannot deliver.
    pub fn take_all(&mut self) -> (r: Vec<CachedMsg>)
        ensures
            r@.map_values(|m: CachedMsg| m@) == old(self)@,
            final(self)@ == Seq::<CachedMsgModel>::empty(),
    {
        let mut out: Vec<CachedMsg> = Vec::new();
        core::mem::swap(&mut out, &mut self.entries);
        proof {
            assert(self@ =~= Seq::<CachedMsgModel>::empty());
        }
        out
    }
}

/// Law: a message put into an empty queue and then drained comes back as
/// exactly that one message, and the queue is empty afterwards.  `put` turns
/// queue model `s` into `s.push(m)`; `take_all` returns the whole model and
/// leaves the empty sequence.
pub proof fn lemma_put_once_then_drain(m: CachedMsgModel)
    ensures
        Seq::<CachedMsgModel>::empty().push(m).len() == 1,
        Seq::<CachedMsgModel>::empty().push(m)[0] == m,
{
}

/// Law: two messages put before any drain are both retained, in order, even
/// when they name the same destination — the queue is a multiset with no
/// per-destination collapsing.
pub proof fn lemma_put_keeps_duplicates(s: Seq<CachedMsgModel>, m1: CachedMsgModel, m2: CachedMsgModel)
    ensures
        s.push(m1).push(m2).len() == s.len() + 2,
        s.push(m1).push(m2)[s.len() as int] == m1,
        s.push(m1).push(m2)[s.len() as int + 1] == m2,
{
}

} // verus!
