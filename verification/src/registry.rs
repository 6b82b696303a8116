use vstd::prelude::*;
use crate::frame::{Frame, FrameModel};
use futures_channel::mpsc::UnboundedSender;

verus! {

/// The identity of a peer: its remote socket address, held as the numeric
/// value of the IP address together with the TCP port.
#[derive(PartialEq, Eq, Structural, Clone, Copy, Debug)]
pub struct PeerAddr {
    pub ip: u128,
    pub port: u16,
}

/// Declares futures_channel's unbounded sender so that registry entries can
/// hold one. Relied on as the producer half of an unbounded FIFO channel:
/// `unbounded_send` never blocks, and every value it accepts is yielded by
/// the paired receiver in the order the sends were made.
#[verifier::external_type_specification]
#[verifier::external_body]
#[verifier::reject_recursive_types(T)]
pub struct ExUnboundedSender<T>(futures_channel::mpsc::UnboundedSender<T>);

/// The producer half of one peer's outbound queue, carried together with
/// the history of every frame the channel has accepted — a ghost mirror of
/// the real FIFO: what was accepted, in acceptance order, is exactly what
/// the paired receiver will yield.
pub struct OutboundQueue {
    tx: UnboundedSender<Frame>,
    history: Ghost<Seq<FrameModel>>,
}

impl OutboundQueue {
    /// The frames this queue has accepted so far, oldest first.
    pub closed spec fn sent(self) -> Seq<FrameModel> {
        self.history@
    }

    /// Wraps a fresh sender: nothing has been accepted yet. The caller
    /// keeps the paired receiver for the peer's write side.
    pub fn new(tx: UnboundedSender<Frame>) -> (q: OutboundQueue)
        ensures
            q.sent() == Seq::<FrameModel>::empty(),
    {
        OutboundQueue { tx, history: Ghost(Seq::empty()) }
    }

    /// Relies on futures_channel's `UnboundedSender::unbounded_send`: it
    /// never blocks; while the receiver half is alive it appends the value
    /// to the channel's FIFO and returns `Ok`, and once the receiver has
    /// been dropped it hands the value back in an error. The history
    /// mirrors that: an accepted send appends exactly the sent frame's
    /// value, a refused one changes nothing. Which of the two outcomes
    /// occurs depends on the peer's concurrent teardown, so the flag
    /// itself carries no further promise.
    #[verifier::external_body]
    fn enqueue(&mut self, f: Frame) -> (accepted: bool)
        ensures
            accepted ==> final(self).sent() == old(self).sent().push(f@),
            !accepted ==> final(self).sent() == old(self).sent(),
    {
        self.tx.unbounded_send(f).is_ok()
    }
}

struct PeerEntry {
    addr: PeerAddr,
    token: u64,
    q: OutboundQueue,
}

/// The membership table of live peers: for each registered remote address,
/// the token of the connection that registered it and that connection's
/// outbound queue. One instance is shared by all connection handlers; the
/// caller serializes access to it.
pub struct Registry {
    entries: Vec<PeerEntry>,
}

impl Registry {
    /// The identities registered right now, in table order.
    pub closed spec fn addrs(self) -> Seq<PeerAddr> {
        Seq::new(self.entries@.len(), |i: int| self.entries@[i].addr)
    }

    /// Whether `a` is registered.
    pub open spec fn has(self, a: PeerAddr) -> bool {
        self.addrs().contains(a)
    }

    /// The connection token stored for `a`; meaningful only when `a` is
    /// registered.
    pub closed spec fn token_of(self, a: PeerAddr) -> u64 {
        let i = choose|i: int| 0 <= i < self.entries@.len() && self.entries@[i].addr == a;
        self.entries@[i].token
    }

    /// The history of frames accepted by `a`'s outbound queue, oldest
    /// first; meaningful only when `a` is registered.
    pub closed spec fn sent_of(self, a: PeerAddr) -> Seq<FrameModel> {
        let i = choose|i: int| 0 <= i < self.entries@.len() && self.entries@[i].addr == a;
        self.entries@[i].q.sent()
    }

    /// Each address occurs at most once in the table.
    pub closed spec fn wf(self) -> bool {
        forall|i: int, j: int|
            0 <= i < j < self.entries@.len() ==> self.entries@[i].addr != self.entries@[j].addr
    }

    /// In a well-formed table, the entry at a known index is the one that
    /// `token_of` and `sent_of` speak of.
    proof fn lemma_lookup(self, b: PeerAddr, k: int)
        requires
            self.wf(),
            0 <= k < self.entries@.len(),
            self.entries@[k].addr == b,
        ensures
            self.has(b),
            self.token_of(b) == self.entries@[k].token,
            self.sent_of(b) == self.entries@[k].q.sent(),
    {
        assert(self.addrs()[k] == b);
        assert(exists|i: int|
            0 <= i < self.entries@.len() && self.entries@[i].addr == b) by {
            assert(self.entries@[k].addr == b);
        }
        let i = choose|i: int| 0 <= i < self.entries@.len() && self.entries@[i].addr == b;
        if i != k {
            if i < k {
                assert(self.entries@[i].addr != self.entries@[k].addr);
            } else {
                assert(self.entries@[k].addr != self.entries@[i].addr);
            }
        }
    }

    /// In a well-formed registry the address sequence has no duplicates.
    proof fn lemma_addrs_unique_helper(self)
        requires
            self.wf(),
        ensures
            forall|i: int, j: int|
                0 <= i < j < self.addrs().len() ==> self.addrs()[i] != self.addrs()[j],
    {
        assert forall|i: int, j: int|
            0 <= i < j < self.addrs().len() implies self.addrs()[i] != self.addrs()[j] by {
            assert(self.entries@[i].addr != self.entries@[j].addr);
        }
    }

    /// A fresh registry holds no peers.
    pub fn new() -> (r: Registry)
        ensures
            r.wf(),
            r.addrs() == Seq::<PeerAddr>::empty(),
    {
        let r = Registry { entries: Vec::new() };
        proof {
            assert(r.addrs() =~= Seq::<PeerAddr>::empty());
        }
        r
    }

    /// How many peers are registered.
    pub fn len(&self) -> (n: usize)
        ensures
            n == self.addrs().len(),
    {
        self.entries.len()
    }

    /// Whether `a` is registered right now.
    pub fn contains(&self, a: PeerAddr) -> (r: bool)
        ensures
            r == self.has(a),
    {
        let n = self.entries.len();
        let mut i: usize = 0;
        while i < n
            invariant
                i <= n,
                n == self.entries.len(),
                forall|k: int| 0 <= k < i ==> self.entries@[k].addr != a,
            decreases n - i,
        {
            if self.entries[i].addr == a {
                proof {
                    assert(self.addrs()[i as int] == a);
                }
                return true;
            }
            i = i + 1;
        }
        proof {
            assert forall|k: int| 0 <= k < self.addrs().len() implies self.addrs()[k] != a by {}
        }
        false
    }

    /// Places or replaces the entry for `addr`: afterwards `addr` is
    /// registered under `token`, its outbound queue is the fresh one built
    /// on `tx` with an empty history, any older entry for `addr` is gone,
    /// and every other peer — membership, token and queue history — is
    /// untouched. Never fails.
    pub fn insert(&mut self, addr: PeerAddr, token: u64, tx: UnboundedSender<Frame>)
        requires
            old(self).wf(),
        ensures
            final(self).wf(),
            final(self).has(addr),
            final(self).token_of(addr) == token,
            final(self).sent_of(addr) == Seq::<FrameModel>::empty(),
            forall|b: PeerAddr| b != addr ==> final(self).has(b) == old(self).has(b),
            forall|b: PeerAddr|
                b != addr && old(self).has(b) ==> final(self).token_of(b) == old(self).token_of(b)
                    && final(self).sent_of(b) == old(self).sent_of(b),
            old(self).has(addr) ==> final(self).addrs() == old(self).addrs(),
            !old(self).has(addr) ==> final(self).addrs() == old(self).addrs().push(addr),
    {
        let n = self.entries.len();
        let mut i: usize = 0;
        while i < n
            invariant
                old(self).wf(),
                n == self.entries.len(),
                i <= n,
                *self == *old(self),
                forall|k: int| 0 <= k < i ==> self.entries@[k].addr != addr,
            decreases n - i,
        {
            if self.entries[i].addr == addr {
                let q = OutboundQueue::new(tx);
                self.entries.set(i, PeerEntry { addr, token, q });
                proof {
                    self.lemma_insert_replaced(*old(self), i as int, addr, token);
                }
                return;
            }
            i = i + 1;
        }
        let q = OutboundQueue::new(tx);
        self.entries.push(PeerEntry { addr, token, q });
        proof {
            self.lemma_insert_pushed(*old(self), addr, token);
        }
    }

    /// After replacing the entry at `i` with a fresh one, the table's
    /// pointwise facts hold.
    proof fn lemma_insert_replaced(self, prev: Registry, i: int, addr: PeerAddr, token: u64)
        requires
            prev.wf(),
            0 <= i < prev.entries@.len(),
            prev.entries@[i].addr == addr,
            self.entries@.len() == prev.entries@.len(),
            self.entries@[i].addr == addr,
            self.entries@[i].token == token,
            self.entries@[i].q.sent() == Seq::<FrameModel>::empty(),
            forall|k: int|
                0 <= k < self.entries@.len() && k != i ==> self.entries@[k] == prev.entries@[k],
        ensures
            self.wf(),
            self.has(addr),
            self.token_of(addr) == token,
            self.sent_of(addr) == Seq::<FrameModel>::empty(),
            forall|b: PeerAddr| b != addr ==> self.has(b) == prev.has(b),
            forall|b: PeerAddr|
                b != addr && prev.has(b) ==> self.token_of(b) == prev.token_of(b) && self.sent_of(
                    b,
                ) == prev.sent_of(b),
            self.addrs() == prev.addrs(),
    {
        assert forall|x: int, y: int|
            0 <= x < y < self.entries@.len() implies self.entries@[x].addr
            != self.entries@[y].addr by {
            assert(self.entries@[x].addr == prev.entries@[x].addr);
            assert(self.entries@[y].addr == prev.entries@[y].addr);
        }
        assert(self.addrs() =~= prev.addrs());
        self.lemma_lookup(addr, i);
        assert forall|b: PeerAddr| b != addr && prev.has(b) implies self.has(b)
            && self.token_of(b) == prev.token_of(b) && self.sent_of(b) == prev.sent_of(b) by {
            let j = choose|j: int| 0 <= j < prev.addrs().len() && prev.addrs()[j] == b;
            assert(prev.entries@[j].addr == b);
            assert(j != i);
            prev.lemma_lookup(b, j);
            self.lemma_lookup(b, j);
        }
        assert forall|b: PeerAddr| b != addr && self.has(b) implies prev.has(b) by {
            let j = choose|j: int| 0 <= j < self.addrs().len() && self.addrs()[j] == b;
            assert(self.entries@[j].addr == b);
            assert(j != i);
            assert(prev.addrs()[j] == b);
        }
    }

    /// After pushing a fresh entry for a new address, the table's pointwise
    /// facts hold.
    proof fn lemma_insert_pushed(self, prev: Registry, addr: PeerAddr, token: u64)
        requires
            prev.wf(),
            !prev.has(addr),
            self.entries@.len() == prev.entries@.len() + 1,
            forall|k: int| 0 <= k < prev.entries@.len() ==> self.entries@[k] == prev.entries@[k],
            self.entries@.last().addr == addr,
            self.entries@.last().token == token,
            self.entries@.last().q.sent() == Seq::<FrameModel>::empty(),
        ensures
            self.wf(),
            self.has(addr),
            self.token_of(addr) == token,
            self.sent_of(addr) == Seq::<FrameModel>::empty(),
            forall|b: PeerAddr| b != addr ==> self.has(b) == prev.has(b),
            forall|b: PeerAddr|
                b != addr && prev.has(b) ==> self.token_of(b) == prev.token_of(b) && self.sent_of(
                    b,
                ) == prev.sent_of(b),
            self.addrs() == prev.addrs().push(addr),
    {
        let n = prev.entries@.len() as int;
        assert forall|k: int| 0 <= k < n implies prev.entries@[k].addr != addr by {
            assert(prev.addrs()[k] == prev.entries@[k].addr);
        }
        assert forall|x: int, y: int|
            0 <= x < y < self.entries@.len() implies self.entries@[x].addr
            != self.entries@[y].addr by {
            if y < n {
                assert(self.entries@[x].addr == prev.entries@[x].addr);
                assert(self.entries@[y].addr == prev.entries@[y].addr);
            } else {
                assert(self.entries@[x].addr == prev.entries@[x].addr);
                assert(self.entries@[y].addr == addr);
            }
        }
        assert(self.addrs() =~= prev.addrs().push(addr));
        self.lemma_lookup(addr, n);
        assert forall|b: PeerAddr| b != addr && prev.has(b) implies self.has(b)
            && self.token_of(b) == prev.token_of(b) && self.sent_of(b) == prev.sent_of(b) by {
            let j = choose|j: int| 0 <= j < prev.addrs().len() && prev.addrs()[j] == b;
            assert(prev.entries@[j].addr == b);
            prev.lemma_lookup(b, j);
            self.lemma_lookup(b, j);
        }
        assert forall|b: PeerAddr| b != addr && self.has(b) implies prev.has(b) by {
            let j = choose|j: int| 0 <= j < self.addrs().len() && self.addrs()[j] == b;
            assert(self.entries@[j].addr == b);
            assert(j < n);
            assert(prev.addrs()[j] == b);
        }
    }

    /// Compare-and-remove: the entry for `addr` is removed only when it is
    /// present and still carries `token`; in every other case — in
    /// particular when `addr` is not registered at all, or when a newer
    /// connection has replaced the entry under another token — the registry
    /// is left exactly as it was. Other peers — membership, token and
    /// queue history — are never affected.
    pub fn remove(&mut self, addr: PeerAddr, token: u64)
        requires
            old(self).wf(),
        ensures
            final(self).wf(),
            old(self).has(addr) && old(self).token_of(addr) == token ==> !final(self).has(addr)
                && final(self).addrs().len() == old(self).addrs().len() - 1,
            !(old(self).has(addr) && old(self).token_of(addr) == token) ==> *final(self) == *old(
                self,
            ),
            forall|b: PeerAddr| b != addr ==> final(self).has(b) == old(self).has(b),
            forall|b: PeerAddr|
                b != addr && old(self).has(b) ==> final(self).token_of(b) == old(self).token_of(b)
                    && final(self).sent_of(b) == old(self).sent_of(b),
    {
        let n = self.entries.len();
        let mut i: usize = 0;
        while i < n
            invariant
                old(self).wf(),
                n == self.entries.len(),
                i <= n,
                *self == *old(self),
                forall|k: int| 0 <= k < i ==> self.entries@[k].addr != addr,
            decreases n - i,
        {
            if self.entries[i].addr == addr {
                proof {
                    old(self).lemma_lookup(addr, i as int);
                }
                if self.entries[i].token == token {
                    self.entries.remove(i);
                    proof {
                        self.lemma_removed_at(*old(self), i as int, addr);
                    }
                } else {
                    proof {
                        assert(old(self).token_of(addr) != token);
                    }
                }
                return;
            }
            i = i + 1;
        }
        proof {
            assert forall|k: int|
                0 <= k < old(self).addrs().len() implies old(self).addrs()[k] != addr by {}
            assert(!old(self).has(addr));
        }
    }

    /// After deleting the entry at `i`, the table's pointwise facts hold.
    proof fn lemma_removed_at(self, prev: Registry, i: int, addr: PeerAddr)
        requires
            prev.wf(),
            0 <= i < prev.entries@.len(),
            prev.entries@[i].addr == addr,
            self.entries@ == prev.entries@.remove(i),
        ensures
            self.wf(),
            !self.has(addr),
            self.addrs().len() == prev.addrs().len() - 1,
            forall|b: PeerAddr| b != addr ==> self.has(b) == prev.has(b),
            forall|b: PeerAddr|
                b != addr && prev.has(b) ==> self.token_of(b) == prev.token_of(b) && self.sent_of(
                    b,
                ) == prev.sent_of(b),
    {
        let n = prev.entries@.len() as int;
        assert forall|k: int| 0 <= k < n - 1 implies self.entries@[k] == (if k < i {
            prev.entries@[k]
        } else {
            prev.entries@[k + 1]
        }) by {}
        assert forall|k: int| 0 <= k < n && k != i implies prev.entries@[k].addr != addr by {
            if k < i {
                assert(prev.entries@[k].addr != prev.entries@[i].addr);
            } else {
                assert(prev.entries@[i].addr != prev.entries@[k].addr);
            }
        }
        assert forall|x: int, y: int|
            0 <= x < y < n - 1 implies self.entries@[x].addr != self.entries@[y].addr by {}
        assert forall|k: int| 0 <= k < n - 1 implies self.addrs()[k] != addr by {}
        assert(!self.has(addr));
        assert forall|b: PeerAddr| b != addr && prev.has(b) implies self.has(b)
            && self.token_of(b) == prev.token_of(b) && self.sent_of(b) == prev.sent_of(b) by {
            let j = choose|j: int| 0 <= j < prev.addrs().len() && prev.addrs()[j] == b;
            assert(prev.entries@[j].addr == b);
            prev.lemma_lookup(b, j);
            if j < i {
                self.lemma_lookup(b, j);
            } else {
                assert(j > i);
                assert(self.entries@[j - 1].addr == b);
                self.lemma_lookup(b, j - 1);
            }
        }
        assert forall|b: PeerAddr| b != addr && self.has(b) implies prev.has(b) by {
            let j = choose|j: int| 0 <= j < self.addrs().len() && self.addrs()[j] == b;
            assert(self.entries@[j].addr == b);
            if j < i {
                assert(prev.addrs()[j] == b);
            } else {
                assert(prev.addrs()[j + 1] == b);
            }
        }
    }

    /// One broadcast: takes the snapshot of the table and offers `f` to
    /// every registered peer — the sender of the frame included, when it is
    /// registered — exactly once each, in table order. Per peer, when its
    /// outbound queue accepted the offer, exactly the frame's value was
    /// appended to that queue's history — the kind and payload untouched —
    /// and when it refused (the peer tore down concurrently), its history
    /// is unchanged; in either case every queue receives this frame at most
    /// once, after everything it held before. Membership and tokens are
    /// untouched. The returned report lists, per peer in table order, its
    /// identity and whether its queue accepted the frame.
    pub fn broadcast(&mut self, f: &Frame) -> (report: Vec<(PeerAddr, bool)>)
        requires
            old(self).wf(),
        ensures
            final(self).wf(),
            final(self).addrs() == old(self).addrs(),
            forall|b: PeerAddr|
                old(self).has(b) ==> final(self).token_of(b) == old(self).token_of(b),
            report@.len() == old(self).addrs().len(),
            forall|i: int| 0 <= i < report@.len() ==> report@[i].0 == old(self).addrs()[i],
            forall|i: int, j: int|
                0 <= i < j < report@.len() ==> report@[i].0 != report@[j].0,
            forall|i: int|
                0 <= i < report@.len() ==> (report@[i].1 ==> final(self).sent_of(report@[i].0)
                    == old(self).sent_of(report@[i].0).push(f@)) && (!report@[i].1
                    ==> final(self).sent_of(report@[i].0) == old(self).sent_of(report@[i].0)),
    {
        let ghost prev = *self;
        let n = self.entries.len();
        let mut processed: Vec<PeerEntry> = Vec::new();
        let mut report: Vec<(PeerAddr, bool)> = Vec::new();
        let mut i: usize = 0;
        proof {
            assert(self.entries@ =~= prev.entries@.subrange(0, n as int));
        }
        while i < n
            invariant
                prev.wf(),
                n == prev.entries@.len(),
                i <= n,
                report@.len() == i,
                processed@.len() == i,
                self.entries@ == prev.entries@.subrange(i as int, n as int),
                forall|k: int|
                    0 <= k < i ==> #[trigger] processed@[k].addr == prev.entries@[k].addr
                        && processed@[k].token == prev.entries@[k].token,
                forall|k: int| 0 <= k < i ==> #[trigger] report@[k].0 == prev.entries@[k].addr,
                forall|k: int|
                    0 <= k < i ==> (report@[k].1 ==> #[trigger] processed@[k].q.sent()
                        == prev.entries@[k].q.sent().push(f@)) && (!report@[k].1
                        ==> processed@[k].q.sent() == prev.entries@[k].q.sent()),
            decreases n - i,
        {
            let mut entry = self.entries.remove(0);
            proof {
                assert(entry == prev.entries@[i as int]);
                assert(self.entries@ =~= prev.entries@.subrange(i as int + 1, n as int));
            }
            let copy = f.clone();
            let accepted = entry.q.enqueue(copy);
            let a = entry.addr;
            report.push((a, accepted));
            processed.push(entry);
            i = i + 1;
        }
        self.entries = processed;
        proof {
            self.lemma_broadcast_post(prev, report@, f@);
        }
        report
    }

    /// Connects the per-index facts of the broadcast loop to the
    /// address-keyed contract.
    proof fn lemma_broadcast_post(
        self,
        prev: Registry,
        report: Seq<(PeerAddr, bool)>,
        fv: FrameModel,
    )
        requires
            prev.wf(),
            self.entries@.len() == prev.entries@.len(),
            report.len() == prev.entries@.len(),
            forall|k: int|
                0 <= k < report.len() ==> #[trigger] self.entries@[k].addr == prev.entries@[k].addr
                    && self.entries@[k].token == prev.entries@[k].token,
            forall|k: int| 0 <= k < report.len() ==> #[trigger] report[k].0 == prev.entries@[k].addr,
            forall|k: int|
                0 <= k < report.len() ==> (report[k].1 ==> #[trigger] self.entries@[k].q.sent()
                    == prev.entries@[k].q.sent().push(fv)) && (!report[k].1
                    ==> self.entries@[k].q.sent() == prev.entries@[k].q.sent()),
        ensures
            self.wf(),
            self.addrs() == prev.addrs(),
            forall|b: PeerAddr| prev.has(b) ==> self.token_of(b) == prev.token_of(b),
            forall|i: int| 0 <= i < report.len() ==> report[i].0 == prev.addrs()[i],
            forall|i: int, j: int| 0 <= i < j < report.len() ==> report[i].0 != report[j].0,
            forall|i: int|
                0 <= i < report.len() ==> (report[i].1 ==> self.sent_of(report[i].0)
                    == prev.sent_of(report[i].0).push(fv)) && (!report[i].1 ==> self.sent_of(
                    report[i].0,
                ) == prev.sent_of(report[i].0)),
    {
        assert forall|x: int, y: int|
            0 <= x < y < self.entries@.len() implies self.entries@[x].addr
            != self.entries@[y].addr by {
            assert(self.entries@[x].addr == prev.entries@[x].addr);
            assert(self.entries@[y].addr == prev.entries@[y].addr);
        }
        assert(self.addrs() =~= prev.addrs());
        assert forall|b: PeerAddr| prev.has(b) implies self.token_of(b) == prev.token_of(b) by {
            let j = choose|j: int| 0 <= j < prev.addrs().len() && prev.addrs()[j] == b;
            assert(prev.entries@[j].addr == b);
            prev.lemma_lookup(b, j);
            self.lemma_lookup(b, j);
        }
        assert forall|i: int| 0 <= i < report.len() implies report[i].0 == prev.addrs()[i] by {
            assert(prev.addrs()[i] == prev.entries@[i].addr);
        }
        prev.lemma_addrs_unique_helper();
        assert forall|i: int, j: int|
            0 <= i < j < report.len() implies report[i].0 != report[j].0 by {
            assert(prev.addrs()[i] != prev.addrs()[j]);
        }
        assert forall|i: int|
            0 <= i < report.len() implies (report[i].1 ==> self.sent_of(report[i].0)
            == prev.sent_of(report[i].0).push(fv)) && (!report[i].1 ==> self.sent_of(report[i].0)
            == prev.sent_of(report[i].0)) by {
            let a = report[i].0;
            assert(prev.entries@[i].addr == a);
            assert(self.entries@[i].addr == a);
            prev.lemma_lookup(a, i);
            self.lemma_lookup(a, i);
        }
    }
}

/// Fan-out law: when a broadcast is made while `a` is registered, the
/// broadcast's report names `a` exactly once — `a`'s queue was offered the
/// frame, and offered it only once; by the broadcast's own contract, a
/// single accepted copy of the frame stands at the end of `a`'s history.
pub proof fn lemma_broadcast_covers(reg: Registry, report: Seq<(PeerAddr, bool)>, a: PeerAddr)
    requires
        reg.wf(),
        report.len() == reg.addrs().len(),
        forall|i: int| 0 <= i < report.len() ==> report[i].0 == reg.addrs()[i],
        reg.has(a),
    ensures
        exists|i: int| 0 <= i < report.len() && report[i].0 == a,
        forall|i: int, j: int|
            0 <= i < j < report.len() ==> !(report[i].0 == a && report[j].0 == a),
{
    let k = choose|k: int| 0 <= k < reg.addrs().len() && reg.addrs()[k] == a;
    assert(report[k].0 == a);
    reg.lemma_addrs_unique_helper();
    assert forall|i: int, j: int|
        0 <= i < j < report.len() implies !(report[i].0 == a && report[j].0 == a) by {
        assert(reg.addrs()[i] != reg.addrs()[j]);
    }
}

/// Fan-out delivery law: when a broadcast is made while `a` is registered
/// — the sender itself included — the report names `a` exactly once, and
/// `a`'s outbound queue either accepted that single offer, in which case
/// exactly the frame's value now stands at the end of its history after
/// everything it held before, or refused it (concurrent teardown), in
/// which case its history is unchanged. The hypotheses are `broadcast`'s
/// own postconditions over the registry before (`prev`) and after (`fin`).
pub proof fn lemma_broadcast_delivers(
    prev: Registry,
    fin: Registry,
    report: Seq<(PeerAddr, bool)>,
    fv: FrameModel,
    a: PeerAddr,
)
    requires
        prev.wf(),
        report.len() == prev.addrs().len(),
        forall|i: int| 0 <= i < report.len() ==> report[i].0 == prev.addrs()[i],
        forall|i: int|
            0 <= i < report.len() ==> (report[i].1 ==> fin.sent_of(report[i].0) == prev.sent_of(
                report[i].0,
            ).push(fv)) && (!report[i].1 ==> fin.sent_of(report[i].0) == prev.sent_of(
                report[i].0,
            )),
        prev.has(a),
    ensures
        exists|i: int| 0 <= i < report.len() && report[i].0 == a,
        forall|i: int, j: int|
            0 <= i < j < report.len() ==> !(report[i].0 == a && report[j].0 == a),
        forall|i: int|
            0 <= i < report.len() && report[i].0 == a ==> (report[i].1 ==> fin.sent_of(a)
                == prev.sent_of(a).push(fv)) && (!report[i].1 ==> fin.sent_of(a) == prev.sent_of(
                a,
            )),
{
    lemma_broadcast_covers(prev, report, a);
}

/// Sender-inclusion law: the broadcaster does not filter itself out — when
/// the sending peer is registered at the instant of the broadcast, the
/// report names it exactly once, like every other registered peer.
pub proof fn lemma_sender_included(reg: Registry, report: Seq<(PeerAddr, bool)>, sender: PeerAddr)
    requires
        reg.wf(),
        report.len() == reg.addrs().len(),
        forall|i: int| 0 <= i < report.len() ==> report[i].0 == reg.addrs()[i],
        reg.has(sender),
    ensures
        exists|i: int| 0 <= i < report.len() && report[i].0 == sender,
{
    lemma_broadcast_covers(reg, report, sender);
}

} // verus!
