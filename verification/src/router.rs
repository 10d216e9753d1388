//! Matching of asynchronous replies to outstanding requests.
//!
//! Every request sent on the shell or control channel registers its message
//! identifier here. A reply is matched solely by its parent identifier,
//! never by arrival order, so replies may come back in any permutation of
//! submission order. A message whose parent identifier matches no
//! registered request — or none at all — is unsolicited and is handed to
//! the event stream instead. Each registered request resolves exactly
//! once: on its matching reply, on cancellation, or on disconnect.

use vstd::prelude::*;

verus! {

/// No two registered identifiers are equal.
pub open spec fn unique_ids(table: Seq<Seq<u8>>) -> bool {
    forall|i: int, j: int| 0 <= i < j < table.len() ==> table[i] != table[j]
}

/// The table after the request with identifier `p` has been resolved —
/// by its reply or by cancellation. A `p` that is not registered leaves
/// the table unchanged.
pub open spec fn spec_resolve(table: Seq<Seq<u8>>, p: Seq<u8>) -> Seq<Seq<u8>> {
    if table.contains(p) {
        table.remove(table.index_of(p))
    } else {
        table
    }
}

/// Where an incoming message goes: to the caller awaiting it, or to the
/// event-stream subscribers.
#[derive(Clone, Copy, Debug, PartialEq, Eq, Structural)]
pub enum Delivery {
    /// The message is the reply to a registered request; its pending entry
    /// is gone and the awaiting caller gets the message.
    Resolved,
    /// No registered request matches; the message is published to all
    /// event subscribers in arrival order.
    Unsolicited,
}

/// Compares two byte strings.
pub fn bytes_eq(a: &Vec<u8>, b: &Vec<u8>) -> (r: bool)
    ensures
        r == (a@ == b@),
{
    if a.len() != b.len() {
        proof {
            assert(a@ != b@);
        }
        return false;
    }
    let mut i: usize = 0;
    while i < a.len()
        invariant
            a@.len() == b@.len(),
            i <= a@.len(),
            forall|j: int| 0 <= j < i ==> a@[j] == b@[j],
        decreases a@.len() - i,
    {
        if a[i] != b[i] {
            return false;
        }
        i = i + 1;
    }
    proof {
        assert(a@ =~= b@);
    }
    true
}

/// The matching table: identifiers of requests sent on shell or control
/// that still await their terminal reply. The single piece of state shared
/// between the receive side and submitting callers; every mutation goes
/// through `&mut self`, so all changes are serialized by ownership.
pub struct Router {
    pending: Vec<Vec<u8>>,
}

impl View for Router {
    type V = Seq<Seq<u8>>;

    closed spec fn view(&self) -> Seq<Seq<u8>> {
        self.pending@.map_values(|v: Vec<u8>| v@)
    }
}

impl Router {
    /// Identifiers never repeat in the table.
    pub open spec fn wf(&self) -> bool {
        unique_ids(self@)
    }

    /// An empty table: nothing outstanding.
    pub fn new() -> (r: Router)
        ensures
            r@ == Seq::<Seq<u8>>::empty(),
            r.wf(),
    {
        let r = Router { pending: Vec::new() };
        proof {
            assert(r@ =~= Seq::<Seq<u8>>::empty());
        }
        r
    }

    /// How many requests are outstanding.
    pub fn outstanding(&self) -> (n: usize)
        ensures
            n == self@.len(),
    {
        self.pending.len()
    }

    /// The index of `id` in the table, if it is registered.
    fn find(&self, id: &Vec<u8>) -> (r: Option<usize>)
        ensures
            match r {
                Some(i) => i < self@.len() && self@[i as int] == id@,
                None => !self@.contains(id@),
            },
    {
        let mut i: usize = 0;
        while i < self.pending.len()
            invariant
                i <= self@.len(),
                self@.len() == self.pending@.len(),
                forall|j: int| 0 <= j < i ==> self@[j] != id@,
            decreases self@.len() - i,
        {
            if bytes_eq(&self.pending[i], id) {
                return Some(i);
            }
            i = i + 1;
        }
        proof {
            if self@.contains(id@) {
                let w = choose|k: int| 0 <= k < self@.len() && self@[k] == id@;
                assert(self@[w] != id@);
            }
        }
        None
    }

    /// Whether a request with this identifier is registered.
    pub fn contains(&self, id: &Vec<u8>) -> (r: bool)
        ensures
            r == self@.contains(id@),
    {
        match self.find(id) {
            Some(_) => {
                proof {
                    assert(self@.contains(id@));
                }
                true
            },
            None => false,
        }
    }

    /// Registers a request identifier awaiting its reply. Returns whether
    /// the identifier was fresh; a duplicate leaves the table unchanged,
    /// so an already-pending request can never be shadowed.
    pub fn submit(&mut self, id: &Vec<u8>) -> (fresh: bool)
        requires
            old(self).wf(),
        ensures
            final(self).wf(),
            fresh == !old(self)@.contains(id@),
            fresh ==> final(self)@ == old(self)@.push(id@),
            !fresh ==> final(self)@ == old(self)@,
    {
        match self.find(id) {
            Some(_) => false,
            None => {
                proof {
                    assert forall|k: int| 0 <= k < self@.len() implies self@[k] != id@ by {
                        if self@[k] == id@ {
                            assert(self@.contains(id@));
                        }
                    }
                }
                self.pending.push(id.clone());
                proof {
                    assert(self@ =~= old(self)@.push(id@));
                }
                true
            },
        }
    }

    /// Routes an incoming message by its parent identifier. A message that
    /// carries the identifier of a registered request resolves that request
    /// and removes it; anything else — no parent, or a parent no request is
    /// waiting on — is unsolicited.
    pub fn deliver(&mut self, parent: &Option<Vec<u8>>) -> (d: Delivery)
        requires
            old(self).wf(),
        ensures
            final(self).wf(),
            match parent {
                Some(p) => {
                    &&& d == (if old(self)@.contains(p@) {
                        Delivery::Resolved
                    } else {
                        Delivery::Unsolicited
                    })
                    &&& final(self)@ == spec_resolve(old(self)@, p@)
                },
                None => d == Delivery::Unsolicited && final(self)@ == old(self)@,
            },
    {
        match parent {
            None => Delivery::Unsolicited,
            Some(p) => {
                match self.find(p) {
                    None => Delivery::Unsolicited,
                    Some(i) => {
                        proof {
                            lemma_remove_any_is_resolve(self@, p@, i as int);
                            lemma_resolve_preserves_unique(self@, p@);
                        }
                        self.pending.remove(i);
                        proof {
                            assert(self@ =~= old(self)@.remove(i as int));
                        }
                        Delivery::Resolved
                    },
                }
            },
        }
    }

    /// Cancels a pending request before its reply arrives: removes it from
    /// the table, so a late reply for it will be treated as unsolicited.
    /// Returns whether the request was still pending.
    pub fn cancel(&mut self, id: &Vec<u8>) -> (was_pending: bool)
        requires
            old(self).wf(),
        ensures
            final(self).wf(),
            was_pending == old(self)@.contains(id@),
            final(self)@ == spec_resolve(old(self)@, id@),
    {
        match self.find(id) {
            None => false,
            Some(i) => {
                proof {
                    lemma_remove_any_is_resolve(self@, id@, i as int);
                    lemma_resolve_preserves_unique(self@, id@);
                }
                self.pending.remove(i);
                proof {
                    assert(self@ =~= old(self)@.remove(i as int));
                }
                true
            },
        }
    }

    /// Empties the table on disconnect and hands back every identifier
    /// that was still outstanding, in registration order, so each can be
    /// resolved with a disconnection error. Nothing is left dangling.
    pub fn disconnect(&mut self) -> (cancelled: Vec<Vec<u8>>)
        ensures
            final(self)@ == Seq::<Seq<u8>>::empty(),
            final(self).wf(),
            cancelled@.map_values(|v: Vec<u8>| v@) == old(self)@,
    {
        let mut cancelled: Vec<Vec<u8>> = Vec::new();
        while self.pending.len() > 0
            invariant
                cancelled@.map_values(|v: Vec<u8>| v@) + self@ =~= old(self)@,
            decreases self.pending@.len(),
        {
            let x = self.pending.remove(0);
            cancelled.push(x);
            proof {
                assert(cancelled@.map_values(|v: Vec<u8>| v@) + self@ =~= old(self)@);
            }
        }
        proof {
            assert(self@ =~= Seq::<Seq<u8>>::empty());
            assert(cancelled@.map_values(|v: Vec<u8>| v@) =~= old(self)@);
        }
        cancelled
    }
}

/// Removing any index that holds `p` from a table of unique identifiers
/// is the same table that resolving `p` yields.
proof fn lemma_remove_any_is_resolve(table: Seq<Seq<u8>>, p: Seq<u8>, i: int)
    requires
        unique_ids(table),
        0 <= i < table.len(),
        table[i] == p,
    ensures
        table.remove(i) == spec_resolve(table, p),
{
    assert(table.contains(p));
    let w = table.index_of(p);
    assert(table[w] == p);
    if i < w {
        assert(table[i] != table[w]);
    } else if w < i {
        assert(table[w] != table[i]);
    }
    assert(i == w);
}

/// Resolution preserves uniqueness of the registered identifiers.
pub proof fn lemma_resolve_preserves_unique(table: Seq<Seq<u8>>, p: Seq<u8>)
    requires
        unique_ids(table),
    ensures
        unique_ids(spec_resolve(table, p)),
{
    if table.contains(p) {
        let k = table.index_of(p);
        let r = table.remove(k);
        assert forall|i: int, j: int| 0 <= i < j < r.len() implies r[i] != r[j] by {
            let i0: int = if i < k { i } else { i + 1 };
            let j0: int = if j < k { j } else { j + 1 };
            assert(r[i] == table[i0]);
            assert(r[j] == table[j0]);
        }
    }
}

/// After resolution, the identifier is registered exactly when it was
/// before and is not the one resolved: a reply takes out its own request
/// and no other.
pub proof fn lemma_resolve_contains(table: Seq<Seq<u8>>, p: Seq<u8>, x: Seq<u8>)
    requires
        unique_ids(table),
    ensures
        spec_resolve(table, p).contains(x) <==> (table.contains(x) && x != p),
{
    if table.contains(p) {
        let k = table.index_of(p);
        let r = table.remove(k);
        assert(table[k] == p);
        if table.contains(x) && x != p {
            let w = choose|w: int| 0 <= w < table.len() && table[w] == x;
            if w < k {
                assert(r[w] == table[w]);
                assert(r.contains(x));
            } else {
                assert(table[w] != table[k]);
                assert(r[w - 1] == table[w]);
                assert(r.contains(x));
            }
        }
        if r.contains(x) {
            let w = choose|w: int| 0 <= w < r.len() && r[w] == x;
            let w0: int = if w < k { w } else { w + 1 };
            assert(r[w] == table[w0]);
            assert(table.contains(x));
            if x == p {
                assert(table[w0] == table[k]);
            }
        }
    } else {
        if table.contains(x) && x == p {
            assert(table.contains(p));
        }
    }
}

/// The table after a whole stream of replies, delivered first to last.
pub open spec fn spec_run(table: Seq<Seq<u8>>, parents: Seq<Seq<u8>>) -> Seq<Seq<u8>>
    decreases parents.len(),
{
    if parents.len() == 0 {
        table
    } else {
        spec_run(spec_resolve(table, parents[0]), parents.skip(1))
    }
}

/// Matching correctness over any permutation of replies: however a stream
/// of replies is ordered, a registered request is still outstanding
/// afterwards exactly when no reply in the stream carried its identifier —
/// so each request is resolved by the reply whose parent identifier equals
/// its own, independent of submission or arrival order, and a reply for an
/// unknown identifier resolves nothing.
pub proof fn lemma_run_matches(table: Seq<Seq<u8>>, parents: Seq<Seq<u8>>, x: Seq<u8>)
    requires
        unique_ids(table),
    ensures
        unique_ids(spec_run(table, parents)),
        spec_run(table, parents).contains(x) <==> (table.contains(x) && !parents.contains(x)),
    decreases parents.len(),
{
    if parents.len() == 0 {
    } else {
        let p = parents[0];
        lemma_resolve_preserves_unique(table, p);
        lemma_resolve_contains(table, p, x);
        lemma_run_matches(spec_resolve(table, p), parents.skip(1), x);
        assert(parents.contains(x) <==> (x == p || parents.skip(1).contains(x))) by {
            if parents.contains(x) {
                let w = choose|w: int| 0 <= w < parents.len() && parents[w] == x;
                if w > 0 {
                    assert(parents.skip(1)[w - 1] == x);
                }
            }
            if parents.skip(1).contains(x) {
                let w = choose|w: int| 0 <= w < parents.skip(1).len() && parents.skip(1)[w] == x;
                assert(parents[w + 1] == x);
            }
        }
    }
}

/// A request resolves at most once: once its reply (or cancellation) has
/// taken it out of the table, a second message with the same parent
/// identifier finds nothing to resolve — it is unsolicited and leaves the
/// table unchanged, and the original handle is never touched again.
pub proof fn lemma_resolve_exactly_once(table: Seq<Seq<u8>>, p: Seq<u8>)
    requires
        unique_ids(table),
    ensures
        !spec_resolve(table, p).contains(p),
        spec_resolve(spec_resolve(table, p), p) == spec_resolve(table, p),
{
    lemma_resolve_contains(table, p, p);
}

} // verus!
