//! Registry of in-flight requests: which ids await a response, and under
//! which ticket each handler was started.
use vstd::prelude::*;
use crate::jsonrpc::{Error, Id, IdView, Outcome, Response};

verus! {

/// An entry of the registry as seen in contracts: the handler's ticket and
/// the request's id.
pub type EntryView = (u64, IdView);

/// Whether some entry of `s` is for `id`.
pub open spec fn has_id(s: Seq<EntryView>, id: IdView) -> bool {
    exists|k: int| 0 <= k < s.len() && (#[trigger] s[k]).1 == id
}

/// Whether some entry of `s` holds ticket `t`.
pub open spec fn has_ticket(s: Seq<EntryView>, t: u64) -> bool {
    exists|k: int| 0 <= k < s.len() && (#[trigger] s[k]).0 == t
}

/// Where the entry for `id` stands in `s`.
pub open spec fn id_index(s: Seq<EntryView>, id: IdView) -> int {
    choose|k: int| 0 <= k < s.len() && (#[trigger] s[k]).1 == id
}

/// Where the entry with ticket `t` stands in `s`.
pub open spec fn ticket_index(s: Seq<EntryView>, t: u64) -> int {
    choose|k: int| 0 <= k < s.len() && (#[trigger] s[k]).0 == t
}

/// No two entries share a ticket or an id, and every ticket is below `next`.
pub open spec fn entries_ok(s: Seq<EntryView>, next: nat) -> bool {
    &&& forall|a: int, b: int|
        0 <= a < b < s.len() ==> (#[trigger] s[a]).0 != (#[trigger] s[b]).0 && s[a].1 != s[b].1
    &&& forall|k: int| 0 <= k < s.len() ==> ((#[trigger] s[k]).0 as nat) < next
}

/// The registry after the entry for `id` is taken out (cancelled), and
/// whether there was one.
pub open spec fn settle_by_id(s: Seq<EntryView>, id: IdView) -> (Seq<EntryView>, bool) {
    if has_id(s, id) {
        (s.remove(id_index(s, id)), true)
    } else {
        (s, false)
    }
}

/// The registry after the handler with ticket `t` finishes, and the id it
/// answers, if its entry was still there.
pub open spec fn settle_by_ticket(s: Seq<EntryView>, t: u64) -> (Seq<EntryView>, Option<IdView>) {
    if has_ticket(s, t) {
        (s.remove(ticket_index(s, t)), Some(s[ticket_index(s, t)].1))
    } else {
        (s, None)
    }
}

/// The registry after a handler for `id` starts under ticket `t`: an earlier
/// entry for the same id is replaced.
pub open spec fn register(s: Seq<EntryView>, t: u64, id: IdView) -> Seq<EntryView> {
    settle_by_id(s, id).0.push((t, id))
}

/// Taking out the entry for `id` leaves no entry for `id`, and every ticket
/// that remains was there before.
proof fn lemma_settled_id_gone(s: Seq<EntryView>, next: nat, id: IdView)
    requires
        entries_ok(s, next),
    ensures
        !has_id(settle_by_id(s, id).0, id),
        forall|j: int|
            0 <= j < settle_by_id(s, id).0.len() ==> ((#[trigger] settle_by_id(s, id).0[j]).0 as nat)
                < next,
{
    if has_id(s, id) {
        let k = id_index(s, id);
        let r = s.remove(k);
        assert forall|j: int| 0 <= j < r.len() implies (#[trigger] r[j]).1 != id && (r[j].0 as nat)
            < next by {
            let j2 = if j < k { j } else { j + 1 };
            assert(r[j] == s[j2]);
            if j2 < k {
                assert(s[j2].1 != s[k].1);
            } else {
                assert(s[k].1 != s[j2].1);
            }
        }
    }
}

/// A request whose handler starts is answered exactly once: by the handler
/// finishing or by its cancellation, whichever comes first. After that,
/// neither the handler nor a further cancellation answers it again.
pub proof fn lemma_one_response_per_request(s: Seq<EntryView>, next: u64, id: IdView)
    requires
        entries_ok(s, next as nat),
    ensures
        ({
            let s1 = register(s, next, id);
            let finished = settle_by_ticket(s1, next);
            let cancelled = settle_by_id(s1, id);
            &&& finished.1 == Some(id)
            &&& !settle_by_id(finished.0, id).1
            &&& settle_by_ticket(finished.0, next).1 is None
            &&& cancelled.1
            &&& settle_by_ticket(cancelled.0, next).1 is None
            &&& !settle_by_id(cancelled.0, id).1
        }),
{
    let m = settle_by_id(s, id).0;
    lemma_settled_id_gone(s, next as nat, id);
    let s1 = register(s, next, id);
    let last = m.len() as int;
    assert(s1 == m.push((next, id)));
    assert(s1[last] == (next, id));
    assert(has_ticket(s1, next));
    let t = ticket_index(s1, next);
    assert(t == last) by {
        if t != last {
            assert(s1[t] == m[t]);
        }
    }
    assert(s1.remove(last) =~= m);
    assert(has_id(s1, id));
    let c = id_index(s1, id);
    assert(c == last) by {
        if c != last {
            assert(s1[c] == m[c]);
        }
    }
    assert(!has_ticket(m, next)) by {
        if has_ticket(m, next) {
            let j = choose|j: int| 0 <= j < m.len() && (#[trigger] m[j]).0 == next;
            assert((m[j].0 as nat) < next as nat);
        }
    }
}

/// The requests whose handlers are running.
pub struct PendingRequests {
    ids: Vec<Id>,
    tickets: Vec<u64>,
    next: u64,
}

/// What starting a handler gives: its ticket, and the response for an
/// earlier request with the same id that it replaced.
pub struct Registration {
    pub ticket: u64,
    pub cancelled: Option<Response>,
}

impl View for PendingRequests {
    type V = Seq<EntryView>;

    closed spec fn view(&self) -> Seq<EntryView> {
        Seq::new(self.ids@.len(), |k: int| (self.tickets@[k], self.ids@[k]@))
    }
}

impl PendingRequests {
    /// The ticket that the next handler will get.
    pub closed spec fn next_ticket(&self) -> nat {
        self.next as nat
    }

    /// The registry is consistent.
    pub closed spec fn wf(&self) -> bool {
        &&& self.ids@.len() == self.tickets@.len()
        &&& entries_ok(self@, self.next as nat)
    }

    /// An empty registry.
    pub fn new() -> (r: PendingRequests)
        ensures
            r.wf(),
            r@ == Seq::<EntryView>::empty(),
            r.next_ticket() == 0,
    {
        let r = PendingRequests { ids: Vec::new(), tickets: Vec::new(), next: 0 };
        assert(r@ =~= Seq::<EntryView>::empty());
        r
    }

    /// Whether another handler can still get a ticket.
    pub fn has_ticket_left(&self) -> (r: bool)
        ensures
            r == (self.next_ticket() < u64::MAX),
    {
        self.next < u64::MAX
    }

    /// The number of requests in flight.
    pub fn len(&self) -> (r: usize)
        requires
            self.wf(),
        ensures
            r == self@.len(),
    {
        self.ids.len()
    }

    fn find_id(&self, id: &Id) -> (r: Option<usize>)
        requires
            self.wf(),
        ensures
            match r {
                Some(k) => k < self@.len() && self@[k as int].1 == id@ && k as int == id_index(
                    self@,
                    id@,
                ),
                None => !has_id(self@, id@),
            },
    {
        let mut k: usize = 0;
        while k < self.ids.len()
            invariant
                self.wf(),
                k <= self@.len(),
                forall|j: int| 0 <= j < k ==> (#[trigger] self@[j]).1 != id@,
            decreases self@.len() - k,
        {
            if self.ids[k].same(id) {
                assert(self@[k as int].1 == id@);
                let ghost c = id_index(self@, id@);
                assert(c == k) by {
                    if c != k {
                        assert(self@[c].1 == self@[k as int].1);
                    }
                }
                return Some(k);
            }
            k = k + 1;
        }
        None
    }

    fn find_ticket(&self, t: u64) -> (r: Option<usize>)
        requires
            self.wf(),
        ensures
            match r {
                Some(k) => k < self@.len() && self@[k as int].0 == t && k as int == ticket_index(
                    self@,
                    t,
                ),
                None => !has_ticket(self@, t),
            },
    {
        let mut k: usize = 0;
        while k < self.tickets.len()
            invariant
                self.wf(),
                k <= self@.len(),
                forall|j: int| 0 <= j < k ==> (#[trigger] self@[j]).0 != t,
            decreases self@.len() - k,
        {
            if self.tickets[k] == t {
                assert(self@[k as int].0 == t);
                let ghost c = ticket_index(self@, t);
                assert(c == k) by {
                    if c != k {
                        assert(self@[c].0 == self@[k as int].0);
                    }
                }
                return Some(k);
            }
            k = k + 1;
        }
        None
    }

    fn remove_at(&mut self, k: usize) -> (r: Id)
        requires
            old(self).wf(),
            k < old(self)@.len(),
        ensures
            final(self).wf(),
            final(self)@ == old(self)@.remove(k as int),
            final(self).next == old(self).next,
            r@ == old(self)@[k as int].1,
    {
        let id = self.ids.remove(k);
        self.tickets.remove(k);
        assert(self@ =~= old(self)@.remove(k as int));
        proof {
            let s = self@;
            let o = old(self)@;
            assert forall|a: int, b: int| 0 <= a < b < s.len() implies (#[trigger] s[a]).0
                != (#[trigger] s[b]).0 && s[a].1 != s[b].1 by {
                let a2 = if a < k { a } else { a + 1 };
                let b2 = if b < k { b } else { b + 1 };
                assert(s[a] == o[a2] && s[b] == o[b2]);
            }
            assert forall|j: int| 0 <= j < s.len() implies ((#[trigger] s[j]).0 as nat)
                < self.next as nat by {
                let j2 = if j < k { j } else { j + 1 };
                assert(s[j] == o[j2]);
            }
        }
        id
    }

    /// Records that a handler for `id` starts, under a fresh ticket. An
    /// earlier request with the same id is cancelled: its response comes back.
    pub fn execute(&mut self, id: Id) -> (r: Registration)
        requires
            old(self).wf(),
            old(self).next_ticket() < u64::MAX,
        ensures
            final(self).wf(),
            r.ticket as nat == old(self).next_ticket(),
            final(self).next_ticket() == old(self).next_ticket() + 1,
            final(self)@ == register(old(self)@, r.ticket, id@),
            r.cancelled is Some <==> has_id(old(self)@, id@),
            r.cancelled matches Some(c) ==> c.id@ == id@ && c.outcome is Error
                && c.outcome->Error_0.code == crate::jsonrpc::ErrorCode::RequestCancelled,
    {
        let cancelled = self.cancel(&id);
        let ghost mid = self@;
        let ticket = self.next;
        let ghost idv = id@;
        self.ids.push(id);
        self.tickets.push(ticket);
        self.next = self.next + 1;
        assert(self@ =~= mid.push((ticket, idv)));
        proof {
            let s = self@;
            assert(!has_id(mid, idv));
            assert forall|a: int, b: int| 0 <= a < b < s.len() implies (#[trigger] s[a]).0
                != (#[trigger] s[b]).0 && s[a].1 != s[b].1 by {
                if b == s.len() - 1 {
                    assert(s[a] == mid[a]);
                } else {
                    assert(s[a] == mid[a] && s[b] == mid[b]);
                }
            }
            assert forall|j: int| 0 <= j < s.len() implies ((#[trigger] s[j]).0 as nat)
                < self.next as nat by {
                if j < s.len() - 1 {
                    assert(s[j] == mid[j]);
                }
            }
        }
        Registration { ticket, cancelled }
    }

    /// Records that the handler with ticket `t` finished with `outcome`. While
    /// its entry stands, it is removed and the response comes back; once the
    /// request was cancelled, nothing does.
    pub fn finish(&mut self, t: u64, outcome: Outcome) -> (r: Option<Response>)
        requires
            old(self).wf(),
        ensures
            final(self).wf(),
            final(self).next_ticket() == old(self).next_ticket(),
            final(self)@ == settle_by_ticket(old(self)@, t).0,
            match settle_by_ticket(old(self)@, t).1 {
                Some(i) => r matches Some(resp) && resp.id@ == i && resp.outcome == outcome,
                None => r is None,
            },
    {
        match self.find_ticket(t) {
            Some(k) => {
                let id = self.remove_at(k);
                Some(Response { outcome, id })
            },
            None => None,
        }
    }

    /// Cancels the request `id`: while it is in flight, it is removed and its
    /// `request_cancelled` response comes back; otherwise nothing happens.
    pub fn cancel(&mut self, id: &Id) -> (r: Option<Response>)
        requires
            old(self).wf(),
        ensures
            final(self).wf(),
            final(self).next_ticket() == old(self).next_ticket(),
            final(self)@ == settle_by_id(old(self)@, id@).0,
            r is Some <==> settle_by_id(old(self)@, id@).1,
            r matches Some(c) ==> c.id@ == id@ && c.outcome is Error && c.outcome->Error_0.code
                == crate::jsonrpc::ErrorCode::RequestCancelled,
    {
        match self.find_id(id) {
            Some(k) => {
                let removed = self.remove_at(k);
                Some(Response::error(Some(removed), Error::request_cancelled()))
            },
            None => None,
        }
    }

    /// Drops every entry: no handler that is still running will answer.
    pub fn cancel_all(&mut self)
        requires
            old(self).wf(),
        ensures
            final(self).wf(),
            final(self).next_ticket() == old(self).next_ticket(),
            final(self)@ == Seq::<EntryView>::empty(),
    {
        self.ids = Vec::new();
        self.tickets = Vec::new();
        assert(self@ =~= Seq::<EntryView>::empty());
    }
}

} // verus!
