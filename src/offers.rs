//! The table of pending offers: each inbound batch waits here, under a
//! unique id, for one accept or reject decision.

use vstd::prelude::*;
use tokio::sync::oneshot::Sender;

verus! {

/// tokio::sync::oneshot::Sender, the sending half of a single-value channel,
/// carried as an opaque value.
#[verifier::external_type_specification]
#[verifier::external_body]
#[verifier::reject_recursive_types(T)]
pub struct ExSender<T>(Sender<T>);

/// Relies on tokio::sync::oneshot::Sender::send: the value is handed to the
/// receiving half, or given back in `Err` when that half is gone.
pub assume_specification<T>[ Sender::<T>::send ](tx: Sender<T>, t: T) -> (r: Result<(), T>)
    ensures
        r matches Err(v) ==> v == t,
;

/// Relies on uuid::Uuid::new_v4, written in its hyphenated form: a random
/// identifier of 36 characters.
#[verifier::external_body]
fn new_offer_id() -> (r: String)
    ensures
        r@.len() == 36,
{
    uuid::Uuid::new_v4().to_string()
}

/// An inbound batch that awaits its decision.
struct PendingOffer {
    id: String,
    decision: Sender<bool>,
}

/// What resolving an id did.
#[derive(Debug, Clone, Copy, PartialEq, Eq, Structural)]
pub enum Resolution {
    /// The offer was removed and its decision handed over.
    Delivered,
    /// The offer was removed, but nobody awaited its decision any more.
    ReceiverGone,
    /// No offer had the id: nothing happened.
    Unknown,
}

/// The ids of a sequence of offers.
spec fn ids_of(v: Seq<PendingOffer>) -> Seq<Seq<char>> {
    v.map_values(|o: PendingOffer| o.id@)
}

/// No id occurs twice in `s`.
pub open spec fn ids_unique(s: Seq<Seq<char>>) -> bool {
    forall|i: int, j: int| 0 <= i < s.len() && 0 <= j < s.len() && i != j ==> s[i] != s[j]
}

/// `s` without the entry `id`, if it holds one.
pub open spec fn without(s: Seq<Seq<char>>, id: Seq<char>) -> Seq<Seq<char>> {
    if s.contains(id) {
        s.remove(choose|i: int| 0 <= i < s.len() && s[i] == id)
    } else {
        s
    }
}

/// The pending offers, at most one per id, and a record of the decision
/// handed to each transfer that was resolved.
pub struct OfferBroker {
    offers: Vec<PendingOffer>,
    delivered: Ghost<Map<Seq<char>, bool>>,
}

impl View for OfferBroker {
    type V = Seq<Seq<char>>;

    closed spec fn view(&self) -> Seq<Seq<char>> {
        ids_of(self.offers@)
    }
}

impl OfferBroker {
    pub open spec fn wf(&self) -> bool {
        ids_unique(self@)
    }

    /// For each id whose transfer received its decision, that decision.
    pub closed spec fn delivered(&self) -> Map<Seq<char>, bool> {
        self.delivered@
    }

    /// A table with no pending offer.
    pub fn new() -> (r: OfferBroker)
        ensures
            r.wf(),
            r@ == Seq::<Seq<char>>::empty(),
            r.delivered() == Map::<Seq<char>, bool>::empty(),
    {
        let r = OfferBroker { offers: Vec::new(), delivered: Ghost(Map::empty()) };
        assert(r@ =~= Seq::<Seq<char>>::empty());
        r
    }

    /// The number of pending offers.
    pub fn len(&self) -> (r: usize)
        ensures
            r == self@.len(),
    {
        self.offers.len()
    }

    /// Whether an offer with this id is pending.
    pub fn contains(&self, id: &String) -> (r: bool)
        ensures
            r == self@.contains(id@),
    {
        match self.position(id) {
            Some(_) => true,
            None => false,
        }
    }

    fn position(&self, id: &String) -> (r: Option<usize>)
        ensures
            match r {
                Some(i) => i < self@.len() && self@[i as int] == id@,
                None => !self@.contains(id@),
            },
    {
        let mut i: usize = 0;
        while i < self.offers.len()
            invariant
                i <= self.offers@.len(),
                forall|k: int| 0 <= k < i ==> #[trigger] self.offers@[k].id@ != id@,
            decreases self.offers@.len() - i,
        {
            if self.offers[i].id == *id {
                return Some(i);
            }
            i = i + 1;
        }
        proof {
            if self@.contains(id@) {
                let k = choose|k: int| 0 <= k < self@.len() && self@[k] == id@;
                assert(self.offers@[k].id@ == id@);
            }
        }
        None
    }

    /// Files an offer under `id`, unless one with that id is pending, in which
    /// case the decision handle is given back and nothing changes.
    pub fn register(&mut self, id: String, decision: Sender<bool>) -> (r: Result<(), Sender<bool>>)
        requires
            old(self).wf(),
        ensures
            final(self).wf(),
            old(self)@.contains(id@) ==> r is Err && final(self)@ == old(self)@,
            !old(self)@.contains(id@) ==> r is Ok && final(self)@ == old(self)@.push(id@),
            final(self).delivered() == old(self).delivered(),
    {
        if self.contains(&id) {
            return Err(decision);
        }
        let ghost s = self@;
        self.offers.push(PendingOffer { id, decision });
        assert(self@ =~= s.push(id@));
        assert(ids_unique(self@)) by {
            assert forall|i: int, j: int| 0 <= i < self@.len() && 0 <= j < self@.len() && i != j
                implies self@[i] != self@[j] by {
                if i == s.len() as int {
                    assert(s.contains(self@[j]) || j == s.len() as int);
                } else if j == s.len() as int {
                    assert(s.contains(self@[i]));
                }
            }
        }
        Ok(())
    }

    /// Files an offer under a fresh random id and returns the id. Should the
    /// id already be pending, the decision handle is given back instead.
    pub fn create_offer(&mut self, decision: Sender<bool>) -> (r: Result<String, Sender<bool>>)
        requires
            old(self).wf(),
        ensures
            final(self).wf(),
            match r {
                Ok(id) => {
                    &&& !old(self)@.contains(id@)
                    &&& final(self)@ == old(self)@.push(id@)
                    &&& id@.len() == 36
                },
                Err(_) => {
                    &&& final(self)@ == old(self)@
                    &&& exists|k: int| 0 <= k < old(self)@.len() && old(self)@[k].len() == 36
                },
            },
            final(self).delivered() == old(self).delivered(),
    {
        let id = new_offer_id();
        let copy = id.clone();
        match self.register(id, decision) {
            Ok(()) => Ok(copy),
            Err(d) => {
                proof {
                    let k = choose|k: int| 0 <= k < old(self)@.len() && old(self)@[k] == copy@;
                    assert(old(self)@[k].len() == 36);
                }
                Err(d)
            },
        }
    }

    /// Resolves the offer `id` with the decision `accepted`: removes it and
    /// hands the decision over. An id that is not pending, because it was never
    /// filed or was resolved already, is a quiet no-op.
    pub fn resolve(&mut self, id: &String, accepted: bool) -> (r: Resolution)
        requires
            old(self).wf(),
        ensures
            final(self).wf(),
            final(self)@ == without(old(self)@, id@),
            (r == Resolution::Unknown) <==> !old(self)@.contains(id@),
            final(self).delivered() == (if r == Resolution::Delivered {
                old(self).delivered().insert(id@, accepted)
            } else {
                old(self).delivered()
            }),
    {
        match self.position(id) {
            None => Resolution::Unknown,
            Some(i) => {
                let ghost s = self@;
                let offer = self.offers.remove(i);
                proof {
                    let j = choose|j: int| 0 <= j < s.len() && s[j] == id@;
                    assert(j == i);
                    assert(self@ =~= s.remove(i as int));
                    assert forall|a: int, b: int| 0 <= a < self@.len() && 0 <= b < self@.len() && a != b
                        implies self@[a] != self@[b] by {
                        let a2 = if a < i { a } else { a + 1 };
                        let b2 = if b < i { b } else { b + 1 };
                        assert(self@[a] == s[a2] && self@[b] == s[b2]);
                    }
                }
                match offer.decision.send(accepted) {
                    Ok(()) => {
                        self.delivered = Ghost(self.delivered@.insert(id@, accepted));
                        Resolution::Delivered
                    },
                    Err(_) => Resolution::ReceiverGone,
                }
            },
        }
    }
}

/// Accepts the pending offer `offer_id`. An unknown id is no error; a known one
/// whose transfer no longer awaits the decision is.
pub fn accept_file_offer(offers: &mut OfferBroker, offer_id: &String) -> (r: Result<(), String>)
    requires
        old(offers).wf(),
    ensures
        final(offers).wf(),
        final(offers)@ == without(old(offers)@, offer_id@),
        !old(offers)@.contains(offer_id@) ==> r is Ok,
        !old(offers)@.contains(offer_id@) ==> final(offers).delivered() == old(offers).delivered(),
        old(offers)@.contains(offer_id@) && r is Ok ==> final(offers).delivered() == old(
            offers,
        ).delivered().insert(offer_id@, true),
        r is Err ==> final(offers).delivered() == old(offers).delivered(),
        r matches Err(e) ==> e@ == "Failed to send acceptance"@,
{
    match offers.resolve(offer_id, true) {
        Resolution::ReceiverGone => Err("Failed to send acceptance".to_string()),
        _ => Ok(()),
    }
}

/// Rejects the pending offer `offer_id`. An unknown id is no error; a known one
/// whose transfer no longer awaits the decision is.
pub fn reject_file_offer(offers: &mut OfferBroker, offer_id: &String) -> (r: Result<(), String>)
    requires
        old(offers).wf(),
    ensures
        final(offers).wf(),
        final(offers)@ == without(old(offers)@, offer_id@),
        !old(offers)@.contains(offer_id@) ==> r is Ok,
        !old(offers)@.contains(offer_id@) ==> final(offers).delivered() == old(offers).delivered(),
        old(offers)@.contains(offer_id@) && r is Ok ==> final(offers).delivered() == old(
            offers,
        ).delivered().insert(offer_id@, false),
        r is Err ==> final(offers).delivered() == old(offers).delivered(),
        r matches Err(e) ==> e@ == "Failed to send rejection"@,
{
    match offers.resolve(offer_id, false) {
        Resolution::ReceiverGone => Err("Failed to send rejection".to_string()),
        _ => Ok(()),
    }
}

/// Resolving an id a second time finds nothing: the second call is a no-op.
pub proof fn lemma_second_resolution_is_noop(s: Seq<Seq<char>>, id: Seq<char>)
    requires
        ids_unique(s),
    ensures
        !without(s, id).contains(id),
        without(without(s, id), id) == without(s, id),
{
    if s.contains(id) {
        let i = choose|i: int| 0 <= i < s.len() && s[i] == id;
        let t = s.remove(i);
        if t.contains(id) {
            let k = choose|k: int| 0 <= k < t.len() && t[k] == id;
            let k2 = if k < i { k } else { k + 1 };
            assert(s[k2] == id);
        }
    }
}

/// Two offers filed one after the other are tracked under distinct ids, and
/// both are pending together.
pub proof fn lemma_offers_distinct(s: Seq<Seq<char>>, id1: Seq<char>, id2: Seq<char>)
    requires
        ids_unique(s),
        !s.contains(id1),
        !s.push(id1).contains(id2),
    ensures
        id1 != id2,
        ids_unique(s.push(id1).push(id2)),
        s.push(id1).push(id2).contains(id1),
        s.push(id1).push(id2).contains(id2),
{
    let t = s.push(id1);
    assert(t[s.len() as int] == id1);
    let u = t.push(id2);
    assert(u[s.len() as int] == id1);
    assert(u[t.len() as int] == id2);
    assert forall|i: int, j: int| 0 <= i < u.len() && 0 <= j < u.len() && i != j implies u[i] != u[j] by {
        if i < s.len() && j < s.len() {
        } else if i < t.len() && j < t.len() {
            if i == s.len() {
                assert(s.contains(u[j]) || j == s.len());
            } else {
                assert(s.contains(u[i]));
            }
        } else if i == t.len() {
            assert(t.contains(u[j]));
        } else {
            assert(t.contains(u[i]));
        }
    }
}

/// Offers under distinct ids are independent: resolving one leaves the other
/// pending, and leaves the decision that the other received as it was.
pub proof fn lemma_resolutions_independent(
    s: Seq<Seq<char>>,
    delivered: Map<Seq<char>, bool>,
    a: Seq<char>,
    accepted: bool,
    b: Seq<char>,
)
    requires
        ids_unique(s),
        s.contains(b),
        a != b,
    ensures
        without(s, a).contains(b),
        delivered.insert(a, accepted).contains_key(b) == delivered.contains_key(b),
        delivered.contains_key(b) ==> delivered.insert(a, accepted)[b] == delivered[b],
{
    let k = choose|k: int| 0 <= k < s.len() && s[k] == b;
    if s.contains(a) {
        let i = choose|i: int| 0 <= i < s.len() && s[i] == a;
        let t = s.remove(i);
        let k2 = if k < i { k } else { k - 1 };
        assert(t[k2] == b);
    }
}

} // verus!
