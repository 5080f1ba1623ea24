//! The decisions of the discovery driver: what a heartbeat tick and an
//! incoming presence announcement do to the peer table.

use vstd::prelude::*;
use crate::registry::{
    addresses_unique, age, fresh_peers, has_address, is_stale, upsert_outcome, upserted, Peer,
    PeerRegistry, PeerView, UpsertOutcome, UserSettings, ALL_INTERFACES,
};

verus! {

/// UDP port of the discovery channel.
pub const DISCOVERY_PORT: u16 = 5000;

/// Period of the heartbeat, in milliseconds.
pub const HEARTBEAT_MS: u64 = 1000;

/// How long a peer may go unannounced before it is evicted: two heartbeats,
/// so that one missed announcement is tolerated.
pub const PEER_TIMEOUT_MS: u64 = 2000;

/// The texts of a sequence of strings.
pub open spec fn texts(v: Seq<String>) -> Seq<Seq<char>> {
    v.map_values(|s: String| s@)
}

/// Whether the table changed in a way worth telling observers: a new peer, or
/// a known one under a new username.
pub open spec fn outcome_notifies(o: UpsertOutcome) -> bool {
    o != UpsertOutcome::UpdatedNoChange
}

/// Whether `source` is one of the local machine's own addresses.
pub fn is_local_address(source: &String, local_addresses: &Vec<String>) -> (r: bool)
    ensures
        r == texts(local_addresses@).contains(source@),
{
    let mut i: usize = 0;
    while i < local_addresses.len()
        invariant
            i <= local_addresses@.len(),
            forall|k: int| 0 <= k < i ==> #[trigger] local_addresses@[k]@ != source@,
        decreases local_addresses@.len() - i,
    {
        if local_addresses[i] == *source {
            assert(texts(local_addresses@)[i as int] == source@);
            return true;
        }
        i = i + 1;
    }
    proof {
        if texts(local_addresses@).contains(source@) {
            let k = choose|k: int| 0 <= k < texts(local_addresses@).len() && texts(local_addresses@)[k] == source@;
            assert(local_addresses@[k]@ == source@);
        }
    }
    false
}

/// Whether an upsert with this outcome calls for a membership notification.
pub fn should_notify(outcome: UpsertOutcome) -> (r: bool)
    ensures
        r == outcome_notifies(outcome),
{
    match outcome {
        UpsertOutcome::UpdatedNoChange => false,
        _ => true,
    }
}

/// Handles a well-formed presence announcement of `username` that came from
/// `source` at time `now`. An announcement from one of the local addresses is
/// dropped; any other is recorded. Returns whether observers are to be told
/// that the membership changed.
pub fn handle_presence(
    registry: &mut PeerRegistry,
    source: String,
    username: String,
    local_addresses: &Vec<String>,
    now: u64,
) -> (r: bool)
    requires
        old(registry).wf(),
    ensures
        final(registry).wf(),
        final(registry).spec_settings() == old(registry).spec_settings(),
        ({
            let c = PeerView { username: username@, address: source@, last_seen: Some(now) };
            if texts(local_addresses@).contains(source@) {
                &&& final(registry)@ == old(registry)@
                &&& !r
            } else {
                &&& final(registry)@ == upserted(old(registry)@, c)
                &&& r == outcome_notifies(upsert_outcome(old(registry)@, c))
            }
        }),
{
    if is_local_address(&source, local_addresses) {
        return false;
    }
    let peer = Peer { username, address: source, last_seen: Some(now) };
    let outcome = registry.upsert_peer(peer);
    should_notify(outcome)
}

/// What a heartbeat tick asks the driver to do.
pub struct TickActions {
    /// Stale peers were removed: observers are to be told.
    pub membership_changed: bool,
    /// The username to announce.
    pub username: String,
    /// Where to send the announcement; empty when broadcasting is off.
    pub targets: Vec<String>,
}

/// The addresses that an announcement goes to under `settings`, given the
/// broadcast addresses of the local interfaces.
pub open spec fn announcement_targets(settings: UserSettings, interface_broadcasts: Seq<Seq<char>>) -> Seq<Seq<char>> {
    if !settings.broadcasting_enabled {
        Seq::empty()
    } else if settings.broadcast_address@ == ALL_INTERFACES@ {
        interface_broadcasts
    } else {
        seq![settings.broadcast_address@]
    }
}

/// Where a presence announcement goes under `settings`: nowhere when
/// broadcasting is off, to every interface's broadcast address in
/// "all interfaces" mode, else to the one configured address.
pub fn broadcast_targets(settings: &UserSettings, interface_broadcasts: &Vec<String>) -> (r: Vec<
    String,
>)
    ensures
        texts(r@) == announcement_targets(*settings, texts(interface_broadcasts@)),
{
    let mut targets: Vec<String> = Vec::new();
    if !settings.broadcasting_enabled {
        return targets;
    }
    let all = ALL_INTERFACES.to_string();
    if settings.broadcast_address == all {
        let mut i: usize = 0;
        while i < interface_broadcasts.len()
            invariant
                i <= interface_broadcasts@.len(),
                targets@.len() == i,
                forall|k: int| 0 <= k < i ==> #[trigger] targets@[k]@ == interface_broadcasts@[k]@,
            decreases interface_broadcasts@.len() - i,
        {
            targets.push(interface_broadcasts[i].clone());
            i = i + 1;
        }
        assert(texts(targets@) =~= texts(interface_broadcasts@));
        proof { reveal_strlit("255.255.255.255"); }
    } else {
        targets.push(settings.broadcast_address.clone());
        assert(texts(targets@) =~= seq![settings.broadcast_address@]);
    }
    targets
}

/// One heartbeat tick at time `now`: evicts the peers that have gone
/// unannounced for `timeout` milliseconds, then says whether to notify and
/// where to announce the local username.
pub fn heartbeat(
    registry: &mut PeerRegistry,
    now: u64,
    timeout: u64,
    interface_broadcasts: &Vec<String>,
) -> (r: TickActions)
    requires
        old(registry).wf(),
    ensures
        final(registry).wf(),
        final(registry)@ == fresh_peers(old(registry)@, now, timeout),
        final(registry).spec_settings() == old(registry).spec_settings(),
        r.membership_changed == (final(registry)@.len() < old(registry)@.len()),
        r.username@ == old(registry).spec_settings().username@,
        texts(r.targets@) == announcement_targets(
            old(registry).spec_settings(),
            texts(interface_broadcasts@),
        ),
{
    let removed = registry.evict_stale(now, timeout);
    let settings = registry.get_settings();
    let targets = broadcast_targets(&settings, interface_broadcasts);
    TickActions { membership_changed: removed > 0, username: settings.username, targets }
}

/// Eviction is exact: at a tick at time `now`, a peer of the table survives
/// if and only if it is not stale, so it is evicted at the first tick at which
/// `timeout` has passed since it was last announced, and never before.
pub proof fn lemma_eviction_exact(s: Seq<PeerView>, i: int, now: u64, timeout: u64)
    requires
        addresses_unique(s),
        0 <= i < s.len(),
    ensures
        has_address(fresh_peers(s, now, timeout), s[i].address) <==> !is_stale(s[i], now, timeout),
{
    let pred = |p: PeerView| !is_stale(p, now, timeout);
    let f = fresh_peers(s, now, timeout);
    if pred(s[i]) {
        s.lemma_filter_contains(pred, i);
        let k = choose|k: int| 0 <= k < f.len() && f[k] == s[i];
        assert(f[k].address == s[i].address);
    } else if has_address(f, s[i].address) {
        let k = choose|k: int| 0 <= k < f.len() && #[trigger] f[k].address == s[i].address;
        s.lemma_filter_pred(pred, k);
        assert(f.contains(f[k]));
        s.lemma_filter_contains_rev(pred, f[k]);
        let m = choose|m: int| 0 <= m < s.len() && s[m] == f[k];
        assert(s[m].address == s[i].address);
    }
}

/// The table after the announcements `msgs`, in order.
pub open spec fn after_announcements(s: Seq<PeerView>, msgs: Seq<PeerView>) -> Seq<PeerView>
    decreases msgs.len(),
{
    if msgs.len() == 0 {
        s
    } else {
        upserted(after_announcements(s, msgs.drop_last()), msgs.last())
    }
}

/// Announcements from other addresses leave a record as it was.
proof fn lemma_record_survives(s: Seq<PeerView>, c: PeerView, msgs: Seq<PeerView>)
    requires
        addresses_unique(s),
        s.contains(c),
        forall|k: int| 0 <= k < msgs.len() ==> #[trigger] msgs[k].address != c.address,
    ensures
        addresses_unique(after_announcements(s, msgs)),
        after_announcements(s, msgs).contains(c),
    decreases msgs.len(),
{
    if msgs.len() > 0 {
        let init = msgs.drop_last();
        assert forall|k: int| 0 <= k < init.len() implies #[trigger] init[k].address != c.address by {
            assert(init[k] == msgs[k]);
        }
        lemma_record_survives(s, c, init);
        let u = after_announcements(s, init);
        let d = msgs.last();
        assert(d == msgs[msgs.len() - 1]);
        crate::registry::lemma_upserted(u, d);
        let j = choose|j: int| 0 <= j < u.len() && u[j] == c;
        if has_address(u, d.address) {
            let i = choose|i: int| 0 <= i < u.len() && #[trigger] u[i].address == d.address;
            assert(upserted(u, d)[j] == c);
        } else {
            assert(upserted(u, d)[j] == c);
        }
    }
}

/// A peer announced at time `t` that stays silent while any other peers
/// announce themselves is kept by every tick before `timeout` milliseconds
/// have passed, and evicted by the first tick after.
pub proof fn lemma_silent_peer_lifetime(
    s: Seq<PeerView>,
    c: PeerView,
    t: u64,
    msgs: Seq<PeerView>,
    now: u64,
    timeout: u64,
)
    requires
        addresses_unique(s),
        c.last_seen == Some(t),
        forall|k: int| 0 <= k < msgs.len() ==> #[trigger] msgs[k].address != c.address,
    ensures
        has_address(fresh_peers(after_announcements(upserted(s, c), msgs), now, timeout), c.address)
            <==> age(now, t) < timeout,
{
    crate::registry::lemma_upserted(s, c);
    let j = choose|j: int| 0 <= j < upserted(s, c).len() && upserted(s, c)[j] == c;
    assert(upserted(s, c).contains(c));
    lemma_record_survives(upserted(s, c), c, msgs);
    let a = after_announcements(upserted(s, c), msgs);
    let m = choose|m: int| 0 <= m < a.len() && a[m] == c;
    lemma_eviction_exact(a, m, now, timeout);
}

/// Announcing a known address again under the username on record calls for
/// no notification; under another username it does.
pub proof fn lemma_reannouncement_notifies(s: Seq<PeerView>, i: int, c: PeerView)
    requires
        addresses_unique(s),
        0 <= i < s.len(),
        s[i].address == c.address,
    ensures
        outcome_notifies(upsert_outcome(s, c)) <==> s[i].username != c.username,
{
    assert(has_address(s, c.address));
    let j = choose|j: int| 0 <= j < s.len() && #[trigger] s[j].address == c.address;
    assert(j == i);
}

} // verus!
