//! The table of known peers and the local settings.

use vstd::prelude::*;

verus! {

/// A remote machine known to be reachable, identified by its address.
///
/// `last_seen` is the time of the latest announcement, in milliseconds on the
/// process's monotonic clock; `None` means the peer was never stamped here.
#[derive(Debug)]
pub struct Peer {
    pub username: String,
    pub address: String,
    pub last_seen: Option<u64>,
}

/// What a peer is, mathematically.
pub ghost struct PeerView {
    pub username: Seq<char>,
    pub address: Seq<char>,
    pub last_seen: Option<u64>,
}

impl View for Peer {
    type V = PeerView;

    open spec fn view(&self) -> PeerView {
        PeerView { username: self.username@, address: self.address@, last_seen: self.last_seen }
    }
}

impl Clone for Peer {
    fn clone(&self) -> (r: Peer)
        ensures
            r@ == self@,
    {
        Peer {
            username: self.username.clone(),
            address: self.address.clone(),
            last_seen: self.last_seen,
        }
    }
}

/// Two peers are the same entity when their addresses agree.
impl PartialEq for Peer {
    fn eq(&self, other: &Peer) -> (r: bool) {
        self.address == other.address
    }
}

impl vstd::std_specs::cmp::PartialEqSpecImpl for Peer {
    open spec fn obeys_eq_spec() -> bool {
        true
    }

    open spec fn eq_spec(&self, other: &Peer) -> bool {
        self.address@ == other.address@
    }
}

impl Eq for Peer {}


/// The local machine's settings, replaced wholesale on update.
#[derive(Debug)]
pub struct UserSettings {
    pub username: String,
    pub broadcasting_enabled: bool,
    pub broadcast_address: String,
}

impl Clone for UserSettings {
    fn clone(&self) -> (r: UserSettings)
        ensures
            r == *self,
    {
        UserSettings {
            username: self.username.clone(),
            broadcasting_enabled: self.broadcasting_enabled,
            broadcast_address: self.broadcast_address.clone(),
        }
    }
}

/// The username used when the host name cannot be read as text.
pub const FALLBACK_USERNAME: &'static str = "Unknown";

/// The limited broadcast address, which stands for "every interface".
pub const ALL_INTERFACES: &'static str = "255.255.255.255";

/// Relies on gethostname::gethostname, read as UTF-8 text: `None` when the
/// name is not valid UTF-8. The name itself depends on the machine.
#[verifier::external_body]
fn host_name() -> (r: Option<String>) {
    gethostname::gethostname().into_string().ok()
}

/// The default settings on a machine whose host name, read as text, is
/// `host`: broadcasting on every interface under that name, or under
/// "Unknown" when the name is not valid text.
pub fn settings_for_host(host: Option<String>) -> (r: UserSettings)
    ensures
        r.username@ == (match host {
            Some(h) => h@,
            None => FALLBACK_USERNAME@,
        }),
        r.broadcasting_enabled,
        r.broadcast_address@ == ALL_INTERFACES@,
{
    let username = match host {
        Some(name) => name,
        None => FALLBACK_USERNAME.to_string(),
    };
    UserSettings { username, broadcasting_enabled: true, broadcast_address: ALL_INTERFACES.to_string() }
}

impl Default for UserSettings {
    /// The settings for this machine's host name (see `settings_for_host`).
    fn default() -> (r: UserSettings)
        ensures
            r.broadcasting_enabled,
            r.broadcast_address@ == ALL_INTERFACES@,
    {
        settings_for_host(host_name())
    }
}

/// How an announcement changed the table.
#[derive(Debug, Clone, Copy, PartialEq, Eq, Structural)]
pub enum UpsertOutcome {
    /// The address was not known before.
    Inserted,
    /// The address was known under another username.
    UpdatedWithChange,
    /// The address was known under the same username.
    UpdatedNoChange,
}

/// No two peers of `s` share an address.
pub open spec fn addresses_unique(s: Seq<PeerView>) -> bool {
    forall|i: int, j: int|
        0 <= i < s.len() && 0 <= j < s.len() && i != j ==> #[trigger] s[i].address
            != #[trigger] s[j].address
}

/// `a` is the address of some peer of `s`.
pub open spec fn has_address(s: Seq<PeerView>, a: Seq<char>) -> bool {
    exists|i: int| 0 <= i < s.len() && #[trigger] s[i].address == a
}

/// How long ago `last_seen` lies before `now`; a stamp from the future counts as now.
pub open spec fn age(now: u64, last_seen: u64) -> int {
    if now >= last_seen {
        now - last_seen
    } else {
        0
    }
}

/// A peer is stale once it has gone unannounced for `timeout` milliseconds,
/// or when it was never stamped.
pub open spec fn is_stale(p: PeerView, now: u64, timeout: u64) -> bool {
    match p.last_seen {
        None => true,
        Some(t) => age(now, t) >= timeout,
    }
}

/// The peers of `s` that are still fresh at `now`.
pub open spec fn fresh_peers(s: Seq<PeerView>, now: u64, timeout: u64) -> Seq<PeerView> {
    s.filter(|p: PeerView| !is_stale(p, now, timeout))
}

/// The outcome of announcing `c` to a table that holds `s`.
pub open spec fn upsert_outcome(s: Seq<PeerView>, c: PeerView) -> UpsertOutcome {
    if !has_address(s, c.address) {
        UpsertOutcome::Inserted
    } else {
        let i = choose|i: int| 0 <= i < s.len() && #[trigger] s[i].address == c.address;
        if s[i].username == c.username {
            UpsertOutcome::UpdatedNoChange
        } else {
            UpsertOutcome::UpdatedWithChange
        }
    }
}

/// The table after announcing `c`: the record with its address is replaced in
/// place, or `c` is appended.
pub open spec fn upserted(s: Seq<PeerView>, c: PeerView) -> Seq<PeerView> {
    if !has_address(s, c.address) {
        s.push(c)
    } else {
        let i = choose|i: int| 0 <= i < s.len() && #[trigger] s[i].address == c.address;
        s.update(i, c)
    }
}

/// The views of a sequence of peers.
pub open spec fn views_of(s: Seq<Peer>) -> Seq<PeerView> {
    s.map_values(|p: Peer| p@)
}

/// The set of known peers, at most one per address, and the local settings.
pub struct PeerRegistry {
    peers: Vec<Peer>,
    settings: UserSettings,
}

impl View for PeerRegistry {
    type V = Seq<PeerView>;

    closed spec fn view(&self) -> Seq<PeerView> {
        views_of(self.peers@)
    }
}

impl PeerRegistry {
    pub open spec fn wf(&self) -> bool {
        addresses_unique(self@)
    }

    pub closed spec fn spec_settings(&self) -> UserSettings {
        self.settings
    }

    /// An empty table with the given settings.
    pub fn new(settings: UserSettings) -> (r: PeerRegistry)
        ensures
            r.wf(),
            r@ == Seq::<PeerView>::empty(),
            r.spec_settings() == settings,
    {
        PeerRegistry { peers: Vec::new(), settings }
    }

    /// A snapshot copy of the known peers.
    pub fn list_peers(&self) -> (r: Vec<Peer>)
        ensures
            views_of(r@) == self@,
    {
        let mut out: Vec<Peer> = Vec::new();
        let mut i: usize = 0;
        while i < self.peers.len()
            invariant
                i <= self.peers@.len(),
                out@.len() == i,
                views_of(out@) == self@.subrange(0, i as int),
            decreases self.peers@.len() - i,
        {
            let p = self.peers[i].clone();
            assert(p@ == self@[i as int]);
            out.push(p);
            i = i + 1;
            assert(views_of(out@) =~= self@.subrange(0, i as int));
        }
        assert(self@.subrange(0, i as int) =~= self@);
        out
    }

    /// A copy of the current settings.
    pub fn get_settings(&self) -> (r: UserSettings)
        ensures
            r == self.spec_settings(),
    {
        self.settings.clone()
    }

    /// Replaces the settings wholesale; the peers stay.
    pub fn set_settings(&mut self, settings: UserSettings)
        ensures
            final(self)@ == old(self)@,
            final(self).wf() == old(self).wf(),
            final(self).spec_settings() == settings,
    {
        self.settings = settings;
    }

    /// Records an announcement: replaces the record with the candidate's
    /// address, or adds the candidate, and says which of the cases occurred.
    pub fn upsert_peer(&mut self, candidate: Peer) -> (r: UpsertOutcome)
        requires
            old(self).wf(),
        ensures
            final(self).wf(),
            final(self)@ == upserted(old(self)@, candidate@),
            r == upsert_outcome(old(self)@, candidate@),
            final(self).spec_settings() == old(self).spec_settings(),
    {
        let ghost s = self@;
        let mut i: usize = 0;
        while i < self.peers.len()
            invariant
                i <= self.peers@.len(),
                self@ == s,
                s == old(self)@,
                addresses_unique(s),
                self.spec_settings() == old(self).spec_settings(),
                forall|k: int| 0 <= k < i ==> #[trigger] s[k].address != candidate@.address,
            decreases self.peers@.len() - i,
        {
            if self.peers[i].address == candidate.address {
                assert(s[i as int].address == candidate@.address);
                assert(has_address(s, candidate@.address));
                let ghost j = choose|j: int| 0 <= j < s.len() && #[trigger] s[j].address == candidate@.address;
                assert(j == i);
                assert(upserted(s, candidate@) == s.update(i as int, candidate@));
                let same = self.peers[i].username == candidate.username;
                self.peers.set(i, candidate);
                assert(self@ =~= s.update(i as int, candidate@));
                assert(addresses_unique(self@));
                return if same {
                    UpsertOutcome::UpdatedNoChange
                } else {
                    UpsertOutcome::UpdatedWithChange
                };
            }
            i = i + 1;
        }
        self.peers.push(candidate);
        assert(self@ =~= s.push(candidate@));
        assert(!has_address(s, candidate@.address));
        assert(addresses_unique(self@));
        UpsertOutcome::Inserted
    }

    /// Removes every stale peer (see `is_stale`) and returns how many went.
    pub fn evict_stale(&mut self, now: u64, timeout: u64) -> (r: usize)
        requires
            old(self).wf(),
        ensures
            final(self).wf(),
            final(self)@ == fresh_peers(old(self)@, now, timeout),
            r == old(self)@.len() - final(self)@.len(),
            final(self).spec_settings() == old(self).spec_settings(),
    {
        let ghost s = self@;
        let mut kept: Vec<Peer> = Vec::new();
        let mut i: usize = 0;
        while i < self.peers.len()
            invariant
                i <= self.peers@.len(),
                self@ == s,
                views_of(kept@) == fresh_peers(s.subrange(0, i as int), now, timeout),
            decreases self.peers@.len() - i,
        {
            let fresh = match self.peers[i].last_seen {
                None => false,
                Some(t) => {
                    let elapsed: u64 = if now >= t { now - t } else { 0 };
                    elapsed < timeout
                },
            };
            proof {
                let pred = |p: PeerView| !is_stale(p, now, timeout);
                assert(s.subrange(0, i + 1) =~= s.subrange(0, i as int).push(s[i as int]));
                s.subrange(0, i as int).lemma_filter_push(s[i as int], pred);
            }
            if fresh {
                kept.push(self.peers[i].clone());
            }
            i = i + 1;
            assert(views_of(kept@) =~= fresh_peers(s.subrange(0, i as int), now, timeout));
        }
        assert(s.subrange(0, i as int) =~= s);
        let removed = self.peers.len() - kept.len();
        self.peers = kept;
        proof {
            lemma_filter_keeps_unique(s, |p: PeerView| !is_stale(p, now, timeout));
        }
        removed
    }
}

/// An upsert keeps the addresses distinct, and the candidate is in the result.
pub proof fn lemma_upserted(s: Seq<PeerView>, c: PeerView)
    requires
        addresses_unique(s),
    ensures
        addresses_unique(upserted(s, c)),
        exists|j: int| 0 <= j < upserted(s, c).len() && upserted(s, c)[j] == c,
{
    let u = upserted(s, c);
    if has_address(s, c.address) {
        let i = choose|i: int| 0 <= i < s.len() && #[trigger] s[i].address == c.address;
        assert(u[i] == c);
    } else {
        assert(u[s.len() as int] == c);
    }
}

/// Filtering a table keeps its addresses distinct.
proof fn lemma_filter_keeps_unique(s: Seq<PeerView>, pred: spec_fn(PeerView) -> bool)
    requires
        addresses_unique(s),
    ensures
        addresses_unique(s.filter(pred)),
        s.filter(pred).len() <= s.len(),
    decreases s.len(),
{
    reveal(Seq::filter);
    if s.len() > 0 {
        let init = s.drop_last();
        assert(addresses_unique(init));
        lemma_filter_keeps_unique(init, pred);
        let f = init.filter(pred);
        if pred(s.last()) {
            assert forall|k: int| 0 <= k < f.len() implies #[trigger] f[k].address != s.last().address by {
                assert(f.contains(f[k]));
                init.lemma_filter_contains_rev(pred, f[k]);
                let m = choose|m: int| 0 <= m < init.len() && init[m] == f[k];
                assert(s[m] == init[m]);
                assert(s[s.len() - 1] == s.last());
            }
            assert(addresses_unique(f.push(s.last())));
        }
    }
}

} // verus!
