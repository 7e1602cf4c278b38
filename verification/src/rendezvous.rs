//! The UDP rendezvous ("NAT signaling") service: which peers have asked about
//! which session, who is told about whom, and the client's retry schedule.

use vstd::prelude::*;
use crate::text::{owned, texts};

verus! {

/// A peer's request: the session it wants to meet someone in.
#[derive(Debug, Clone)]
pub struct PunchRequest {
    pub session_id: String,
}

/// The service's answer: another peer's address, once there is one.
#[derive(Debug, Clone)]
pub struct PunchResponse {
    pub peer: Option<String>,
}

/// The peers (by address text) that have asked about one session.
#[derive(Debug, Clone)]
pub struct SessionPeers {
    pub session_id: String,
    pub peers: Vec<String>,
}

impl View for SessionPeers {
    type V = (Seq<char>, Seq<Seq<char>>);

    open spec fn view(&self) -> (Seq<char>, Seq<Seq<char>>) {
        (self.session_id@, texts(self.peers@))
    }
}

/// One answer to send: to whom, and which peer it names.
#[derive(Debug, Clone)]
pub struct Delivery {
    pub to: String,
    pub peer: Option<String>,
}

impl View for Delivery {
    type V = (Seq<char>, Option<Seq<char>>);

    open spec fn view(&self) -> (Seq<char>, Option<Seq<char>>) {
        (
            self.to@,
            match self.peer {
                Some(p) => Some(p@),
                None => None,
            },
        )
    }
}

/// The views of a list of deliveries.
pub open spec fn delivery_views(v: Seq<Delivery>) -> Seq<(Seq<char>, Option<Seq<char>>)> {
    v.map_values(|d: Delivery| d@)
}

/// Session entries as (session id, peers) pairs.
pub type Entries = Seq<(Seq<char>, Seq<Seq<char>>)>;

/// Whether some entry belongs to session `id`.
pub open spec fn has_session(e: Entries, id: Seq<char>) -> bool
    decreases e.len(),
{
    if e.len() == 0 {
        false
    } else if e.last().0 == id {
        true
    } else {
        has_session(e.drop_last(), id)
    }
}

/// The peers of session `id` (the last entry for it; none if it has none).
pub open spec fn peers_in(e: Entries, id: Seq<char>) -> Seq<Seq<char>>
    decreases e.len(),
{
    if e.len() == 0 {
        Seq::empty()
    } else if e.last().0 == id {
        e.last().1
    } else {
        peers_in(e.drop_last(), id)
    }
}

/// The peers per session id of some entries.
pub open spec fn entries_map(e: Entries) -> Map<Seq<char>, Seq<Seq<char>>> {
    Map::new(|k: Seq<char>| has_session(e, k), |k: Seq<char>| peers_in(e, k))
}

/// Entries that agree with `e` but for session `id`, whose peers are `v`,
/// map to `e`'s map with `id` set to `v`.
pub proof fn lemma_entries_map_insert(e: Entries, u: Entries, id: Seq<char>, v: Seq<Seq<char>>)
    requires
        forall|k: Seq<char>| #[trigger] has_session(u, k) == (has_session(e, k) || k == id),
        forall|k: Seq<char>| #[trigger] peers_in(u, k) == (if k == id { v } else { peers_in(e, k) }),
    ensures
        entries_map(u) == entries_map(e).insert(id, v),
{
    let m1 = entries_map(u);
    let m0 = entries_map(e).insert(id, v);
    assert(m1.dom() =~= m0.dom());
    assert forall|k: Seq<char>| m1.dom().contains(k) implies #[trigger] m1[k] == m0[k] by {
        if k != id {
            assert(entries_map(e)[k] == peers_in(e, k));
        }
    }
    assert(m1 =~= m0);
}

/// The peers a map holds for `id` (none if it has no entry).
pub open spec fn lookup(m: Map<Seq<char>, Seq<Seq<char>>>, id: Seq<char>) -> Seq<Seq<char>> {
    if m.dom().contains(id) {
        m[id]
    } else {
        Seq::empty()
    }
}

/// Without a session, entries have no peers for it.
proof fn lemma_no_session_no_peers(e: Entries, id: Seq<char>)
    requires
        !has_session(e, id),
    ensures
        peers_in(e, id) == Seq::<Seq<char>>::empty(),
    decreases e.len(),
{
    if e.len() > 0 {
        lemma_no_session_no_peers(e.drop_last(), id);
    }
}

/// The peers entries hold for `id` are what their map holds for it.
pub proof fn lemma_peers_in_is_lookup(e: Entries, id: Seq<char>)
    ensures
        peers_in(e, id) == lookup(entries_map(e), id),
{
    if !has_session(e, id) {
        lemma_no_session_no_peers(e, id);
    }
}

/// No element occurs twice.
pub open spec fn distinct<T>(s: Seq<T>) -> bool {
    forall|a: int, b: int| 0 <= a < b < s.len() ==> s[a] != s[b]
}

/// Session ids are distinct, and so are the peers of each session.
pub open spec fn entries_wf(e: Entries) -> bool {
    &&& forall|a: int, b: int| 0 <= a < b < e.len() ==> #[trigger] e[a].0 != #[trigger] e[b].0
    &&& forall|i: int| 0 <= i < e.len() ==> distinct(#[trigger] e[i].1)
}

/// A session's peers after `addr` asks about it: unchanged if it is already
/// there, else with `addr` added at the end.
pub open spec fn with_peer(ps: Seq<Seq<char>>, addr: Seq<char>) -> Seq<Seq<char>> {
    if ps.contains(addr) {
        ps
    } else {
        ps.push(addr)
    }
}

/// The first peer of `ps` other than `p`.
pub open spec fn first_other(ps: Seq<Seq<char>>, p: Seq<char>) -> Option<Seq<char>>
    decreases ps.len(),
{
    if ps.len() == 0 {
        None
    } else if ps[0] != p {
        Some(ps[0])
    } else {
        first_other(ps.drop_first(), p)
    }
}

/// The answers sent after a request from `addr` leaves the session with
/// peers `ps`: with two or more peers, each peer in turn is told the first
/// other peer; otherwise `addr` alone is told that there is no peer yet.
pub open spec fn answers(ps: Seq<Seq<char>>, addr: Seq<char>) -> Seq<(Seq<char>, Option<Seq<char>>)> {
    if ps.len() >= 2 {
        Seq::new(ps.len(), |j: int| (ps[j], first_other(ps, ps[j])))
    } else {
        seq![(addr, None)]
    }
}

/// The entries of a list of sessions.
pub open spec fn entries_of(v: Seq<SessionPeers>) -> Entries {
    v.map_values(|s: SessionPeers| s@)
}

/// The rendezvous service's memory: the peers seen per session.
pub struct NatRegistry {
    sessions: Vec<SessionPeers>,
}

impl NatRegistry {
    /// The sessions, in the order they were first asked about.
    pub closed spec fn entries(&self) -> Entries {
        entries_of(self.sessions@)
    }

    /// The registry's invariant: session ids are distinct, and so are the
    /// peers of each session.
    #[verifier::type_invariant]
    pub closed spec fn wf(&self) -> bool {
        entries_wf(entries_of(self.sessions@))
    }

    /// The peers per session id.
    pub open spec fn peer_map(&self) -> Map<Seq<char>, Seq<Seq<char>>> {
        entries_map(self.entries())
    }

    /// A registry that has seen no one.
    pub fn new() -> (r: NatRegistry)
        ensures
            r.wf(),
            r.peer_map() == Map::<Seq<char>, Seq<Seq<char>>>::empty(),
    {
        let r = NatRegistry { sessions: Vec::new() };
        assert(r.entries() =~= Seq::empty());
        assert(r.peer_map() =~= Map::<Seq<char>, Seq<Seq<char>>>::empty());
        r
    }

    /// The peers the registry holds for `session_id`.
    pub fn peers_of(&self, session_id: &str) -> (r: Vec<String>)
        ensures
            texts(r@) == lookup(self.peer_map(), session_id@),
    {
        proof {
            use_type_invariant(self);
            lemma_peers_in_is_lookup(self.entries(), session_id@);
        }
        let mut i: usize = 0;
        while i < self.sessions.len()
            invariant
                i <= self.sessions@.len(),
                entries_wf(self.entries()),
                forall|j: int| 0 <= j < i ==> #[trigger] self.entries()[j].0 != session_id@,
            decreases self.sessions@.len() - i,
        {
            if self.sessions[i].session_id == owned(session_id) {
                proof {
                    lemma_peers_at(self.entries(), i as int);
                }
                return self.sessions[i].peers.clone();
            }
            i = i + 1;
        }
        proof {
            lemma_absent(self.entries(), session_id@);
        }
        Vec::new()
    }

    /// Records that `addr` asked about `session_id` and returns the answers
    /// to send: with two or more peers in the session, every peer is told
    /// the first other peer; otherwise the asking peer is told "none yet".
    pub fn register(&mut self, session_id: &str, addr: &str) -> (r: Vec<Delivery>)
        ensures
            final(self).peer_map() == old(self).peer_map().insert(
                session_id@,
                with_peer(lookup(old(self).peer_map(), session_id@), addr@),
            ),
            delivery_views(r@) == answers(
                with_peer(lookup(old(self).peer_map(), session_id@), addr@),
                addr@,
            ),
            ({
                let ps = with_peer(lookup(old(self).peer_map(), session_id@), addr@);
                &&& ps.len() >= 2 ==> delivery_views(r@).len() == ps.len() && forall|j: int| 0 <= j < ps.len()
                    ==> #[trigger] delivery_views(r@)[j] == (ps[j], Some(if j == 0 { ps[1] } else { ps[0] }))
                &&& ps.len() < 2 ==> delivery_views(r@) == seq![(addr@, None::<Seq<char>>)]
            }),
    {
        proof {
            use_type_invariant(&*self);
            lemma_peers_in_is_lookup(self.entries(), session_id@);
        }
        let mut sessions: Vec<SessionPeers> = Vec::new();
        std::mem::swap(&mut sessions, &mut self.sessions);
        let ghost e0 = entries_of(sessions@);
        let ghost ps = with_peer(peers_in(e0, session_id@), addr@);
        let key = owned(session_id);
        let mut found: Option<usize> = None;
        let mut i: usize = 0;
        while i < sessions.len()
            invariant
                i <= sessions@.len(),
                entries_of(sessions@) == e0,
                key@ == session_id@,
                found matches Some(k) ==> k < sessions@.len() && e0[k as int].0 == session_id@,
                found is None ==> forall|j: int| 0 <= j < i ==> #[trigger] e0[j].0 != session_id@,
            decreases sessions@.len() - i,
        {
            if found.is_none() && sessions[i].session_id == key {
                found = Some(i);
            }
            i = i + 1;
        }
        let peers: Vec<String> = match found {
            Some(k) => {
                proof {
                    lemma_peers_at(e0, k as int);
                }
                let mut entry = sessions.remove(k);
                let ghost before = texts(entry.peers@);
                if !contains_text(&entry.peers, addr) {
                    entry.peers.push(owned(addr));
                    assert(texts(entry.peers@) =~= before.push(addr@));
                }
                let peers = entry.peers.clone();
                assert(texts(peers@) =~= texts(entry.peers@));
                sessions.insert(k, entry);
                proof {
                    assert(entries_of(sessions@) =~= e0.update(k as int, (session_id@, ps)));
                    lemma_update_entry(e0, k as int, ps);
                    lemma_with_peer_distinct(before, addr@);
                    let u = entries_of(sessions@);
                    assert(has_session(e0, session_id@));
                    assert forall|kk: Seq<char>| #[trigger] has_session(u, kk) == (has_session(e0, kk) || kk == session_id@) by {
                    }
                    lemma_entries_map_insert(e0, u, session_id@, ps);
                }
                peers
            },
            None => {
                proof {
                    lemma_absent(e0, session_id@);
                }
                let mut peers: Vec<String> = Vec::new();
                peers.push(owned(addr));
                let copy = peers.clone();
                assert(texts(copy@) =~= seq![addr@]);
                assert(ps =~= seq![addr@]);
                sessions.push(SessionPeers { session_id: key, peers: copy });
                proof {
                    let u = entries_of(sessions@);
                    assert(u =~= e0.push((session_id@, ps)));
                    assert(u.drop_last() =~= e0);
                    assert forall|kk: Seq<char>| #[trigger] has_session(u, kk) == (has_session(e0, kk) || kk == session_id@) by {
                    }
                    assert forall|kk: Seq<char>| #[trigger] peers_in(u, kk) == (if kk == session_id@ { ps } else { peers_in(e0, kk) }) by {
                    }
                    lemma_entries_map_insert(e0, u, session_id@, ps);
                }
                assert(texts(peers@) =~= ps);
                peers
            },
        };
        self.sessions = sessions;
        let mut out: Vec<Delivery> = Vec::new();
        if peers.len() >= 2 {
            let mut j: usize = 0;
            while j < peers.len()
                invariant
                    j <= peers@.len(),
                    texts(peers@) == ps,
                    ps.len() >= 2,
                    distinct(ps),
                    delivery_views(out@) =~= Seq::new(j as nat, |x: int| (ps[x], first_other(ps, ps[x]))),
                decreases peers@.len() - j,
            {
                let other = first_other_text(&peers, peers[j].as_str());
                proof {
                    lemma_first_other_some(ps, ps[j as int]);
                }
                match other {
                    Some(o) => {
                        let ghost before = delivery_views(out@);
                        out.push(Delivery { to: peers[j].clone(), peer: Some(o) });
                        assert(delivery_views(out@) =~= before.push((ps[j as int], first_other(ps, ps[j as int]))));
                    },
                    None => {},
                }
                j = j + 1;
            }
            proof {
                lemma_answers_first_other_peer(ps, addr@);
            }
        } else {
            out.push(Delivery { to: owned(addr), peer: None });
            assert(delivery_views(out@) =~= seq![(addr@, None::<Seq<char>>)]);
        }
        out
    }
}

/// Whether `addr` is among `peers`.
fn contains_text(peers: &Vec<String>, addr: &str) -> (r: bool)
    ensures
        r == texts(peers@).contains(addr@),
{
    let a = owned(addr);
    let mut i: usize = 0;
    while i < peers.len()
        invariant
            i <= peers@.len(),
            a@ == addr@,
            forall|j: int| 0 <= j < i ==> #[trigger] peers@[j]@ != addr@,
        decreases peers@.len() - i,
    {
        if peers[i] == a {
            assert(texts(peers@)[i as int] == addr@);
            return true;
        }
        i = i + 1;
    }
    proof {
        if texts(peers@).contains(addr@) {
            let j = choose|j: int| 0 <= j < texts(peers@).len() && texts(peers@)[j] == addr@;
            assert(peers@[j]@ == addr@);
        }
    }
    false
}

/// The first of `peers` other than `p`.
fn first_other_text(peers: &Vec<String>, p: &str) -> (r: Option<String>)
    ensures
        match r {
            Some(s) => first_other(texts(peers@), p@) == Some(s@),
            None => first_other(texts(peers@), p@) is None,
        },
{
    let me = owned(p);
    let mut i: usize = 0;
    assert(texts(peers@).subrange(0, peers@.len() as int) =~= texts(peers@));
    while i < peers.len()
        invariant
            i <= peers@.len(),
            me@ == p@,
            first_other(texts(peers@), p@) == first_other(texts(peers@).subrange(i as int, peers@.len() as int), p@),
        decreases peers@.len() - i,
    {
        assert(texts(peers@).subrange(i as int, peers@.len() as int).drop_first() =~= texts(peers@).subrange(i + 1, peers@.len() as int));
        if !(peers[i] == me) {
            return Some(peers[i].clone());
        }
        i = i + 1;
    }
    None
}

/// Dropping the last entry keeps the entries well formed.
pub proof fn lemma_drop_last_wf(e: Entries)
    requires
        entries_wf(e),
        e.len() > 0,
    ensures
        entries_wf(e.drop_last()),
{
    let d = e.drop_last();
    assert forall|a: int, b: int| 0 <= a < b < d.len() implies #[trigger] d[a].0 != #[trigger] d[b].0 by {
        assert(d[a] == e[a] && d[b] == e[b]);
    }
    assert forall|x: int| 0 <= x < d.len() implies distinct(#[trigger] d[x].1) by {
        assert(d[x] == e[x]);
    }
}

/// Replacing the peers of entry `i` changes that session's peers alone.
pub proof fn lemma_update_entry(e: Entries, i: int, v: Seq<Seq<char>>)
    requires
        entries_wf(e),
        0 <= i < e.len(),
    ensures
        forall|id: Seq<char>| #[trigger] has_session(e.update(i, (e[i].0, v)), id) == has_session(e, id),
        forall|id: Seq<char>| #[trigger] peers_in(e.update(i, (e[i].0, v)), id) == if id == e[i].0 { v } else { peers_in(e, id) },
    decreases e.len(),
{
    let u = e.update(i, (e[i].0, v));
    assert(u.last().0 == e.last().0);
    if i < e.len() - 1 {
        assert(u.drop_last() =~= e.drop_last().update(i, (e[i].0, v)));
        assert(e.drop_last()[i] == e[i]);
        assert(u.last() == e.last());
        lemma_drop_last_wf(e);
        lemma_update_entry(e.drop_last(), i, v);
        assert(e[e.len() - 1].0 != e[i].0);
    } else {
        assert(u.drop_last() =~= e.drop_last());
    }
    assert forall|id: Seq<char>| #[trigger] has_session(u, id) == has_session(e, id) by {
        if i < e.len() - 1 {
            assert(has_session(u.drop_last(), id) == has_session(e.drop_last(), id));
        }
    }
    assert forall|id: Seq<char>| #[trigger] peers_in(u, id) == if id == e[i].0 { v } else { peers_in(e, id) } by {
        if i < e.len() - 1 {
            assert(peers_in(u.drop_last(), id) == if id == e[i].0 { v } else { peers_in(e.drop_last(), id) });
        }
    }
}

/// Adding a peer keeps the peers distinct.
pub proof fn lemma_with_peer_distinct(ps: Seq<Seq<char>>, addr: Seq<char>)
    requires
        distinct(ps),
    ensures
        distinct(with_peer(ps, addr)),
        with_peer(ps, addr).contains(addr),
{
    if !ps.contains(addr) {
        assert(ps.push(addr)[ps.len() as int] == addr);
        assert forall|a: int, b: int| 0 <= a < b < ps.len() + 1 implies ps.push(addr)[a] != ps.push(addr)[b] by {
            if b == ps.len() {
                assert(ps[a] == ps.push(addr)[a]);
            }
        }
    }
}

/// With at least two distinct peers, every peer has some other peer, and the
/// one named belongs to the session.
pub proof fn lemma_first_other_some(ps: Seq<Seq<char>>, p: Seq<char>)
    requires
        ps.len() >= 2,
        distinct(ps),
    ensures
        first_other(ps, p) == Some(if ps[0] != p { ps[0] } else { ps[1] }),
{
    if ps[0] == p {
        assert(ps[0] != ps[1]);
        assert(ps.drop_first()[0] == ps[1]);
        assert(first_other(ps, p) == first_other(ps.drop_first(), p));
    }
}

/// Where an id occurs in the entries, that entry's peers are its peers.
pub proof fn lemma_peers_at(e: Entries, i: int)
    requires
        entries_wf(e),
        0 <= i < e.len(),
    ensures
        has_session(e, e[i].0),
        peers_in(e, e[i].0) == e[i].1,
    decreases e.len(),
{
    if i < e.len() - 1 {
        assert(e.drop_last()[i] == e[i]);
        lemma_peers_at(e.drop_last(), i);
    }
}

/// An id that no entry carries has no session and no peers.
pub proof fn lemma_absent(e: Entries, id: Seq<char>)
    requires
        forall|j: int| 0 <= j < e.len() ==> #[trigger] e[j].0 != id,
    ensures
        !has_session(e, id),
        peers_in(e, id) == Seq::<Seq<char>>::empty(),
    decreases e.len(),
{
    if e.len() > 0 {
        assert forall|j: int| 0 <= j < e.drop_last().len() implies #[trigger] e.drop_last()[j].0 != id by {
            assert(e.drop_last()[j] == e[j]);
        }
        lemma_absent(e.drop_last(), id);
    }
}

/// Asking twice about the same session from the same address changes
/// nothing the second time.
pub proof fn lemma_register_twice(ps: Seq<Seq<char>>, addr: Seq<char>)
    ensures
        with_peer(with_peer(ps, addr), addr) == with_peer(ps, addr),
{
    if !ps.contains(addr) {
        assert(ps.push(addr)[ps.len() as int] == addr);
    }
}

/// A session's peers only grow: the earlier peers stay, in their order, and
/// the asking address is among them afterwards.
pub proof fn lemma_peers_only_grow(ps: Seq<Seq<char>>, addr: Seq<char>)
    ensures
        ps.is_prefix_of(with_peer(ps, addr)),
        with_peer(ps, addr).contains(addr),
{
    if !ps.contains(addr) {
        assert(ps.push(addr)[ps.len() as int] == addr);
        assert(ps.push(addr).subrange(0, ps.len() as int) =~= ps);
    } else {
        assert(ps.subrange(0, ps.len() as int) =~= ps);
    }
}

/// Once a session has two or more peers, every peer is answered in the
/// session's order, and each is told the session's first peer other than
/// itself: the first peer is told about the second, every later peer about
/// the first. With fewer peers only the asking address is answered, with no
/// peer.
pub proof fn lemma_answers_first_other_peer(ps: Seq<Seq<char>>, addr: Seq<char>)
    requires
        distinct(ps),
    ensures
        ps.len() >= 2 ==> answers(ps, addr).len() == ps.len() && forall|j: int| 0 <= j < ps.len()
            ==> #[trigger] answers(ps, addr)[j] == (ps[j], Some(if j == 0 { ps[1] } else { ps[0] })),
        ps.len() < 2 ==> answers(ps, addr) == seq![(addr, None::<Seq<char>>)],
{
    if ps.len() >= 2 {
        assert forall|j: int| 0 <= j < ps.len() implies #[trigger] answers(ps, addr)[j] == (ps[j], Some(if j == 0 { ps[1] } else { ps[0] })) by {
            lemma_first_other_some(ps, ps[j]);
            if j > 0 {
                assert(ps[0] != ps[j]);
            }
        }
    }
}

/// Once a session has two or more peers, every peer is answered, and each
/// is told about another peer of the same session, never itself.
pub proof fn lemma_answers_name_other_members(ps: Seq<Seq<char>>, addr: Seq<char>)
    requires
        distinct(ps),
        ps.len() >= 2,
    ensures
        answers(ps, addr).len() == ps.len(),
        forall|j: int| 0 <= j < ps.len() ==> {
            let a = #[trigger] answers(ps, addr)[j];
            &&& a.0 == ps[j]
            &&& a.1 matches Some(q) && q != ps[j] && ps.contains(q)
        },
{
    assert forall|j: int| 0 <= j < ps.len() implies {
        let a = #[trigger] answers(ps, addr)[j];
        &&& a.0 == ps[j]
        &&& a.1 matches Some(q) && q != ps[j] && ps.contains(q)
    } by {
        lemma_first_other_some(ps, ps[j]);
        if ps[0] == ps[j] {
            assert(ps[1] != ps[0]);
            assert(ps.contains(ps[1]));
        } else {
            assert(ps.contains(ps[0]));
        }
    }
}

/// When a second peer joins a session, the two are introduced to each other:
/// the first is told about the second and the second about the first.
pub proof fn lemma_pair_introduced(first: Seq<char>, second: Seq<char>)
    requires
        first != second,
    ensures
        answers(with_peer(seq![first], second), second) == seq![(first, Some(second)), (second, Some(first))],
{
    let ps = seq![first, second];
    assert(!seq![first].contains(second)) by {
        if seq![first].contains(second) {
            let i = choose|i: int| 0 <= i < 1 && seq![first][i] == second;
            assert(seq![first][i] == first);
        }
    }
    assert(with_peer(seq![first], second) =~= ps);
    assert(distinct(ps));
    lemma_first_other_some(ps, first);
    lemma_first_other_some(ps, second);
    assert(answers(ps, second) =~= seq![(first, Some(second)), (second, Some(first))]);
}

/// The peer map after the requests `reqs` (session id, address), in order,
/// starting from an empty registry.
pub open spec fn registry_after(reqs: Seq<(Seq<char>, Seq<char>)>) -> Map<Seq<char>, Seq<Seq<char>>>
    decreases reqs.len(),
{
    if reqs.len() == 0 {
        Map::empty()
    } else {
        let m = registry_after(reqs.drop_last());
        let (id, addr) = reqs.last();
        m.insert(id, with_peer(lookup(m, id), addr))
    }
}

/// One more request moves the history's peer map and answers exactly as
/// `NatRegistry::register` states: a registry made by `new` and fed the
/// requests `h` in order holds `registry_after(h)`, and its last call
/// returned `answers_to_last(h)`.
pub proof fn lemma_register_step(h: Seq<(Seq<char>, Seq<char>)>, id: Seq<char>, addr: Seq<char>)
    ensures
        registry_after(h.push((id, addr))) == registry_after(h).insert(id, with_peer(lookup(registry_after(h), id), addr)),
        answers_to_last(h.push((id, addr))) == answers(with_peer(lookup(registry_after(h), id), addr), addr),
        registry_after(Seq::<(Seq<char>, Seq<char>)>::empty()) == Map::<Seq<char>, Seq<Seq<char>>>::empty(),
{
    let h2 = h.push((id, addr));
    assert(h2.drop_last() =~= h);
    let m = registry_after(h2);
    assert(m.dom().contains(id));
    assert(lookup(m, id) == with_peer(lookup(registry_after(h), id), addr));
}

/// The requests among `reqs` that are about session `s`, in order.
pub open spec fn requests_for(reqs: Seq<(Seq<char>, Seq<char>)>, s: Seq<char>) -> Seq<(Seq<char>, Seq<char>)>
    decreases reqs.len(),
{
    if reqs.len() == 0 {
        Seq::empty()
    } else if reqs.last().0 == s {
        requests_for(reqs.drop_last(), s).push(reqs.last())
    } else {
        requests_for(reqs.drop_last(), s)
    }
}

/// The answers to the last of the requests `reqs`.
pub open spec fn answers_to_last(reqs: Seq<(Seq<char>, Seq<char>)>) -> Seq<(Seq<char>, Option<Seq<char>>)>
    recommends
        reqs.len() > 0,
{
    answers(lookup(registry_after(reqs), reqs.last().0), reqs.last().1)
}

/// A session's peers depend only on the requests about that session.
pub proof fn lemma_sessions_isolated(reqs: Seq<(Seq<char>, Seq<char>)>, s: Seq<char>)
    ensures
        lookup(registry_after(reqs), s) == lookup(registry_after(requests_for(reqs, s)), s),
    decreases reqs.len(),
{
    if reqs.len() > 0 {
        lemma_sessions_isolated(reqs.drop_last(), s);
        let f = requests_for(reqs.drop_last(), s);
        if reqs.last().0 == s {
            assert(f.push(reqs.last()).drop_last() =~= f);
        }
    }
}

/// Over any history of requests, the answers to a request depend only on
/// the requests about the same session up to it: requests about other
/// sessions change nothing that is sent in reply.
pub proof fn lemma_replies_depend_on_own_session(reqs: Seq<(Seq<char>, Seq<char>)>)
    requires
        reqs.len() > 0,
    ensures
        answers_to_last(reqs) == answers_to_last(requests_for(reqs, reqs.last().0)),
{
    let s = reqs.last().0;
    lemma_sessions_isolated(reqs, s);
    let f = requests_for(reqs, s);
    assert(f == requests_for(reqs.drop_last(), s).push(reqs.last()));
    assert(f.last() == reqs.last());
}

/// Every peer a registry holds for `s` asked about `s` itself.
pub proof fn lemma_members_asked(reqs: Seq<(Seq<char>, Seq<char>)>, s: Seq<char>, p: Seq<char>)
    requires
        lookup(registry_after(reqs), s).contains(p),
    ensures
        exists|i: int| 0 <= i < reqs.len() && #[trigger] reqs[i] == (s, p),
    decreases reqs.len(),
{
    let prev = registry_after(reqs.drop_last());
    let (id, addr) = reqs.last();
    if id == s && !lookup(prev, s).contains(p) {
        let ps = lookup(prev, s);
        if !ps.contains(addr) {
            let k = choose|k: int| 0 <= k < ps.push(addr).len() && ps.push(addr)[k] == p;
            if k < ps.len() {
                assert(ps[k] == p);
            }
        }
        assert(p == addr);
        assert(reqs[reqs.len() - 1] == (s, p));
    } else {
        if id == s {
            assert(lookup(prev, s).contains(p));
        } else {
            assert(lookup(registry_after(reqs), s) == lookup(prev, s));
        }
        lemma_members_asked(reqs.drop_last(), s, p);
        let i = choose|i: int| 0 <= i < reqs.drop_last().len() && #[trigger] reqs.drop_last()[i] == (s, p);
        assert(reqs[i] == (s, p));
    }
}

/// A peer named by `first_other` belongs to the list.
proof fn lemma_first_other_member(ps: Seq<Seq<char>>, p: Seq<char>)
    ensures
        first_other(ps, p) matches Some(q) ==> ps.contains(q),
    decreases ps.len(),
{
    if ps.len() > 0 && ps[0] == p {
        lemma_first_other_member(ps.drop_first(), p);
        if first_other(ps.drop_first(), p) is Some {
            let q = first_other(ps.drop_first(), p).unwrap();
            let k = choose|k: int| 0 <= k < ps.drop_first().len() && ps.drop_first()[k] == q;
            assert(ps[k + 1] == q);
        }
    } else if ps.len() > 0 {
        assert(ps[0] == ps[0]);
    }
}

/// Over any history of requests, every reply to a request about session `s`
/// goes to an address that asked about `s`, and any peer it names asked
/// about `s` too: no reply names an address that asked only about other
/// sessions.
pub proof fn lemma_replies_stay_in_session(reqs: Seq<(Seq<char>, Seq<char>)>, j: int)
    requires
        reqs.len() > 0,
        0 <= j < answers_to_last(reqs).len(),
    ensures
        exists|i: int| 0 <= i < reqs.len() && #[trigger] reqs[i] == (reqs.last().0, answers_to_last(reqs)[j].0),
        answers_to_last(reqs)[j].1 matches Some(q) ==> exists|i: int| 0 <= i < reqs.len() && #[trigger] reqs[i] == (reqs.last().0, q),
{
    let (s, a) = reqs.last();
    let ps = lookup(registry_after(reqs), s);
    let ans = answers(ps, a);
    if ps.len() >= 2 {
        assert(ans[j] == (ps[j], first_other(ps, ps[j])));
        assert(ps.contains(ps[j]));
        lemma_members_asked(reqs, s, ps[j]);
        lemma_first_other_member(ps, ps[j]);
        if first_other(ps, ps[j]) is Some {
            lemma_members_asked(reqs, s, first_other(ps, ps[j]).unwrap());
        }
    } else {
        assert(ans[j] == (a, None::<Seq<char>>));
        assert(reqs[reqs.len() - 1] == (s, a));
    }
}

impl Delivery {
    /// The response body sent for this delivery.
    pub fn response(&self) -> (r: PunchResponse)
        ensures
            r.peer == self.peer,
    {
        PunchResponse { peer: self.peer.clone() }
    }
}

/// How many listening rounds a client spends before giving up.
pub const NEGOTIATION_ROUNDS: u32 = 10;

/// What a negotiating client observed in one round.
#[derive(Debug, Clone)]
pub enum NegotiationEvent {
    /// A response arrived, naming a peer or not.
    Reply(PunchResponse),
    /// A second passed without a response.
    Timeout,
}

/// What the client does next.
#[derive(Debug, Clone)]
pub enum NegotiationAction {
    /// A peer was named: stop and use it.
    PeerFound(String),
    /// Keep listening.
    Listen,
    /// Send the request again, then keep listening.
    Resend,
}

/// A client's progress through its rounds of asking for a peer.
#[derive(Debug, Clone, Copy)]
pub struct Negotiation {
    rounds: u32,
    sent: u32,
}

/// The action for one round's event.
pub open spec fn negotiation_action(event: NegotiationEvent) -> NegotiationAction {
    match event {
        NegotiationEvent::Reply(resp) => match resp.peer {
            Some(p) => NegotiationAction::PeerFound(p),
            None => NegotiationAction::Listen,
        },
        NegotiationEvent::Timeout => NegotiationAction::Resend,
    }
}

impl Negotiation {
    /// Rounds spent so far.
    pub closed spec fn spent(&self) -> nat {
        self.rounds as nat
    }

    /// Requests sent so far, the first one included.
    pub closed spec fn requests(&self) -> nat {
        self.sent as nat
    }

    /// No more rounds than allowed, and at most one request per round beyond
    /// the first.
    #[verifier::type_invariant]
    closed spec fn bounded(&self) -> bool {
        self.rounds <= NEGOTIATION_ROUNDS && self.sent <= self.rounds + 1
    }

    /// A negotiation that has sent its first request and spent no rounds.
    pub fn new() -> (r: Negotiation)
        ensures
            r.spent() == 0,
            r.requests() == 1,
    {
        Negotiation { rounds: 0, sent: 1 }
    }

    /// Whether all rounds are spent (the client then reports no peer).
    pub fn finished(&self) -> (r: bool)
        ensures
            r == (self.spent() >= NEGOTIATION_ROUNDS),
    {
        self.rounds >= NEGOTIATION_ROUNDS
    }

    /// How many requests were sent: never more than one per round spent,
    /// beyond the first, and so never more than eleven.
    pub fn requests_sent(&self) -> (r: u32)
        ensures
            r == self.requests(),
            self.requests() <= self.spent() + 1,
            self.spent() <= NEGOTIATION_ROUNDS,
    {
        proof {
            use_type_invariant(self);
        }
        self.sent
    }

    /// Spends one round on `event` and says what to do; a resend counts as
    /// one more request.
    pub fn step(&mut self, event: NegotiationEvent) -> (r: NegotiationAction)
        requires
            old(self).spent() < NEGOTIATION_ROUNDS,
        ensures
            final(self).spent() == old(self).spent() + 1,
            final(self).requests() == old(self).requests() + if event is Timeout { 1nat } else { 0nat },
            r == negotiation_action(event),
    {
        proof {
            use_type_invariant(&*self);
        }
        match event {
            NegotiationEvent::Reply(resp) => {
                self.rounds = self.rounds + 1;
                match resp.peer {
                    Some(p) => NegotiationAction::PeerFound(p),
                    None => NegotiationAction::Listen,
                }
            },
            NegotiationEvent::Timeout => {
                *self = Negotiation { rounds: self.rounds + 1, sent: self.sent + 1 };
                NegotiationAction::Resend
            },
        }
    }
}

/// The peer named by the first reply among `events` that names one.
pub open spec fn first_peer(events: Seq<NegotiationEvent>) -> Option<String>
    decreases events.len(),
{
    if events.len() == 0 {
        None
    } else {
        match negotiation_action(events[0]) {
            NegotiationAction::PeerFound(p) => Some(p),
            _ => first_peer(events.drop_first()),
        }
    }
}

/// A client's whole negotiation, as its loop runs `step` while not
/// `finished`, on the events it observes: (peer found, rounds spent,
/// requests sent), starting after `rounds` rounds with `sent` requests sent.
pub open spec fn drive(events: Seq<NegotiationEvent>, rounds: nat, sent: nat) -> (Option<String>, nat, nat)
    decreases events.len(),
{
    if rounds >= NEGOTIATION_ROUNDS || events.len() == 0 {
        (None, rounds, sent)
    } else {
        match negotiation_action(events[0]) {
            NegotiationAction::PeerFound(p) => (Some(p), rounds + 1, sent),
            NegotiationAction::Listen => drive(events.drop_first(), rounds + 1, sent),
            NegotiationAction::Resend => drive(events.drop_first(), rounds + 1, sent + 1),
        }
    }
}

/// From any point of a negotiation: it ends within the rounds left, sends at
/// most one request per round spent, and finds exactly the first peer named
/// within the rounds left.
proof fn lemma_drive_from(events: Seq<NegotiationEvent>, rounds: nat, sent: nat)
    requires
        rounds <= NEGOTIATION_ROUNDS,
    ensures
        ({
            let (found, r, s) = drive(events, rounds, sent);
            let left = (NEGOTIATION_ROUNDS - rounds) as int;
            &&& rounds <= r <= NEGOTIATION_ROUNDS
            &&& s <= sent + (r - rounds)
            &&& found == first_peer(events.take(if events.len() < left { events.len() as int } else { left }))
            &&& (found is None && events.len() >= left) ==> r == NEGOTIATION_ROUNDS
        }),
    decreases events.len(),
{
    let left = (NEGOTIATION_ROUNDS - rounds) as int;
    let n = if events.len() < left { events.len() as int } else { left };
    if rounds >= NEGOTIATION_ROUNDS || events.len() == 0 {
        assert(events.take(n).len() == 0);
    } else {
        let t = events.take(n);
        assert(t[0] == events[0]);
        assert(t.drop_first() =~= events.drop_first().take(n - 1));
        lemma_drive_from(events.drop_first(), rounds + 1, sent + if events[0] is Timeout { 1nat } else { 0nat });
    }
}

/// A negotiation, however its replies and silences fall, spends at most ten
/// rounds and sends at most eleven requests (one per round beyond the
/// first); it reports the peer named by the first reply within those rounds
/// that names one, and when ten rounds pass with no such reply it reports
/// none.
pub proof fn lemma_negotiation_ends(events: Seq<NegotiationEvent>)
    ensures
        ({
            let (found, r, s) = drive(events, 0, 1);
            &&& r <= NEGOTIATION_ROUNDS
            &&& s <= r + 1
            &&& s <= NEGOTIATION_ROUNDS + 1
            &&& found == first_peer(events.take(if events.len() < 10 { events.len() as int } else { 10 }))
            &&& (found is None && events.len() >= 10) ==> r == NEGOTIATION_ROUNDS
        }),
{
    lemma_drive_from(events, 0, 1);
}

} // verus!
