//! The client registry: sockets and client identifiers bound one to one,
//! in both directions at once.

use vstd::prelude::*;

verus! {

/// Failure of a registry lookup: the socket or client is not registered.
#[derive(Debug, Clone, Copy, PartialEq, Eq, Structural)]
pub enum RegistryError {
    NotRegistered,
}

/// One binding between a socket (an opaque connection identifier the
/// connection layer assigns) and a client identifier.
pub struct ClientEntry {
    pub socket: u64,
    pub client_id: String,
}

/// The socket-to-client-identifier registry: one list of bindings, kept
/// consistent in both directions — at most one client per socket and at
/// most one socket per client.
pub struct ClientHandler {
    pub entries: Vec<ClientEntry>,
}

impl ClientHandler {
    /// The bindings as pairs of plain values.
    pub open spec fn pairs(&self) -> Seq<(u64, Seq<char>)> {
        Seq::new(self.entries@.len(), |i: int| (self.entries@[i].socket, self.entries@[i].client_id@))
    }

    /// Both directions are functional: no socket and no client identifier
    /// appears twice.
    pub open spec fn wf(&self) -> bool {
        forall|i: int, j: int|
            0 <= i < j < self.pairs().len() ==> (#[trigger] self.pairs()[i]).0 != (#[trigger] self.pairs()[j]).0
                && self.pairs()[i].1 != self.pairs()[j].1
    }
}

/// The client identifier a socket is bound to, if any.
pub open spec fn spec_lookup_client(pairs: Seq<(u64, Seq<char>)>, socket: u64) -> Option<Seq<char>>
    decreases pairs.len(),
{
    if pairs.len() == 0 {
        None
    } else if pairs.last().0 == socket {
        Some(pairs.last().1)
    } else {
        spec_lookup_client(pairs.drop_last(), socket)
    }
}

/// The socket a client identifier is bound to, if any.
pub open spec fn spec_lookup_socket(pairs: Seq<(u64, Seq<char>)>, client_id: Seq<char>) -> Option<u64>
    decreases pairs.len(),
{
    if pairs.len() == 0 {
        None
    } else if pairs.last().1 == client_id {
        Some(pairs.last().0)
    } else {
        spec_lookup_socket(pairs.drop_last(), client_id)
    }
}

/// A socket bound nowhere looks up to nothing.
pub proof fn lemma_lookup_client_none(pairs: Seq<(u64, Seq<char>)>, socket: u64)
    requires
        forall|i: int| 0 <= i < pairs.len() ==> (#[trigger] pairs[i]).0 != socket,
    ensures
        spec_lookup_client(pairs, socket) is None,
    decreases pairs.len(),
{
    if pairs.len() > 0 {
        assert(pairs.last() == pairs[pairs.len() - 1]);
        assert(forall|i: int| 0 <= i < pairs.drop_last().len() ==> #[trigger] pairs.drop_last()[i] == pairs[i]);
        lemma_lookup_client_none(pairs.drop_last(), socket);
    }
}

/// A bound socket looks up to its client identifier.
pub proof fn lemma_lookup_client_some(pairs: Seq<(u64, Seq<char>)>, socket: u64, client_id: Seq<char>)
    requires
        pairs.contains((socket, client_id)),
        forall|i: int, j: int|
            0 <= i < j < pairs.len() ==> (#[trigger] pairs[i]).0 != (#[trigger] pairs[j]).0,
    ensures
        spec_lookup_client(pairs, socket) == Some(client_id),
    decreases pairs.len(),
{
    let k = choose|k: int| 0 <= k < pairs.len() && pairs[k] == (socket, client_id);
    assert(pairs.last() == pairs[pairs.len() - 1]);
    if k == pairs.len() - 1 {
    } else {
        assert(pairs.last().0 != socket);
        assert(forall|i: int| 0 <= i < pairs.drop_last().len() ==> #[trigger] pairs.drop_last()[i] == pairs[i]);
        assert(pairs.drop_last()[k] == (socket, client_id));
        lemma_lookup_client_some(pairs.drop_last(), socket, client_id);
    }
}

/// A client bound nowhere looks up to nothing.
pub proof fn lemma_lookup_socket_none(pairs: Seq<(u64, Seq<char>)>, client_id: Seq<char>)
    requires
        forall|i: int| 0 <= i < pairs.len() ==> (#[trigger] pairs[i]).1 != client_id,
    ensures
        spec_lookup_socket(pairs, client_id) is None,
    decreases pairs.len(),
{
    if pairs.len() > 0 {
        assert(pairs.last() == pairs[pairs.len() - 1]);
        assert(forall|i: int| 0 <= i < pairs.drop_last().len() ==> #[trigger] pairs.drop_last()[i] == pairs[i]);
        lemma_lookup_socket_none(pairs.drop_last(), client_id);
    }
}

/// A bound client looks up to its socket.
pub proof fn lemma_lookup_socket_some(pairs: Seq<(u64, Seq<char>)>, socket: u64, client_id: Seq<char>)
    requires
        pairs.contains((socket, client_id)),
        forall|i: int, j: int|
            0 <= i < j < pairs.len() ==> (#[trigger] pairs[i]).1 != (#[trigger] pairs[j]).1,
    ensures
        spec_lookup_socket(pairs, client_id) == Some(socket),
    decreases pairs.len(),
{
    let k = choose|k: int| 0 <= k < pairs.len() && pairs[k] == (socket, client_id);
    assert(pairs.last() == pairs[pairs.len() - 1]);
    if k == pairs.len() - 1 {
    } else {
        assert(pairs.last().1 != client_id);
        assert(forall|i: int| 0 <= i < pairs.drop_last().len() ==> #[trigger] pairs.drop_last()[i] == pairs[i]);
        assert(pairs.drop_last()[k] == (socket, client_id));
        lemma_lookup_socket_some(pairs.drop_last(), socket, client_id);
    }
}

/// No socket and no client identifier appears twice among `pairs`.
pub open spec fn wf_pairs(pairs: Seq<(u64, Seq<char>)>) -> bool {
    forall|i: int, j: int|
        0 <= i < j < pairs.len() ==> (#[trigger] pairs[i]).0 != (#[trigger] pairs[j]).0 && pairs[i].1
            != pairs[j].1
}

/// `pairs` without the bindings of `socket_gone` and of `client_gone`,
/// order kept.
pub open spec fn spec_filter_pairs(
    pairs: Seq<(u64, Seq<char>)>,
    socket_gone: Option<u64>,
    client_gone: Option<Seq<char>>,
) -> Seq<(u64, Seq<char>)>
    decreases pairs.len(),
{
    if pairs.len() == 0 {
        Seq::<(u64, Seq<char>)>::empty()
    } else {
        let rest = spec_filter_pairs(pairs.drop_last(), socket_gone, client_gone);
        let p = pairs.last();
        if (socket_gone matches Some(s) && p.0 == s) || (client_gone matches Some(c) && p.1 == c) {
            rest
        } else {
            rest.push(p)
        }
    }
}

/// What survives the filter: exactly the pairs that touch neither key.
pub proof fn lemma_filter_pairs_contains(
    pairs: Seq<(u64, Seq<char>)>,
    socket_gone: Option<u64>,
    client_gone: Option<Seq<char>>,
    p: (u64, Seq<char>),
)
    ensures
        spec_filter_pairs(pairs, socket_gone, client_gone).contains(p) <==> (pairs.contains(p) && !(
        socket_gone matches Some(s) && p.0 == s) && !(client_gone matches Some(c) && p.1 == c)),
    decreases pairs.len(),
{
    if pairs.len() > 0 {
        lemma_filter_pairs_contains(pairs.drop_last(), socket_gone, client_gone, p);
        let rest = spec_filter_pairs(pairs.drop_last(), socket_gone, client_gone);
        let lst = pairs.last();
        assert(pairs.contains(p) <==> (pairs.drop_last().contains(p) || p == lst)) by {
            if pairs.contains(p) {
                let k = choose|k: int| 0 <= k < pairs.len() && pairs[k] == p;
                if k < pairs.len() - 1 {
                    assert(pairs.drop_last()[k] == p);
                }
            }
            if pairs.drop_last().contains(p) {
                let k = choose|k: int| 0 <= k < pairs.drop_last().len() && pairs.drop_last()[k] == p;
                assert(pairs[k] == p);
            }
        }
        if !((socket_gone matches Some(s) && lst.0 == s) || (client_gone matches Some(c) && lst.1 == c)) {
            assert(rest.push(lst).contains(p) <==> (rest.contains(p) || p == lst)) by {
                if rest.push(lst).contains(p) {
                    let k = choose|k: int| 0 <= k < rest.push(lst).len() && rest.push(lst)[k] == p;
                    if k < rest.len() {
                        assert(rest[k] == p);
                    }
                }
                if rest.contains(p) {
                    let k = choose|k: int| 0 <= k < rest.len() && rest[k] == p;
                    assert(rest.push(lst)[k] == p);
                }
                assert(rest.push(lst)[rest.len() as int] == lst);
            }
        }
    }
}

/// A pair distinct from every element in both fields can be appended without
/// breaking functionality in either direction.
pub proof fn lemma_wf_push(pairs: Seq<(u64, Seq<char>)>, x: (u64, Seq<char>))
    requires
        wf_pairs(pairs),
        forall|i: int| 0 <= i < pairs.len() ==> (#[trigger] pairs[i]).0 != x.0 && pairs[i].1 != x.1,
    ensures
        wf_pairs(pairs.push(x)),
{
    assert forall|i: int, j: int| 0 <= i < j < pairs.push(x).len() implies (#[trigger] pairs.push(x)[i]).0
        != (#[trigger] pairs.push(x)[j]).0 && pairs.push(x)[i].1 != pairs.push(x)[j].1 by {
        if j < pairs.len() {
            assert(pairs.push(x)[i] == pairs[i]);
            assert(pairs.push(x)[j] == pairs[j]);
        } else {
            assert(pairs.push(x)[i] == pairs[i]);
            assert(pairs.push(x)[j] == x);
        }
    }
}

/// The filter keeps both directions functional.
pub proof fn lemma_filter_pairs_wf(
    pairs: Seq<(u64, Seq<char>)>,
    socket_gone: Option<u64>,
    client_gone: Option<Seq<char>>,
)
    requires
        wf_pairs(pairs),
    ensures
        wf_pairs(spec_filter_pairs(pairs, socket_gone, client_gone)),
    decreases pairs.len(),
{
    if pairs.len() > 0 {
        assert(forall|i: int|
            0 <= i < pairs.drop_last().len() ==> #[trigger] pairs.drop_last()[i] == pairs[i]);
        lemma_filter_pairs_wf(pairs.drop_last(), socket_gone, client_gone);
        let rest = spec_filter_pairs(pairs.drop_last(), socket_gone, client_gone);
        let lst = pairs.last();
        if !((socket_gone matches Some(s) && lst.0 == s) || (client_gone matches Some(c) && lst.1 == c)) {
            assert(pairs.last() == pairs[pairs.len() - 1]);
            assert forall|i: int| 0 <= i < rest.len() implies (#[trigger] rest[i]).0 != lst.0 && rest[i].1
                != lst.1 by {
                assert(rest.contains(rest[i]));
                lemma_filter_pairs_contains(pairs.drop_last(), socket_gone, client_gone, rest[i]);
                let k = choose|k: int|
                    0 <= k < pairs.drop_last().len() && pairs.drop_last()[k] == rest[i];
                assert(pairs[k] == rest[i]);
            }
            lemma_wf_push(rest, lst);
        }
    }
}

/// Filtering out a socket leaves it unbound.
pub proof fn lemma_filter_pairs_no_socket(pairs: Seq<(u64, Seq<char>)>, s: u64, client_gone: Option<Seq<char>>)
    ensures
        spec_lookup_client(spec_filter_pairs(pairs, Some(s), client_gone), s) is None,
{
    let f = spec_filter_pairs(pairs, Some(s), client_gone);
    assert forall|i: int| 0 <= i < f.len() implies (#[trigger] f[i]).0 != s by {
        assert(f.contains(f[i]));
        lemma_filter_pairs_contains(pairs, Some(s), client_gone, f[i]);
    }
    lemma_lookup_client_none(f, s);
}

/// Filtering out a client identifier leaves it unbound.
pub proof fn lemma_filter_pairs_no_client(pairs: Seq<(u64, Seq<char>)>, socket_gone: Option<u64>, c: Seq<char>)
    ensures
        spec_lookup_socket(spec_filter_pairs(pairs, socket_gone, Some(c)), c) is None,
{
    let f = spec_filter_pairs(pairs, socket_gone, Some(c));
    assert forall|i: int| 0 <= i < f.len() implies (#[trigger] f[i]).1 != c by {
        assert(f.contains(f[i]));
        lemma_filter_pairs_contains(pairs, socket_gone, Some(c), f[i]);
    }
    lemma_lookup_socket_none(f, c);
}

impl ClientHandler {
    pub fn new() -> (r: Self)
        ensures
            r.wf(),
            r.pairs() == Seq::<(u64, Seq<char>)>::empty(),
    {
        let r = ClientHandler { entries: Vec::new() };
        proof {
            assert(r.pairs() =~= Seq::<(u64, Seq<char>)>::empty());
        }
        r
    }

    /// The client identifier registered for `socket`.
    pub fn get_client_id(&self, socket: u64) -> (r: Result<String, RegistryError>)
        requires
            self.wf(),
        ensures
            match r {
                Ok(cid) => spec_lookup_client(self.pairs(), socket) == Some(cid@),
                Err(e) => e == RegistryError::NotRegistered && spec_lookup_client(self.pairs(), socket) is None,
            },
    {
        let mut i: usize = 0;
        while i < self.entries.len()
            invariant
                i <= self.entries@.len(),
                self.wf(),
                forall|k: int| 0 <= k < i ==> (#[trigger] self.pairs()[k]).0 != socket,
            decreases self.entries@.len() - i,
        {
            if self.entries[i].socket == socket {
                proof {
                    assert(self.pairs()[i as int] == (socket, self.entries@[i as int].client_id@));
                    lemma_lookup_client_some(self.pairs(), socket, self.entries@[i as int].client_id@);
                }
                return Ok(self.entries[i].client_id.clone());
            }
            i = i + 1;
        }
        proof {
            lemma_lookup_client_none(self.pairs(), socket);
        }
        Err(RegistryError::NotRegistered)
    }

    /// The socket registered for `client_id`.
    pub fn get_socket(&self, client_id: &String) -> (r: Result<u64, RegistryError>)
        requires
            self.wf(),
        ensures
            match r {
                Ok(s) => spec_lookup_socket(self.pairs(), client_id@) == Some(s),
                Err(e) => e == RegistryError::NotRegistered && spec_lookup_socket(self.pairs(), client_id@) is None,
            },
    {
        let mut i: usize = 0;
        while i < self.entries.len()
            invariant
                i <= self.entries@.len(),
                self.wf(),
                forall|k: int| 0 <= k < i ==> (#[trigger] self.pairs()[k]).1 != client_id@,
            decreases self.entries@.len() - i,
        {
            if self.entries[i].client_id == *client_id {
                proof {
                    assert(self.pairs()[i as int] == (self.entries@[i as int].socket, client_id@));
                    lemma_lookup_socket_some(self.pairs(), self.entries@[i as int].socket, client_id@);
                }
                return Ok(self.entries[i].socket);
            }
            i = i + 1;
        }
        proof {
            lemma_lookup_socket_none(self.pairs(), client_id@);
        }
        Err(RegistryError::NotRegistered)
    }

    /// Register `socket` for `client_id`, in both directions at once.  Any
    /// previous binding of this socket or of this client identifier is
    /// dropped; the socket previously bound to this client identifier is
    /// returned, so the caller can disconnect the taken-over session.
    /// Afterwards both lookups find the new pair.
    pub fn register(&mut self, socket: u64, client_id: &String) -> (r: Option<u64>)
        requires
            old(self).wf(),
        ensures
            final(self).wf(),
            r == spec_lookup_socket(old(self).pairs(), client_id@),
            final(self).pairs() == spec_filter_pairs(old(self).pairs(), Some(socket), Some(client_id@)).push(
                (socket, client_id@),
            ),
            spec_lookup_client(final(self).pairs(), socket) == Some(client_id@),
            spec_lookup_socket(final(self).pairs(), client_id@) == Some(socket),
    {
        let ghost old_pairs = self.pairs();
        let mut kept: Vec<ClientEntry> = Vec::new();
        let mut prev: Option<u64> = None;
        let mut i: usize = 0;
        while i < self.entries.len()
            invariant
                i <= self.entries@.len(),
                self.wf(),
                self.pairs() == old_pairs,
                Seq::new(kept@.len(), |j: int| (kept@[j].socket, kept@[j].client_id@)) == spec_filter_pairs(
                    old_pairs.subrange(0, i as int),
                    Some(socket),
                    Some(client_id@),
                ),
                match prev {
                    Some(s0) => old_pairs.subrange(0, i as int).contains((s0, client_id@)),
                    None => forall|k: int| 0 <= k < i ==> (#[trigger] old_pairs[k]).1 != client_id@,
                },
            decreases self.entries@.len() - i,
        {
            let ghost kept_pairs = Seq::new(kept@.len(), |j: int| (kept@[j].socket, kept@[j].client_id@));
            let e_socket = self.entries[i].socket;
            let id_matches = self.entries[i].client_id == *client_id;
            if id_matches {
                prev = Some(e_socket);
            }
            if e_socket != socket && !id_matches {
                kept.push(ClientEntry { socket: e_socket, client_id: self.entries[i].client_id.clone() });
            }
            proof {
                let pre = old_pairs.subrange(0, i as int);
                let cur = old_pairs.subrange(0, i + 1 as int);
                assert(cur.drop_last() =~= pre);
                assert(cur.last() == old_pairs[i as int]);
                assert(old_pairs[i as int] == (e_socket, self.entries@[i as int].client_id@));
                if e_socket != socket && !id_matches {
                    assert(Seq::new(kept@.len(), |j: int| (kept@[j].socket, kept@[j].client_id@)) =~= kept_pairs.push(
                        (e_socket, self.entries@[i as int].client_id@),
                    ));
                }
                if id_matches {
                    assert(cur[i as int] == (e_socket, client_id@));
                }
                if prev is Some && i > 0 {
                    match prev {
                        Some(s0) => {
                            if pre.contains((s0, client_id@)) {
                                let k = choose|k: int| 0 <= k < i && pre[k] == (s0, client_id@);
                                assert(cur[k] == (s0, client_id@));
                            }
                        },
                        None => {},
                    }
                }
            }
            i = i + 1;
        }
        proof {
            assert(old_pairs.subrange(0, old_pairs.len() as int) =~= old_pairs);
        }
        kept.push(ClientEntry { socket, client_id: client_id.clone() });
        self.entries = kept;
        proof {
            let filtered = spec_filter_pairs(old_pairs, Some(socket), Some(client_id@));
            assert(self.pairs() =~= filtered.push((socket, client_id@)));
            lemma_filter_pairs_wf(old_pairs, Some(socket), Some(client_id@));
            assert forall|i2: int| 0 <= i2 < filtered.len() implies (#[trigger] filtered[i2]).0 != socket
                && filtered[i2].1 != client_id@ by {
                assert(filtered.contains(filtered[i2]));
                lemma_filter_pairs_contains(old_pairs, Some(socket), Some(client_id@), filtered[i2]);
            }
            lemma_wf_push(filtered, (socket, client_id@));
            assert(self.pairs().last() == (socket, client_id@));
            match prev {
                Some(s0) => {
                    lemma_lookup_socket_some(old_pairs, s0, client_id@);
                },
                None => {
                    lemma_lookup_socket_none(old_pairs, client_id@);
                },
            }
        }
        prev
    }

    /// Drop the bindings of `socket` and of `client_id`, in both directions.
    /// Afterwards neither lookup finds anything for them.
    pub fn unregister(&mut self, socket: u64, client_id: &String)
        requires
            old(self).wf(),
        ensures
            final(self).wf(),
            final(self).pairs() == spec_filter_pairs(old(self).pairs(), Some(socket), Some(client_id@)),
            spec_lookup_client(final(self).pairs(), socket) is None,
            spec_lookup_socket(final(self).pairs(), client_id@) is None,
    {
        let ghost old_pairs = self.pairs();
        let mut kept: Vec<ClientEntry> = Vec::new();
        let mut i: usize = 0;
        while i < self.entries.len()
            invariant
                i <= self.entries@.len(),
                self.wf(),
                self.pairs() == old_pairs,
                Seq::new(kept@.len(), |j: int| (kept@[j].socket, kept@[j].client_id@)) == spec_filter_pairs(
                    old_pairs.subrange(0, i as int),
                    Some(socket),
                    Some(client_id@),
                ),
            decreases self.entries@.len() - i,
        {
            let ghost kept_pairs = Seq::new(kept@.len(), |j: int| (kept@[j].socket, kept@[j].client_id@));
            let e_socket = self.entries[i].socket;
            let id_matches = self.entries[i].client_id == *client_id;
            if e_socket != socket && !id_matches {
                kept.push(ClientEntry { socket: e_socket, client_id: self.entries[i].client_id.clone() });
            }
            proof {
                let pre = old_pairs.subrange(0, i as int);
                let cur = old_pairs.subrange(0, i + 1 as int);
                assert(cur.drop_last() =~= pre);
                assert(cur.last() == old_pairs[i as int]);
                assert(old_pairs[i as int] == (e_socket, self.entries@[i as int].client_id@));
                if e_socket != socket && !id_matches {
                    assert(Seq::new(kept@.len(), |j: int| (kept@[j].socket, kept@[j].client_id@)) =~= kept_pairs.push(
                        (e_socket, self.entries@[i as int].client_id@),
                    ));
                }
            }
            i = i + 1;
        }
        proof {
            assert(old_pairs.subrange(0, old_pairs.len() as int) =~= old_pairs);
        }
        self.entries = kept;
        proof {
            lemma_filter_pairs_wf(old_pairs, Some(socket), Some(client_id@));
            lemma_filter_pairs_no_socket(old_pairs, socket, Some(client_id@));
            lemma_filter_pairs_no_client(old_pairs, Some(socket), client_id@);
        }
    }

    /// Drop the binding of `socket` given only the socket, and hand back the
    /// client identifier it was bound to, so the caller can scrub its
    /// subscriptions.
    pub fn unregister_by_socket(&mut self, socket: u64) -> (r: Option<String>)
        requires
            old(self).wf(),
        ensures
            final(self).wf(),
            match r {
                Some(cid) => spec_lookup_client(old(self).pairs(), socket) == Some(cid@),
                None => spec_lookup_client(old(self).pairs(), socket) is None,
            },
            final(self).pairs() == spec_filter_pairs(old(self).pairs(), Some(socket), None),
            spec_lookup_client(final(self).pairs(), socket) is None,
    {
        let ghost old_pairs = self.pairs();
        let mut kept: Vec<ClientEntry> = Vec::new();
        let mut removed: Option<String> = None;
        let mut i: usize = 0;
        while i < self.entries.len()
            invariant
                i <= self.entries@.len(),
                self.wf(),
                self.pairs() == old_pairs,
                Seq::new(kept@.len(), |j: int| (kept@[j].socket, kept@[j].client_id@)) == spec_filter_pairs(
                    old_pairs.subrange(0, i as int),
                    Some(socket),
                    None,
                ),
                match removed {
                    Some(cid) => old_pairs.contains((socket, cid@)),
                    None => forall|k: int| 0 <= k < i ==> (#[trigger] old_pairs[k]).0 != socket,
                },
            decreases self.entries@.len() - i,
        {
            let ghost kept_pairs = Seq::new(kept@.len(), |j: int| (kept@[j].socket, kept@[j].client_id@));
            let e_socket = self.entries[i].socket;
            if e_socket == socket {
                removed = Some(self.entries[i].client_id.clone());
            } else {
                kept.push(ClientEntry { socket: e_socket, client_id: self.entries[i].client_id.clone() });
            }
            proof {
                let pre = old_pairs.subrange(0, i as int);
                let cur = old_pairs.subrange(0, i + 1 as int);
                assert(cur.drop_last() =~= pre);
                assert(cur.last() == old_pairs[i as int]);
                assert(old_pairs[i as int] == (e_socket, self.entries@[i as int].client_id@));
                if e_socket == socket {
                    assert(old_pairs.contains(old_pairs[i as int]));
                } else {
                    assert(Seq::new(kept@.len(), |j: int| (kept@[j].socket, kept@[j].client_id@)) =~= kept_pairs.push(
                        (e_socket, self.entries@[i as int].client_id@),
                    ));
                }
            }
            i = i + 1;
        }
        proof {
            assert(old_pairs.subrange(0, old_pairs.len() as int) =~= old_pairs);
        }
        self.entries = kept;
        proof {
            lemma_filter_pairs_wf(old_pairs, Some(socket), None);
            lemma_filter_pairs_no_socket(old_pairs, socket, None);
            match &removed {
                Some(cid) => {
                    lemma_lookup_client_some(old_pairs, socket, cid@);
                },
                None => {
                    lemma_lookup_client_none(old_pairs, socket);
                },
            }
        }
        removed
    }
}

} // verus!
