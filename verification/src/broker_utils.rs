//! Session bookkeeping around the delivery state, and client-identifier
//! generation.

use vstd::prelude::*;
use crate::control_packet::{ControlPacket, ControlPacketModel};
use crate::qos_level::QoSLevel;
use crate::session::{Session, spec_identifier, spec_storable};
use crate::topic_handler::spec_subscribe_list;

verus! {

/// Whether a session already existed when a client connected.
#[derive(Debug, Clone, Copy, PartialEq, Eq, Structural)]
pub enum SessionState {
    SessionPresent,
    CleanSession,
}

/// The session registry: which clients have a session, and the shared
/// per-client delivery state.
pub struct SessionRegistry {
    pub known: Vec<String>,
    pub store: Session,
}

impl SessionRegistry {
    /// The clients that have a session.
    pub open spec fn known_view(&self) -> Seq<Seq<char>> {
        crate::topic_handler::spec_views(self.known@)
    }

    /// No client is listed twice.
    pub open spec fn wf(&self) -> bool {
        forall|i: int, j: int| 0 <= i < j < self.known_view().len() ==> self.known_view()[i] != self.known_view()[j]
    }

    pub fn new() -> (r: Self)
        ensures
            r.wf(),
            r.known_view() == Seq::<Seq<char>>::empty(),
            r.store.qos0_view() == Seq::<(Seq<char>, ControlPacketModel)>::empty(),
            r.store.qos1_view() == Seq::<(Seq<char>, u16, ControlPacketModel)>::empty(),
            r.store.qos2_view() == Seq::<(Seq<char>, u16, ControlPacketModel)>::empty(),
            r.store.puback_view() == Seq::<(Seq<char>, u16)>::empty(),
            r.store.pubrec_view() == Seq::<(Seq<char>, u16)>::empty(),
            r.store.pubrel_view() == Seq::<(Seq<char>, u16)>::empty(),
    {
        let r = SessionRegistry { known: Vec::new(), store: Session::new() };
        proof {
            assert(r.known_view() =~= Seq::<Seq<char>>::empty());
        }
        r
    }
}

/// Create the client's session when none exists; report whether one was
/// already present.  The delivery state is untouched.
pub fn register_session(registry: &mut SessionRegistry, client_id: &String) -> (r: SessionState)
    requires
        old(registry).wf(),
    ensures
        final(registry).wf(),
        r == SessionState::SessionPresent <==> old(registry).known_view().contains(client_id@),
        final(registry).known_view() == spec_subscribe_list(old(registry).known_view(), client_id@),
        final(registry).store == old(registry).store,
{
    let mut i: usize = 0;
    let n = registry.known.len();
    while i < n
        invariant
            i <= n,
            n == registry.known@.len(),
            registry == old(registry),
            registry.wf(),
            forall|k: int| 0 <= k < i ==> #[trigger] old(registry).known_view()[k] != client_id@,
        decreases n - i,
    {
        if registry.known[i] == *client_id {
            proof {
                assert(old(registry).known_view()[i as int] == client_id@);
            }
            return SessionState::SessionPresent;
        }
        i = i + 1;
    }
    proof {
        if old(registry).known_view().contains(client_id@) {
            let k = choose|k: int|
                0 <= k < old(registry).known_view().len() && old(registry).known_view()[k] == client_id@;
            assert(old(registry).known_view()[k] != client_id@);
        }
    }
    registry.known.push(client_id.clone());
    proof {
        assert(registry.known_view() =~= old(registry).known_view().push(client_id@));
        assert(registry.known_view().last() == client_id@);
        assert forall|a: int, b: int| 0 <= a < b < registry.known_view().len() implies registry.known_view()[a]
            != registry.known_view()[b] by {
            if b < old(registry).known_view().len() {
                assert(registry.known_view()[a] == old(registry).known_view()[a]);
                assert(registry.known_view()[b] == old(registry).known_view()[b]);
            } else {
                assert(registry.known_view()[a] == old(registry).known_view()[a]);
                assert(registry.known_view()[b] == client_id@);
                assert(old(registry).known_view()[a] != client_id@) by {
                    if old(registry).known_view()[a] == client_id@ {
                        assert(old(registry).known_view().contains(client_id@));
                    }
                }
            }
        }
    }
    SessionState::CleanSession
}

/// Entries of a client-keyed pair list with the client's entries dropped.
pub open spec fn spec_scrub_pairs<T>(l: Seq<(Seq<char>, T)>, c: Seq<char>) -> Seq<(Seq<char>, T)>
    decreases l.len(),
{
    if l.len() == 0 {
        Seq::<(Seq<char>, T)>::empty()
    } else {
        let rest = spec_scrub_pairs(l.drop_last(), c);
        if l.last().0 == c {
            rest
        } else {
            rest.push(l.last())
        }
    }
}

/// Entries of a client-keyed triple list with the client's entries dropped.
pub open spec fn spec_scrub_triples<T>(l: Seq<(Seq<char>, u16, T)>, c: Seq<char>) -> Seq<(Seq<char>, u16, T)>
    decreases l.len(),
{
    if l.len() == 0 {
        Seq::<(Seq<char>, u16, T)>::empty()
    } else {
        let rest = spec_scrub_triples(l.drop_last(), c);
        if l.last().0 == c {
            rest
        } else {
            rest.push(l.last())
        }
    }
}

/// Give the client a fresh session: it becomes known, and every entry it
/// had in the delivery state is dropped.
pub fn register_clean_session(registry: &mut SessionRegistry, client_id: &String)
    requires
        old(registry).wf(),
    ensures
        final(registry).wf(),
        final(registry).known_view() == spec_subscribe_list(old(registry).known_view(), client_id@),
        final(registry).store.qos0_view() == spec_scrub_pairs(old(registry).store.qos0_view(), client_id@),
        final(registry).store.qos1_view() == spec_scrub_triples(old(registry).store.qos1_view(), client_id@),
        final(registry).store.qos2_view() == spec_scrub_triples(old(registry).store.qos2_view(), client_id@),
        final(registry).store.puback_view() == spec_scrub_pairs(old(registry).store.puback_view(), client_id@),
        final(registry).store.pubrec_view() == spec_scrub_pairs(old(registry).store.pubrec_view(), client_id@),
        final(registry).store.pubrel_view() == spec_scrub_pairs(old(registry).store.pubrel_view(), client_id@),
{
    let _ = register_session(registry, client_id);
    let ghost mid = registry.store;
    let qos0 = scrub_packet_pairs(&registry.store.qos0_log, client_id);
    let qos1 = scrub_packet_triples(&registry.store.qos1_store, client_id);
    let qos2 = scrub_packet_triples(&registry.store.qos2_store, client_id);
    let puback = scrub_seen(&registry.store.puback_seen, client_id);
    let pubrec = scrub_seen(&registry.store.pubrec_seen, client_id);
    let pubrel = scrub_seen(&registry.store.pubrel_seen, client_id);
    registry.store = Session {
        qos0_log: qos0,
        qos1_store: qos1,
        qos2_store: qos2,
        puback_seen: puback,
        pubrec_seen: pubrec,
        pubrel_seen: pubrel,
    };
    proof {
        assert(mid == old(registry).store);
    }
}

/// Copy of a client-keyed packet-pair list without the client's entries.
fn scrub_packet_pairs(l: &Vec<(String, ControlPacket)>, c: &String) -> (r: Vec<(String, ControlPacket)>)
    ensures
        Seq::new(r@.len(), |i: int| (r@[i].0@, r@[i].1@)) == spec_scrub_pairs(
            Seq::new(l@.len(), |i: int| (l@[i].0@, l@[i].1@)),
            c@,
        ),
{
    let ghost lv = Seq::new(l@.len(), |i: int| (l@[i].0@, l@[i].1@));
    let mut out: Vec<(String, ControlPacket)> = Vec::new();
    let mut i: usize = 0;
    while i < l.len()
        invariant
            i <= l@.len(),
            lv == Seq::new(l@.len(), |j: int| (l@[j].0@, l@[j].1@)),
            Seq::new(out@.len(), |j: int| (out@[j].0@, out@[j].1@)) == spec_scrub_pairs(
                lv.subrange(0, i as int),
                c@,
            ),
        decreases l@.len() - i,
    {
        let ghost pre = Seq::new(out@.len(), |j: int| (out@[j].0@, out@[j].1@));
        if !(l[i].0 == *c) {
            out.push((l[i].0.clone(), l[i].1.clone()));
        }
        proof {
            let a = lv.subrange(0, i as int);
            let b = lv.subrange(0, i + 1 as int);
            assert(b.drop_last() =~= a);
            assert(b.last() == lv[i as int]);
            assert(lv[i as int] == (l@[i as int].0@, l@[i as int].1@));
            if !(l@[i as int].0@ == c@) {
                assert(Seq::new(out@.len(), |j: int| (out@[j].0@, out@[j].1@)) =~= pre.push(lv[i as int]));
            }
        }
        i = i + 1;
    }
    proof {
        assert(lv.subrange(0, l@.len() as int) =~= lv);
    }
    out
}

/// Copy of a client-keyed packet-triple list without the client's entries.
fn scrub_packet_triples(l: &Vec<(String, u16, ControlPacket)>, c: &String) -> (r: Vec<(String, u16, ControlPacket)>)
    ensures
        Seq::new(r@.len(), |i: int| (r@[i].0@, r@[i].1, r@[i].2@)) == spec_scrub_triples(
            Seq::new(l@.len(), |i: int| (l@[i].0@, l@[i].1, l@[i].2@)),
            c@,
        ),
{
    let ghost lv = Seq::new(l@.len(), |i: int| (l@[i].0@, l@[i].1, l@[i].2@));
    let mut out: Vec<(String, u16, ControlPacket)> = Vec::new();
    let mut i: usize = 0;
    while i < l.len()
        invariant
            i <= l@.len(),
            lv == Seq::new(l@.len(), |j: int| (l@[j].0@, l@[j].1, l@[j].2@)),
            Seq::new(out@.len(), |j: int| (out@[j].0@, out@[j].1, out@[j].2@)) == spec_scrub_triples(
                lv.subrange(0, i as int),
                c@,
            ),
        decreases l@.len() - i,
    {
        let ghost pre = Seq::new(out@.len(), |j: int| (out@[j].0@, out@[j].1, out@[j].2@));
        if !(l[i].0 == *c) {
            out.push((l[i].0.clone(), l[i].1, l[i].2.clone()));
        }
        proof {
            let a = lv.subrange(0, i as int);
            let b = lv.subrange(0, i + 1 as int);
            assert(b.drop_last() =~= a);
            assert(b.last() == lv[i as int]);
            assert(lv[i as int] == (l@[i as int].0@, l@[i as int].1, l@[i as int].2@));
            if !(l@[i as int].0@ == c@) {
                assert(Seq::new(out@.len(), |j: int| (out@[j].0@, out@[j].1, out@[j].2@)) =~= pre.push(
                    lv[i as int],
                ));
            }
        }
        i = i + 1;
    }
    proof {
        assert(lv.subrange(0, l@.len() as int) =~= lv);
    }
    out
}

/// Copy of a seen-set without the client's entries.
fn scrub_seen(l: &Vec<(String, u16)>, c: &String) -> (r: Vec<(String, u16)>)
    ensures
        Seq::new(r@.len(), |i: int| (r@[i].0@, r@[i].1)) == spec_scrub_pairs(
            Seq::new(l@.len(), |i: int| (l@[i].0@, l@[i].1)),
            c@,
        ),
{
    let ghost lv = Seq::new(l@.len(), |i: int| (l@[i].0@, l@[i].1));
    let mut out: Vec<(String, u16)> = Vec::new();
    let mut i: usize = 0;
    while i < l.len()
        invariant
            i <= l@.len(),
            lv == Seq::new(l@.len(), |j: int| (l@[j].0@, l@[j].1)),
            Seq::new(out@.len(), |j: int| (out@[j].0@, out@[j].1)) == spec_scrub_pairs(
                lv.subrange(0, i as int),
                c@,
            ),
        decreases l@.len() - i,
    {
        let ghost pre = Seq::new(out@.len(), |j: int| (out@[j].0@, out@[j].1));
        if !(l[i].0 == *c) {
            out.push((l[i].0.clone(), l[i].1));
        }
        proof {
            let a = lv.subrange(0, i as int);
            let b = lv.subrange(0, i + 1 as int);
            assert(b.drop_last() =~= a);
            assert(b.last() == lv[i as int]);
            assert(lv[i as int] == (l@[i as int].0@, l@[i as int].1));
            if !(l@[i as int].0@ == c@) {
                assert(Seq::new(out@.len(), |j: int| (out@[j].0@, out@[j].1)) =~= pre.push(lv[i as int]));
            }
        }
        i = i + 1;
    }
    proof {
        assert(lv.subrange(0, l@.len() as int) =~= lv);
    }
    out
}

/// Record the PUBLISH for every listed client: the log or store of the
/// packet's quality-of-service level grows by one entry per client, in list
/// order; everything else is untouched.
pub fn persist_packets(registry: &mut SessionRegistry, client_ids: &Vec<String>, publish_packet: &ControlPacket)
    requires
        old(registry).wf(),
        spec_storable(publish_packet@),
    ensures
        final(registry).wf(),
        final(registry).known_view() == old(registry).known_view(),
        match publish_packet@.fixed_header.qos_level->0 {
            QoSLevel::AtMostOnce => final(registry).store.qos0_view() == old(registry).store.qos0_view() + Seq::new(
                client_ids@.len(),
                |i: int| (client_ids@[i]@, publish_packet@),
            ) && final(registry).store.qos1_view() == old(registry).store.qos1_view() && final(registry).store.qos2_view() == old(registry).store.qos2_view(),
            QoSLevel::AtLeastOnce => final(registry).store.qos1_view() == old(registry).store.qos1_view()
                + Seq::new(
                client_ids@.len(),
                |i: int| (client_ids@[i]@, spec_identifier(publish_packet@), publish_packet@),
            ) && final(registry).store.qos0_view() == old(registry).store.qos0_view() && final(registry).store.qos2_view() == old(registry).store.qos2_view(),
            QoSLevel::ExactlyOnce => final(registry).store.qos2_view() == old(registry).store.qos2_view()
                + Seq::new(
                client_ids@.len(),
                |i: int| (client_ids@[i]@, spec_identifier(publish_packet@), publish_packet@),
            ) && final(registry).store.qos0_view() == old(registry).store.qos0_view() && final(registry).store.qos1_view() == old(registry).store.qos1_view(),
        },
        final(registry).store.puback_view() == old(registry).store.puback_view(),
        final(registry).store.pubrec_view() == old(registry).store.pubrec_view(),
        final(registry).store.pubrel_view() == old(registry).store.pubrel_view(),
{
    let ghost qos = publish_packet@.fixed_header.qos_level->0;
    let mut i: usize = 0;
    let n = client_ids.len();
    while i < n
        invariant
            i <= n,
            n == client_ids@.len(),
            registry.wf(),
            spec_storable(publish_packet@),
            qos == publish_packet@.fixed_header.qos_level->0,
            registry.known_view() == old(registry).known_view(),
            match qos {
                QoSLevel::AtMostOnce => registry.store.qos0_view() == old(registry).store.qos0_view() + Seq::new(
                    i as nat,
                    |j: int| (client_ids@[j]@, publish_packet@),
                ) && registry.store.qos1_view() == old(registry).store.qos1_view() && registry.store.qos2_view()
                    == old(registry).store.qos2_view(),
                QoSLevel::AtLeastOnce => registry.store.qos1_view() == old(registry).store.qos1_view() + Seq::new(
                    i as nat,
                    |j: int| (client_ids@[j]@, spec_identifier(publish_packet@), publish_packet@),
                ) && registry.store.qos0_view() == old(registry).store.qos0_view() && registry.store.qos2_view()
                    == old(registry).store.qos2_view(),
                QoSLevel::ExactlyOnce => registry.store.qos2_view() == old(registry).store.qos2_view() + Seq::new(
                    i as nat,
                    |j: int| (client_ids@[j]@, spec_identifier(publish_packet@), publish_packet@),
                ) && registry.store.qos0_view() == old(registry).store.qos0_view() && registry.store.qos1_view()
                    == old(registry).store.qos1_view(),
            },
            registry.store.puback_view() == old(registry).store.puback_view(),
            registry.store.pubrec_view() == old(registry).store.pubrec_view(),
            registry.store.pubrel_view() == old(registry).store.pubrel_view(),
        decreases n - i,
    {
        registry.store.register_publish(client_ids[i].clone(), publish_packet);
        proof {
            match qos {
                QoSLevel::AtMostOnce => {
                    assert(registry.store.qos0_view() =~= old(registry).store.qos0_view() + Seq::new(
                        (i + 1) as nat,
                        |j: int| (client_ids@[j]@, publish_packet@),
                    ));
                },
                QoSLevel::AtLeastOnce => {
                    assert(registry.store.qos1_view() =~= old(registry).store.qos1_view() + Seq::new(
                        (i + 1) as nat,
                        |j: int| (client_ids@[j]@, spec_identifier(publish_packet@), publish_packet@),
                    ));
                },
                QoSLevel::ExactlyOnce => {
                    assert(registry.store.qos2_view() =~= old(registry).store.qos2_view() + Seq::new(
                        (i + 1) as nat,
                        |j: int| (client_ids@[j]@, spec_identifier(publish_packet@), publish_packet@),
                    ));
                },
            }
        }
        i = i + 1;
    }
    proof {
        match qos {
            QoSLevel::AtMostOnce => {
                assert(Seq::new(n as nat, |j: int| (client_ids@[j]@, publish_packet@)) =~= Seq::new(
                    client_ids@.len(),
                    |j: int| (client_ids@[j]@, publish_packet@),
                ));
            },
            _ => {
                assert(Seq::new(
                    n as nat,
                    |j: int| (client_ids@[j]@, spec_identifier(publish_packet@), publish_packet@),
                ) =~= Seq::new(
                    client_ids@.len(),
                    |j: int| (client_ids@[j]@, spec_identifier(publish_packet@), publish_packet@),
                ));
            },
        }
    }
}

/// The decimal digits of `n`, most significant first.
pub open spec fn spec_decimal(n: int) -> Seq<char>
    decreases n,
{
    if n < 10 {
        seq![spec_digit(n)]
    } else {
        spec_decimal(n / 10).push(spec_digit(n % 10))
    }
}

/// The character of one decimal digit.
pub open spec fn spec_digit(d: int) -> char {
    if d == 0 {
        '0'
    } else if d == 1 {
        '1'
    } else if d == 2 {
        '2'
    } else if d == 3 {
        '3'
    } else if d == 4 {
        '4'
    } else if d == 5 {
        '5'
    } else if d == 6 {
        '6'
    } else if d == 7 {
        '7'
    } else if d == 8 {
        '8'
    } else {
        '9'
    }
}

/// The string of one decimal digit.
fn digit_str(d: u64) -> (r: &'static str)
    requires
        d < 10,
    ensures
        r@ == seq![spec_digit(d as int)],
{
    proof {
        reveal_strlit("0");
        reveal_strlit("1");
        reveal_strlit("2");
        reveal_strlit("3");
        reveal_strlit("4");
        reveal_strlit("5");
        reveal_strlit("6");
        reveal_strlit("7");
        reveal_strlit("8");
        reveal_strlit("9");
    }
    let r = match d {
        0u64 => "0",
        1u64 => "1",
        2u64 => "2",
        3u64 => "3",
        4u64 => "4",
        5u64 => "5",
        6u64 => "6",
        7u64 => "7",
        8u64 => "8",
        _ => "9",
    };
    proof {
        assert(r@ =~= seq![spec_digit(d as int)]);
    }
    r
}

/// The decimal representation of `n`.
fn u64_to_decimal(n: u64) -> (r: String)
    ensures
        r@ == spec_decimal(n as int),
    decreases n,
{
    if n < 10 {
        String::from_str(digit_str(n))
    } else {
        let mut s = u64_to_decimal(n / 10);
        s.append(digit_str(n % 10));
        proof {
            assert(s@ =~= spec_decimal(n as int));
        }
        s
    }
}

/// Relies on `rand::random`: a fresh pseudo-random value; nothing is
/// promised of it.
#[verifier::external_body]
fn random_u64() -> u64 {
    rand::random::<u64>()
}

/// Relies on `chrono::Local::now` and its formatter: the local time at
/// nanosecond precision, rendered as digits; nothing is promised of it.
#[verifier::external_body]
fn local_timestamp_string() -> String {
    chrono::Local::now().format("%Y%m%d%H%M%S%f").to_string()
}

/// A generated client identifier: a random 64-bit value's decimal digits
/// followed by the current local timestamp.  Never empty.
pub fn generate_client_id() -> (r: String)
    ensures
        r@.len() > 0,
{
    let random_prefix = random_u64();
    let now = local_timestamp_string();
    let mut s = u64_to_decimal(random_prefix);
    proof {
        if random_prefix as int >= 10 {
            assert(spec_decimal(random_prefix as int).len() >= 1);
        }
    }
    s.append(now.as_str());
    s
}

} // verus!
