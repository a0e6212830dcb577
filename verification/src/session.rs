//! Per-client delivery state for the three quality-of-service levels.

use vstd::prelude::*;
use crate::control_packet::{ControlPacket, ControlPacketModel};
use crate::qos_level::QoSLevel;

verus! {

/// The per-client delivery state: the QoS-0 replay log, the QoS-1 and QoS-2
/// stores of unacknowledged PUBLISH packets (keyed by client and packet
/// identifier; a later entry for the same key supersedes an earlier one, as
/// a map insert would), and the seen-sets of the acknowledgment handshakes.
pub struct Session {
    pub qos0_log: Vec<(String, ControlPacket)>,
    pub qos1_store: Vec<(String, u16, ControlPacket)>,
    pub qos2_store: Vec<(String, u16, ControlPacket)>,
    pub puback_seen: Vec<(String, u16)>,
    pub pubrec_seen: Vec<(String, u16)>,
    pub pubrel_seen: Vec<(String, u16)>,
}

/// The packets a PUBLISH packet must carry for session bookkeeping: a
/// quality-of-service level, and an identifier when that level asks for
/// acknowledgments.
pub open spec fn spec_storable(m: ControlPacketModel) -> bool {
    &&& m.fixed_header.qos_level is Some
    &&& (m.fixed_header.qos_level->0 != QoSLevel::AtMostOnce ==> (m.variable_header matches Some(v)
        && v.packet_identifier is Some))
}

/// A packet whose variable header carries an identifier, as every
/// acknowledgment must.
pub open spec fn spec_has_identifier(m: ControlPacketModel) -> bool {
    m.variable_header matches Some(v) && v.packet_identifier is Some
}

/// The identifier of such a packet.
pub open spec fn spec_identifier(m: ControlPacketModel) -> u16 {
    m.variable_header->0.packet_identifier->0
}

impl Session {
    /// The QoS-0 log as plain values, in arrival order.
    pub open spec fn qos0_view(&self) -> Seq<(Seq<char>, ControlPacketModel)> {
        Seq::new(self.qos0_log@.len(), |i: int| (self.qos0_log@[i].0@, self.qos0_log@[i].1@))
    }

    /// The QoS-1 store as plain values, in arrival order.
    pub open spec fn qos1_view(&self) -> Seq<(Seq<char>, u16, ControlPacketModel)> {
        Seq::new(self.qos1_store@.len(), |i: int| (self.qos1_store@[i].0@, self.qos1_store@[i].1, self.qos1_store@[i].2@))
    }

    /// The QoS-2 store as plain values, in arrival order.
    pub open spec fn qos2_view(&self) -> Seq<(Seq<char>, u16, ControlPacketModel)> {
        Seq::new(self.qos2_store@.len(), |i: int| (self.qos2_store@[i].0@, self.qos2_store@[i].1, self.qos2_store@[i].2@))
    }

    /// The PUBACK-seen entries as plain values.
    pub open spec fn puback_view(&self) -> Seq<(Seq<char>, u16)> {
        Seq::new(self.puback_seen@.len(), |i: int| (self.puback_seen@[i].0@, self.puback_seen@[i].1))
    }

    /// The PUBREC-seen entries as plain values.
    pub open spec fn pubrec_view(&self) -> Seq<(Seq<char>, u16)> {
        Seq::new(self.pubrec_seen@.len(), |i: int| (self.pubrec_seen@[i].0@, self.pubrec_seen@[i].1))
    }

    /// The PUBREL-seen entries as plain values.
    pub open spec fn pubrel_view(&self) -> Seq<(Seq<char>, u16)> {
        Seq::new(self.pubrel_seen@.len(), |i: int| (self.pubrel_seen@[i].0@, self.pubrel_seen@[i].1))
    }

    pub fn new() -> (r: Self)
        ensures
            r.qos0_view() == Seq::<(Seq<char>, ControlPacketModel)>::empty(),
            r.qos1_view() == Seq::<(Seq<char>, u16, ControlPacketModel)>::empty(),
            r.qos2_view() == Seq::<(Seq<char>, u16, ControlPacketModel)>::empty(),
            r.puback_view() == Seq::<(Seq<char>, u16)>::empty(),
            r.pubrec_view() == Seq::<(Seq<char>, u16)>::empty(),
            r.pubrel_view() == Seq::<(Seq<char>, u16)>::empty(),
    {
        let r = Session {
            qos0_log: Vec::new(),
            qos1_store: Vec::new(),
            qos2_store: Vec::new(),
            puback_seen: Vec::new(),
            pubrec_seen: Vec::new(),
            pubrel_seen: Vec::new(),
        };
        proof {
            assert(r.qos0_view() =~= Seq::<(Seq<char>, ControlPacketModel)>::empty());
            assert(r.qos1_view() =~= Seq::<(Seq<char>, u16, ControlPacketModel)>::empty());
            assert(r.qos2_view() =~= Seq::<(Seq<char>, u16, ControlPacketModel)>::empty());
            assert(r.puback_view() =~= Seq::<(Seq<char>, u16)>::empty());
            assert(r.pubrec_view() =~= Seq::<(Seq<char>, u16)>::empty());
            assert(r.pubrel_view() =~= Seq::<(Seq<char>, u16)>::empty());
        }
        r
    }

    /// Record a PUBLISH for `client_id`: appended to the QoS-0 log for
    /// at-most-once delivery, else stored keyed by client and identifier.
    pub fn register_publish(&mut self, client_id: String, packet: &ControlPacket)
        requires
            spec_storable(packet@),
        ensures
            match old(self).spec_qos(packet@) {
                QoSLevel::AtMostOnce => final(self).qos0_view() == old(self).qos0_view().push((client_id@, packet@))
                    && final(self).qos1_view() == old(self).qos1_view() && final(self).qos2_view() == old(
                    self,
                ).qos2_view(),
                QoSLevel::AtLeastOnce => final(self).qos1_view() == old(self).qos1_view().push(
                    (client_id@, spec_identifier(packet@), packet@),
                ) && final(self).qos0_view() == old(self).qos0_view() && final(self).qos2_view() == old(
                    self,
                ).qos2_view(),
                QoSLevel::ExactlyOnce => final(self).qos2_view() == old(self).qos2_view().push(
                    (client_id@, spec_identifier(packet@), packet@),
                ) && final(self).qos0_view() == old(self).qos0_view() && final(self).qos1_view() == old(
                    self,
                ).qos1_view(),
            },
            final(self).puback_view() == old(self).puback_view(),
            final(self).pubrec_view() == old(self).pubrec_view(),
            final(self).pubrel_view() == old(self).pubrel_view(),
    {
        let qos = *packet.fixed_header().qos_level();
        match qos {
            QoSLevel::AtMostOnce => {
                self.qos0_log.push((client_id, packet.clone()));
                proof {
                    assert(self.qos0_view() =~= old(self).qos0_view().push((self.qos0_log@.last().0@, packet@)));
                    assert(self.qos1_view() =~= old(self).qos1_view());
                    assert(self.qos2_view() =~= old(self).qos2_view());
                }
            },
            QoSLevel::AtLeastOnce => {
                let packet_id = packet.variable_header().packet_identifier();
                self.qos1_store.push((client_id, packet_id, packet.clone()));
                proof {
                    assert(self.qos1_view() =~= old(self).qos1_view().push(
                        (self.qos1_store@.last().0@, spec_identifier(packet@), packet@),
                    ));
                    assert(self.qos0_view() =~= old(self).qos0_view());
                    assert(self.qos2_view() =~= old(self).qos2_view());
                }
            },
            QoSLevel::ExactlyOnce => {
                let packet_id = packet.variable_header().packet_identifier();
                self.qos2_store.push((client_id, packet_id, packet.clone()));
                proof {
                    assert(self.qos2_view() =~= old(self).qos2_view().push(
                        (self.qos2_store@.last().0@, spec_identifier(packet@), packet@),
                    ));
                    assert(self.qos0_view() =~= old(self).qos0_view());
                    assert(self.qos1_view() =~= old(self).qos1_view());
                }
            },
        }
        proof {
            assert(self.puback_view() =~= old(self).puback_view());
            assert(self.pubrec_view() =~= old(self).pubrec_view());
            assert(self.pubrel_view() =~= old(self).pubrel_view());
        }
    }

    /// The quality-of-service level of a storable packet.
    pub open spec fn spec_qos(&self, m: ControlPacketModel) -> QoSLevel {
        m.fixed_header.qos_level->0
    }

    /// Mark the PUBACK of this packet's identifier as received for `client_id`.
    pub fn register_puback(&mut self, client_id: String, packet: &ControlPacket)
        requires
            spec_has_identifier(packet@),
        ensures
            final(self).puback_view() == old(self).puback_view().push((client_id@, spec_identifier(packet@))),
            final(self).pubrec_view() == old(self).pubrec_view(),
            final(self).pubrel_view() == old(self).pubrel_view(),
            final(self).qos0_view() == old(self).qos0_view(),
            final(self).qos1_view() == old(self).qos1_view(),
            final(self).qos2_view() == old(self).qos2_view(),
    {
        let packet_id = packet.variable_header().packet_identifier();
        self.puback_seen.push((client_id, packet_id));
        proof {
            assert(self.puback_view() =~= old(self).puback_view().push(
                (self.puback_seen@.last().0@, spec_identifier(packet@)),
            ));
            assert(self.pubrec_view() =~= old(self).pubrec_view());
            assert(self.pubrel_view() =~= old(self).pubrel_view());
            assert(self.qos0_view() =~= old(self).qos0_view());
            assert(self.qos1_view() =~= old(self).qos1_view());
            assert(self.qos2_view() =~= old(self).qos2_view());
        }
    }

    /// Mark the PUBREC of this packet's identifier as received for `client_id`.
    pub fn register_pubrec(&mut self, client_id: String, packet: &ControlPacket)
        requires
            spec_has_identifier(packet@),
        ensures
            final(self).pubrec_view() == old(self).pubrec_view().push((client_id@, spec_identifier(packet@))),
            final(self).puback_view() == old(self).puback_view(),
            final(self).pubrel_view() == old(self).pubrel_view(),
            final(self).qos0_view() == old(self).qos0_view(),
            final(self).qos1_view() == old(self).qos1_view(),
            final(self).qos2_view() == old(self).qos2_view(),
    {
        let packet_id = packet.variable_header().packet_identifier();
        self.pubrec_seen.push((client_id, packet_id));
        proof {
            assert(self.pubrec_view() =~= old(self).pubrec_view().push(
                (self.pubrec_seen@.last().0@, spec_identifier(packet@)),
            ));
            assert(self.puback_view() =~= old(self).puback_view());
            assert(self.pubrel_view() =~= old(self).pubrel_view());
            assert(self.qos0_view() =~= old(self).qos0_view());
            assert(self.qos1_view() =~= old(self).qos1_view());
            assert(self.qos2_view() =~= old(self).qos2_view());
        }
    }

    /// Mark the PUBREL of this packet's identifier as received for `client_id`.
    pub fn register_pubrel(&mut self, client_id: String, packet: &ControlPacket)
        requires
            spec_has_identifier(packet@),
        ensures
            final(self).pubrel_view() == old(self).pubrel_view().push((client_id@, spec_identifier(packet@))),
            final(self).puback_view() == old(self).puback_view(),
            final(self).pubrec_view() == old(self).pubrec_view(),
            final(self).qos0_view() == old(self).qos0_view(),
            final(self).qos1_view() == old(self).qos1_view(),
            final(self).qos2_view() == old(self).qos2_view(),
    {
        let packet_id = packet.variable_header().packet_identifier();
        self.pubrel_seen.push((client_id, packet_id));
        proof {
            assert(self.pubrel_view() =~= old(self).pubrel_view().push(
                (self.pubrel_seen@.last().0@, spec_identifier(packet@)),
            ));
            assert(self.puback_view() =~= old(self).puback_view());
            assert(self.pubrec_view() =~= old(self).pubrec_view());
            assert(self.qos0_view() =~= old(self).qos0_view());
            assert(self.qos1_view() =~= old(self).qos1_view());
            assert(self.qos2_view() =~= old(self).qos2_view());
        }
    }

    /// Whether the PUBACK of this packet's identifier has been recorded for
    /// `client_id`.
    pub fn is_puback_complete(&self, client_id: String, packet: &ControlPacket) -> (r: bool)
        requires
            spec_has_identifier(packet@),
        ensures
            r == self.puback_view().contains((client_id@, spec_identifier(packet@))),
    {
        let packet_id = packet.variable_header().packet_identifier();
        seen_contains(&self.puback_seen, &client_id, packet_id)
    }

    /// Whether the PUBREC of this packet's identifier has been recorded for
    /// `client_id`.
    pub fn is_pubrec_complete(&self, client_id: String, packet: &ControlPacket) -> (r: bool)
        requires
            spec_has_identifier(packet@),
        ensures
            r == self.pubrec_view().contains((client_id@, spec_identifier(packet@))),
    {
        let packet_id = packet.variable_header().packet_identifier();
        seen_contains(&self.pubrec_seen, &client_id, packet_id)
    }

    /// Whether the PUBREL of this packet's identifier has been recorded for
    /// `client_id`.
    pub fn is_pubrel_complete(&self, client_id: String, packet: &ControlPacket) -> (r: bool)
        requires
            spec_has_identifier(packet@),
        ensures
            r == self.pubrel_view().contains((client_id@, spec_identifier(packet@))),
    {
        let packet_id = packet.variable_header().packet_identifier();
        seen_contains(&self.pubrel_seen, &client_id, packet_id)
    }
}

/// Whether a seen-set holds the given client and identifier.
fn seen_contains(seen: &Vec<(String, u16)>, client_id: &String, packet_id: u16) -> (r: bool)
    ensures
        r == Seq::new(seen@.len(), |i: int| (seen@[i].0@, seen@[i].1)).contains((client_id@, packet_id)),
{
    let ghost view = Seq::new(seen@.len(), |i: int| (seen@[i].0@, seen@[i].1));
    let mut i: usize = 0;
    while i < seen.len()
        invariant
            i <= seen@.len(),
            view == Seq::new(seen@.len(), |j: int| (seen@[j].0@, seen@[j].1)),
            forall|k: int| 0 <= k < i ==> #[trigger] view[k] != (client_id@, packet_id),
        decreases seen@.len() - i,
    {
        if seen[i].0 == *client_id && seen[i].1 == packet_id {
            proof {
                assert(view[i as int] == (client_id@, packet_id));
            }
            return true;
        }
        proof {
            assert(view[i as int] == (seen@[i as int].0@, seen@[i as int].1));
        }
        i = i + 1;
    }
    proof {
        if view.contains((client_id@, packet_id)) {
            let k = choose|k: int| 0 <= k < view.len() && view[k] == (client_id@, packet_id);
            assert(view[k] != (client_id@, packet_id));
        }
    }
    false
}

} // verus!
