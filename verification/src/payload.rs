use vstd::prelude::*;
use crate::reason_code::ReasonCode;
use crate::topic::{TopicFilter, TopicFilterModel};
use crate::variable_header::{clone_properties, Property, PropertyModel};
use crate::vec_util::clone_bytes;

verus! {

/// Mathematical value of a payload.
#[verifier::ext_equal]
pub struct PayloadModel {
    pub client_id: Option<Seq<char>>,
    pub will_properties: Option<Seq<PropertyModel>>,
    pub will_topic: Option<Seq<char>>,
    pub will_payload: Option<Seq<u8>>,
    pub username: Option<Seq<char>>,
    pub password: Option<Seq<char>>,
    pub topic_filters: Option<Seq<TopicFilterModel>>,
    pub reason_codes: Option<Seq<ReasonCode>>,
    pub data: Option<Seq<u8>>,
}

/// Packet payload; which fields are populated depends on the packet type.
#[derive(Debug)]
pub struct Payload {
    pub client_id: Option<String>,
    pub will_properties: Option<Vec<Property>>,
    pub will_topic: Option<String>,
    pub will_payload: Option<Vec<u8>>,
    pub username: Option<String>,
    pub password: Option<String>,
    pub topic_filters: Option<Vec<TopicFilter>>,
    pub reason_codes: Option<Vec<ReasonCode>>,
    pub data: Option<Vec<u8>>,
}

impl View for Payload {
    type V = PayloadModel;

    open spec fn view(&self) -> PayloadModel {
        PayloadModel {
            client_id: match self.client_id {
                Some(s) => Some(s@),
                None => None,
            },
            will_properties: match self.will_properties {
                Some(ps) => Some(Seq::new(ps@.len(), |i: int| ps@[i]@)),
                None => None,
            },
            will_topic: match self.will_topic {
                Some(s) => Some(s@),
                None => None,
            },
            will_payload: match self.will_payload {
                Some(b) => Some(b@),
                None => None,
            },
            username: match self.username {
                Some(s) => Some(s@),
                None => None,
            },
            password: match self.password {
                Some(s) => Some(s@),
                None => None,
            },
            topic_filters: match self.topic_filters {
                Some(fs) => Some(Seq::new(fs@.len(), |i: int| fs@[i]@)),
                None => None,
            },
            reason_codes: match self.reason_codes {
                Some(rs) => Some(rs@),
                None => None,
            },
            data: match self.data {
                Some(b) => Some(b@),
                None => None,
            },
        }
    }
}


/// Copy of a subscription-entry list, entry by entry.
pub fn clone_topic_filters(v: &Vec<TopicFilter>) -> (r: Vec<TopicFilter>)
    ensures
        r@.len() == v@.len(),
        forall|i: int| 0 <= i < v@.len() ==> #[trigger] r@[i]@ == v@[i]@,
{
    let mut out: Vec<TopicFilter> = Vec::new();
    let mut i: usize = 0;
    while i < v.len()
        invariant
            i <= v@.len(),
            out@.len() == i,
            forall|j: int| 0 <= j < i ==> #[trigger] out@[j]@ == v@[j]@,
        decreases v@.len() - i,
    {
        out.push(v[i].clone());
        i = i + 1;
    }
    out
}

/// Copy of a reason-code list.
pub fn clone_reason_codes(v: &Vec<ReasonCode>) -> (r: Vec<ReasonCode>)
    ensures
        r@ == v@,
{
    let mut out: Vec<ReasonCode> = Vec::new();
    let mut i: usize = 0;
    while i < v.len()
        invariant
            i <= v@.len(),
            out@ == v@.subrange(0, i as int),
        decreases v@.len() - i,
    {
        out.push(v[i]);
        assert(out@ =~= v@.subrange(0, i + 1 as int));
        i = i + 1;
    }
    assert(out@ =~= v@);
    out
}

impl Clone for Payload {
    /// A clone denotes the same payload.
    fn clone(&self) -> (r: Self)
        ensures
            r@ == self@,
    {
        let r = Payload {
            client_id: match &self.client_id {
                Some(s) => Some(s.clone()),
                None => None,
            },
            will_properties: match &self.will_properties {
                Some(ps) => Some(clone_properties(ps)),
                None => None,
            },
            will_topic: match &self.will_topic {
                Some(s) => Some(s.clone()),
                None => None,
            },
            will_payload: match &self.will_payload {
                Some(b) => Some(clone_bytes(b)),
                None => None,
            },
            username: match &self.username {
                Some(s) => Some(s.clone()),
                None => None,
            },
            password: match &self.password {
                Some(s) => Some(s.clone()),
                None => None,
            },
            topic_filters: match &self.topic_filters {
                Some(fs) => Some(clone_topic_filters(fs)),
                None => None,
            },
            reason_codes: match &self.reason_codes {
                Some(rs) => Some(clone_reason_codes(rs)),
                None => None,
            },
            data: match &self.data {
                Some(b) => Some(clone_bytes(b)),
                None => None,
            },
        };
        proof {
            match (&self.will_properties, &r.will_properties) {
                (Some(a), Some(b)) => {
                    assert(Seq::new(b@.len(), |i: int| b@[i]@) =~= Seq::new(a@.len(), |i: int| a@[i]@));
                },
                _ => {},
            }
            match (&self.topic_filters, &r.topic_filters) {
                (Some(a), Some(b)) => {
                    assert(Seq::new(b@.len(), |i: int| b@[i]@) =~= Seq::new(a@.len(), |i: int| a@[i]@));
                },
                _ => {},
            }
            assert(r@ =~~= self@);
        }
        r
    }
}

impl Payload {
    pub fn from_connect(
        client_id: Option<String>,
        will_properties: Option<Vec<Property>>,
        will_topic: Option<String>,
        will_payload: Option<Vec<u8>>,
        username: Option<String>,
        password: Option<String>,
    ) -> (r: Self)
        ensures
            r == (Payload {
                client_id,
                will_properties,
                will_topic,
                will_payload,
                username,
                password,
                topic_filters: None,
                reason_codes: None,
                data: None,
            }),
    {
        Payload {
            client_id,
            will_properties,
            will_topic,
            will_payload,
            username,
            password,
            topic_filters: None,
            reason_codes: None,
            data: None,
        }
    }

    pub fn from_sub_unsub(topic_filters: Vec<TopicFilter>) -> (r: Self)
        ensures
            r == (Payload {
                client_id: None,
                will_properties: None,
                will_topic: None,
                will_payload: None,
                username: None,
                password: None,
                topic_filters: Some(topic_filters),
                reason_codes: None,
                data: None,
            }),
    {
        Payload {
            client_id: None,
            will_properties: None,
            will_topic: None,
            will_payload: None,
            username: None,
            password: None,
            topic_filters: Some(topic_filters),
            reason_codes: None,
            data: None,
        }
    }

    pub fn from_sub_unsub_ack(reason_codes: Option<Vec<ReasonCode>>) -> (r: Self)
        ensures
            r == (Payload {
                client_id: None,
                will_properties: None,
                will_topic: None,
                will_payload: None,
                username: None,
                password: None,
                topic_filters: None,
                reason_codes,
                data: None,
            }),
    {
        Payload {
            client_id: None,
            will_properties: None,
            will_topic: None,
            will_payload: None,
            username: None,
            password: None,
            topic_filters: None,
            reason_codes,
            data: None,
        }
    }

    pub fn from_publish(data: Option<Vec<u8>>) -> (r: Self)
        ensures
            r == (Payload {
                client_id: None,
                will_properties: None,
                will_topic: None,
                will_payload: None,
                username: None,
                password: None,
                topic_filters: None,
                reason_codes: None,
                data,
            }),
    {
        Payload {
            client_id: None,
            will_properties: None,
            will_topic: None,
            will_payload: None,
            username: None,
            password: None,
            topic_filters: None,
            reason_codes: None,
            data,
        }
    }

    pub fn client_id_opt(&self) -> (r: Option<&String>)
        ensures
            match r {
                Some(s) => self.client_id is Some && s@ == self@.client_id->0,
                None => self.client_id is None,
            },
    {
        self.client_id.as_ref()
    }

    pub fn client_id(&self) -> (r: &String)
        requires
            self.client_id is Some,
        ensures
            r@ == self@.client_id->0,
    {
        self.client_id.as_ref().unwrap()
    }

    pub fn topic_filters(&self) -> (r: &Vec<TopicFilter>)
        requires
            self.topic_filters is Some,
        ensures
            r == &self.topic_filters->0,
    {
        self.topic_filters.as_ref().unwrap()
    }

    pub fn reason_codes(&self) -> (r: &Vec<ReasonCode>)
        requires
            self.reason_codes is Some,
        ensures
            r == &self.reason_codes->0,
    {
        self.reason_codes.as_ref().unwrap()
    }

    pub fn data(&self) -> (r: &Vec<u8>)
        requires
            self.data is Some,
        ensures
            r == &self.data->0,
    {
        self.data.as_ref().unwrap()
    }
}

} // verus!
