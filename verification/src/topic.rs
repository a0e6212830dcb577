use vstd::prelude::*;
use crate::qos_level::QoSLevel;
use crate::vec_util::clone_bools;

verus! {

/// Retained-message handling requested in a subscription's option byte.
#[derive(Debug, Clone, Copy, PartialEq, Eq, Structural)]
pub enum RetainHandling {
    SendRetainedMessagesOnSubscribe,
    SendRetainedMessagesOnNewSubscribe,
    DontSendRetainedMessages,
}

/// Retain-handling mode denoted by a two-bit wire value, if in range.
pub open spec fn spec_retain_handling_from_u8(value: u8) -> Option<RetainHandling> {
    if value == 0 {
        Some(RetainHandling::SendRetainedMessagesOnSubscribe)
    } else if value == 1 {
        Some(RetainHandling::SendRetainedMessagesOnNewSubscribe)
    } else if value == 2 {
        Some(RetainHandling::DontSendRetainedMessages)
    } else {
        None
    }
}

/// Numeric value of a retain-handling mode on the wire.
pub open spec fn spec_retain_handling_as_u8(rh: RetainHandling) -> u8 {
    match rh {
        RetainHandling::SendRetainedMessagesOnSubscribe => 0,
        RetainHandling::SendRetainedMessagesOnNewSubscribe => 1,
        RetainHandling::DontSendRetainedMessages => 2,
    }
}

impl RetainHandling {
    pub fn from_u8(value: u8) -> (r: Option<RetainHandling>)
        ensures
            r == spec_retain_handling_from_u8(value),
    {
        match value {
            0u8 => Some(RetainHandling::SendRetainedMessagesOnSubscribe),
            1u8 => Some(RetainHandling::SendRetainedMessagesOnNewSubscribe),
            2u8 => Some(RetainHandling::DontSendRetainedMessages),
            _ => None,
        }
    }

    pub fn as_u8(&self) -> (r: u8)
        ensures
            r == spec_retain_handling_as_u8(*self),
    {
        match self {
            RetainHandling::SendRetainedMessagesOnSubscribe => 0,
            RetainHandling::SendRetainedMessagesOnNewSubscribe => 1,
            RetainHandling::DontSendRetainedMessages => 2,
        }
    }
}

/// Mathematical value of one subscription entry.
#[verifier::ext_equal]
pub struct TopicFilterModel {
    pub topic_filter: Seq<char>,
    pub maximum_qos: QoSLevel,
    pub no_local: bool,
    pub retain_as_published: bool,
    pub retain_handling: RetainHandling,
    pub reserved_bits: Seq<bool>,
}

/// One entry of a SUBSCRIBE or UNSUBSCRIBE payload: the filter string and
/// its subscription options.
#[derive(Debug)]
pub struct TopicFilter {
    pub topic_filter: String,
    pub maximum_qos: QoSLevel,
    pub no_local: bool,
    pub retain_as_published: bool,
    pub retain_handling: RetainHandling,
    pub reserved_bits: Vec<bool>,
}

impl View for TopicFilter {
    type V = TopicFilterModel;

    open spec fn view(&self) -> TopicFilterModel {
        TopicFilterModel {
            topic_filter: self.topic_filter@,
            maximum_qos: self.maximum_qos,
            no_local: self.no_local,
            retain_as_published: self.retain_as_published,
            retain_handling: self.retain_handling,
            reserved_bits: self.reserved_bits@,
        }
    }
}

impl Clone for TopicFilter {
    /// A clone denotes the same subscription entry.
    fn clone(&self) -> (r: Self)
        ensures
            r@ == self@,
    {
        let r = TopicFilter {
            topic_filter: self.topic_filter.clone(),
            maximum_qos: self.maximum_qos,
            no_local: self.no_local,
            retain_as_published: self.retain_as_published,
            retain_handling: self.retain_handling,
            reserved_bits: clone_bools(&self.reserved_bits),
        };
        proof {
            assert(r@ =~~= self@);
        }
        r
    }
}

impl TopicFilter {
    pub fn from_subscribe(
        topic_filter: String,
        maximum_qos: QoSLevel,
        no_local: bool,
        retain_as_published: bool,
        retain_handling: RetainHandling,
        reserved_bits: Vec<bool>,
    ) -> (r: Self)
        ensures
            r@ == (TopicFilterModel {
                topic_filter: topic_filter@,
                maximum_qos,
                no_local,
                retain_as_published,
                retain_handling,
                reserved_bits: reserved_bits@,
            }),
    {
        TopicFilter { topic_filter, maximum_qos, no_local, retain_as_published, retain_handling, reserved_bits }
    }

    pub fn from_unsubscribe(topic_filter: String) -> (r: Self)
        ensures
            r@ == (TopicFilterModel {
                topic_filter: topic_filter@,
                maximum_qos: QoSLevel::ExactlyOnce,
                no_local: true,
                retain_as_published: false,
                retain_handling: RetainHandling::DontSendRetainedMessages,
                reserved_bits: Seq::<bool>::empty(),
            }),
    {
        TopicFilter {
            topic_filter,
            maximum_qos: QoSLevel::ExactlyOnce,
            no_local: true,
            retain_as_published: false,
            retain_handling: RetainHandling::DontSendRetainedMessages,
            reserved_bits: Vec::new(),
        }
    }

    pub fn topic_filter(&self) -> (r: &String)
        ensures
            r@ == self@.topic_filter,
    {
        &self.topic_filter
    }
}

} // verus!
