use vstd::prelude::*;

verus! {

/// Delivery-guarantee level of a PUBLISH message.
#[derive(Debug, Clone, Copy, PartialEq, Eq, Structural)]
pub enum QoSLevel {
    AtMostOnce,
    AtLeastOnce,
    ExactlyOnce,
}

/// Numeric value of a quality-of-service level on the wire.
pub open spec fn spec_qos_as_u8(q: QoSLevel) -> u8 {
    match q {
        QoSLevel::AtMostOnce => 0,
        QoSLevel::AtLeastOnce => 1,
        QoSLevel::ExactlyOnce => 2,
    }
}

/// Quality-of-service level denoted by a wire value, if any.
pub open spec fn spec_qos_from_u8(value: u8) -> Option<QoSLevel> {
    if value == 0 {
        Some(QoSLevel::AtMostOnce)
    } else if value == 1 {
        Some(QoSLevel::AtLeastOnce)
    } else if value == 2 {
        Some(QoSLevel::ExactlyOnce)
    } else {
        None
    }
}

impl QoSLevel {
    pub fn from_u8(value: u8) -> (r: Option<QoSLevel>)
        ensures
            r == spec_qos_from_u8(value),
    {
        match value {
            0u8 => Some(QoSLevel::AtMostOnce),
            1u8 => Some(QoSLevel::AtLeastOnce),
            2u8 => Some(QoSLevel::ExactlyOnce),
            _ => None,
        }
    }

    /// The two bits of the level, most significant first.
    pub fn to_bool(&self) -> (r: (bool, bool))
        ensures
            r.0 == (spec_qos_as_u8(*self) / 2 == 1),
            r.1 == (spec_qos_as_u8(*self) % 2 == 1),
    {
        match self {
            QoSLevel::AtMostOnce => (false, false),
            QoSLevel::AtLeastOnce => (false, true),
            QoSLevel::ExactlyOnce => (true, false),
        }
    }

    pub fn as_u8(&self) -> (r: u8)
        ensures
            r == spec_qos_as_u8(*self),
    {
        match self {
            QoSLevel::AtMostOnce => 0,
            QoSLevel::AtLeastOnce => 1,
            QoSLevel::ExactlyOnce => 2,
        }
    }
}

} // verus!
