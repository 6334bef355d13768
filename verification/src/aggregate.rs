//! The traffic figures that the data provider aggregates per CDN node and
//! era, and the verdict drawn from them.

use vstd::prelude::*;
use crate::decimal::{parse_u32, parse_u32_spec};

verus! {

/// The reply of the data provider to an `FT.AGGREGATE` query: a count and
/// two rows of alternating field names and values. The first row reads
/// `nodePublicKey, <key>, era, <era>, <sum field>, <sum>`.
pub struct RedisFtAggregate {
    pub ft_aggregate: (u32, Vec<String>, Vec<String>),
}

impl Default for RedisFtAggregate {
    fn default() -> (r: Self)
        ensures
            r.ft_aggregate.0 == 0,
            r.ft_aggregate.1@.len() == 0,
            r.ft_aggregate.2@.len() == 0,
    {
        RedisFtAggregate { ft_aggregate: (0, Vec::new(), Vec::new()) }
    }
}

/// The traffic sum that `aggregate` reports, when its first row has a sixth
/// field that reads as a `u32`.
pub open spec fn traffic_sum_spec(aggregate: RedisFtAggregate) -> Option<u32> {
    let row = aggregate.ft_aggregate.1@;
    if row.len() > 5 {
        parse_u32_spec(row[5]@)
    } else {
        None
    }
}

/// The traffic sum is read from the first row alone: it is the sixth field
/// of the first row read as a `u32` (or nothing when that row is shorter),
/// and two replies with the same first row report the same sum whatever
/// their second rows and counts hold.
pub proof fn law_traffic_sum_reads_first_row(a: RedisFtAggregate, b: RedisFtAggregate)
    ensures
        a.ft_aggregate.1@.len() > 5 ==> traffic_sum_spec(a) == parse_u32_spec(a.ft_aggregate.1@[5]@),
        a.ft_aggregate.1@.len() <= 5 ==> traffic_sum_spec(a) is None,
        a.ft_aggregate.1@ == b.ft_aggregate.1@ ==> traffic_sum_spec(a) == traffic_sum_spec(b),
{
}

impl RedisFtAggregate {
    /// The traffic sum of the first row: its sixth field read as a `u32`.
    pub fn traffic_sum(&self) -> (r: Option<u32>)
        ensures
            r == traffic_sum_spec(*self),
    {
        if self.ft_aggregate.1.len() > 5 {
            parse_u32(self.ft_aggregate.1[5].as_str())
        } else {
            None
        }
    }
}

/// The bytes that a CDN node reports to have sent in an era.
pub struct BytesSent {
    pub node_public_key: String,
    pub era: String,
    pub sum: u32,
}

/// The bytes that clients report to have received from a CDN node in an era.
pub struct BytesReceived {
    pub node_public_key: String,
    pub era: String,
    pub sum: u32,
}

impl BytesSent {
    /// Reads the node key (second field), the era (fourth field) and the
    /// sum (sixth field) of the first row.
    pub fn new(aggregate: RedisFtAggregate) -> (r: BytesSent)
        requires
            traffic_sum_spec(aggregate) is Some,
        ensures
            r.node_public_key@ == aggregate.ft_aggregate.1@[1]@,
            r.era@ == aggregate.ft_aggregate.1@[3]@,
            Some(r.sum) == traffic_sum_spec(aggregate),
            Some(r.sum) == parse_u32_spec(aggregate.ft_aggregate.1@[5]@),
    {
        let (_, values, _) = aggregate.ft_aggregate;
        let sum = match parse_u32(values[5].as_str()) {
            Some(v) => v,
            None => {
                proof {
                    assert(false);
                }
                0
            },
        };
        BytesSent { node_public_key: values[1].clone(), era: values[3].clone(), sum }
    }
}

impl BytesReceived {
    /// Reads the node key (second field), the era (fourth field) and the
    /// sum (sixth field) of the first row.
    pub fn new(aggregate: RedisFtAggregate) -> (r: BytesReceived)
        requires
            traffic_sum_spec(aggregate) is Some,
        ensures
            r.node_public_key@ == aggregate.ft_aggregate.1@[1]@,
            r.era@ == aggregate.ft_aggregate.1@[3]@,
            Some(r.sum) == traffic_sum_spec(aggregate),
            Some(r.sum) == parse_u32_spec(aggregate.ft_aggregate.1@[5]@),
    {
        let (_, values, _) = aggregate.ft_aggregate;
        let sum = match parse_u32(values[5].as_str()) {
            Some(v) => v,
            None => {
                proof {
                    assert(false);
                }
                0
            },
        };
        BytesReceived { node_public_key: values[1].clone(), era: values[3].clone(), sum }
    }
}

/// The verdict on a node: the bytes it sent are the bytes its clients
/// received.
pub fn validate(bytes_sent: &BytesSent, bytes_received: &BytesReceived) -> (r: bool)
    ensures
        r == (bytes_sent.sum == bytes_received.sum),
{
    bytes_sent.sum == bytes_received.sum
}

} // verus!
