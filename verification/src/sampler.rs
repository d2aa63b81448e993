//! The sampling step: what one raw reading of a channel does to the store.
use crate::stats::{store, upsert, MetricStore};
use vstd::prelude::*;

verus! {

/// The value with which a raw read reports that it failed.
pub const READ_ERROR: i32 = -1;

/// Seconds between two sampling cycles.
pub const PERIOD_SECONDS: u64 = 5;

/// An analog channel that the sampler reads.
#[derive(Clone, Copy, PartialEq, Eq, Structural, Debug)]
pub enum Channel {
    Battery,
    Temperature,
}

impl Channel {
    /// The name of the metric that holds this channel's readings.
    pub open spec fn name(self) -> Seq<char> {
        match self {
            Channel::Battery => "voltage_volts"@,
            Channel::Temperature => "temperature_celsius"@,
        }
    }

    /// The name of the metric that holds this channel's readings.
    pub fn metric_name(self) -> (name: &'static str)
        ensures
            name@ == self.name(),
    {
        match self {
            Channel::Battery => "voltage_volts",
            Channel::Temperature => "temperature_celsius",
        }
    }
}

/// Two channels never write to the same metric.
pub proof fn lemma_channel_names_differ(a: Channel, b: Channel)
    requires
        a != b,
    ensures
        a.name() != b.name(),
{
    reveal_strlit("voltage_volts");
    reveal_strlit("temperature_celsius");
    assert("voltage_volts"@.len() != "temperature_celsius"@.len());
}

/// A raw read of a channel that reported failure.
#[derive(Clone, Copy, PartialEq, Eq, Structural, Debug)]
pub struct ReadError {
    pub channel: Channel,
}

/// Takes one raw reading of `channel` into the store. A failed read leaves
/// the store as it was, so the metric keeps its last value; any other
/// reading is converted and written under the channel's metric name.
pub fn sample<V, F: FnOnce(i32) -> V>(
    stats: &mut MetricStore<V>,
    channel: Channel,
    raw: i32,
    convert: F,
) -> (r: Result<(), ReadError>)
    requires
        raw != READ_ERROR ==> convert.requires((raw,)),
    ensures
        raw == READ_ERROR ==> r == Err::<(), ReadError>(ReadError { channel }) && final(stats)@
            == old(stats)@,
        raw != READ_ERROR ==> r is Ok && exists|value: V| #[trigger]
            convert.ensures((raw,), value) && final(stats)@ == upsert(
                old(stats)@,
                channel.name(),
                value,
            ),
{
    if raw == READ_ERROR {
        return Err(ReadError { channel });
    }
    let value = convert(raw);
    store(stats, channel.metric_name(), value);
    Ok(())
}

} // verus!
