//! The shard topology of a node, read from its handshake options.
use std::collections::HashMap;
use vstd::prelude::*;

use crate::numeral::{i32_of_text, is_numeral, numeral_value, parse_i32};
use crate::option_key::OptionKey;

verus! {

/// `options` has a key whose text is `key`.
pub open spec fn has_key(options: Map<String, Vec<String>>, key: Seq<char>) -> bool {
    exists|k: String| #[trigger] options.contains_key(k) && k@ == key
}

/// The values listed under the key whose text is `key`.
pub open spec fn values_at(options: Map<String, Vec<String>>, key: Seq<char>) -> Seq<String> {
    options[choose|k: String| #[trigger] options.contains_key(k) && k@ == key]@
}

/// The first value listed under `key`: absent where the key is missing or
/// lists no value.
pub open spec fn first_text(options: Map<String, Vec<String>>, key: Seq<char>) -> Option<Seq<char>> {
    if has_key(options, key) && values_at(options, key).len() > 0 {
        Some(values_at(options, key)[0]@)
    } else {
        None
    }
}

/// The 32-bit integer that the first value under `key` writes.
pub open spec fn int_option(options: Map<String, Vec<String>>, key: Seq<char>) -> Option<i32> {
    match first_text(options, key) {
        Some(t) => i32_of_text(t),
        None => None,
    }
}

/// The abstract content of a [`ShardingInfo`].
pub struct ShardingInfoView {
    pub shard_id: i32,
    pub shards_count: i32,
    pub partitioner: Seq<char>,
    pub sharding_algorithm: Seq<char>,
    pub ignore_msb: i32,
}

/// The topology that `options` describes: present exactly when all five
/// options are there with a first value, and the three integer options each
/// write a 32-bit integer.
pub open spec fn sharding_of(options: Map<String, Vec<String>>) -> Option<ShardingInfoView> {
    match (
        int_option(options, OptionKey::Shard.text()),
        int_option(options, OptionKey::NrShards.text()),
        int_option(options, OptionKey::ShardingIgnoreMsb.text()),
        first_text(options, OptionKey::Partitioner.text()),
        first_text(options, OptionKey::ShardingAlgorithm.text()),
    ) {
        (Some(shard_id), Some(shards_count), Some(ignore_msb), Some(partitioner), Some(sharding_algorithm)) => Some(
            ShardingInfoView { shard_id, shards_count, partitioner, sharding_algorithm, ignore_msb },
        ),
        _ => None,
    }
}

/// Relies on `HashMap::get`: it finds the entry whose key equals `key`, if
/// there is one; keys are unique, so its values are those of every key with
/// that text.
#[verifier::external_body]
fn values_of<'a>(options: &'a HashMap<String, Vec<String>>, key: &str) -> (r: Option<&'a Vec<String>>)
    ensures
        r is Some <==> has_key(options@, key@),
        r matches Some(v) ==> forall|k: String|
            #[trigger] options@.contains_key(k) && k@ == key@ ==> options@[k] == *v,
{
    options.get(key)
}

/// The first value listed under `key`.
fn first_value<'a>(options: &'a HashMap<String, Vec<String>>, key: OptionKey) -> (r: Option<&'a String>)
    ensures
        match r {
            Some(s) => first_text(options@, key.text()) == Some(s@),
            None => first_text(options@, key.text()) is None,
        },
{
    match values_of(options, key.as_str()) {
        Some(values) => {
            if values.len() > 0 {
                Some(&values[0])
            } else {
                None
            }
        },
        None => None,
    }
}

/// The 32-bit integer that the first value under `key` writes.
fn int_value(options: &HashMap<String, Vec<String>>, key: OptionKey) -> (r: Option<i32>)
    ensures
        r == int_option(options@, key.text()),
{
    match first_value(options, key) {
        Some(text) => parse_i32(text.as_str()),
        None => None,
    }
}

/// Which shard a connection is bound to, how many shards the node has, and
/// how the node maps tokens to shards. No range check is made on the integers.
#[derive(Debug)]
pub struct ShardingInfo {
    shard_id: i32,
    shards_count: i32,
    partitioner: String,
    sharding_algorithm: String,
    ignore_msb: i32,
}

impl View for ShardingInfo {
    type V = ShardingInfoView;

    closed spec fn view(&self) -> ShardingInfoView {
        ShardingInfoView {
            shard_id: self.shard_id,
            shards_count: self.shards_count,
            partitioner: self.partitioner@,
            sharding_algorithm: self.sharding_algorithm@,
            ignore_msb: self.ignore_msb,
        }
    }
}

impl ShardingInfo {
    /// Reads the topology from the handshake options. All or nothing: `None`
    /// where an option is missing, lists no value, or an integer option's
    /// first value is not a 32-bit integer.
    pub fn parse(options: &HashMap<String, Vec<String>>) -> (r: Option<ShardingInfo>)
        ensures
            match r {
                Some(info) => sharding_of(options@) == Some(info@),
                None => sharding_of(options@) is None,
            },
    {
        let shard_id = match int_value(options, OptionKey::Shard) {
            Some(v) => v,
            None => return None,
        };
        let shards_count = match int_value(options, OptionKey::NrShards) {
            Some(v) => v,
            None => return None,
        };
        let ignore_msb = match int_value(options, OptionKey::ShardingIgnoreMsb) {
            Some(v) => v,
            None => return None,
        };
        let partitioner = match first_value(options, OptionKey::Partitioner) {
            Some(v) => v.clone(),
            None => return None,
        };
        let sharding_algorithm = match first_value(options, OptionKey::ShardingAlgorithm) {
            Some(v) => v.clone(),
            None => return None,
        };
        Some(ShardingInfo { shard_id, shards_count, partitioner, sharding_algorithm, ignore_msb })
    }

    pub fn shard_id(&self) -> (r: i32)
        ensures
            r == self@.shard_id,
    {
        self.shard_id
    }

    pub fn shards_count(&self) -> (r: i32)
        ensures
            r == self@.shards_count,
    {
        self.shards_count
    }

    pub fn ignore_msb(&self) -> (r: i32)
        ensures
            r == self@.ignore_msb,
    {
        self.ignore_msb
    }

    pub fn partitioner(&self) -> (r: &str)
        ensures
            r@ == self@.partitioner,
    {
        self.partitioner.as_str()
    }

    pub fn sharding_algorithm(&self) -> (r: &str)
        ensures
            r@ == self@.sharding_algorithm,
    {
        self.sharding_algorithm.as_str()
    }
}

impl PartialEq for ShardingInfo {
    fn eq(&self, o: &ShardingInfo) -> (r: bool) {
        self.shard_id == o.shard_id && self.shards_count == o.shards_count && self.ignore_msb
            == o.ignore_msb && self.partitioner == o.partitioner && self.sharding_algorithm
            == o.sharding_algorithm
    }
}

impl vstd::std_specs::cmp::PartialEqSpecImpl for ShardingInfo {
    open spec fn obeys_eq_spec() -> bool {
        true
    }

    open spec fn eq_spec(&self, o: &ShardingInfo) -> bool {
        self@ == o@
    }
}

/// Missing option: where any one of the five options is absent, or lists no
/// value, there is no topology.
pub proof fn lemma_missing_option_gives_none(options: Map<String, Vec<String>>, key: OptionKey)
    requires
        !has_key(options, key.text()) || values_at(options, key.text()).len() == 0,
    ensures
        sharding_of(options) is None,
{
}

/// Malformed integer: where the first value of an integer option is not a
/// sign and digits (the empty text included), or writes a number outside the
/// 32-bit range, there is no topology.
pub proof fn lemma_malformed_integer_gives_none(
    options: Map<String, Vec<String>>,
    key: OptionKey,
    t: Seq<char>,
)
    requires
        key.is_integer(),
        first_text(options, key.text()) == Some(t),
        !is_numeral(t) || !(i32::MIN <= numeral_value(t) <= i32::MAX),
    ensures
        sharding_of(options) is None,
{
}

/// No range check: whenever the five options are present and the integer
/// ones write 32-bit integers, the topology holds exactly those values,
/// whatever their sign or their relation to one another.
pub proof fn lemma_integers_taken_as_written(options: Map<String, Vec<String>>)
    requires
        int_option(options, OptionKey::Shard.text()) is Some,
        int_option(options, OptionKey::NrShards.text()) is Some,
        int_option(options, OptionKey::ShardingIgnoreMsb.text()) is Some,
        first_text(options, OptionKey::Partitioner.text()) is Some,
        first_text(options, OptionKey::ShardingAlgorithm.text()) is Some,
    ensures
        sharding_of(options) matches Some(info) && {
            &&& Some(info.shard_id) == int_option(options, OptionKey::Shard.text())
            &&& Some(info.shards_count) == int_option(options, OptionKey::NrShards.text())
            &&& Some(info.ignore_msb) == int_option(options, OptionKey::ShardingIgnoreMsb.text())
            &&& Some(info.partitioner) == first_text(options, OptionKey::Partitioner.text())
            &&& Some(info.sharding_algorithm) == first_text(
                options,
                OptionKey::ShardingAlgorithm.text(),
            )
        },
{
}

/// Determinism: two option mappings that list the same first value under
/// every name give the same topology, so parsing equal mappings gives equal
/// results.
pub proof fn lemma_same_options_same_sharding(
    a: Map<String, Vec<String>>,
    b: Map<String, Vec<String>>,
)
    requires
        forall|key: Seq<char>| #[trigger] first_text(a, key) == first_text(b, key),
    ensures
        sharding_of(a) == sharding_of(b),
{
    assert(first_text(a, OptionKey::Shard.text()) == first_text(b, OptionKey::Shard.text()));
    assert(first_text(a, OptionKey::NrShards.text()) == first_text(b, OptionKey::NrShards.text()));
    assert(first_text(a, OptionKey::ShardingIgnoreMsb.text()) == first_text(
        b,
        OptionKey::ShardingIgnoreMsb.text(),
    ));
    assert(first_text(a, OptionKey::Partitioner.text()) == first_text(
        b,
        OptionKey::Partitioner.text(),
    ));
    assert(first_text(a, OptionKey::ShardingAlgorithm.text()) == first_text(
        b,
        OptionKey::ShardingAlgorithm.text(),
    ));
}

} // verus!
