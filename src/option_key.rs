//! The handshake option names that describe a node's shard topology.
use vstd::prelude::*;

verus! {

/// One of the fixed, case-sensitive option names read during the handshake.
#[derive(Clone, Copy, Debug, PartialEq, Eq, Structural)]
pub enum OptionKey {
    /// The shard this connection is bound to.
    Shard,
    /// The number of shards on the node.
    NrShards,
    /// How many most-significant token bits the shard computation ignores.
    ShardingIgnoreMsb,
    /// The name of the partitioner.
    Partitioner,
    /// The name of the sharding algorithm.
    ShardingAlgorithm,
}

impl OptionKey {
    /// The option name as it stands on the wire.
    pub open spec fn text(self) -> Seq<char> {
        match self {
            OptionKey::Shard => "SCYLLA_SHARD"@,
            OptionKey::NrShards => "SCYLLA_NR_SHARDS"@,
            OptionKey::ShardingIgnoreMsb => "SCYLLA_SHARDING_IGNORE_MSB"@,
            OptionKey::Partitioner => "SCYLLA_PARTITIONER"@,
            OptionKey::ShardingAlgorithm => "SCYLLA_SHARDING_ALGORITHM"@,
        }
    }

    /// The option's value is a 32-bit integer (otherwise it is free text).
    pub open spec fn is_integer(self) -> bool {
        match self {
            OptionKey::Shard | OptionKey::NrShards | OptionKey::ShardingIgnoreMsb => true,
            _ => false,
        }
    }

    pub fn as_str(self) -> (r: &'static str)
        ensures
            r@ == self.text(),
    {
        match self {
            OptionKey::Shard => "SCYLLA_SHARD",
            OptionKey::NrShards => "SCYLLA_NR_SHARDS",
            OptionKey::ShardingIgnoreMsb => "SCYLLA_SHARDING_IGNORE_MSB",
            OptionKey::Partitioner => "SCYLLA_PARTITIONER",
            OptionKey::ShardingAlgorithm => "SCYLLA_SHARDING_ALGORITHM",
        }
    }
}

} // verus!
