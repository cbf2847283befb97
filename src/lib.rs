//! Shard-topology descriptor of a storage node, parsed from the options
//! the node advertises during the protocol handshake.
pub mod numeral;
pub mod option_key;
pub mod sharding_info;
