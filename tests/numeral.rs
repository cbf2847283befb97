use scylla_sharding::numeral::parse_i32;
use scylla_sharding::option_key::OptionKey;

#[test]
fn parse_i32_accepts_sign_and_digits() {
    assert_eq!(parse_i32("0"), Some(0));
    assert_eq!(parse_i32("42"), Some(42));
    assert_eq!(parse_i32("+42"), Some(42));
    assert_eq!(parse_i32("-42"), Some(-42));
    assert_eq!(parse_i32("-0"), Some(0));
    assert_eq!(parse_i32("000123"), Some(123));
    assert_eq!(parse_i32("2147483647"), Some(i32::MAX));
    assert_eq!(parse_i32("-2147483648"), Some(i32::MIN));
}

#[test]
fn parse_i32_rejects_other_text() {
    for text in ["", "+", "-", "--1", "+-1", "1-", "a", " 1", "1 ", "1_000", "²", "٣"] {
        assert_eq!(parse_i32(text), None, "{:?}", text);
    }
}

#[test]
fn parse_i32_rejects_out_of_range() {
    assert_eq!(parse_i32("2147483648"), None);
    assert_eq!(parse_i32("-2147483649"), None);
    assert_eq!(parse_i32("4294967296"), None);
    assert_eq!(parse_i32("123456789012345678901234567890"), None);
}

#[test]
fn parse_i32_agrees_with_std() {
    for text in ["7", "-7", "+7", "", "x", "2147483648", "-2147483648", "0012", "9999999999"] {
        assert_eq!(parse_i32(text), text.parse::<i32>().ok(), "{:?}", text);
    }
}

#[test]
fn option_names_on_the_wire() {
    assert_eq!(OptionKey::Shard.as_str(), "SCYLLA_SHARD");
    assert_eq!(OptionKey::NrShards.as_str(), "SCYLLA_NR_SHARDS");
    assert_eq!(OptionKey::ShardingIgnoreMsb.as_str(), "SCYLLA_SHARDING_IGNORE_MSB");
    assert_eq!(OptionKey::Partitioner.as_str(), "SCYLLA_PARTITIONER");
    assert_eq!(OptionKey::ShardingAlgorithm.as_str(), "SCYLLA_SHARDING_ALGORITHM");
}
