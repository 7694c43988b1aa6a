//! The reserve addresses whose balances are watched.
use vstd::prelude::*;

verus! {

/// How many reserve addresses are watched.
pub const RESERVE_COUNT: usize = 10;

/// The watched reserve addresses, lower-case hexadecimal with a `0x` prefix.
pub open spec fn reserve_list() -> Seq<Seq<char>> {
    seq![
        "0xdf6764f41eb550f060aea6c852b822a49b53c6e2"@,
        "0xb47936bbc484e56dda8b57440ca3c5459f495cf3"@,
        "0x0133f9f460282d10c8db2d3376764412af57808c"@,
        "0xa49a964d5345a9c8f7f6516c5aaee7a3dd1b7870"@,
        "0x94c3857520e9151b34814fbf8b477368f4a97ea7"@,
        "0x914f1f73f42c3aca3328d41210e32731a7f969c8"@,
        "0x6005121a46bb3028872cf471faab92a08b2d0f5a"@,
        "0x8e385bc51f7a5385604d8617c9ba2a40f9e5a387"@,
        "0xab112ddda6d0196915618d605d909306e7c7ebd7"@,
        "0x5e1c7f0ef930d79598f9fadbaca3c1bea400e6f7"@,
    ]
}

/// The watched reserve addresses, in the order in which they are queried.
pub fn reserve_addresses() -> (r: Vec<String>)
    ensures
        r@.len() == RESERVE_COUNT,
        r@.map_values(|s: String| s@) == reserve_list(),
{
    let mut r: Vec<String> = Vec::new();
    r.push(String::from_str("0xdf6764f41eb550f060aea6c852b822a49b53c6e2"));
    r.push(String::from_str("0xb47936bbc484e56dda8b57440ca3c5459f495cf3"));
    r.push(String::from_str("0x0133f9f460282d10c8db2d3376764412af57808c"));
    r.push(String::from_str("0xa49a964d5345a9c8f7f6516c5aaee7a3dd1b7870"));
    r.push(String::from_str("0x94c3857520e9151b34814fbf8b477368f4a97ea7"));
    r.push(String::from_str("0x914f1f73f42c3aca3328d41210e32731a7f969c8"));
    r.push(String::from_str("0x6005121a46bb3028872cf471faab92a08b2d0f5a"));
    r.push(String::from_str("0x8e385bc51f7a5385604d8617c9ba2a40f9e5a387"));
    r.push(String::from_str("0xab112ddda6d0196915618d605d909306e7c7ebd7"));
    r.push(String::from_str("0x5e1c7f0ef930d79598f9fadbaca3c1bea400e6f7"));
    assert(r@.map_values(|s: String| s@) =~= reserve_list());
    r
}

} // verus!
