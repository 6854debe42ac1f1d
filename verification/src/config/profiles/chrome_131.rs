use vstd::prelude::*;
use vstd::string::*;
use crate::config::profiles::{StealthProfile, StealthProfileView, chrome_131_view};

verus! {

/// The built-in profile that imitates Chrome 131.
pub fn profile() -> (p: StealthProfile)
    ensures
        p@ == chrome_131_view(),
{
    StealthProfile {
        name: String::from_str("chrome_131"),
        alpn: String::from_str("h2"),
        min_packet_size: 900,
        max_packet_size: 1350,
        min_jitter_ms: 4,
        max_jitter_ms: 18,
        cipher_suites: vec![
            0x1301u16, 0x1302, 0x1303, 0xC02B, 0xC02F, 0xC02C, 0xC030, 0xCCA9, 0xCCA8, 0xC013,
            0xC014, 0x009C, 0x009D, 0x002F, 0x0035,
        ],
        extensions: vec![
            0x0000u16, 0x0017, 0xFF01, 0x000A, 0x000B, 0x0023, 0x0010, 0x0005, 0x000D, 0x0012,
            0x0033, 0x002D, 0x002B, 0x001B,
        ],
    }
}

} // verus!
