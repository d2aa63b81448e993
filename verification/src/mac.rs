//! The hardware address of the node and the hostname derived from it.
use vstd::prelude::*;
use vstd::string::StringExecFns;

verus! {

/// The address that six bytes stand for, the first byte lowest.
pub open spec fn mac_value(raw: Seq<u8>) -> int {
    raw[0] + 0x100 * raw[1] + 0x1_0000 * raw[2] + 0x100_0000 * raw[3] + 0x1_0000_0000 * raw[4]
        + 0x100_0000_0000 * raw[5]
}

/// The node's address as one number, from the six bytes that the hardware
/// holds, the first byte lowest.
pub fn efuse_mac(raw: &[u8; 6]) -> (mac: u64)
    ensures
        mac == mac_value(raw@),
{
    let b0: u64 = raw[0] as u64;
    let b1: u64 = raw[1] as u64;
    let b2: u64 = raw[2] as u64;
    let b3: u64 = raw[3] as u64;
    let b4: u64 = raw[4] as u64;
    let b5: u64 = raw[5] as u64;
    b0 + 0x100 * b1 + 0x1_0000 * b2 + 0x100_0000 * b3 + 0x1_0000_0000 * b4 + 0x100_0000_0000 * b5
}

/// The hexadecimal digit of a value below 16, in upper case.
pub open spec fn hex_digit(d: nat) -> Seq<char> {
    if d == 0 {
        "0"@
    } else if d == 1 {
        "1"@
    } else if d == 2 {
        "2"@
    } else if d == 3 {
        "3"@
    } else if d == 4 {
        "4"@
    } else if d == 5 {
        "5"@
    } else if d == 6 {
        "6"@
    } else if d == 7 {
        "7"@
    } else if d == 8 {
        "8"@
    } else if d == 9 {
        "9"@
    } else if d == 10 {
        "A"@
    } else if d == 11 {
        "B"@
    } else if d == 12 {
        "C"@
    } else if d == 13 {
        "D"@
    } else if d == 14 {
        "E"@
    } else {
        "F"@
    }
}

/// `n` in hexadecimal, upper case, without leading zeros.
pub open spec fn upper_hex(n: nat) -> Seq<char>
    decreases n,
{
    if n < 16 {
        hex_digit(n)
    } else {
        upper_hex(n / 16) + hex_digit(n % 16)
    }
}

/// The hostname of the node with address `mac`.
pub open spec fn hostname_of(mac: u64) -> Seq<char> {
    "ESP_"@ + upper_hex(mac as nat)
}

fn digit_text(d: u64) -> (text: &'static str)
    requires
        d < 16,
    ensures
        text@ == hex_digit(d as nat),
{
    if d == 0 {
        "0"
    } else if d == 1 {
        "1"
    } else if d == 2 {
        "2"
    } else if d == 3 {
        "3"
    } else if d == 4 {
        "4"
    } else if d == 5 {
        "5"
    } else if d == 6 {
        "6"
    } else if d == 7 {
        "7"
    } else if d == 8 {
        "8"
    } else if d == 9 {
        "9"
    } else if d == 10 {
        "A"
    } else if d == 11 {
        "B"
    } else if d == 12 {
        "C"
    } else if d == 13 {
        "D"
    } else if d == 14 {
        "E"
    } else {
        "F"
    }
}

fn append_hex(out: &mut String, n: u64)
    ensures
        final(out)@ == old(out)@ + upper_hex(n as nat),
    decreases n,
{
    if n >= 16 {
        append_hex(out, n / 16);
    }
    out.append(digit_text(n % 16));
    assert(out@ =~= old(out)@ + upper_hex(n as nat));
}

/// The hostname of the node with address `mac`: `ESP_` and the address in
/// upper-case hexadecimal.
pub fn hostname(mac: u64) -> (name: String)
    ensures
        name@ == hostname_of(mac),
{
    let mut name = String::from_str("ESP_");
    append_hex(&mut name, mac);
    name
}

} // verus!
