//! Parsing of textual Bluetooth device addresses: six hexadecimal octet
//! pairs separated by colons, as configuration and the serial protocol
//! carry them.

use crate::ble::MacAddress;
use vstd::prelude::*;

verus! {

/// The value of one hexadecimal digit byte, or -1 for any other byte.
pub open spec fn spec_hex_value(b: u8) -> int {
    if 48 <= b <= 57 {
        b - 48
    } else if 97 <= b <= 102 {
        b - 87
    } else if 65 <= b <= 70 {
        b - 55
    } else {
        -1
    }
}

/// A well-formed address text: exactly `XX:XX:XX:XX:XX:XX`, each `X` a
/// hexadecimal digit of either case.
pub open spec fn mac_text_valid(s: Seq<u8>) -> bool {
    &&& s.len() == 17
    &&& forall|g: int| 0 <= g < 5 ==> #[trigger] s[3 * g + 2] == 58
    &&& forall|g: int| 0 <= g < 6 ==> spec_hex_value(#[trigger] s[3 * g]) >= 0
    &&& forall|g: int| 0 <= g < 6 ==> spec_hex_value(#[trigger] s[3 * g + 1]) >= 0
}

/// Octet `g` of a well-formed address text.
pub open spec fn spec_mac_octet(s: Seq<u8>, g: int) -> int {
    spec_hex_value(s[3 * g]) * 16 + spec_hex_value(s[3 * g + 1])
}

/// The value of one hexadecimal digit byte, or -1 for any other byte.
fn hex_value(b: u8) -> (r: i8)
    ensures
        r == spec_hex_value(b),
{
    if 48 <= b && b <= 57 {
        (b - 48) as i8
    } else if 97 <= b && b <= 102 {
        (b - 87) as i8
    } else if 65 <= b && b <= 70 {
        (b - 55) as i8
    } else {
        -1
    }
}

/// One octet of the address text, or -1 where either digit is not
/// hexadecimal.
fn octet_at(s: &Vec<u8>, g: usize) -> (r: i16)
    requires
        s@.len() == 17,
        g < 6,
    ensures
        r >= 0 <==> spec_hex_value(s@[3 * g as int]) >= 0 && spec_hex_value(s@[3 * g as int + 1])
            >= 0,
        r >= 0 ==> r == spec_mac_octet(s@, g as int),
{
    let hi: i8 = hex_value(s[3 * g]);
    let lo: i8 = hex_value(s[3 * g + 1]);
    if hi < 0 || lo < 0 {
        -1
    } else {
        hi as i16 * 16 + lo as i16
    }
}

/// Parses `XX:XX:XX:XX:XX:XX` into a raw address. `None` exactly where
/// the text is not a well-formed address.
pub fn parse_mac(s: &Vec<u8>) -> (r: Option<MacAddress>)
    ensures
        match r {
            Some(a) => {
                &&& mac_text_valid(s@)
                &&& forall|g: int| 0 <= g < 6 ==> a.octets@[g] == spec_mac_octet(s@, g)
            },
            None => !mac_text_valid(s@),
        },
{
    if s.len() != 17 {
        return None;
    }
    if s[2] != 58 || s[5] != 58 || s[8] != 58 || s[11] != 58 || s[14] != 58 {
        proof {
            assert(!mac_text_valid(s@)) by {
                if s@[2] != 58 {
                    assert(s@[3int * 0 + 2] != 58);
                } else if s@[5] != 58 {
                    assert(s@[3int * 1 + 2] != 58);
                } else if s@[8] != 58 {
                    assert(s@[3int * 2 + 2] != 58);
                } else if s@[11] != 58 {
                    assert(s@[3int * 3 + 2] != 58);
                } else {
                    assert(s@[3int * 4 + 2] != 58);
                }
            }
        }
        return None;
    }
    let o0: i16 = octet_at(s, 0);
    let o1: i16 = octet_at(s, 1);
    let o2: i16 = octet_at(s, 2);
    let o3: i16 = octet_at(s, 3);
    let o4: i16 = octet_at(s, 4);
    let o5: i16 = octet_at(s, 5);
    if o0 < 0 || o1 < 0 || o2 < 0 || o3 < 0 || o4 < 0 || o5 < 0 {
        return None;
    }
    proof {
        assert forall|g: int| 0 <= g < 5 implies #[trigger] s@[3 * g + 2] == 58 by {
            if g == 0 {
            } else if g == 1 {
            } else if g == 2 {
            } else if g == 3 {
            } else {
            }
        }
        assert forall|g: int| 0 <= g < 6 implies spec_hex_value(#[trigger] s@[3 * g]) >= 0 by {
            if g == 0 {
            } else if g == 1 {
            } else if g == 2 {
            } else if g == 3 {
            } else if g == 4 {
            } else {
            }
        }
        assert forall|g: int| 0 <= g < 6 implies spec_hex_value(#[trigger] s@[3 * g + 1]) >= 0 by {
            if g == 0 {
            } else if g == 1 {
            } else if g == 2 {
            } else if g == 3 {
            } else if g == 4 {
            } else {
            }
        }
    }
    let a = MacAddress {
        octets: [o0 as u8, o1 as u8, o2 as u8, o3 as u8, o4 as u8, o5 as u8],
    };
    proof {
        assert forall|g: int| 0 <= g < 6 implies a.octets@[g] == spec_mac_octet(s@, g) by {
            if g == 0 {
            } else if g == 1 {
            } else if g == 2 {
            } else if g == 3 {
            } else if g == 4 {
            } else {
            }
        }
    }
    Some(a)
}

} // verus!
