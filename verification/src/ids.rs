//! The canonical text form of a user identity: 32 hexadecimal digits in
//! five dash-separated groups of 8-4-4-4-12. Identities appear in this
//! form on the wire (inbound frame receiver ids, outbound frame sender and
//! receiver ids) and in synthesized display names.

use vstd::prelude::*;

use crate::message::UserId;

verus! {

/// Whether position `p` of the 36-character text holds a dash.
pub open spec fn uuid_dash_pos(p: int) -> bool {
    p == 8 || p == 13 || p == 18 || p == 23
}

/// How many hex digits stand before position `p`.
pub open spec fn uuid_nibs_before(p: int) -> int {
    if p <= 8 {
        p
    } else if p <= 13 {
        p - 1
    } else if p <= 18 {
        p - 2
    } else if p <= 23 {
        p - 3
    } else {
        p - 4
    }
}

/// The text position of hex digit number `k` (most significant first).
pub open spec fn uuid_char_pos(k: int) -> int {
    if k < 8 {
        k
    } else if k < 12 {
        k + 1
    } else if k < 16 {
        k + 2
    } else if k < 20 {
        k + 3
    } else {
        k + 4
    }
}

/// Hex digit number `k` of `v`, most significant first.
pub open spec fn uuid_nibble(v: u128, k: int) -> u128 {
    (v >> ((4 * (31 - k)) as u128)) & 0xf
}

/// The lowercase hex character for a digit value below 16.
pub open spec fn hex_lower_char(n: u128) -> char {
    if n < 10 {
        ((n + 0x30) as u8) as char
    } else {
        ((n + 0x57) as u8) as char
    }
}

/// Character `p` of the canonical text of `v`.
pub open spec fn spec_uuid_char(v: u128, p: int) -> char {
    if uuid_dash_pos(p) {
        '-'
    } else {
        hex_lower_char(uuid_nibble(v, uuid_nibs_before(p)))
    }
}

/// The canonical (lowercase, dash-grouped) text of `v`.
pub open spec fn spec_uuid_text(v: u128) -> Seq<char> {
    Seq::new(36, |p: int| spec_uuid_char(v, p))
}

/// Whether `c` is a hex digit, either case.
pub open spec fn is_hex_digit(c: char) -> bool {
    ||| (0x30 <= c as u32 && c as u32 <= 0x39)
    ||| (0x61 <= c as u32 && c as u32 <= 0x66)
    ||| (0x41 <= c as u32 && c as u32 <= 0x46)
}

/// The value of a hex digit character, either case.
pub open spec fn hex_digit_val(c: char) -> u128 {
    if 0x30 <= c as u32 && c as u32 <= 0x39 {
        (c as u32 - 0x30) as u128
    } else if 0x61 <= c as u32 && c as u32 <= 0x66 {
        (c as u32 - 0x57) as u128
    } else if 0x41 <= c as u32 && c as u32 <= 0x46 {
        (c as u32 - 0x37) as u128
    } else {
        0
    }
}

/// Whether `s` has the shape of an identity text: 36 characters, dashes
/// exactly at the group boundaries, hex digits (either case) elsewhere.
pub open spec fn is_uuid_text(s: Seq<char>) -> bool {
    &&& s.len() == 36
    &&& forall|p: int|
        0 <= p < 36 ==> (if uuid_dash_pos(p) {
            s[p] == '-'
        } else {
            is_hex_digit(#[trigger] s[p])
        })
}

/// The value of the first `k` hex digits of `s`, placed at their
/// positions in the 128-bit identity.
pub open spec fn uuid_accum(s: Seq<char>, k: int) -> u128
    decreases k,
{
    if k <= 0 {
        0
    } else {
        uuid_accum(s, k - 1) | (hex_digit_val(s[uuid_char_pos(k - 1)]) << ((4 * (31 - (k - 1)))
            as u128))
    }
}

/// The identity an identity text denotes, if the text is well-shaped.
pub open spec fn spec_parse_uuid(s: Seq<char>) -> Option<u128> {
    if is_uuid_text(s) {
        Some(uuid_accum(s, 32))
    } else {
        None
    }
}

/// Render `v` in its canonical text form.
pub fn uuid_chars(v: UserId) -> (r: Vec<char>)
    ensures
        r@ == spec_uuid_text(v),
{
    let mut out: Vec<char> = Vec::new();
    let mut p: usize = 0;
    while p < 36
        invariant
            p <= 36,
            out@.len() == p,
            forall|q: int| 0 <= q < p ==> out@[q] == spec_uuid_char(v, q),
        decreases 36 - p,
    {
        let c: char = if p == 8 || p == 13 || p == 18 || p == 23 {
            '-'
        } else {
            let k: usize = if p <= 8 {
                p
            } else if p <= 13 {
                p - 1
            } else if p <= 18 {
                p - 2
            } else if p <= 23 {
                p - 3
            } else {
                p - 4
            };
            let sh: u128 = (4 * (31 - k)) as u128;
            let nib: u128 = (v >> sh) & 0xf;
            proof {
                assert(nib <= 0xf) by (bit_vector)
                    requires
                        nib == (v >> sh) & 0xf,
                ;
            }
            if nib < 10 {
                ((nib as u8) + 0x30) as char
            } else {
                ((nib as u8) + 0x57) as char
            }
        };
        out.push(c);
        p += 1;
    }
    proof {
        assert(out@ =~= spec_uuid_text(v));
    }
    out
}

/// Parse an identity text. Returns the denoted identity exactly when the
/// text is well-shaped (`spec_parse_uuid`); hex digits of either case are
/// accepted.
pub fn parse_uuid(s: &[char]) -> (r: Option<UserId>)
    ensures
        r == spec_parse_uuid(s@),
{
    if s.len() != 36 {
        return None;
    }
    let mut acc: u128 = 0;
    let mut p: usize = 0;
    while p < 36
        invariant
            p <= 36,
            s@.len() == 36,
            acc == uuid_accum(s@, uuid_nibs_before(p as int)),
            forall|q: int|
                0 <= q < p ==> (if uuid_dash_pos(q) {
                    s@[q] == '-'
                } else {
                    is_hex_digit(#[trigger] s@[q])
                }),
        decreases 36 - p,
    {
        let c = s[p];
        if p == 8 || p == 13 || p == 18 || p == 23 {
            if c != '-' {
                return None;
            }
        } else {
            let cu = c as u32;
            let d: u128 = if 0x30 <= cu && cu <= 0x39 {
                (cu - 0x30) as u128
            } else if 0x61 <= cu && cu <= 0x66 {
                (cu - 0x57) as u128
            } else if 0x41 <= cu && cu <= 0x46 {
                (cu - 0x37) as u128
            } else {
                return None;
            };
            let k: usize = if p <= 8 {
                p
            } else if p <= 13 {
                p - 1
            } else if p <= 18 {
                p - 2
            } else {
                if p <= 23 {
                    p - 3
                } else {
                    p - 4
                }
            };
            let sh: u128 = (4 * (31 - k)) as u128;
            acc = acc | (d << sh);
            proof {
                assert(uuid_nibs_before(p + 1) == k + 1);
                assert(uuid_char_pos(k as int) == p as int);
            }
        }
        p += 1;
    }
    Some(acc)
}

} // verus!
