//! The identity watched for: a fixed-width address compared byte for byte.

use vstd::prelude::*;

verus! {

/// Number of bytes in an address.
pub const ADDRESS_LEN: usize = 20;

/// A party in an event: an opaque fixed-width address. Equality is exact
/// binary match of the bytes; no normalization is applied.
#[derive(Debug, PartialEq, Eq)]
pub struct Identity {
    pub bytes: Vec<u8>,
}

impl View for Identity {
    type V = Seq<u8>;

    open spec fn view(&self) -> Seq<u8> {
        self.bytes@
    }
}

impl Identity {
    /// A well-formed identity holds exactly `ADDRESS_LEN` bytes.
    pub open spec fn wf(&self) -> bool {
        self@.len() == ADDRESS_LEN
    }
}

impl Clone for Identity {
    fn clone(&self) -> (r: Self)
        ensures
            r@ == self@,
    {
        Identity { bytes: copy_bytes(&self.bytes) }
    }
}

/// Byte-for-byte copy of a byte vector.
pub fn copy_bytes(v: &Vec<u8>) -> (r: Vec<u8>)
    ensures
        r@ == v@,
{
    let mut r: Vec<u8> = Vec::new();
    let mut i: usize = 0;
    while i < v.len()
        invariant
            i <= v.len(),
            r@ == v@.take(i as int),
        decreases v.len() - i,
    {
        r.push(v[i]);
        proof {
            assert(v@.take(i + 1) =~= v@.take(i as int).push(v@[i as int]));
        }
        i = i + 1;
    }
    proof {
        assert(v@.take(v@.len() as int) =~= v@);
    }
    r
}

/// Whether `b` is the ASCII code of a hexadecimal digit.
pub open spec fn is_hex_digit(b: u8) -> bool {
    (48 <= b && b <= 57)  // '0' to '9'
    || (97 <= b && b <= 102)  // 'a' to 'f'
    || (65 <= b && b <= 70)  // 'A' to 'F'
}

/// The value of the hexadecimal digit with ASCII code `b`.
pub open spec fn hex_value(b: u8) -> u8 {
    if 48 <= b && b <= 57 {
        (b - 48) as u8
    } else if 97 <= b && b <= 102 {
        (b - 87) as u8
    } else if 65 <= b && b <= 70 {
        (b - 55) as u8
    } else {
        0
    }
}

/// Whether the text starts with the optional `0x` marker.
pub open spec fn has_hex_prefix(s: Seq<u8>) -> bool {
    s.len() >= 2 && s[0] == 48 && s[1] == 120  // "0x"
}

/// The digit portion of the text: everything after the `0x` marker, or the
/// whole text when there is none.
pub open spec fn hex_digits(s: Seq<u8>) -> Seq<u8> {
    if has_hex_prefix(s) {
        s.subrange(2, s.len() as int)
    } else {
        s
    }
}

/// A well-formed identity text: an optional `0x` marker followed by exactly
/// two hexadecimal digits per address byte, in either letter case.
pub open spec fn valid_identity_text(s: Seq<u8>) -> bool {
    &&& hex_digits(s).len() == 2 * ADDRESS_LEN
    &&& forall|k: int| 0 <= k < 2 * ADDRESS_LEN ==> is_hex_digit(#[trigger] hex_digits(s)[k])
}

/// The address a well-formed identity text denotes: each byte is the value
/// of its pair of digits, the high digit first.
pub open spec fn decoded_identity(s: Seq<u8>) -> Seq<u8> {
    Seq::new(
        ADDRESS_LEN as nat,
        |j: int| (hex_value(hex_digits(s)[2 * j]) * 16 + hex_value(hex_digits(s)[2 * j + 1])) as u8,
    )
}

/// The value of one hexadecimal digit, or `None` for any other byte.
pub fn hex_digit_value(b: u8) -> (r: Option<u8>)
    ensures
        r is Some <==> is_hex_digit(b),
        r matches Some(v) ==> v == hex_value(b) && v < 16,
{
    if 48 <= b && b <= 57 {
        Option::Some(b - 48)
    } else if 97 <= b && b <= 102 {
        Option::Some(b - 87)
    } else if 65 <= b && b <= 70 {
        Option::Some(b - 55)
    } else {
        Option::None
    }
}

/// Parses the textual hexadecimal form of an identity to its binary form.
/// Exactly the well-formed texts parse; anything else is rejected.
pub fn parse_identity(text: &Vec<u8>) -> (r: Result<Identity, crate::config::ConfigError>)
    ensures
        r is Ok <==> valid_identity_text(text@),
        r matches Ok(id) ==> id.wf() && id@ == decoded_identity(text@),
        r matches Err(e) ==> e == crate::config::ConfigError::InvalidIdentity,
{
    let n = text.len();
    let start: usize = if n >= 2 && text[0] == 48 && text[1] == 120 {
        2
    } else {
        0
    };
    proof {
        assert(hex_digits(text@) =~= text@.subrange(start as int, n as int));
    }
    if n - start != 2 * ADDRESS_LEN {
        return Result::Err(crate::config::ConfigError::InvalidIdentity);
    }
    let mut bytes: Vec<u8> = Vec::new();
    let mut i: usize = 0;
    while i < ADDRESS_LEN
        invariant
            i <= ADDRESS_LEN,
            bytes@.len() == i,
            n == text@.len(),
            start + 2 * ADDRESS_LEN == n,
            start == 0 || start == 2,
            hex_digits(text@) == text@.subrange(start as int, n as int),
            forall|j: int|
                0 <= j < i ==> is_hex_digit(#[trigger] hex_digits(text@)[2 * j]) && is_hex_digit(
                    hex_digits(text@)[2 * j + 1],
                ),
            forall|j: int|
                0 <= j < i ==> bytes@[j] == (hex_value(hex_digits(text@)[2 * j]) * 16 + hex_value(
                    #[trigger] hex_digits(text@)[2 * j + 1],
                )) as u8,
        decreases ADDRESS_LEN - i,
    {
        let hi = match hex_digit_value(text[start + 2 * i]) {
            Option::Some(v) => v,
            Option::None => {
                proof {
                    assert(hex_digits(text@)[2 * i] == text@[start + 2 * i]);
                    assert(!valid_identity_text(text@));
                }
                return Result::Err(crate::config::ConfigError::InvalidIdentity);
            },
        };
        let lo = match hex_digit_value(text[start + 2 * i + 1]) {
            Option::Some(v) => v,
            Option::None => {
                proof {
                    assert(hex_digits(text@)[2 * i + 1] == text@[start + 2 * i + 1]);
                    assert(!valid_identity_text(text@));
                }
                return Result::Err(crate::config::ConfigError::InvalidIdentity);
            },
        };
        bytes.push(hi * 16 + lo);
        i = i + 1;
    }
    proof {
        assert forall|k: int| 0 <= k < 2 * ADDRESS_LEN implies is_hex_digit(
            #[trigger] hex_digits(text@)[k],
        ) by {
            let j = k / 2;
            assert(k == 2 * j || k == 2 * j + 1);
        }
        assert(valid_identity_text(text@));
        assert(bytes@ =~= decoded_identity(text@));
    }
    Result::Ok(Identity { bytes })
}

/// Exact binary comparison of two identities.
pub fn same_identity(a: &Identity, b: &Identity) -> (r: bool)
    ensures
        r == (a@ == b@),
{
    if a.bytes.len() != b.bytes.len() {
        proof {
            assert(a@ != b@);
        }
        return false;
    }
    let mut i: usize = 0;
    while i < a.bytes.len()
        invariant
            i <= a.bytes.len(),
            a.bytes.len() == b.bytes.len(),
            forall|j: int| 0 <= j < i ==> a@[j] == b@[j],
        decreases a.bytes.len() - i,
    {
        if a.bytes[i] != b.bytes[i] {
            return false;
        }
        i = i + 1;
    }
    proof {
        assert(a@ =~= b@);
    }
    true
}

} // verus!
