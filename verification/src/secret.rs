//! The shared authentication secret a backend client is constructed with: a
//! fixed 256-bit key, loaded once at startup from its hexadecimal form. A
//! malformed secret is a construction error, reported before any call is
//! made; the decoded key is never logged and has no display form.

use vstd::prelude::*;

verus! {

/// Why a backend client could not be constructed.
#[derive(Clone, Copy, PartialEq, Eq, Structural, Debug)]
pub enum ConstructionError {
    /// The secret's hexadecimal form does not have exactly 64 digits.
    SecretWrongLength,
    /// The secret's hexadecimal form holds a non-hexadecimal character.
    SecretBadDigit,
}

/// Whether a byte is an ASCII hexadecimal digit.
pub open spec fn is_hex_digit(b: u8) -> bool {
    (48 <= b && b <= 57) || (97 <= b && b <= 102) || (65 <= b && b <= 70)
}

/// The value of an ASCII hexadecimal digit.
pub open spec fn hex_val(b: u8) -> int {
    if 48 <= b && b <= 57 {
        b - 48
    } else if 97 <= b && b <= 102 {
        b - 87
    } else {
        b - 55
    }
}

/// The hexadecimal form with an optional leading `0x` or `0X` removed.
pub open spec fn strip_hex_prefix(s: Seq<u8>) -> Seq<u8> {
    if s.len() >= 2 && s[0] == 48 && (s[1] == 120 || s[1] == 88) {
        s.drop_first().drop_first()
    } else {
        s
    }
}

/// A well-formed secret in hexadecimal: exactly 64 hexadecimal digits after
/// the optional prefix.
pub open spec fn secret_hex_ok(s: Seq<u8>) -> bool {
    &&& strip_hex_prefix(s).len() == 64
    &&& forall|i: int| 0 <= i < 64 ==> is_hex_digit(#[trigger] strip_hex_prefix(s)[i])
}

/// The byte at position `i` of the decoded secret.
pub open spec fn decoded_byte(digits: Seq<u8>, i: int) -> u8 {
    (hex_val(digits[2 * i]) * 16 + hex_val(digits[2 * i + 1])) as u8
}

/// The 32 bytes a well-formed hexadecimal secret decodes to.
pub open spec fn decode_secret_hex(s: Seq<u8>) -> Seq<u8> {
    Seq::new(32, |i: int| decoded_byte(strip_hex_prefix(s), i))
}

/// A fixed-length shared authentication key.
pub struct SharedSecret {
    bytes: Vec<u8>,
}

impl View for SharedSecret {
    type V = Seq<u8>;

    closed spec fn view(&self) -> Seq<u8> {
        self.bytes@
    }
}

/// The value of one ASCII hexadecimal digit, or none.
fn hex_digit_value(b: u8) -> (r: Option<u8>)
    ensures
        r is Some <==> is_hex_digit(b),
        is_hex_digit(b) ==> r == Some((hex_val(b) as u8)),
{
    if 48 <= b && b <= 57 {
        Some(b - 48)
    } else if 97 <= b && b <= 102 {
        Some(b - 87)
    } else if 65 <= b && b <= 70 {
        Some(b - 55)
    } else {
        None
    }
}

impl SharedSecret {
    /// The key is always exactly 32 bytes.
    pub open spec fn wf(&self) -> bool {
        self@.len() == 32
    }

    /// Decodes a secret from its hexadecimal form: an optional `0x`/`0X`
    /// prefix, then exactly 64 hexadecimal digits. Anything else is the
    /// construction error that names what was wrong.
    pub fn from_hex(hex: &Vec<u8>) -> (r: Result<SharedSecret, ConstructionError>)
        ensures
            secret_hex_ok(hex@) ==> (r matches Ok(s) && s@ =~= decode_secret_hex(hex@) && s.wf()),
            strip_hex_prefix(hex@).len() != 64 ==> (r matches Err(e) && e
                == ConstructionError::SecretWrongLength),
            (strip_hex_prefix(hex@).len() == 64 && !secret_hex_ok(hex@)) ==> (r matches Err(e) && e
                == ConstructionError::SecretBadDigit),
    {
        let ghost digits = strip_hex_prefix(hex@);
        let offset: usize = if hex.len() >= 2 && hex[0] == 48 && (hex[1] == 120 || hex[1] == 88) {
            2
        } else {
            0
        };
        proof {
            assert forall|i: int| 0 <= i < digits.len() implies #[trigger] digits[i] == hex@[i
                + offset] by {}
        }
        if hex.len() - offset != 64 {
            return Err(ConstructionError::SecretWrongLength);
        }
        let mut bytes: Vec<u8> = Vec::new();
        let mut i: usize = 0;
        while i < 32
            invariant
                i <= 32,
                offset == 0 || offset == 2,
                hex@.len() - offset == 64,
                digits == strip_hex_prefix(hex@),
                digits.len() == 64,
                forall|k: int| 0 <= k < digits.len() ==> #[trigger] digits[k] == hex@[k + offset],
                forall|k: int| 0 <= k < 2 * i ==> is_hex_digit(#[trigger] digits[k]),
                bytes@ =~= Seq::new(i as nat, |j: int| decoded_byte(digits, j)),
            decreases 32 - i,
        {
            let hi = match hex_digit_value(hex[offset + 2 * i]) {
                Some(v) => v,
                None => {
                    proof {
                        assert(!is_hex_digit(strip_hex_prefix(hex@)[2 * (i as int)]));
                    }
                    return Err(ConstructionError::SecretBadDigit);
                },
            };
            let lo = match hex_digit_value(hex[offset + 2 * i + 1]) {
                Some(v) => v,
                None => {
                    proof {
                        assert(!is_hex_digit(strip_hex_prefix(hex@)[2 * (i as int) + 1]));
                    }
                    return Err(ConstructionError::SecretBadDigit);
                },
            };
            bytes.push(hi * 16 + lo);
            proof {
                assert(bytes@ =~= Seq::new((i + 1) as nat, |j: int| decoded_byte(digits, j)));
            }
            i = i + 1;
        }
        proof {
            assert(bytes@ =~= decode_secret_hex(hex@));
        }
        Ok(SharedSecret { bytes })
    }

    /// The decoded key bytes, for deriving per-request tokens.
    pub fn key_bytes(&self) -> (r: &Vec<u8>)
        ensures
            r@ == self@,
    {
        &self.bytes
    }
}

} // verus!
