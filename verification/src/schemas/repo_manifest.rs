//! The manifest of the repos in the storage, with hashes of their urls
//! written as hex strings.

use crate::schemas::config::bstring::BString;
use vstd::bytes::{spec_u64_from_le_bytes, spec_u64_to_le_bytes, u64_from_le_bytes, u64_to_le_bytes};
use vstd::prelude::*;

verus! {

/// The repos of a storage.
#[derive(Debug)]
pub struct RepoManifest {
    pub repos: Vec<Repo>,
}

/// A repo of a storage.
#[derive(Debug)]
pub struct Repo {
    pub repo_name: BString,
    pub repo_url: String,
    pub repo_url_hash: HexStrHash,
    pub repo_file_path: BString,
}

/// A 64-bit hash of a repo url, written as the hex digits of its little
/// endian bytes.
#[derive(Debug, Clone, Copy, PartialEq, Eq, Structural)]
pub struct HexStrHash(pub u64);

/// The lowercase hex digit of `d` (below 16).
pub open spec fn hex_digit(d: int) -> u8 {
    if d < 10 {
        (0x30 + d) as u8
    } else {
        (0x61 + d - 10) as u8
    }
}

/// The lowercase hex digits of the bytes `s`, two per byte, the high one
/// first.
pub open spec fn hex_lower(s: Seq<u8>) -> Seq<u8> {
    Seq::new(
        2 * s.len(),
        |i: int|
            if i % 2 == 0 {
                hex_digit((s[i / 2] / 16) as int)
            } else {
                hex_digit((s[i / 2] % 16) as int)
            },
    )
}

/// The value of a hex digit of either case.
pub open spec fn hex_value(c: u8) -> Option<u8> {
    if 0x41 <= c <= 0x46 {
        Some((c - 0x41 + 10) as u8)
    } else if 0x61 <= c <= 0x66 {
        Some((c - 0x61 + 10) as u8)
    } else if 0x30 <= c <= 0x39 {
        Some((c - 0x30) as u8)
    } else {
        None
    }
}

/// Why a hex string does not decode.
#[derive(Debug, Clone, Copy, PartialEq, Eq)]
pub enum HexError {
    /// A byte that is no hex digit, and its place.
    InvalidHexCharacter { c: char, index: usize },
    /// An odd number of digits.
    OddLength,
    /// A number of digits that is not twice the number of bytes.
    InvalidStringLength,
}

/// Place `i` holds the first byte of `s` that is no hex digit.
pub open spec fn is_first_bad_digit(s: Seq<u8>, i: int) -> bool {
    &&& 0 <= i < s.len()
    &&& hex_value(s[i]) is None
    &&& forall|j: int| 0 <= j < i ==> #[trigger] hex_value(s[j]) is Some
}

/// The eight bytes that the hex string `s` stands for: two digits each,
/// the high one first.
pub open spec fn decode_hex8(s: Seq<u8>) -> Result<Seq<u8>, HexError> {
    if s.len() % 2 != 0 {
        Err(HexError::OddLength)
    } else if s.len() / 2 != 8 {
        Err(HexError::InvalidStringLength)
    } else if exists|i: int| is_first_bad_digit(s, i) {
        let i = choose|i: int| is_first_bad_digit(s, i);
        Err(HexError::InvalidHexCharacter { c: s[i] as char, index: i as usize })
    } else {
        Ok(
            Seq::new(
                8,
                |j: int| (hex_value(s[2 * j]).unwrap() * 16 + hex_value(s[2 * j + 1]).unwrap()) as u8,
            ),
        )
    }
}

/// `hex::encode`: the lowercase hex digits of `data`, two per byte, the high
/// one first.
#[verifier::external_body]
fn hex_encode(data: &[u8]) -> (r: Vec<u8>)
    ensures
        r@ == hex_lower(data@),
{
    hex::encode(data).into_bytes()
}

/// `hex::FromHex::from_hex` into eight bytes: an odd number of digits is
/// `OddLength`, another number than sixteen `InvalidStringLength`, else the
/// first byte that is no digit of either case is `InvalidHexCharacter`, else
/// the bytes of the digit pairs.
#[verifier::external_body]
fn hex_decode8(s: &[u8]) -> (r: Result<[u8; 8], HexError>)
    ensures
        match decode_hex8(s@) {
            Ok(b) => r matches Ok(a) && a@ == b,
            Err(e) => r == Err::<[u8; 8], HexError>(e),
        },
{
    let decoded: Result<[u8; 8], hex::FromHexError> = hex::FromHex::from_hex(s);
    match decoded {
        Ok(a) => Ok(a),
        Err(hex::FromHexError::InvalidHexCharacter { c, index }) => Err(
            HexError::InvalidHexCharacter { c, index },
        ),
        Err(hex::FromHexError::OddLength) => Err(HexError::OddLength),
        Err(hex::FromHexError::InvalidStringLength) => Err(HexError::InvalidStringLength),
    }
}

/// The hex string of a hash: the digits of its eight little endian bytes.
pub open spec fn hash_hex(x: u64) -> Seq<u8> {
    hex_lower(spec_u64_to_le_bytes(x))
}

impl HexStrHash {
    /// The hex string of this hash (see `hash_hex`).
    pub fn to_hex(&self) -> (r: Vec<u8>)
        ensures
            r@ == hash_hex(self.0),
    {
        let bytes = u64_to_le_bytes(self.0);
        hex_encode(bytes.as_slice())
    }

    /// The hash that the hex string `s` stands for: the number of its eight
    /// little endian bytes (see `decode_hex8`).
    pub fn from_hex(s: &[u8]) -> (r: Result<HexStrHash, HexError>)
        ensures
            match decode_hex8(s@) {
                Ok(b) => r == Ok::<HexStrHash, HexError>(HexStrHash(spec_u64_from_le_bytes(b))),
                Err(e) => r == Err::<HexStrHash, HexError>(e),
            },
    {
        let bytes = hex_decode8(s)?;
        Ok(HexStrHash(u64_from_le_bytes(bytes.as_slice())))
    }
}

/// A hex digit reads back as its value.
proof fn lemma_digit_value(d: int)
    requires
        0 <= d < 16,
    ensures
        hex_value(hex_digit(d)) == Some(d as u8),
{
}

/// Reading back the hex string of a hash gives the hash: the string decodes
/// to the hash's little endian bytes, whose number is the hash.
pub proof fn law_hex_round_trip(h: HexStrHash)
    ensures
        decode_hex8(hash_hex(h.0)) == Ok::<Seq<u8>, HexError>(spec_u64_to_le_bytes(h.0)),
        HexStrHash(spec_u64_from_le_bytes(spec_u64_to_le_bytes(h.0))) == h,
{
    vstd::bytes::lemma_auto_spec_u64_to_from_le_bytes();
    let b = spec_u64_to_le_bytes(h.0);
    let s = hash_hex(h.0);
    assert(b.len() == 8);
    assert(s.len() == 16);
    assert forall|i: int| 0 <= i < s.len() implies #[trigger] hex_value(s[i]) is Some by {
        if i % 2 == 0 {
            lemma_digit_value((b[i / 2] / 16) as int);
        } else {
            lemma_digit_value((b[i / 2] % 16) as int);
        }
    }
    assert(!exists|i: int| is_first_bad_digit(s, i));
    let d = Seq::new(
        8,
        |j: int| (hex_value(s[2 * j]).unwrap() * 16 + hex_value(s[2 * j + 1]).unwrap()) as u8,
    );
    assert forall|j: int| 0 <= j < 8 implies d[j] == b[j] by {
        lemma_digit_value((b[j] / 16) as int);
        lemma_digit_value((b[j] % 16) as int);
        assert(s[2 * j] == hex_digit((b[j] / 16) as int));
        assert(s[2 * j + 1] == hex_digit((b[j] % 16) as int));
    }
    assert(d =~= b);
}

} // verus!
