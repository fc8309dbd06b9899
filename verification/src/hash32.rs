//! Fixed-length 32-byte identifiers backed by SHA-256.
//!
//! [`Hash32`] is a primitive value type. It is the building block for the
//! semantic id newtypes [`DefinitionHash`] and [`TaskId`].
use crate::text;
use crate::text::{concat, decimal_text};
use sha2::{Digest, Sha256};
use vstd::prelude::*;

verus! {

/// The SHA-256 digest of a byte string.
pub uninterp spec fn sha256_digest(data: Seq<u8>) -> Seq<u8>;

/// The digest that `sha2::Sha256` computes: a fresh hasher, fed with `data` once
/// and finalized. The same bytes always give the same 32 bytes.
#[verifier::external_body]
fn digest_bytes(data: &[u8]) -> (r: [u8; 32])
    ensures
        r@ == sha256_digest(data@),
{
    let mut hasher = Sha256::new();
    hasher.update(data);
    hasher.finalize().into()
}

/// The lowercase hexadecimal digit of `d`, for `d < 16`.
pub open spec fn hex_digit(d: nat) -> char {
    if d < 10 {
        crate::text::digit_char(d)
    } else if d == 10 {
        'a'
    } else if d == 11 {
        'b'
    } else if d == 12 {
        'c'
    } else if d == 13 {
        'd'
    } else if d == 14 {
        'e'
    } else {
        'f'
    }
}

/// The lowercase hexadecimal text of bytes, two digits for each.
pub open spec fn hex_text(s: Seq<u8>) -> Seq<char> {
    Seq::new(
        (2 * s.len()) as nat,
        |i: int|
            if i % 2 == 0 {
                hex_digit((s[i / 2] / 16) as nat)
            } else {
                hex_digit((s[i / 2] % 16) as nat)
            },
    )
}

/// The value of a hexadecimal digit in ASCII, of either case.
pub open spec fn nibble(c: u8) -> Option<u8> {
    if 48 <= c <= 57 {
        Some((c - 48) as u8)
    } else if 97 <= c <= 102 {
        Some((c - 97 + 10) as u8)
    } else if 65 <= c <= 70 {
        Some((c - 65 + 10) as u8)
    } else {
        None
    }
}

/// Among the first `k` bytes, the first that is no hexadecimal digit.
pub open spec fn first_bad(b: Seq<u8>, k: nat) -> Option<u8>
    decreases k,
{
    if k == 0 || k > b.len() {
        None
    } else {
        match first_bad(b, (k - 1) as nat) {
            Some(c) => Some(c),
            None => if nibble(b[k - 1]) is None {
                Some(b[k - 1])
            } else {
                None
            },
        }
    }
}

/// The bytes that pairs of hexadecimal digits stand for.
pub open spec fn unhex(b: Seq<u8>) -> Seq<u8> {
    Seq::new(
        b.len() / 2,
        |i: int| (nibble(b[2 * i])->0 * 16 + nibble(b[2 * i + 1])->0) as u8,
    )
}

/// What parsing 64 hexadecimal digits comes to.
pub open spec fn parsed_hex(b: Seq<u8>) -> Result<Seq<u8>, Hash32ParseError> {
    if b.len() != 64 {
        Err(Hash32ParseError::WrongLength(b.len() as usize))
    } else {
        match first_bad(b, 64) {
            Some(c) => Err(Hash32ParseError::InvalidChar(c)),
            None => Ok(unhex(b)),
        }
    }
}

/// Why a text is no [`Hash32`].
#[derive(Debug, Clone, Copy, PartialEq, Eq, Structural)]
pub enum Hash32ParseError {
    /// The text has not 64 bytes.
    WrongLength(usize),
    /// The text holds a byte that is no hexadecimal digit.
    InvalidChar(u8),
}

/// A byte as messages show it, without the quotes. Five characters and the quote have
/// escapes of their own. A character that cannot be printed is shown by its number, in
/// hexadecimal digits without leading zeros.
pub open spec fn escaped_char(byte: u8) -> Seq<char> {
    if byte == 0 {
        seq!['\\', '0']
    } else if byte == 9 {
        seq!['\\', 't']
    } else if byte == 10 {
        seq!['\\', 'n']
    } else if byte == 13 {
        seq!['\\', 'r']
    } else if byte == 39 {
        seq!['\\', '\'']
    } else if byte == 92 {
        seq!['\\', '\\']
    } else if byte < 16 {
        seq!['\\', 'u', '{', hex_digit(byte as nat), '}']
    } else if byte < 32 || 127 <= byte <= 160 || byte == 173 {
        seq![
            '\\',
            'u',
            '{',
            hex_digit((byte / 16) as nat),
            hex_digit((byte % 16) as nat),
            '}',
        ]
    } else {
        seq![byte as char]
    }
}

/// A byte as messages show it: a quoted character, escaped where it has to be.
pub open spec fn quoted_char(byte: u8) -> Seq<char> {
    seq!['\''] + escaped_char(byte) + seq!['\'']
}

/// The `Debug` text of the `char` with the number of the byte: the character in single
/// quotes, with the escapes of `escaped_char`.
#[verifier::external_body]
fn quote_char(byte: u8) -> (r: String)
    ensures
        r@ == quoted_char(byte),
{
    format!("{:?}", byte as char)
}

impl Hash32ParseError {
    /// The message of the error.
    pub open spec fn message(self) -> Seq<char> {
        match self {
            Hash32ParseError::WrongLength(n) => "expected 64 hex characters, got "@
                + text::decimal(n as nat),
            Hash32ParseError::InvalidChar(c) => "invalid hex character: "@ + quoted_char(c),
        }
    }

    /// The message of the error.
    pub fn to_string(&self) -> (r: String)
        ensures
            r@ == self.message(),
    {
        match self {
            Hash32ParseError::WrongLength(n) => concat(
                "expected 64 hex characters, got ",
                decimal_text(*n as u128).as_str(),
            ),
            Hash32ParseError::InvalidChar(c) => concat(
                "invalid hex character: ",
                quote_char(*c).as_str(),
            ),
        }
    }
}

proof fn lemma_first_bad_stays(b: Seq<u8>, k: nat, m: nat)
    requires
        k <= m <= b.len(),
        first_bad(b, k) is Some,
    ensures
        first_bad(b, m) == first_bad(b, k),
    decreases m,
{
    if k < m {
        lemma_first_bad_stays(b, k, (m - 1) as nat);
    }
}

proof fn lemma_all_good(b: Seq<u8>, k: nat)
    requires
        k <= b.len(),
        forall|i: int| 0 <= i < k ==> nibble(#[trigger] b[i]) is Some,
    ensures
        first_bad(b, k) is None,
    decreases k,
{
    if k > 0 {
        lemma_all_good(b, (k - 1) as nat);
    }
}

/// Parsing the hexadecimal text of 32 bytes gives the bytes back.
pub proof fn law_hex_round_trip(h: Seq<u8>)
    requires
        h.len() == 32,
    ensures
        parsed_hex(vstd::utf8::encode_utf8(hex_text(h))) == Ok::<Seq<u8>, Hash32ParseError>(h),
{
    let t = hex_text(h);
    assert(vstd::utf8::is_ascii_chars(t)) by {
        assert forall|i: int| 0 <= i < t.len() implies '\0' <= #[trigger] t[i] <= '\u{7f}' by {
        }
    }
    vstd::utf8::is_ascii_chars_encode_utf8(t);
    let b = vstd::utf8::encode_utf8(t);
    assert(b =~= Seq::new(t.len(), |i: int| t[i] as u8));
    assert forall|i: int| 0 <= i < 64 implies nibble(#[trigger] b[i]) == Some(
        if i % 2 == 0 {
            (h[i / 2] / 16) as u8
        } else {
            (h[i / 2] % 16) as u8
        },
    ) by {
        assert(b[i] == t[i] as u8);
    }
    lemma_all_good(b, 64);
    assert(unhex(b) =~= h) by {
        assert forall|i: int| 0 <= i < 32 implies #[trigger] unhex(b)[i] == h[i] by {
            assert((2 * i) / 2 == i && (2 * i + 1) / 2 == i);
            assert(nibble(b[2 * i]) == Some((h[i] / 16) as u8));
            assert(nibble(b[2 * i + 1]) == Some((h[i] % 16) as u8));
        }
    }
}

/// The value of a hexadecimal digit.
fn decode_nibble(c: u8) -> (r: Result<u8, Hash32ParseError>)
    ensures
        match r {
            Ok(v) => nibble(c) == Some(v) && v < 16,
            Err(e) => nibble(c) is None && e == Hash32ParseError::InvalidChar(c),
        },
{
    if 48 <= c && c <= 57 {
        Ok(c - 48)
    } else if 97 <= c && c <= 102 {
        Ok(c - 97 + 10)
    } else if 65 <= c && c <= 70 {
        Ok(c - 65 + 10)
    } else {
        Err(Hash32ParseError::InvalidChar(c))
    }
}

/// The one-digit hexadecimal text of `d`.
fn hex_digit_text(d: u8) -> (r: &'static str)
    requires
        d < 16,
    ensures
        r@ == seq![hex_digit(d as nat)],
{
    proof {
        reveal_strlit("0");
        reveal_strlit("1");
        reveal_strlit("2");
        reveal_strlit("3");
        reveal_strlit("4");
        reveal_strlit("5");
        reveal_strlit("6");
        reveal_strlit("7");
        reveal_strlit("8");
        reveal_strlit("9");
        reveal_strlit("a");
        reveal_strlit("b");
        reveal_strlit("c");
        reveal_strlit("d");
        reveal_strlit("e");
        reveal_strlit("f");
    }
    match d {
        0 => "0",
        1 => "1",
        2 => "2",
        3 => "3",
        4 => "4",
        5 => "5",
        6 => "6",
        7 => "7",
        8 => "8",
        9 => "9",
        10 => "a",
        11 => "b",
        12 => "c",
        13 => "d",
        14 => "e",
        _ => "f",
    }
}

/// A 32-byte value, most often a SHA-256 digest.
#[derive(Debug, Clone, Copy, PartialEq, Eq, Hash, PartialOrd, Ord)]
pub struct Hash32 {
    bytes: [u8; 32],
}

impl View for Hash32 {
    type V = Seq<u8>;

    closed spec fn view(&self) -> Seq<u8> {
        self.bytes@
    }
}

impl Hash32 {
    /// Wrap raw bytes.
    pub fn from_bytes(bytes: [u8; 32]) -> (r: Self)
        ensures
            r@ == bytes@,
    {
        Hash32 { bytes }
    }

    /// The value whose bytes are all zero.
    pub fn zero() -> (r: Self)
        ensures
            r@ == Seq::new(32, |i: int| 0u8),
    {
        let r = Hash32 { bytes: [0u8; 32] };
        proof {
            assert(r@ =~= Seq::new(32, |i: int| 0u8));
        }
        r
    }

    /// Borrow the raw bytes.
    pub fn as_bytes(&self) -> (r: &[u8; 32])
        ensures
            r@ == self@,
            r@.len() == 32,
    {
        &self.bytes
    }

    /// The raw bytes.
    pub fn into_bytes(self) -> (r: [u8; 32])
        ensures
            r@ == self@,
            r@.len() == 32,
    {
        self.bytes
    }

    /// The SHA-256 digest of `input`.
    pub fn sha256(input: &[u8]) -> (r: Self)
        ensures
            r@ == sha256_digest(input@),
            r@.len() == 32,
    {
        Hash32 { bytes: digest_bytes(input) }
    }

    /// The 64 lowercase hexadecimal digits of the value.
    pub fn to_hex(&self) -> (r: String)
        ensures
            r@ == hex_text(self@),
            self@.len() == 32,
    {
        let mut s = String::new();
        let mut i: usize = 0;
        proof {
            assert(hex_text(self.bytes@.take(0)) =~= s@);
        }
        while i < 32
            invariant
                i <= 32,
                s@ == hex_text(self.bytes@.take(i as int)),
            decreases 32 - i,
        {
            let b = self.bytes[i];
            let ghost before = s@;
            s.append(hex_digit_text(b / 16));
            s.append(hex_digit_text(b % 16));
            proof {
                let t = hex_text(self.bytes@.take(i + 1));
                assert(s@.len() == t.len());
                assert forall|k: int| 0 <= k < t.len() implies s@[k] == t[k] by {
                    if k < 2 * i {
                        assert(before[k] == hex_text(self.bytes@.take(i as int))[k]);
                        assert(self.bytes@.take(i as int)[k / 2] == self.bytes@.take(
                            i + 1,
                        )[k / 2]);
                    }
                }
                assert(s@ =~= t);
            }
            i = i + 1;
        }
        proof {
            assert(self.bytes@.take(32) =~= self.bytes@);
        }
        s
    }

    /// The value with these bytes, if there are 32 of them.
    pub fn from_slice(v: &[u8]) -> (r: Option<Self>)
        ensures
            match r {
                Some(h) => h@ == v@ && v@.len() == 32,
                None => v@.len() != 32,
            },
    {
        if v.len() != 32 {
            return None;
        }
        let mut bytes: [u8; 32] = [0u8; 32];
        let mut i: usize = 0;
        while i < 32
            invariant
                i <= 32,
                v@.len() == 32,
                forall|k: int| 0 <= k < i ==> #[trigger] bytes@[k] == v@[k],
            decreases 32 - i,
        {
            bytes[i] = v[i];
            i = i + 1;
        }
        let h = Hash32 { bytes };
        proof {
            assert(h@ =~= v@);
        }
        Some(h)
    }

    /// Parse 64 hexadecimal digits of either case.
    pub fn from_hex(s: &str) -> (r: Result<Self, Hash32ParseError>)
        ensures
            match r {
                Ok(h) => parsed_hex(vstd::utf8::encode_utf8(s@)) == Ok::<Seq<u8>, Hash32ParseError>(h@),
                Err(e) => parsed_hex(vstd::utf8::encode_utf8(s@)) == Err::<Seq<u8>, Hash32ParseError>(e),
            },
    {
        let input = s.as_bytes();
        if input.len() != 64 {
            return Err(Hash32ParseError::WrongLength(input.len()));
        }
        let ghost b = input@;
        let mut bytes: [u8; 32] = [0u8; 32];
        let mut i: usize = 0;
        while i < 32
            invariant
                i <= 32,
                b == input@,
                b == vstd::utf8::encode_utf8(s@),
                b.len() == 64,
                first_bad(b, (2 * i) as nat) is None,
                forall|k: int| 0 <= k < i ==> #[trigger] bytes@[k] == unhex(b)[k],
            decreases 32 - i,
        {
            let hi = match decode_nibble(input[i * 2]) {
                Ok(v) => v,
                Err(e) => {
                    proof {
                        assert(first_bad(b, (2 * i + 1) as nat) == Some(b[2 * i]));
                        lemma_first_bad_stays(b, (2 * i + 1) as nat, 64);
                    }
                    return Err(e);
                },
            };
            let lo = match decode_nibble(input[i * 2 + 1]) {
                Ok(v) => v,
                Err(e) => {
                    proof {
                        assert(first_bad(b, (2 * i + 1) as nat) is None);
                        assert(first_bad(b, (2 * i + 2) as nat) == Some(b[2 * i + 1]));
                        lemma_first_bad_stays(b, (2 * i + 2) as nat, 64);
                    }
                    return Err(e);
                },
            };
            bytes[i] = hi * 16 + lo;
            proof {
                assert(first_bad(b, (2 * i + 1) as nat) is None);
                assert(first_bad(b, (2 * i + 2) as nat) is None);
            }
            i = i + 1;
        }
        let h = Hash32 { bytes };
        proof {
            assert(h@ =~= unhex(b));
        }
        Ok(h)
    }
}

/// The fingerprint of a workflow definition.
#[derive(Debug, Clone, Copy, PartialEq, Eq, Hash, PartialOrd, Ord)]
pub struct DefinitionHash {
    hash: Hash32,
}

impl View for DefinitionHash {
    type V = Seq<u8>;

    closed spec fn view(&self) -> Seq<u8> {
        self.hash@
    }
}

impl DefinitionHash {
    /// Wrap a hash.
    pub fn from_hash(hash: Hash32) -> (r: Self)
        ensures
            r@ == hash@,
    {
        DefinitionHash { hash }
    }

    /// Wrap raw bytes.
    pub fn from_bytes(bytes: [u8; 32]) -> (r: Self)
        ensures
            r@ == bytes@,
    {
        DefinitionHash { hash: Hash32::from_bytes(bytes) }
    }

    /// The SHA-256 digest of `input`.
    pub fn sha256(input: &[u8]) -> (r: Self)
        ensures
            r@ == sha256_digest(input@),
            r@.len() == 32,
    {
        DefinitionHash { hash: Hash32::sha256(input) }
    }

    /// The underlying hash.
    pub fn as_hash(&self) -> (r: &Hash32)
        ensures
            r@ == self@,
    {
        &self.hash
    }

    /// Borrow the raw bytes.
    pub fn as_bytes(&self) -> (r: &[u8; 32])
        ensures
            r@ == self@,
            r@.len() == 32,
    {
        self.hash.as_bytes()
    }

    /// The 64 lowercase hexadecimal digits of the value.
    pub fn to_hex(&self) -> (r: String)
        ensures
            r@ == hex_text(self@),
            self@.len() == 32,
    {
        self.hash.to_hex()
    }

    /// Parse 64 hexadecimal digits of either case.
    pub fn from_hex(s: &str) -> (r: Result<Self, Hash32ParseError>)
        ensures
            match r {
                Ok(h) => parsed_hex(vstd::utf8::encode_utf8(s@)) == Ok::<Seq<u8>, Hash32ParseError>(h@),
                Err(e) => parsed_hex(vstd::utf8::encode_utf8(s@)) == Err::<Seq<u8>, Hash32ParseError>(e),
            },
    {
        match Hash32::from_hex(s) {
            Ok(hash) => Ok(DefinitionHash { hash }),
            Err(e) => Err(e),
        }
    }
}

impl vstd::std_specs::convert::FromSpecImpl<&str> for DefinitionHash {
    open spec fn obeys_from_spec() -> bool {
        false
    }

    open spec fn from_spec(v: &str) -> Self {
        arbitrary()
    }
}

impl From<&str> for DefinitionHash {
    /// The SHA-256 digest of the text. A text of hexadecimal digits is not parsed
    /// but hashed like any other.
    fn from(s: &str) -> (r: Self)
        ensures
            r@ == sha256_digest(vstd::utf8::encode_utf8(s@)),
    {
        DefinitionHash::sha256(s.as_bytes())
    }
}

impl vstd::std_specs::convert::FromSpecImpl<Hash32> for DefinitionHash {
    open spec fn obeys_from_spec() -> bool {
        false
    }

    open spec fn from_spec(v: Hash32) -> Self {
        arbitrary()
    }
}

impl From<Hash32> for DefinitionHash {
    fn from(h: Hash32) -> (r: Self)
        ensures
            r@ == h@,
    {
        DefinitionHash { hash: h }
    }
}

/// The identity of a task: the digest of its id.
#[derive(Debug, Clone, Copy, PartialEq, Eq, Hash, PartialOrd, Ord)]
pub struct TaskId {
    hash: Hash32,
}

impl View for TaskId {
    type V = Seq<u8>;

    closed spec fn view(&self) -> Seq<u8> {
        self.hash@
    }
}

impl TaskId {
    /// Wrap raw bytes.
    pub fn from_bytes(bytes: [u8; 32]) -> (r: Self)
        ensures
            r@ == bytes@,
    {
        TaskId { hash: Hash32::from_bytes(bytes) }
    }

    /// Borrow the raw bytes.
    pub fn as_bytes(&self) -> (r: &[u8; 32])
        ensures
            r@ == self@,
            r@.len() == 32,
    {
        self.hash.as_bytes()
    }

    /// The 64 lowercase hexadecimal digits of the value.
    pub fn to_hex(&self) -> (r: String)
        ensures
            r@ == hex_text(self@),
            self@.len() == 32,
    {
        self.hash.to_hex()
    }
}

impl vstd::std_specs::convert::FromSpecImpl<&str> for TaskId {
    open spec fn obeys_from_spec() -> bool {
        false
    }

    open spec fn from_spec(v: &str) -> Self {
        arbitrary()
    }
}

impl From<&str> for TaskId {
    /// The SHA-256 digest of the id.
    fn from(s: &str) -> (r: Self)
        ensures
            r@ == sha256_digest(vstd::utf8::encode_utf8(s@)),
    {
        TaskId { hash: Hash32::sha256(s.as_bytes()) }
    }
}

} // verus!
