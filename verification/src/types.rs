//! Shared value types: account addresses and their hex form.
use vstd::prelude::*;
use vstd::string::StringSliceAdditionalSpecFns;

use vstd::utf8::{encode_utf8, is_ascii_chars, is_ascii_chars_encode_utf8};

use crate::text::push_char;

verus! {

pub type HashValue = [u8; 32];

/// Which parts of the upstream toolchain this crate has taken ownership of.
#[derive(Clone, Debug, Eq, PartialEq)]
pub struct ExtractionBoundary {
    pub upstream_runtime_frozen: bool,
    pub compiler_frontend_owned: bool,
}

impl ExtractionBoundary {
    pub fn bootstrap() -> (r: Self)
        ensures
            !r.upstream_runtime_frozen,
            !r.compiler_frontend_owned,
    {
        ExtractionBoundary { upstream_runtime_frozen: false, compiler_frontend_owned: false }
    }
}

/// A 32-byte account address.
#[derive(Clone, Copy, Debug, Eq, Hash, Ord, PartialEq, PartialOrd)]
pub struct AccountAddress(pub [u8; 32]);

impl View for AccountAddress {
    type V = Seq<u8>;

    open spec fn view(&self) -> Seq<u8> {
        self.0@
    }
}

/// A parse result, with the address taken by its bytes.
pub open spec fn address_result_view(
    r: Result<AccountAddress, AddressParseError>,
) -> Result<Seq<u8>, AddressParseError> {
    match r {
        Ok(a) => Ok(a@),
        Err(e) => Err(e),
    }
}

/// Errors from parsing a hex address.
#[derive(Clone, Copy, Debug, Eq, PartialEq)]
pub enum AddressParseError {
    Empty,
    InvalidHex { index: usize, byte: u8 },
    TooLong { bytes: usize },
}

/// A name bound to an address, as in `name = 0xADDR`.
#[derive(Clone, Debug, Eq, PartialEq)]
pub struct NamedAddressAssignment {
    pub name: String,
    pub address: AccountAddress,
}

/// The hash of one named module.
#[derive(Clone, Debug, Eq, PartialEq)]
pub struct ModuleDigest {
    pub name: String,
    pub hash: HashValue,
}

pub open spec fn is_hex_digit(b: u8) -> bool {
    (0x30 <= b <= 0x39) || (0x61 <= b <= 0x66) || (0x41 <= b <= 0x46)
}

/// The value of a hex digit.
pub open spec fn nibble_value(b: u8) -> u8 {
    if 0x30 <= b <= 0x39 {
        (b - 0x30) as u8
    } else if 0x61 <= b <= 0x66 {
        (b - 0x61 + 10) as u8
    } else {
        (b - 0x41 + 10) as u8
    }
}

/// Index of the first byte at or after `i` that is not a hex digit, or the length.
pub open spec fn first_non_hex_from(n: Seq<u8>, i: int) -> int
    decreases n.len() - i,
{
    if i >= n.len() || i < 0 {
        n.len() as int
    } else if !is_hex_digit(n[i]) {
        i
    } else {
        first_non_hex_from(n, i + 1)
    }
}

pub open spec fn first_non_hex(n: Seq<u8>) -> int {
    first_non_hex_from(n, 0)
}

/// Pairs of hex digits read as bytes, high digit first.
pub open spec fn hex_pairs(n: Seq<u8>) -> Seq<u8> {
    Seq::new(n.len() / 2, |k: int| (nibble_value(n[2 * k]) * 16 + nibble_value(n[2 * k + 1])) as u8)
}

/// Decoding of an even-length hex text: the first non-hex byte is reported, else the bytes.
pub open spec fn spec_decode_hex(n: Seq<u8>) -> Result<Seq<u8>, AddressParseError> {
    let i = first_non_hex(n);
    if i < n.len() {
        Err(AddressParseError::InvalidHex { index: i as usize, byte: n[i] })
    } else {
        Ok(hex_pairs(n))
    }
}

/// The text padded with a leading `0` when it has an odd number of bytes.
pub open spec fn even_hex_text(b: Seq<u8>) -> Seq<u8> {
    if b.len() % 2 == 0 {
        b
    } else {
        seq![0x30u8] + b
    }
}

/// The address whose last bytes are `d`, zero-filled in front.
pub open spec fn left_padded(d: Seq<u8>) -> Seq<u8> {
    Seq::new((32 - d.len()) as nat, |i: int| 0u8) + d
}

/// Parsing of hex text (without prefix) into an address.
pub open spec fn spec_from_hex(b: Seq<u8>) -> Result<Seq<u8>, AddressParseError> {
    if b.len() == 0 {
        Err(AddressParseError::Empty)
    } else {
        match spec_decode_hex(even_hex_text(b)) {
            Err(e) => Err(e),
            Ok(d) => if d.len() > 32 {
                Err(AddressParseError::TooLong { bytes: d.len() as usize })
            } else {
                Ok(left_padded(d))
            },
        }
    }
}

/// The text with a leading `0x` or `0X` removed, if it has one.
pub open spec fn strip_hex_prefix(b: Seq<u8>) -> Seq<u8> {
    if b.len() >= 2 && b[0] == 0x30u8 && (b[1] == 0x78u8 || b[1] == 0x58u8) {
        b.skip(2)
    } else {
        b
    }
}

pub open spec fn spec_from_hex_literal(b: Seq<u8>) -> Result<Seq<u8>, AddressParseError> {
    spec_from_hex(strip_hex_prefix(b))
}

fn decode_nibble(byte: u8, index: usize) -> (r: Result<u8, AddressParseError>)
    ensures
        is_hex_digit(byte) ==> r == Ok::<u8, AddressParseError>(nibble_value(byte)),
        !is_hex_digit(byte) ==> r == Err::<u8, AddressParseError>(
            AddressParseError::InvalidHex { index, byte },
        ),
{
    if 0x30 <= byte && byte <= 0x39 {
        Ok(byte - 0x30)
    } else if 0x61 <= byte && byte <= 0x66 {
        Ok(byte - 0x61 + 10)
    } else if 0x41 <= byte && byte <= 0x46 {
        Ok(byte - 0x41 + 10)
    } else {
        Err(AddressParseError::InvalidHex { index, byte })
    }
}

proof fn lemma_first_non_hex_skip(n: Seq<u8>, s: int, i: int)
    requires
        0 <= s <= i <= n.len(),
        forall|j: int| s <= j < i ==> is_hex_digit(#[trigger] n[j]),
    ensures
        first_non_hex_from(n, s) == first_non_hex_from(n, i),
    decreases i - s,
{
    if s < i {
        lemma_first_non_hex_skip(n, s + 1, i);
    }
}

/// Decodes an even-length hex text.
fn decode_hex(n: &[u8]) -> (r: Result<Vec<u8>, AddressParseError>)
    requires
        n@.len() % 2 == 0,
    ensures
        match r {
            Ok(d) => spec_decode_hex(n@) == Ok::<Seq<u8>, AddressParseError>(d@),
            Err(e) => spec_decode_hex(n@) == Err::<Seq<u8>, AddressParseError>(e),
        },
{
    let mut decoded: Vec<u8> = Vec::new();
    let mut index: usize = 0;
    while index < n.len()
        invariant
            index <= n@.len(),
            index % 2 == 0,
            n@.len() % 2 == 0,
            forall|j: int| 0 <= j < index ==> is_hex_digit(#[trigger] n@[j]),
            decoded@ == hex_pairs(n@).take(index as int / 2),
        decreases n@.len() - index,
    {
        let hi = match decode_nibble(n[index], index) {
            Ok(v) => v,
            Err(e) => {
                proof {
                    lemma_first_non_hex_skip(n@, 0, index as int);
                }
                return Err(e);
            },
        };
        let lo = match decode_nibble(n[index + 1], index + 1) {
            Ok(v) => v,
            Err(e) => {
                proof {
                    lemma_first_non_hex_skip(n@, 0, index as int + 1);
                }
                return Err(e);
            },
        };
        decoded.push(hi * 16 + lo);
        proof {
            assert(hex_pairs(n@).take(index as int / 2 + 1) =~= hex_pairs(n@).take(index as int / 2).push(
                hex_pairs(n@)[index as int / 2],
            ));
            assert(2 * (index as int / 2) == index);
        }
        index += 2;
    }
    proof {
        lemma_first_non_hex_skip(n@, 0, n@.len() as int);
        assert(hex_pairs(n@).take(n@.len() as int / 2) =~= hex_pairs(n@));
    }
    Ok(decoded)
}

/// Copies `d` into the last bytes of a zeroed 32-byte array.
fn left_padded_array(d: &Vec<u8>) -> (r: [u8; 32])
    requires
        d@.len() <= 32,
    ensures
        r@ == left_padded(d@),
{
    let mut a = [0u8; 32];
    let start = 32 - d.len();
    let mut i: usize = 0;
    while i < d.len()
        invariant
            i <= d@.len(),
            d@.len() <= 32,
            start == 32 - d@.len(),
            forall|j: int| 0 <= j < start ==> a@[j] == 0u8,
            forall|j: int| 0 <= j < i ==> a@[start + j] == d@[j],
        decreases d@.len() - i,
    {
        a[start + i] = d[i];
        i += 1;
    }
    assert(a@ =~= left_padded(d@));
    a
}

/// Parses hex text given as bytes, without a prefix.
fn address_from_hex_bytes(b: &[u8]) -> (r: Result<AccountAddress, AddressParseError>)
    ensures
        address_result_view(r) == spec_from_hex(b@),
{
    if b.len() == 0 {
        return Err(AddressParseError::Empty);
    }
    let normalized: Vec<u8> = if b.len() % 2 == 0 {
        crate::text::bytes_to_vec(b)
    } else {
        let mut v: Vec<u8> = Vec::new();
        v.push(0x30u8);
        crate::text::extend_bytes(&mut v, b);
        assert(v@ =~= seq![0x30u8] + b@);
        v
    };
    assert(normalized@ == even_hex_text(b@));
    let decoded = match decode_hex(normalized.as_slice()) {
        Ok(d) => d,
        Err(e) => return Err(e),
    };
    if decoded.len() > 32 {
        return Err(AddressParseError::TooLong { bytes: decoded.len() });
    }
    Ok(AccountAddress(left_padded_array(&decoded)))
}

impl AccountAddress {
    /// The all-zero address.
    pub fn zero() -> (r: Self)
        ensures
            r@ == Seq::new(32, |i: int| 0u8),
    {
        let r = AccountAddress([0u8; 32]);
        assert(r@ =~= Seq::new(32, |i: int| 0u8));
        r
    }

    /// Parses `0x`-prefixed (or `0X`-prefixed, or bare) hex text.
    pub fn from_hex_literal(input: &str) -> (r: Result<Self, AddressParseError>)
        ensures
            address_result_view(r) == spec_from_hex_literal(input.spec_bytes()),
    {
        let b = input.as_bytes();
        if b.len() >= 2 && b[0] == 0x30u8 && (b[1] == 0x78u8 || b[1] == 0x58u8) {
            let rest = vstd::slice::slice_subrange(b, 2, b.len());
            assert(rest@ =~= b@.skip(2));
            address_from_hex_bytes(rest)
        } else {
            address_from_hex_bytes(b)
        }
    }

    /// Parses bare hex text: an odd number of digits gets a leading zero, and the
    /// result is right-aligned in the 32 bytes.
    pub fn from_hex(input: &str) -> (r: Result<Self, AddressParseError>)
        ensures
            address_result_view(r) == spec_from_hex(input.spec_bytes()),
    {
        address_from_hex_bytes(input.as_bytes())
    }

    pub fn into_inner(self) -> (r: [u8; 32])
        ensures
            r == self.0,
    {
        self.0
    }

    /// `0x` followed by the 64 lowercase hex digits of the address.
    pub fn to_string(&self) -> (r: String)
        ensures
            r@ == address_display(self@),
    {
        let mut s = String::new();
        push_char(&mut s, '0');
        push_char(&mut s, 'x');
        let mut i: usize = 0;
        while i < 32
            invariant
                i <= 32,
                self@.len() == 32,
                s@ == seq!['0', 'x'] + hex_lower(self@.take(i as int)),
            decreases 32 - i,
        {
            let byte = self.0[i];
            push_char(&mut s, hex_digit_lower(byte / 16));
            push_char(&mut s, hex_digit_lower(byte % 16));
            proof {
                assert(self@.take(i as int + 1).drop_last() =~= self@.take(i as int));
            }
            i += 1;
        }
        assert(self@.take(32) =~= self@);
        s
    }
}

/// The lowercase hex digit for a value below 16.
pub open spec fn spec_hex_digit_lower(v: u8) -> char {
    if v < 10 {
        ((v + 0x30) as u8) as char
    } else {
        ((v - 10 + 0x61) as u8) as char
    }
}

fn hex_digit_lower(v: u8) -> (c: char)
    requires
        v < 16,
    ensures
        c == spec_hex_digit_lower(v),
{
    if v < 10 {
        (v + 0x30) as char
    } else {
        (v - 10 + 0x61) as char
    }
}

/// Two lowercase hex digits per byte, high digit first.
pub open spec fn hex_lower(b: Seq<u8>) -> Seq<char>
    decreases b.len(),
{
    if b.len() == 0 {
        Seq::<char>::empty()
    } else {
        hex_lower(b.drop_last()) + seq![
            spec_hex_digit_lower((b.last() / 16) as u8),
            spec_hex_digit_lower((b.last() % 16) as u8),
        ]
    }
}

/// The lowercase hex form of a byte string, two digits per byte.
pub fn hex_string(bytes: &[u8]) -> (r: String)
    ensures
        r@ == hex_lower(bytes@),
{
    let mut s = String::new();
    let mut i: usize = 0;
    while i < bytes.len()
        invariant
            i <= bytes@.len(),
            s@ == hex_lower(bytes@.take(i as int)),
        decreases bytes@.len() - i,
    {
        let byte = bytes[i];
        push_char(&mut s, hex_digit_lower(byte / 16));
        push_char(&mut s, hex_digit_lower(byte % 16));
        proof {
            assert(bytes@.take(i as int + 1).drop_last() =~= bytes@.take(i as int));
        }
        i += 1;
    }
    assert(bytes@.take(bytes@.len() as int) =~= bytes@);
    s
}

/// The display form of an address.
pub open spec fn address_display(a: Seq<u8>) -> Seq<char> {
    seq!['0', 'x'] + hex_lower(a)
}

// ── Display and parse ───────────────────────────────────────────────────

proof fn lemma_hex_digit_lower(v: u8)
    requires
        v < 16,
    ensures
        (spec_hex_digit_lower(v) as u8) == (if v < 10 {
            v + 0x30
        } else {
            v + 0x57
        }),
        is_hex_digit(spec_hex_digit_lower(v) as u8),
        nibble_value(spec_hex_digit_lower(v) as u8) == v,
        '\0' <= spec_hex_digit_lower(v) <= '\u{7f}',
{
}

proof fn lemma_hex_lower_shape(b: Seq<u8>)
    ensures
        hex_lower(b).len() == 2 * b.len(),
        forall|k: int|
            0 <= k < b.len() ==> #[trigger] hex_lower(b)[2 * k] == spec_hex_digit_lower(
                (b[k] / 16) as u8,
            ),
        forall|k: int|
            0 <= k < b.len() ==> #[trigger] hex_lower(b)[2 * k + 1] == spec_hex_digit_lower(
                (b[k] % 16) as u8,
            ),
        forall|j: int|
            0 <= j < hex_lower(b).len() ==> is_hex_digit(#[trigger] hex_lower(b)[j] as u8) && '\0'
                <= hex_lower(b)[j] <= '\u{7f}',
    decreases b.len(),
{
    if b.len() > 0 {
        let p = b.drop_last();
        lemma_hex_lower_shape(p);
        let hp = hex_lower(p);
        let hb = hex_lower(b);
        let d1 = spec_hex_digit_lower((b.last() / 16) as u8);
        let d2 = spec_hex_digit_lower((b.last() % 16) as u8);
        assert(hb == hp + seq![d1, d2]);
        lemma_hex_digit_lower((b.last() / 16) as u8);
        lemma_hex_digit_lower((b.last() % 16) as u8);
        assert forall|k: int| 0 <= k < b.len() implies #[trigger] hb[2 * k]
            == spec_hex_digit_lower((b[k] / 16) as u8) by {
            if k < p.len() {
                assert(p[k] == b[k]);
                assert(hb[2 * k] == hp[2 * k]);
            } else {
                assert(hb[2 * k] == d1);
            }
        }
        assert forall|k: int| 0 <= k < b.len() implies #[trigger] hb[2 * k + 1]
            == spec_hex_digit_lower((b[k] % 16) as u8) by {
            if k < p.len() {
                assert(p[k] == b[k]);
                assert(hb[2 * k + 1] == hp[2 * k + 1]);
            } else {
                assert(hb[2 * k + 1] == d2);
            }
        }
        assert forall|j: int| 0 <= j < hb.len() implies is_hex_digit(#[trigger] hb[j] as u8) && '\0'
            <= hb[j] <= '\u{7f}' by {
            if j < hp.len() {
                assert(hb[j] == hp[j]);
            } else if j == hp.len() {
                assert(hb[j] == d1);
            } else {
                assert(hb[j] == d2);
            }
        }
    }
}

proof fn lemma_all_hex(n: Seq<u8>, i: int)
    requires
        0 <= i <= n.len(),
        forall|j: int| i <= j < n.len() ==> is_hex_digit(#[trigger] n[j]),
    ensures
        first_non_hex_from(n, i) == n.len(),
    decreases n.len() - i,
{
    if i < n.len() {
        lemma_all_hex(n, i + 1);
    }
}

/// The display form of an address parses back to the same address.
pub proof fn law_display_parses_back(a: AccountAddress)
    ensures
        spec_from_hex_literal(encode_utf8(address_display(a@))) == Ok::<Seq<u8>, AddressParseError>(
            a@,
        ),
{
    let b = a@;
    let h = hex_lower(b);
    let text = address_display(b);
    lemma_hex_lower_shape(b);
    assert(is_ascii_chars(text)) by {
        assert forall|i: int| 0 <= i < text.len() implies '\0' <= #[trigger] text[i] <= '\u{7f}' by {
            if i >= 2 {
                assert(text[i] == h[i - 2]);
            }
        }
    }
    is_ascii_chars_encode_utf8(text);
    let bytes = encode_utf8(text);
    assert(bytes[0] == 0x30u8);
    assert(bytes[1] == 0x78u8);
    let t = bytes.skip(2);
    assert(strip_hex_prefix(bytes) == t);
    assert(t.len() == 64);
    assert forall|j: int| 0 <= j < t.len() implies #[trigger] t[j] == (h[j] as u8) by {
        assert(t[j] == bytes[j + 2]);
        assert(text[j + 2] == h[j]);
    }
    assert(even_hex_text(t) == t);
    assert forall|j: int| 0 <= j < t.len() implies is_hex_digit(#[trigger] t[j]) by {
        assert(t[j] == (h[j] as u8));
    }
    lemma_all_hex(t, 0);
    assert(hex_pairs(t) =~= b) by {
        assert forall|k: int| 0 <= k < 32 implies #[trigger] hex_pairs(t)[k] == b[k] by {
            lemma_hex_digit_lower((b[k] / 16) as u8);
            lemma_hex_digit_lower((b[k] % 16) as u8);
            assert(t[2 * k] == (h[2 * k] as u8));
            assert(t[2 * k + 1] == (h[2 * k + 1] as u8));
        }
    }
    assert(left_padded(b) =~= b);
}

} // verus!
