//! Fixed-width codec: pure conversion between an integer and its byte
//! representation in a byte order selected once at build time.
//!
//! [`Endian`] ties each supported integer type to its little-endian byte
//! representation; big-endian is the reversal of that representation. The
//! free functions [`encode`] and [`decode`] convert in the configured order,
//! [`encode_be`] and [`decode_be`] in big-endian regardless of configuration.
//! The codec performs no bounds checking: `decode` demands a slice of exactly
//! the type's width from its caller.

use vstd::bytes::*;
use vstd::prelude::*;

verus! {

/// Build-time byte-order selection for the whole crate: `false` is
/// little-endian (the default), `true` is big-endian. Native order coincides
/// with little-endian on the targets this crate is built for. The order is
/// one process-wide constant, never a per-call choice.
pub const BIG_ENDIAN: bool = false;

/// A fixed-width integer with a little-endian byte representation.
///
/// `width()` is the number of bytes in the representation, a static property
/// of the type. Encoding is total; decoding demands exactly `width()` bytes
/// and is total on them: every bit pattern is a valid value.
pub trait Endian: Sized + Copy {
    /// Number of bytes in the representation of every value of this type.
    spec fn width() -> nat;

    /// The little-endian bytes of `self`.
    spec fn spec_encode_le(self) -> Seq<u8>;

    /// The value whose little-endian bytes are `b`.
    spec fn spec_decode_le(b: Seq<u8>) -> Self
        recommends
            b.len() == Self::width(),
    ;

    /// Encoding produces exactly `width()` bytes.
    proof fn lemma_encode_le_len(self)
        ensures
            self.spec_encode_le().len() == Self::width(),
    ;

    /// Decoding the encoding of a value yields the value back.
    proof fn lemma_le_value_round_trip(self)
        ensures
            Self::spec_decode_le(self.spec_encode_le()) == self,
    ;

    /// Encoding the value decoded from `width()` bytes yields those bytes.
    proof fn lemma_le_bytes_round_trip(b: Seq<u8>)
        requires
            b.len() == Self::width(),
        ensures
            Self::spec_decode_le(b).spec_encode_le() == b,
    ;

    /// `width()` as a machine integer.
    fn size() -> (n: usize)
        ensures
            n as nat == Self::width(),
    ;

    /// Encode `self` as its little-endian bytes.
    fn encode_le(self) -> (b: Vec<u8>)
        ensures
            b@ == self.spec_encode_le(),
            b@.len() == Self::width(),
    ;

    /// Decode a value from exactly `width()` little-endian bytes.
    fn decode_le(b: &[u8]) -> (v: Self)
        requires
            b@.len() == Self::width(),
        ensures
            v == Self::spec_decode_le(b@),
    ;
}

impl Endian for u8 {
    open spec fn width() -> nat {
        1
    }

    open spec fn spec_encode_le(self) -> Seq<u8> {
        seq![self]
    }

    open spec fn spec_decode_le(b: Seq<u8>) -> Self {
        b[0]
    }

    proof fn lemma_encode_le_len(self) {
    }

    proof fn lemma_le_value_round_trip(self) {
    }

    proof fn lemma_le_bytes_round_trip(b: Seq<u8>) {
        assert(Self::spec_decode_le(b).spec_encode_le() =~= b);
    }

    fn size() -> (n: usize) {
        1
    }

    fn encode_le(self) -> (b: Vec<u8>) {
        let mut b: Vec<u8> = Vec::new();
        b.push(self);
        proof {
            assert(b@ =~= seq![self]);
        }
        b
    }

    fn decode_le(b: &[u8]) -> (v: Self) {
        b[0]
    }
}

impl Endian for u16 {
    open spec fn width() -> nat {
        2
    }

    open spec fn spec_encode_le(self) -> Seq<u8> {
        spec_u16_to_le_bytes(self)
    }

    open spec fn spec_decode_le(b: Seq<u8>) -> Self {
        spec_u16_from_le_bytes(b)
    }

    proof fn lemma_encode_le_len(self) {
        lemma_auto_spec_u16_to_from_le_bytes();
    }

    proof fn lemma_le_value_round_trip(self) {
        lemma_auto_spec_u16_to_from_le_bytes();
        assert(spec_u16_to_le_bytes(self).len() == 2);
    }

    proof fn lemma_le_bytes_round_trip(b: Seq<u8>) {
        lemma_auto_spec_u16_to_from_le_bytes();
    }

    fn size() -> (n: usize) {
        2
    }

    fn encode_le(self) -> (b: Vec<u8>) {
        u16_to_le_bytes(self)
    }

    fn decode_le(b: &[u8]) -> (v: Self) {
        u16_from_le_bytes(b)
    }
}

impl Endian for u32 {
    open spec fn width() -> nat {
        4
    }

    open spec fn spec_encode_le(self) -> Seq<u8> {
        spec_u32_to_le_bytes(self)
    }

    open spec fn spec_decode_le(b: Seq<u8>) -> Self {
        spec_u32_from_le_bytes(b)
    }

    proof fn lemma_encode_le_len(self) {
        lemma_auto_spec_u32_to_from_le_bytes();
    }

    proof fn lemma_le_value_round_trip(self) {
        lemma_auto_spec_u32_to_from_le_bytes();
        assert(spec_u32_to_le_bytes(self).len() == 4);
    }

    proof fn lemma_le_bytes_round_trip(b: Seq<u8>) {
        lemma_auto_spec_u32_to_from_le_bytes();
    }

    fn size() -> (n: usize) {
        4
    }

    fn encode_le(self) -> (b: Vec<u8>) {
        u32_to_le_bytes(self)
    }

    fn decode_le(b: &[u8]) -> (v: Self) {
        u32_from_le_bytes(b)
    }
}

impl Endian for u64 {
    open spec fn width() -> nat {
        8
    }

    open spec fn spec_encode_le(self) -> Seq<u8> {
        spec_u64_to_le_bytes(self)
    }

    open spec fn spec_decode_le(b: Seq<u8>) -> Self {
        spec_u64_from_le_bytes(b)
    }

    proof fn lemma_encode_le_len(self) {
        lemma_auto_spec_u64_to_from_le_bytes();
    }

    proof fn lemma_le_value_round_trip(self) {
        lemma_auto_spec_u64_to_from_le_bytes();
        assert(spec_u64_to_le_bytes(self).len() == 8);
    }

    proof fn lemma_le_bytes_round_trip(b: Seq<u8>) {
        lemma_auto_spec_u64_to_from_le_bytes();
    }

    fn size() -> (n: usize) {
        8
    }

    fn encode_le(self) -> (b: Vec<u8>) {
        u64_to_le_bytes(self)
    }

    fn decode_le(b: &[u8]) -> (v: Self) {
        u64_from_le_bytes(b)
    }
}

impl Endian for u128 {
    open spec fn width() -> nat {
        16
    }

    open spec fn spec_encode_le(self) -> Seq<u8> {
        spec_u128_to_le_bytes(self)
    }

    open spec fn spec_decode_le(b: Seq<u8>) -> Self {
        spec_u128_from_le_bytes(b)
    }

    proof fn lemma_encode_le_len(self) {
        lemma_auto_spec_u128_to_from_le_bytes();
    }

    proof fn lemma_le_value_round_trip(self) {
        lemma_auto_spec_u128_to_from_le_bytes();
        assert(spec_u128_to_le_bytes(self).len() == 16);
    }

    proof fn lemma_le_bytes_round_trip(b: Seq<u8>) {
        lemma_auto_spec_u128_to_from_le_bytes();
    }

    fn size() -> (n: usize) {
        16
    }

    fn encode_le(self) -> (b: Vec<u8>) {
        u128_to_le_bytes(self)
    }

    fn decode_le(b: &[u8]) -> (v: Self) {
        u128_from_le_bytes(b)
    }
}

impl Endian for i8 {
    open spec fn width() -> nat {
        1
    }

    open spec fn spec_encode_le(self) -> Seq<u8> {
        seq![self as u8]
    }

    open spec fn spec_decode_le(b: Seq<u8>) -> Self {
        b[0] as i8
    }

    proof fn lemma_encode_le_len(self) {
    }

    proof fn lemma_le_value_round_trip(self) {
        let v = self;
        assert((v as u8) as i8 == v) by (bit_vector);
    }

    proof fn lemma_le_bytes_round_trip(b: Seq<u8>) {
        let x = b[0];
        assert((x as i8) as u8 == x) by (bit_vector);
        assert(Self::spec_decode_le(b).spec_encode_le() =~= b);
    }

    fn size() -> (n: usize) {
        1
    }

    fn encode_le(self) -> (b: Vec<u8>) {
        let mut b: Vec<u8> = Vec::new();
        b.push(#[verifier::truncate] (self as u8));
        proof {
            assert(b@ =~= seq![self as u8]);
        }
        b
    }

    fn decode_le(b: &[u8]) -> (v: Self) {
        #[verifier::truncate] (b[0] as i8)
    }
}

impl Endian for i16 {
    open spec fn width() -> nat {
        2
    }

    open spec fn spec_encode_le(self) -> Seq<u8> {
        spec_u16_to_le_bytes(self as u16)
    }

    open spec fn spec_decode_le(b: Seq<u8>) -> Self {
        spec_u16_from_le_bytes(b) as i16
    }

    proof fn lemma_encode_le_len(self) {
        lemma_auto_spec_u16_to_from_le_bytes();
    }

    proof fn lemma_le_value_round_trip(self) {
        lemma_auto_spec_u16_to_from_le_bytes();
        assert(spec_u16_to_le_bytes(self as u16).len() == 2);
        let v = self;
        assert((v as u16) as i16 == v) by (bit_vector);
    }

    proof fn lemma_le_bytes_round_trip(b: Seq<u8>) {
        lemma_auto_spec_u16_to_from_le_bytes();
        let x = spec_u16_from_le_bytes(b);
        assert((x as i16) as u16 == x) by (bit_vector);
    }

    fn size() -> (n: usize) {
        2
    }

    fn encode_le(self) -> (b: Vec<u8>) {
        u16_to_le_bytes(#[verifier::truncate] (self as u16))
    }

    fn decode_le(b: &[u8]) -> (v: Self) {
        #[verifier::truncate] (u16_from_le_bytes(b) as i16)
    }
}

impl Endian for i32 {
    open spec fn width() -> nat {
        4
    }

    open spec fn spec_encode_le(self) -> Seq<u8> {
        spec_u32_to_le_bytes(self as u32)
    }

    open spec fn spec_decode_le(b: Seq<u8>) -> Self {
        spec_u32_from_le_bytes(b) as i32
    }

    proof fn lemma_encode_le_len(self) {
        lemma_auto_spec_u32_to_from_le_bytes();
    }

    proof fn lemma_le_value_round_trip(self) {
        lemma_auto_spec_u32_to_from_le_bytes();
        assert(spec_u32_to_le_bytes(self as u32).len() == 4);
        let v = self;
        assert((v as u32) as i32 == v) by (bit_vector);
    }

    proof fn lemma_le_bytes_round_trip(b: Seq<u8>) {
        lemma_auto_spec_u32_to_from_le_bytes();
        let x = spec_u32_from_le_bytes(b);
        assert((x as i32) as u32 == x) by (bit_vector);
    }

    fn size() -> (n: usize) {
        4
    }

    fn encode_le(self) -> (b: Vec<u8>) {
        u32_to_le_bytes(#[verifier::truncate] (self as u32))
    }

    fn decode_le(b: &[u8]) -> (v: Self) {
        #[verifier::truncate] (u32_from_le_bytes(b) as i32)
    }
}

impl Endian for i64 {
    open spec fn width() -> nat {
        8
    }

    open spec fn spec_encode_le(self) -> Seq<u8> {
        spec_u64_to_le_bytes(self as u64)
    }

    open spec fn spec_decode_le(b: Seq<u8>) -> Self {
        spec_u64_from_le_bytes(b) as i64
    }

    proof fn lemma_encode_le_len(self) {
        lemma_auto_spec_u64_to_from_le_bytes();
    }

    proof fn lemma_le_value_round_trip(self) {
        lemma_auto_spec_u64_to_from_le_bytes();
        assert(spec_u64_to_le_bytes(self as u64).len() == 8);
        let v = self;
        assert((v as u64) as i64 == v) by (bit_vector);
    }

    proof fn lemma_le_bytes_round_trip(b: Seq<u8>) {
        lemma_auto_spec_u64_to_from_le_bytes();
        let x = spec_u64_from_le_bytes(b);
        assert((x as i64) as u64 == x) by (bit_vector);
    }

    fn size() -> (n: usize) {
        8
    }

    fn encode_le(self) -> (b: Vec<u8>) {
        u64_to_le_bytes(#[verifier::truncate] (self as u64))
    }

    fn decode_le(b: &[u8]) -> (v: Self) {
        #[verifier::truncate] (u64_from_le_bytes(b) as i64)
    }
}

impl Endian for i128 {
    open spec fn width() -> nat {
        16
    }

    open spec fn spec_encode_le(self) -> Seq<u8> {
        spec_u128_to_le_bytes(self as u128)
    }

    open spec fn spec_decode_le(b: Seq<u8>) -> Self {
        spec_u128_from_le_bytes(b) as i128
    }

    proof fn lemma_encode_le_len(self) {
        lemma_auto_spec_u128_to_from_le_bytes();
    }

    proof fn lemma_le_value_round_trip(self) {
        lemma_auto_spec_u128_to_from_le_bytes();
        assert(spec_u128_to_le_bytes(self as u128).len() == 16);
        let v = self;
        assert((v as u128) as i128 == v) by (bit_vector);
    }

    proof fn lemma_le_bytes_round_trip(b: Seq<u8>) {
        lemma_auto_spec_u128_to_from_le_bytes();
        let x = spec_u128_from_le_bytes(b);
        assert((x as i128) as u128 == x) by (bit_vector);
    }

    fn size() -> (n: usize) {
        16
    }

    fn encode_le(self) -> (b: Vec<u8>) {
        u128_to_le_bytes(#[verifier::truncate] (self as u128))
    }

    fn decode_le(b: &[u8]) -> (v: Self) {
        #[verifier::truncate] (u128_from_le_bytes(b) as i128)
    }
}

/// The bytes of `v` in big-endian order: the reversal of its little-endian
/// representation.
pub open spec fn spec_encode_be<E: Endian>(v: E) -> Seq<u8> {
    v.spec_encode_le().reverse()
}

/// The value whose big-endian bytes are `b`.
pub open spec fn spec_decode_be<E: Endian>(b: Seq<u8>) -> E
    recommends
        b.len() == E::width(),
{
    E::spec_decode_le(b.reverse())
}

/// The bytes of `v` in the configured byte order.
pub open spec fn spec_encode<E: Endian>(v: E) -> Seq<u8> {
    if BIG_ENDIAN {
        spec_encode_be(v)
    } else {
        v.spec_encode_le()
    }
}

/// The value whose bytes in the configured byte order are `b`.
pub open spec fn spec_decode<E: Endian>(b: Seq<u8>) -> E
    recommends
        b.len() == E::width(),
{
    if BIG_ENDIAN {
        spec_decode_be(b)
    } else {
        E::spec_decode_le(b)
    }
}

/// A copy of `b` with the bytes in reverse order.
fn reversed(b: &[u8]) -> (r: Vec<u8>)
    ensures
        r@ == b@.reverse(),
{
    let n = b.len();
    let mut r: Vec<u8> = Vec::new();
    let mut i: usize = 0;
    while i < n
        invariant
            n == b@.len(),
            i <= n,
            r@.len() == i,
            forall|j: int| 0 <= j < i ==> r@[j] == b@[n - 1 - j],
        decreases n - i,
    {
        r.push(b[n - 1 - i]);
        i = i + 1;
    }
    proof {
        assert(r@ =~= b@.reverse());
    }
    r
}

/// Encode `v` as its big-endian bytes.
pub fn encode_be<E: Endian>(v: E) -> (b: Vec<u8>)
    ensures
        b@ == spec_encode_be(v),
        b@.len() == E::width(),
{
    let le = v.encode_le();
    reversed(le.as_slice())
}

/// Decode a value from exactly `width()` big-endian bytes.
pub fn decode_be<E: Endian>(b: &[u8]) -> (v: E)
    requires
        b@.len() == E::width(),
    ensures
        v == spec_decode_be::<E>(b@),
{
    let r = reversed(b);
    E::decode_le(r.as_slice())
}

/// Encode `v` in the configured byte order. Total: every value encodes to
/// exactly `width()` bytes.
pub fn encode<E: Endian>(v: E) -> (b: Vec<u8>)
    ensures
        b@ == spec_encode(v),
        b@.len() == E::width(),
{
    if BIG_ENDIAN {
        encode_be(v)
    } else {
        v.encode_le()
    }
}

/// Decode a value from exactly `width()` bytes in the configured byte order.
/// Total on slices of that length: every bit pattern is a valid value.
pub fn decode<E: Endian>(b: &[u8]) -> (v: E)
    requires
        b@.len() == E::width(),
    ensures
        v == spec_decode::<E>(b@),
{
    if BIG_ENDIAN {
        decode_be(b)
    } else {
        E::decode_le(b)
    }
}

proof fn lemma_reverse_reverse(s: Seq<u8>)
    ensures
        s.reverse().reverse() == s,
{
    assert(s.reverse().reverse() =~= s);
}

/// Round trip on values, big-endian: decoding the big-endian encoding of any
/// value yields that value, bit for bit.
pub proof fn lemma_be_value_round_trip<E: Endian>(v: E)
    ensures
        spec_decode_be::<E>(spec_encode_be(v)) == v,
{
    v.lemma_encode_le_len();
    lemma_reverse_reverse(v.spec_encode_le());
    v.lemma_le_value_round_trip();
}

/// Round trip on bytes, big-endian: encoding the value decoded from any
/// `width()` bytes yields those bytes.
pub proof fn lemma_be_bytes_round_trip<E: Endian>(b: Seq<u8>)
    requires
        b.len() == E::width(),
    ensures
        spec_encode_be(spec_decode_be::<E>(b)) == b,
{
    E::lemma_le_bytes_round_trip(b.reverse());
    lemma_reverse_reverse(b);
}

/// Round trip on values in the configured byte order: for every value `v`,
/// `decode(encode(v))` reproduces `v` exactly, bit for bit.
pub proof fn lemma_value_round_trip<E: Endian>(v: E)
    ensures
        spec_decode::<E>(spec_encode(v)) == v,
{
    if BIG_ENDIAN {
        lemma_be_value_round_trip(v);
    } else {
        v.lemma_le_value_round_trip();
    }
}

/// Round trip on bytes in the configured byte order: for every byte sequence
/// `b` of length `width()`, `encode(decode(b))` reproduces `b`.
pub proof fn lemma_bytes_round_trip<E: Endian>(b: Seq<u8>)
    requires
        b.len() == E::width(),
    ensures
        spec_encode(spec_decode::<E>(b)) == b,
{
    if BIG_ENDIAN {
        lemma_be_bytes_round_trip::<E>(b);
    } else {
        E::lemma_le_bytes_round_trip(b);
    }
}

} // verus!
