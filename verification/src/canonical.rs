//! The canonical bytes of an envelope: what is signed.
//!
//! An envelope is written field by field in the order of its declaration, with
//! nothing between the fields: the scope as its code in ULEB128, the timestamp
//! as eight bytes with the low byte first, and the payload. A payload of raw
//! bytes is written as its length in ULEB128 followed by the bytes.

use vstd::prelude::*;

use crate::intent::{IntentMessageView, IntentScope};

verus! {

/// The longest byte string that has canonical bytes.
pub const MAX_SEQUENCE_LENGTH: usize = 2147483647;

/// ULEB128: seven bits to a byte, low bits first, the high bit set on every
/// byte but the last.
pub open spec fn uleb128(value: nat) -> Seq<u8>
    decreases value,
{
    if value < 128 {
        seq![value as u8]
    } else {
        seq![(128 + value % 128) as u8] + uleb128(value / 128)
    }
}

/// The eight bytes of `x`, low byte first: the remainders of dividing by 256
/// eight times over.
pub open spec fn u64_le_bytes(x: u64) -> Seq<u8> {
    let q1 = x as int / 256;
    let q2 = q1 / 256;
    let q3 = q2 / 256;
    let q4 = q3 / 256;
    let q5 = q4 / 256;
    let q6 = q5 / 256;
    let q7 = q6 / 256;
    seq![
        (x as int % 256) as u8,
        (q1 % 256) as u8,
        (q2 % 256) as u8,
        (q3 % 256) as u8,
        (q4 % 256) as u8,
        (q5 % 256) as u8,
        (q6 % 256) as u8,
        (q7 % 256) as u8,
    ]
}

/// The number whose eight bytes, low byte first, are `bytes`.
pub open spec fn u64_from_le_bytes(bytes: Seq<u8>) -> int
    recommends
        bytes.len() == 8,
{
    bytes[0] + 256 * (bytes[1] + 256 * (bytes[2] + 256 * (bytes[3] + 256 * (bytes[4] + 256 * (bytes[5]
        + 256 * (bytes[6] + 256 * bytes[7]))))))
}

/// The canonical bytes of a byte string: its length, and the bytes.
pub open spec fn byte_string_bytes(data: Seq<u8>) -> Seq<u8> {
    uleb128(data.len()) + data
}

/// The canonical bytes of an envelope whose payload has the canonical bytes
/// `payload`.
pub open spec fn envelope_bytes(intent: IntentScope, timestamp_ms: u64, payload: Seq<u8>) -> Seq<u8> {
    uleb128(intent.spec_code() as nat) + u64_le_bytes(timestamp_ms) + payload
}

impl IntentMessageView {
    /// The canonical bytes of an envelope over raw bytes.
    pub open spec fn canonical_bytes(self) -> Seq<u8> {
        envelope_bytes(self.intent, self.timestamp_ms, byte_string_bytes(self.data))
    }
}

/// Whether `bytes` are the canonical bytes of `message`.
pub open spec fn is_canonical_envelope(bytes: Seq<u8>, message: IntentMessageView) -> bool {
    message.data.len() <= MAX_SEQUENCE_LENGTH && message.canonical_bytes() == bytes
}

/// The envelope that `bytes` are the canonical bytes of, if there is one.
pub open spec fn parse_envelope(bytes: Seq<u8>) -> Option<IntentMessageView> {
    if exists|message: IntentMessageView| is_canonical_envelope(bytes, message) {
        Some(choose|message: IntentMessageView| is_canonical_envelope(bytes, message))
    } else {
        None
    }
}

/// Whether `bytes` holds the ULEB128 of `value` from `start` up to `end`.
pub open spec fn uleb128_at(bytes: Seq<u8>, start: int, value: nat, end: int) -> bool {
    0 <= start <= end <= bytes.len() && bytes.subrange(start, end) == uleb128(value)
}

/// The shape of a ULEB128 number: at least one byte, the high bit set on all
/// but the last, and no zero at the end of more than one byte.
pub proof fn lemma_uleb128_shape(value: nat)
    ensures
        uleb128(value).len() >= 1,
        uleb128(value).last() < 128,
        forall|j: int| 0 <= j < uleb128(value).len() - 1 ==> #[trigger] uleb128(value)[j] >= 128,
        uleb128(value).len() > 1 ==> uleb128(value).last() != 0,
        value < 128 <==> uleb128(value).len() == 1,
    decreases value,
{
    if value >= 128 {
        let rest: nat = value / 128;
        lemma_uleb128_shape(rest);
        let head: Seq<u8> = seq![(128 + value % 128) as u8];
        assert(uleb128(value) == head + uleb128(rest));
        assert(uleb128(value).last() == uleb128(rest).last());
        assert forall|j: int| 0 <= j < uleb128(value).len() - 1 implies #[trigger] uleb128(value)[j]
            >= 128 by {
            if j > 0 {
                assert(uleb128(value)[j] == uleb128(rest)[j - 1]);
            }
        }
        if uleb128(rest).len() == 1 {
            assert(rest < 128);
            assert(uleb128(rest) == seq![rest as u8]);
            assert(rest >= 1);
        }
    }
}

/// A number of 32 bits takes five bytes at most.
pub proof fn lemma_uleb128_u32_len(value: nat)
    requires
        value <= u32::MAX,
    ensures
        uleb128(value).len() <= 5,
{
    let v1: nat = value / 128;
    let v2: nat = v1 / 128;
    let v3: nat = v2 / 128;
    let v4: nat = v3 / 128;
    assert(v4 < 128);
    assert(uleb128(v4).len() == 1);
    if v3 >= 128 {
        assert(uleb128(v3) == seq![(128 + v3 % 128) as u8] + uleb128(v4));
    }
    assert(uleb128(v3).len() <= 2);
    if v2 >= 128 {
        assert(uleb128(v2) == seq![(128 + v2 % 128) as u8] + uleb128(v3));
    }
    assert(uleb128(v2).len() <= 3);
    if v1 >= 128 {
        assert(uleb128(v1) == seq![(128 + v1 % 128) as u8] + uleb128(v2));
    }
    assert(uleb128(v1).len() <= 4);
    if value >= 128 {
        assert(uleb128(value) == seq![(128 + value % 128) as u8] + uleb128(v1));
    }
}

/// Different numbers have different ULEB128 bytes.
pub proof fn lemma_uleb128_injective(a: nat, b: nat)
    requires
        uleb128(a) == uleb128(b),
    ensures
        a == b,
    decreases a,
{
    lemma_uleb128_shape(a);
    lemma_uleb128_shape(b);
    if a < 128 {
        assert(uleb128(a)[0] == a as u8);
        assert(uleb128(b)[0] == b as u8);
    } else {
        let ra: nat = a / 128;
        let rb: nat = b / 128;
        let ha: Seq<u8> = seq![(128 + a % 128) as u8];
        let hb: Seq<u8> = seq![(128 + b % 128) as u8];
        assert(uleb128(a) == ha + uleb128(ra));
        assert(uleb128(b) == hb + uleb128(rb));
        assert(uleb128(a)[0] == (128 + a % 128) as u8);
        assert(uleb128(b)[0] == (128 + b % 128) as u8);
        assert(uleb128(ra) =~= uleb128(a).subrange(1, uleb128(a).len() as int));
        assert(uleb128(rb) =~= uleb128(b).subrange(1, uleb128(b).len() as int));
        lemma_uleb128_injective(ra, rb);
    }
}

/// At a given place in a byte string at most one ULEB128 number starts, and it
/// ends in one place.
pub proof fn lemma_uleb128_at_unique(bytes: Seq<u8>, start: int, a: nat, end_a: int, b: nat, end_b: int)
    requires
        uleb128_at(bytes, start, a, end_a),
        uleb128_at(bytes, start, b, end_b),
    ensures
        a == b,
        end_a == end_b,
{
    lemma_uleb128_shape(a);
    lemma_uleb128_shape(b);
    let ea: Seq<u8> = bytes.subrange(start, end_a);
    let eb: Seq<u8> = bytes.subrange(start, end_b);
    if end_a < end_b {
        assert(ea.last() == bytes[end_a - 1]);
        assert(eb[end_a - 1 - start] == bytes[end_a - 1]);
    }
    if end_b < end_a {
        assert(eb.last() == bytes[end_b - 1]);
        assert(ea[end_b - 1 - start] == bytes[end_b - 1]);
    }
    lemma_uleb128_injective(a, b);
}

/// The eight bytes of a number give the number back.
pub proof fn lemma_u64_le_bytes_value(x: u64)
    ensures
        u64_le_bytes(x).len() == 8,
        u64_from_le_bytes(u64_le_bytes(x)) == x,
{
}

/// Eight bytes are the bytes of the number they give.
pub proof fn lemma_u64_from_le_bytes_bytes(bytes: Seq<u8>)
    requires
        bytes.len() == 8,
    ensures
        0 <= u64_from_le_bytes(bytes) <= u64::MAX,
        u64_le_bytes(u64_from_le_bytes(bytes) as u64) == bytes,
{
    let t7: int = bytes[7] as int;
    let t6: int = bytes[6] + 256 * t7;
    let t5: int = bytes[5] + 256 * t6;
    let t4: int = bytes[4] + 256 * t5;
    let t3: int = bytes[3] + 256 * t4;
    let t2: int = bytes[2] + 256 * t3;
    let t1: int = bytes[1] + 256 * t2;
    let t0: int = bytes[0] + 256 * t1;
    assert(t0 == u64_from_le_bytes(bytes));
    assert(0 <= t0 <= u64::MAX);
    assert(t0 / 256 == t1 && t0 % 256 == bytes[0]);
    assert(t1 / 256 == t2 && t1 % 256 == bytes[1]);
    assert(t2 / 256 == t3 && t2 % 256 == bytes[2]);
    assert(t3 / 256 == t4 && t3 % 256 == bytes[3]);
    assert(t4 / 256 == t5 && t4 % 256 == bytes[4]);
    assert(t5 / 256 == t6 && t5 % 256 == bytes[5]);
    assert(t6 / 256 == t7 && t6 % 256 == bytes[6]);
    assert(t7 % 256 == bytes[7]);
    assert(u64_le_bytes(t0 as u64) =~= bytes);
}

/// Canonical bytes determine the envelope.
pub proof fn lemma_canonical_bytes_injective(first: IntentMessageView, second: IntentMessageView)
    requires
        first.canonical_bytes() == second.canonical_bytes(),
    ensures
        first == second,
{
    let bytes: Seq<u8> = first.canonical_bytes();
    let tag_a: Seq<u8> = uleb128(first.intent.spec_code() as nat);
    let tag_b: Seq<u8> = uleb128(second.intent.spec_code() as nat);
    let len_a: Seq<u8> = uleb128(first.data.len());
    let len_b: Seq<u8> = uleb128(second.data.len());
    assert(bytes.subrange(0, tag_a.len() as int) =~= tag_a);
    assert(bytes.subrange(0, tag_b.len() as int) =~= tag_b);
    lemma_uleb128_at_unique(
        bytes,
        0,
        first.intent.spec_code() as nat,
        tag_a.len() as int,
        second.intent.spec_code() as nat,
        tag_b.len() as int,
    );
    let p1: int = tag_a.len() as int;
    assert(bytes.subrange(p1, p1 + 8) =~= u64_le_bytes(first.timestamp_ms));
    assert(bytes.subrange(p1, p1 + 8) =~= u64_le_bytes(second.timestamp_ms));
    lemma_u64_le_bytes_value(first.timestamp_ms);
    lemma_u64_le_bytes_value(second.timestamp_ms);
    let p2: int = p1 + 8;
    assert(bytes.subrange(p2, p2 + len_a.len()) =~= len_a);
    assert(bytes.subrange(p2, p2 + len_b.len()) =~= len_b);
    lemma_uleb128_at_unique(
        bytes,
        p2,
        first.data.len(),
        p2 + len_a.len(),
        second.data.len(),
        p2 + len_b.len(),
    );
    let p3: int = p2 + len_a.len();
    assert(first.data =~= bytes.subrange(p3, bytes.len() as int));
    assert(second.data =~= bytes.subrange(p3, bytes.len() as int));
}

/// Parsing the canonical bytes of an envelope gives the envelope back.
pub proof fn lemma_parse_inverts_canonical_bytes(message: IntentMessageView)
    requires
        message.data.len() <= MAX_SEQUENCE_LENGTH,
    ensures
        parse_envelope(message.canonical_bytes()) == Some(message),
{
    let bytes: Seq<u8> = message.canonical_bytes();
    assert(is_canonical_envelope(bytes, message));
    let found: IntentMessageView = choose|m: IntentMessageView| is_canonical_envelope(bytes, m);
    lemma_canonical_bytes_injective(found, message);
}

} // verus!
