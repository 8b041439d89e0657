//! Writing and reading canonical bytes.

use vstd::prelude::*;

use crate::canonical::{
    byte_string_bytes, envelope_bytes, is_canonical_envelope, lemma_canonical_bytes_injective,
    lemma_u64_from_le_bytes_bytes, lemma_uleb128_at_unique, lemma_uleb128_injective,
    lemma_uleb128_shape, lemma_uleb128_u32_len, parse_envelope, u64_from_le_bytes,
    u64_le_bytes, uleb128, uleb128_at, MAX_SEQUENCE_LENGTH,
};
use crate::intent::{IntentMessageBytes, IntentMessageView, IntentScope};

verus! {

/// 128 to the power of `digits`: the weight of a ULEB128 byte by its place.
spec fn pow128(digits: nat) -> nat
    decreases digits,
{
    if digits == 0 {
        1
    } else {
        128 * pow128((digits - 1) as nat)
    }
}

/// Appends the ULEB128 of `value` to `out`.
pub fn push_uleb128(out: &mut Vec<u8>, value: u32)
    ensures
        final(out)@ == old(out)@ + uleb128(value as nat),
{
    let ghost before: Seq<u8> = out@;
    let mut rest: u32 = value;
    while rest >= 128
        invariant
            before + uleb128(value as nat) == out@ + uleb128(rest as nat),
        decreases rest,
    {
        let low: u8 = (128 + rest % 128) as u8;
        proof {
            assert(uleb128(rest as nat) == seq![low] + uleb128((rest / 128) as nat));
            assert(out@.push(low) + uleb128((rest / 128) as nat) =~= out@ + uleb128(rest as nat));
        }
        out.push(low);
        rest = rest / 128;
    }
    proof {
        assert(uleb128(rest as nat) == seq![rest as u8]);
        assert(out@.push(rest as u8) =~= out@ + uleb128(rest as nat));
    }
    out.push(rest as u8);
}

/// Appends the eight bytes of `x`, low byte first, to `out`.
pub fn push_u64_le(out: &mut Vec<u8>, x: u64)
    ensures
        final(out)@ == old(out)@ + u64_le_bytes(x),
{
    let ghost before: Seq<u8> = out@;
    let q1: u64 = x / 256;
    let q2: u64 = q1 / 256;
    let q3: u64 = q2 / 256;
    let q4: u64 = q3 / 256;
    let q5: u64 = q4 / 256;
    let q6: u64 = q5 / 256;
    let q7: u64 = q6 / 256;
    out.push((x % 256) as u8);
    out.push((q1 % 256) as u8);
    out.push((q2 % 256) as u8);
    out.push((q3 % 256) as u8);
    out.push((q4 % 256) as u8);
    out.push((q5 % 256) as u8);
    out.push((q6 % 256) as u8);
    out.push((q7 % 256) as u8);
    assert(out@ =~= before + u64_le_bytes(x));
}

/// Reads the number whose eight bytes, low byte first, stand at `start`, or
/// nothing where fewer than eight bytes are left.
pub fn read_u64_le(bytes: &[u8], start: usize) -> (read: Option<u64>)
    ensures
        match read {
            Some(x) => start + 8 <= bytes@.len() && u64_le_bytes(x) == bytes@.subrange(
                start as int,
                start + 8,
            ) && x == u64_from_le_bytes(bytes@.subrange(start as int, start + 8)),
            None => start + 8 > bytes@.len(),
        },
{
    let len: usize = bytes.len();
    if start > len || len - start < 8 {
        return None;
    }
    proof {
        lemma_u64_from_le_bytes_bytes(bytes@.subrange(start as int, start + 8));
    }
    let t7: u64 = bytes[start + 7] as u64;
    let t6: u64 = bytes[start + 6] as u64 + 256 * t7;
    let t5: u64 = bytes[start + 5] as u64 + 256 * t6;
    let t4: u64 = bytes[start + 4] as u64 + 256 * t5;
    let t3: u64 = bytes[start + 3] as u64 + 256 * t4;
    let t2: u64 = bytes[start + 2] as u64 + 256 * t3;
    let t1: u64 = bytes[start + 1] as u64 + 256 * t2;
    let t0: u64 = bytes[start] as u64 + 256 * t1;
    Some(t0)
}

/// Reads the ULEB128 number of 32 bits that starts at `start`: the number and
/// the place behind it. Nothing is read where the bytes run out, where the
/// number does not fit 32 bits, or where it is written with a zero at its end
/// that a shorter form would not have.
pub fn read_uleb128(bytes: &[u8], start: usize) -> (read: Option<(u32, usize)>)
    ensures
        match read {
            Some((value, end)) => uleb128_at(bytes@, start as int, value as nat, end as int),
            None => forall|value: u32, end: int|
                !#[trigger] uleb128_at(bytes@, start as int, value as nat, end),
        },
{
    let len: usize = bytes.len();
    if start > len {
        return None;
    }
    let mut value: u64 = 0;
    let mut scale: u64 = 1;
    let mut at: usize = start;
    let mut digits: usize = 0;
    while digits < 5
        invariant
            len == bytes@.len(),
            start <= at <= len,
            at == start + digits,
            digits <= 5,
            scale == pow128(digits as nat),
            scale <= 0x8_0000_0000,
            value < scale,
            digits == 0 ==> value == 0,
            forall|j: int| start <= j < at ==> #[trigger] bytes@[j] >= 128,
            forall|m: nat|
                m >= 1 ==> #[trigger] uleb128(value as nat + scale as nat * m) == bytes@.subrange(
                    start as int,
                    at as int,
                ) + uleb128(m),
        decreases 5 - digits,
    {
        if at >= len {
            proof {
                assert forall|v: u32, end: int| !#[trigger] uleb128_at(
                    bytes@,
                    start as int,
                    v as nat,
                    end,
                ) by {
                    if uleb128_at(bytes@, start as int, v as nat, end) {
                        lemma_uleb128_shape(v as nat);
                        assert(uleb128(v as nat).last() == bytes@[end - 1]);
                    }
                }
            }
            return None;
        }
        let byte: u8 = bytes[at];
        if byte < 128 {
            assert(scale <= 0x1000_0000) by {
                reveal_with_fuel(pow128, 6);
            }
            assert(scale * byte <= 0x1000_0000 * 127) by (nonlinear_arith)
                requires
                    scale <= 0x1000_0000,
                    byte <= 127,
            ;
            let total: u64 = value + scale * (byte as u64);
            proof {
                // What stands from `start` up to here is the ULEB128 of `total`,
                // unless it ends in a zero that should not be there.
                if digits == 0 {
                    assert(scale == 1);
                    assert(uleb128(total as nat) == seq![byte]);
                    assert(bytes@.subrange(start as int, at + 1) =~= seq![byte]);
                } else if byte != 0 {
                    assert(uleb128(byte as nat) == seq![byte]);
                    assert(uleb128(value as nat + scale as nat * (byte as nat)) == bytes@.subrange(
                        start as int,
                        at as int,
                    ) + uleb128(byte as nat));
                    assert(bytes@.subrange(start as int, at as int) + seq![byte] =~= bytes@.subrange(
                        start as int,
                        at + 1,
                    ));
                }
                // Any number that starts at `start` ends right behind this byte.
                assert forall|v: u32, end: int| #[trigger]
                    uleb128_at(bytes@, start as int, v as nat, end) implies end == at + 1 by {
                    lemma_uleb128_shape(v as nat);
                    let e: Seq<u8> = uleb128(v as nat);
                    assert(e.last() == bytes@[end - 1]);
                    if end - 1 > at {
                        assert(e[at - start] == bytes@[at as int]);
                    }
                }
            }
            if digits > 0 && byte == 0 {
                proof {
                    assert forall|v: u32, end: int| !#[trigger] uleb128_at(
                        bytes@,
                        start as int,
                        v as nat,
                        end,
                    ) by {
                        if uleb128_at(bytes@, start as int, v as nat, end) {
                            lemma_uleb128_shape(v as nat);
                            assert(uleb128(v as nat).last() == bytes@[end - 1]);
                        }
                    }
                }
                return None;
            }
            if total > 0xffff_ffff {
                proof {
                    assert forall|v: u32, end: int| !#[trigger] uleb128_at(
                        bytes@,
                        start as int,
                        v as nat,
                        end,
                    ) by {
                        if uleb128_at(bytes@, start as int, v as nat, end) {
                            lemma_uleb128_injective(v as nat, total as nat);
                        }
                    }
                }
                return None;
            }
            return Some((total as u32, at + 1));
        }
        let ghost old_value: nat = value as nat;
        let ghost old_scale: nat = scale as nat;
        let digit: u64 = (byte - 128) as u64;
        assert(scale <= 0x1000_0000) by {
            reveal_with_fuel(pow128, 6);
        }
        assert(scale * digit <= 0x1000_0000 * 127 && value + scale * digit < 128 * scale) by (nonlinear_arith)
            requires
                scale <= 0x1000_0000,
                digit <= 127,
                value < scale,
        ;
        value = value + scale * digit;
        scale = scale * 128;
        proof {
            assert forall|m: nat| m >= 1 implies #[trigger] uleb128(value as nat + scale as nat * m)
                == bytes@.subrange(start as int, at + 1) + uleb128(m) by {
                let inner: nat = digit as nat + 128 * m;
                assert(value as nat + scale as nat * m == old_value + old_scale * inner) by (nonlinear_arith)
                    requires
                        value == old_value + old_scale * digit,
                        scale == old_scale * 128,
                        inner == digit + 128 * m,
                ;
                assert(uleb128(old_value + old_scale * inner) == bytes@.subrange(
                    start as int,
                    at as int,
                ) + uleb128(inner));
                assert(inner / 128 == m && inner % 128 == digit);
                assert(uleb128(inner) == seq![byte] + uleb128(m));
                assert(bytes@.subrange(start as int, at as int) + (seq![byte] + uleb128(m))
                    =~= bytes@.subrange(start as int, at + 1) + uleb128(m));
            }
        }
        at += 1;
        digits += 1;
    }
    proof {
        assert forall|v: u32, end: int| !#[trigger] uleb128_at(bytes@, start as int, v as nat, end) by {
            if uleb128_at(bytes@, start as int, v as nat, end) {
                lemma_uleb128_shape(v as nat);
                lemma_uleb128_u32_len(v as nat);
                assert(uleb128(v as nat).last() == bytes@[end - 1]);
            }
        }
    }
    None
}

/// The canonical bytes of a byte string.
pub fn encode_byte_string(data: &[u8]) -> (out: Vec<u8>)
    requires
        data@.len() <= MAX_SEQUENCE_LENGTH,
    ensures
        out@ == byte_string_bytes(data@),
{
    let mut out: Vec<u8> = Vec::new();
    push_uleb128(&mut out, data.len() as u32);
    out.extend_from_slice(data);
    assert(out@ =~= byte_string_bytes(data@));
    out
}

/// The canonical bytes of an envelope, given the canonical bytes of its
/// payload.
pub fn encode_envelope(intent: IntentScope, timestamp_ms: u64, payload: &[u8]) -> (out: Vec<u8>)
    ensures
        out@ == envelope_bytes(intent, timestamp_ms, payload@),
{
    let mut out: Vec<u8> = Vec::new();
    push_uleb128(&mut out, intent.code() as u32);
    push_u64_le(&mut out, timestamp_ms);
    out.extend_from_slice(payload);
    assert(out@ =~= envelope_bytes(intent, timestamp_ms, payload@));
    out
}

impl IntentMessageBytes {
    /// The canonical bytes of this envelope.
    pub fn canonical_bytes(&self) -> (out: Vec<u8>)
        requires
            self@.data.len() <= MAX_SEQUENCE_LENGTH,
        ensures
            out@ == self@.canonical_bytes(),
    {
        let payload = encode_byte_string(self.data.as_slice());
        encode_envelope(self.intent, self.timestamp_ms, payload.as_slice())
    }

    /// Reads an envelope back from its canonical bytes. Bytes that are the
    /// canonical bytes of no envelope give nothing.
    pub fn from_canonical_bytes(bytes: &[u8]) -> (message: Option<IntentMessageBytes>)
        ensures
            match message {
                Some(m) => parse_envelope(bytes@) == Some(m@),
                None => parse_envelope(bytes@) is None,
            },
    {
        let len: usize = bytes.len();
        let (tag, p1) = match read_uleb128(bytes, 0) {
            Some(read) => read,
            None => {
                proof {
                    assert forall|m: IntentMessageView| !is_canonical_envelope(bytes@, m) by {
                        if is_canonical_envelope(bytes@, m) {
                            lemma_envelope_layout(m);
                            assert(uleb128_at(
                                bytes@,
                                0,
                                (m.intent.spec_code() as u32) as nat,
                                uleb128(m.intent.spec_code() as nat).len() as int,
                            ));
                        }
                    }
                }
                return None;
            },
        };
        let known = if tag <= 255 {
            IntentScope::from_code(tag as u8)
        } else {
            None
        };
        let intent = match known {
            Some(intent) => intent,
            None => {
                proof {
                    assert forall|m: IntentMessageView| !is_canonical_envelope(bytes@, m) by {
                        if is_canonical_envelope(bytes@, m) {
                            lemma_envelope_behind_tag(bytes@, m, tag as nat, p1 as int);
                        }
                    }
                }
                return None;
            },
        };
        let timestamp_ms = match read_u64_le(bytes, p1) {
            Some(timestamp_ms) => timestamp_ms,
            None => {
                proof {
                    assert forall|m: IntentMessageView| !is_canonical_envelope(bytes@, m) by {
                        if is_canonical_envelope(bytes@, m) {
                            lemma_envelope_behind_tag(bytes@, m, tag as nat, p1 as int);
                        }
                    }
                }
                return None;
            },
        };
        let p2: usize = p1 + 8;
        let (count, p3) = match read_uleb128(bytes, p2) {
            Some(read) => read,
            None => {
                proof {
                    assert forall|m: IntentMessageView| !is_canonical_envelope(bytes@, m) by {
                        if is_canonical_envelope(bytes@, m) {
                            lemma_envelope_behind_tag(bytes@, m, tag as nat, p1 as int);
                            assert(uleb128_at(
                                bytes@,
                                p2 as int,
                                (m.data.len() as u32) as nat,
                                p2 + uleb128(m.data.len()).len(),
                            ));
                        }
                    }
                }
                return None;
            },
        };
        if count as usize > MAX_SEQUENCE_LENGTH || len - p3 != count as usize {
            proof {
                assert forall|m: IntentMessageView| !is_canonical_envelope(bytes@, m) by {
                    if is_canonical_envelope(bytes@, m) {
                        lemma_envelope_behind_tag(bytes@, m, tag as nat, p1 as int);
                        lemma_uleb128_at_unique(
                            bytes@,
                            p2 as int,
                            count as nat,
                            p3 as int,
                            m.data.len(),
                            p2 + uleb128(m.data.len()).len(),
                        );
                    }
                }
            }
            return None;
        }
        let data = vstd::slice::slice_to_vec(vstd::slice::slice_subrange(bytes, p3, len));
        let message = IntentMessageBytes { intent, timestamp_ms, data };
        proof {
            assert(message@.canonical_bytes() =~= bytes@.subrange(0, p1 as int) + bytes@.subrange(
                p1 as int,
                p2 as int,
            ) + (bytes@.subrange(p2 as int, p3 as int) + bytes@.subrange(p3 as int, len as int)));
            assert(message@.canonical_bytes() =~= bytes@);
            assert(is_canonical_envelope(bytes@, message@));
            let found: IntentMessageView = choose|m: IntentMessageView| is_canonical_envelope(bytes@, m);
            lemma_canonical_bytes_injective(found, message@);
        }
        Some(message)
    }
}

/// Where the fields of an envelope stand in its canonical bytes.
proof fn lemma_envelope_layout(m: IntentMessageView)
    ensures
        ({
            let bytes = m.canonical_bytes();
            let p1 = uleb128(m.intent.spec_code() as nat).len() as int;
            let p2 = p1 + 8;
            let p3 = p2 + uleb128(m.data.len()).len();
            &&& uleb128_at(bytes, 0, m.intent.spec_code() as nat, p1)
            &&& bytes.subrange(p1, p2) == u64_le_bytes(m.timestamp_ms)
            &&& uleb128_at(bytes, p2, m.data.len(), p3)
            &&& bytes.subrange(p3, bytes.len() as int) == m.data
            &&& bytes.len() == p3 + m.data.len()
        }),
{
    let bytes = m.canonical_bytes();
    let p1 = uleb128(m.intent.spec_code() as nat).len() as int;
    let p2 = p1 + 8;
    let p3 = p2 + uleb128(m.data.len()).len();
    assert(bytes.subrange(0, p1) =~= uleb128(m.intent.spec_code() as nat));
    assert(bytes.subrange(p1, p2) =~= u64_le_bytes(m.timestamp_ms));
    assert(bytes.subrange(p2, p3) =~= uleb128(m.data.len()));
    assert(bytes.subrange(p3, bytes.len() as int) =~= m.data);
}

/// What a reader knows of an envelope once it has found the number `tag` at
/// the start of the envelope's bytes, ending before `p1`: the number is the
/// scope's code, and the other fields follow from `p1` on.
proof fn lemma_envelope_behind_tag(bytes: Seq<u8>, m: IntentMessageView, tag: nat, p1: int)
    requires
        is_canonical_envelope(bytes, m),
        uleb128_at(bytes, 0, tag, p1),
    ensures
        tag == m.intent.spec_code(),
        p1 + 8 <= bytes.len(),
        bytes.subrange(p1, p1 + 8) == u64_le_bytes(m.timestamp_ms),
        uleb128_at(bytes, p1 + 8, m.data.len(), p1 + 8 + uleb128(m.data.len()).len()),
        bytes.len() == p1 + 8 + uleb128(m.data.len()).len() + m.data.len(),
{
    lemma_envelope_layout(m);
    lemma_uleb128_at_unique(
        bytes,
        0,
        tag,
        p1,
        m.intent.spec_code() as nat,
        uleb128(m.intent.spec_code() as nat).len() as int,
    );
}

} // verus!
