use nautilus_server::canonical::MAX_SEQUENCE_LENGTH;
use nautilus_server::codec::{
    encode_byte_string, encode_envelope, push_u64_le, push_uleb128, read_u64_le, read_uleb128,
};
use nautilus_server::{IntentMessageBytes, IntentScope};
use serde::ser::{Serialize, SerializeStruct, Serializer};

/// The scope as a serializer sees it: the first variant of its enum.
struct ScopeShape;

impl Serialize for ScopeShape {
    fn serialize<S: Serializer>(&self, serializer: S) -> Result<S::Ok, S::Error> {
        serializer.serialize_unit_variant("IntentScope", 0, "ProcessData")
    }
}

/// The envelope as a serializer sees it: three fields in their order.
struct EnvelopeShape<T> {
    timestamp_ms: u64,
    data: T,
}

impl<T: Serialize> Serialize for EnvelopeShape<T> {
    fn serialize<S: Serializer>(&self, serializer: S) -> Result<S::Ok, S::Error> {
        let mut fields = serializer.serialize_struct("IntentMessage", 3)?;
        fields.serialize_field("intent", &ScopeShape)?;
        fields.serialize_field("timestamp_ms", &self.timestamp_ms)?;
        fields.serialize_field("data", &self.data)?;
        fields.end()
    }
}

fn uleb(value: u32) -> Vec<u8> {
    let mut out = Vec::new();
    push_uleb128(&mut out, value);
    out
}

fn envelope(timestamp_ms: u64, data: &[u8]) -> IntentMessageBytes {
    IntentMessageBytes { intent: IntentScope::ProcessData, timestamp_ms, data: data.to_vec() }
}

#[test]
fn longest_sequence_is_two_to_the_31_less_one() {
    assert_eq!(MAX_SEQUENCE_LENGTH, 2147483647);
    assert_eq!(MAX_SEQUENCE_LENGTH, bcs::MAX_SEQUENCE_LENGTH);
}

#[test]
fn uleb128_of_small_numbers_is_one_byte() {
    assert_eq!(uleb(0), vec![0x00]);
    assert_eq!(uleb(1), vec![0x01]);
    assert_eq!(uleb(5), vec![0x05]);
    assert_eq!(uleb(127), vec![0x7f]);
}

#[test]
fn uleb128_of_larger_numbers_sets_the_high_bits() {
    assert_eq!(uleb(128), vec![0x80, 0x01]);
    assert_eq!(uleb(300), vec![0xac, 0x02]);
    assert_eq!(uleb(16383), vec![0xff, 0x7f]);
    assert_eq!(uleb(16384), vec![0x80, 0x80, 0x01]);
    assert_eq!(uleb(2147483647), vec![0xff, 0xff, 0xff, 0xff, 0x07]);
    assert_eq!(uleb(u32::MAX), vec![0xff, 0xff, 0xff, 0xff, 0x0f]);
}

#[test]
fn uleb128_is_appended_to_what_is_there() {
    let mut out = vec![9u8, 9];
    push_uleb128(&mut out, 300);
    assert_eq!(out, vec![9, 9, 0xac, 0x02]);
}

#[test]
fn uleb128_reads_back_what_was_written() {
    for value in [0u32, 1, 127, 128, 129, 255, 256, 300, 16383, 16384, 2097151, 2097152, 268435455,
        268435456, 2147483647, u32::MAX]
    {
        let mut bytes = vec![0xeeu8];
        push_uleb128(&mut bytes, value);
        let end = bytes.len();
        bytes.push(0x55);
        assert_eq!(read_uleb128(&bytes, 1), Some((value, end)));
    }
}

#[test]
fn uleb128_is_not_read_where_the_bytes_run_out() {
    assert_eq!(read_uleb128(&[], 0), None);
    assert_eq!(read_uleb128(&[0x80], 0), None);
    assert_eq!(read_uleb128(&[0xff, 0xff], 0), None);
    assert_eq!(read_uleb128(&[0x01], 1), None);
    assert_eq!(read_uleb128(&[0x01], 2), None);
}

#[test]
fn uleb128_with_a_needless_zero_is_not_read() {
    assert_eq!(read_uleb128(&[0x80, 0x00], 0), None);
    assert_eq!(read_uleb128(&[0xac, 0x80, 0x00], 0), None);
    assert_eq!(read_uleb128(&[0x00], 0), Some((0, 1)));
}

#[test]
fn uleb128_beyond_32_bits_is_not_read() {
    assert_eq!(read_uleb128(&[0xff, 0xff, 0xff, 0xff, 0x0f], 0), Some((u32::MAX, 5)));
    assert_eq!(read_uleb128(&[0xff, 0xff, 0xff, 0xff, 0x10], 0), None);
    assert_eq!(read_uleb128(&[0xff, 0xff, 0xff, 0xff, 0x7f], 0), None);
    assert_eq!(read_uleb128(&[0x80, 0x80, 0x80, 0x80, 0x80, 0x01], 0), None);
}

#[test]
fn u64_is_written_low_byte_first() {
    let mut out = Vec::new();
    push_u64_le(&mut out, 1700000000000);
    assert_eq!(out, vec![0x00, 0x68, 0xe5, 0xcf, 0x8b, 0x01, 0x00, 0x00]);
    let mut out = vec![1u8];
    push_u64_le(&mut out, 0x0102030405060708);
    assert_eq!(out, vec![1, 8, 7, 6, 5, 4, 3, 2, 1]);
}

#[test]
fn u64_reads_back_what_was_written() {
    for x in [0u64, 1, 255, 256, 65535, 1700000000000, 0x0102030405060708, u64::MAX - 1, u64::MAX] {
        let mut bytes = vec![0xaau8, 0xbb];
        push_u64_le(&mut bytes, x);
        assert_eq!(bytes[2..].to_vec(), x.to_le_bytes().to_vec());
        bytes.push(0xcc);
        assert_eq!(read_u64_le(&bytes, 2), Some(x));
    }
}

#[test]
fn u64_is_not_read_from_fewer_than_eight_bytes() {
    let bytes = [1u8, 2, 3, 4, 5, 6, 7, 8, 9];
    assert_eq!(read_u64_le(&bytes, 0), Some(0x0807060504030201));
    assert_eq!(read_u64_le(&bytes, 1), Some(0x0908070605040302));
    assert_eq!(read_u64_le(&bytes, 2), None);
    assert_eq!(read_u64_le(&bytes, 9), None);
    assert_eq!(read_u64_le(&bytes, 10), None);
    assert_eq!(read_u64_le(&bytes, usize::MAX), None);
    assert_eq!(read_u64_le(&[], 0), None);
}

#[test]
fn byte_string_is_length_and_bytes() {
    assert_eq!(encode_byte_string(&[]), vec![0]);
    assert_eq!(encode_byte_string(b"hello"), vec![5, b'h', b'e', b'l', b'l', b'o']);
    let long = vec![0xabu8; 300];
    let encoded = encode_byte_string(&long);
    assert_eq!(encoded[..2].to_vec(), vec![0xac, 0x02]);
    assert_eq!(encoded[2..].to_vec(), long);
}

#[test]
fn byte_string_bytes_are_those_of_bcs() {
    for data in [vec![], vec![0u8], b"hello".to_vec(), vec![7u8; 127], vec![7u8; 128], vec![9u8; 20000]] {
        assert_eq!(encode_byte_string(&data), bcs::to_bytes(&data).unwrap());
        assert_eq!(encode_byte_string(&data), bcs::to_bytes(serde_bytes::Bytes::new(&data)).unwrap());
    }
}

#[test]
fn envelope_is_scope_timestamp_payload() {
    assert_eq!(
        encode_envelope(IntentScope::ProcessData, 1, &[0xaa, 0xbb]),
        vec![0, 1, 0, 0, 0, 0, 0, 0, 0, 0xaa, 0xbb]
    );
    assert_eq!(
        encode_envelope(IntentScope::ProcessData, u64::MAX, &[]),
        vec![0, 255, 255, 255, 255, 255, 255, 255, 255]
    );
}

#[test]
fn canonical_bytes_of_hello() {
    let bytes = envelope(1700000000000, b"hello").canonical_bytes();
    assert_eq!(
        bytes,
        vec![0x00, 0x00, 0x68, 0xe5, 0xcf, 0x8b, 0x01, 0x00, 0x00, 0x05, b'h', b'e', b'l', b'l', b'o']
    );
}

#[test]
fn canonical_bytes_are_those_of_bcs() {
    for (timestamp_ms, data) in [
        (0u64, vec![]),
        (1, vec![0u8]),
        (1700000000000, b"hello".to_vec()),
        (u64::MAX, vec![0xffu8; 127]),
        (0x0102030405060708, vec![1u8; 128]),
        (77, vec![3u8; 16384]),
    ] {
        let ours = envelope(timestamp_ms, &data).canonical_bytes();
        let theirs = bcs::to_bytes(&EnvelopeShape { timestamp_ms, data: data.clone() }).unwrap();
        assert_eq!(ours, theirs);
        let as_buffer = bcs::to_bytes(&EnvelopeShape {
            timestamp_ms,
            data: serde_bytes::ByteBuf::from(data.clone()),
        })
        .unwrap();
        assert_eq!(ours, as_buffer);
    }
}

#[test]
fn envelope_over_any_payload_is_framed_as_bcs_frames_it() {
    let text = String::from("a payload of text");
    let framed = encode_envelope(IntentScope::ProcessData, 99, &bcs::to_bytes(&text).unwrap());
    assert_eq!(framed, bcs::to_bytes(&EnvelopeShape { timestamp_ms: 99, data: text }).unwrap());
    let pair = (7u16, vec![1u32, 2, 3]);
    let framed = encode_envelope(IntentScope::ProcessData, 100, &bcs::to_bytes(&pair).unwrap());
    assert_eq!(framed, bcs::to_bytes(&EnvelopeShape { timestamp_ms: 100, data: pair }).unwrap());
}

#[test]
fn canonical_bytes_are_repeatable() {
    let message = envelope(5, b"same");
    assert_eq!(message.canonical_bytes(), message.canonical_bytes());
    assert_eq!(message.canonical_bytes(), envelope(5, b"same").canonical_bytes());
}

#[test]
fn different_envelopes_have_different_canonical_bytes() {
    let base = envelope(5, b"same").canonical_bytes();
    assert_ne!(base, envelope(6, b"same").canonical_bytes());
    assert_ne!(base, envelope(5, b"sane").canonical_bytes());
    assert_ne!(base, envelope(5, b"same ").canonical_bytes());
    assert_ne!(envelope(5, b"").canonical_bytes(), envelope(5, &[0]).canonical_bytes());
}

#[test]
fn envelope_reads_back_from_its_canonical_bytes() {
    for (timestamp_ms, data) in [
        (0u64, vec![]),
        (1700000000000, b"hello".to_vec()),
        (u64::MAX, vec![0x80u8; 128]),
        (3, vec![0u8; 20000]),
    ] {
        let message = envelope(timestamp_ms, &data);
        let bytes = message.canonical_bytes();
        assert_eq!(IntentMessageBytes::from_canonical_bytes(&bytes), Some(message));
    }
}

#[test]
fn bytes_of_no_envelope_read_back_as_nothing() {
    let good = envelope(1700000000000, b"hello").canonical_bytes();
    assert!(IntentMessageBytes::from_canonical_bytes(&good).is_some());
    // Nothing at all, and every proper prefix.
    for end in 0..good.len() {
        assert_eq!(IntentMessageBytes::from_canonical_bytes(&good[..end]), None);
    }
    // A byte too many.
    let mut longer = good.clone();
    longer.push(0);
    assert_eq!(IntentMessageBytes::from_canonical_bytes(&longer), None);
    // A scope that does not exist.
    let mut other_scope = good.clone();
    other_scope[0] = 1;
    assert_eq!(IntentMessageBytes::from_canonical_bytes(&other_scope), None);
    // A scope written with a needless zero.
    let mut padded_scope = vec![0x80u8, 0x00];
    padded_scope.extend_from_slice(&good[1..]);
    assert_eq!(IntentMessageBytes::from_canonical_bytes(&padded_scope), None);
    // A length that promises more than is there, and one that promises less.
    let mut long_length = good.clone();
    long_length[9] = 6;
    assert_eq!(IntentMessageBytes::from_canonical_bytes(&long_length), None);
    let mut short_length = good.clone();
    short_length[9] = 4;
    assert_eq!(IntentMessageBytes::from_canonical_bytes(&short_length), None);
    // A length written with a needless zero.
    let mut padded_length = good[..9].to_vec();
    padded_length.extend_from_slice(&[0x85, 0x00]);
    padded_length.extend_from_slice(b"hello");
    assert_eq!(IntentMessageBytes::from_canonical_bytes(&padded_length), None);
    // A length beyond the longest sequence.
    let mut huge_length = good[..9].to_vec();
    huge_length.extend_from_slice(&[0xff, 0xff, 0xff, 0xff, 0x0f]);
    assert_eq!(IntentMessageBytes::from_canonical_bytes(&huge_length), None);
}

#[test]
fn reading_changes_only_what_the_bytes_say() {
    let mut bytes = envelope(1, b"abc").canonical_bytes();
    bytes[1] = 2;
    bytes[12] = b'z';
    assert_eq!(IntentMessageBytes::from_canonical_bytes(&bytes), Some(envelope(2, b"abz")));
}
