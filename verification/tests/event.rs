use alloy_sol_types::{sol_data, SolType};
use state_root_bridge::event::{decode, decode_with_selector, CounterEvent, DecodeError};
use state_root_bridge::primitives::B256;

const SELECTOR: [u8; 32] = [
    0x20, 0xd8, 0xa6, 0xf5, 0xa6, 0x93, 0xf9, 0xd1, 0xd6, 0x27, 0xa5, 0x98, 0xe8, 0x82, 0x0f, 0x7a,
    0x55, 0xee, 0x74, 0xc1, 0x83, 0xaa, 0x8f, 0x1a, 0x30, 0xe8, 0xd4, 0xe8, 0xdd, 0x9a, 0x8d, 0x84,
];

fn word(last: u8) -> Vec<u8> {
    let mut bytes = vec![0u8; 32];
    bytes[31] = last;
    bytes
}

#[test]
fn selector_is_the_hash_of_the_signature() {
    let hash = alloy_primitives::keccak256("Incremented(uint256)".as_bytes());
    assert_eq!(hash.0, SELECTOR);
}

#[test]
fn decodes_an_incremented_log() {
    let topics = vec![B256 { bytes: SELECTOR }];
    let data = word(7);
    let mut expected = [0u8; 32];
    expected[31] = 7;
    assert_eq!(
        decode(&topics, &data),
        Ok(CounterEvent::Incremented { count: B256 { bytes: expected } })
    );
}

#[test]
fn decode_keeps_every_byte_of_the_count() {
    let topics = vec![B256 { bytes: SELECTOR }];
    let data: Vec<u8> = (1u8..=32).collect();
    let mut expected = [0u8; 32];
    for i in 0..32 {
        expected[i] = (i + 1) as u8;
    }
    assert_eq!(
        decode(&topics, &data),
        Ok(CounterEvent::Incremented { count: B256 { bytes: expected } })
    );
}

#[test]
fn decode_rejects_a_log_without_topics() {
    assert_eq!(decode(&[], &word(1)), Err(DecodeError::UnknownEvent));
}

#[test]
fn decode_rejects_a_foreign_selector() {
    let mut other = SELECTOR;
    other[31] ^= 1;
    let topics = vec![B256 { bytes: other }];
    assert_eq!(decode(&topics, &word(1)), Err(DecodeError::UnknownEvent));
}

#[test]
fn decode_rejects_the_signature_text_as_selector() {
    let mut text = [0u8; 32];
    text[..20].copy_from_slice("Incremented(uint256)".as_bytes());
    let topics = vec![B256 { bytes: text }];
    assert_eq!(decode(&topics, &word(1)), Err(DecodeError::UnknownEvent));
}

#[test]
fn decode_rejects_data_of_the_wrong_length() {
    let topics = vec![B256 { bytes: SELECTOR }];
    assert_eq!(decode(&topics, &[]), Err(DecodeError::MalformedData));
    assert_eq!(decode(&topics, &vec![0u8; 31]), Err(DecodeError::MalformedData));
    assert_eq!(decode(&topics, &vec![0u8; 33]), Err(DecodeError::MalformedData));
    assert_eq!(decode(&topics, &vec![0u8; 64]), Err(DecodeError::MalformedData));
}

#[test]
fn decode_checks_the_selector_before_the_data() {
    let topics = vec![B256 { bytes: [0u8; 32] }];
    assert_eq!(decode(&topics, &[]), Err(DecodeError::UnknownEvent));
}

#[test]
fn decode_ignores_further_topics() {
    let topics = vec![B256 { bytes: SELECTOR }, B256 { bytes: [9u8; 32] }];
    assert!(decode(&topics, &word(3)).is_ok());
}

#[test]
fn decoding_twice_gives_the_same_result() {
    let topics = vec![B256 { bytes: SELECTOR }];
    let good = word(5);
    assert_eq!(decode(&topics, &good), decode(&topics, &good));
    let bad = vec![1u8; 5];
    assert_eq!(decode(&topics, &bad), decode(&topics, &bad));
    assert_eq!(decode(&[], &good), decode(&[], &good));
}

#[test]
fn decode_with_selector_uses_the_given_selector() {
    let selector = B256 { bytes: [0xab; 32] };
    let topics = vec![selector];
    assert!(decode_with_selector(&selector, &topics, &word(1)).is_ok());
    assert_eq!(
        decode_with_selector(&B256 { bytes: SELECTOR }, &topics, &word(1)),
        Err(DecodeError::UnknownEvent)
    );
}

#[test]
fn data_is_accepted_where_the_abi_decoder_accepts_it() {
    let topics = vec![B256 { bytes: SELECTOR }];
    let mut samples: Vec<Vec<u8>> = vec![vec![], vec![0u8; 31], word(9), vec![0xff; 32], vec![0u8; 33], vec![1u8; 64]];
    samples.push((0u8..32).collect());
    for data in samples {
        let theirs = <(sol_data::Uint<256>,)>::abi_decode_sequence(&data, true);
        match decode(&topics, &data) {
            Ok(CounterEvent::Incremented { count }) => {
                assert_eq!(theirs.unwrap().0.to_be_bytes::<32>(), count.bytes);
            }
            Err(error) => {
                assert_eq!(error, DecodeError::MalformedData);
                assert!(theirs.is_err());
            }
        }
    }
}
