//! The byte readers against the reference compact codec: length prefixes and
//! fixed-width integers must match it byte for byte.

use parity_scale_codec::{Compact, Encode};

use grandpa_justification::encoding::{read_compact, read_u64};

#[test]
fn compact_prefix_matches_reference_codec() {
    let samples: Vec<u32> = vec![
        0,
        1,
        63,
        64,
        16383,
        16384,
        1073741823,
        1073741824,
        u32::MAX,
    ];
    for n in samples {
        let encoded = Compact::<u32>(n).encode();
        let decoded = read_compact(&encoded, 0);
        assert_eq!(decoded, Some((n as u64, encoded.len())));
    }
}

#[test]
fn noncanonical_compact_rejected() {
    // 1 encoded in the two-byte form: the reference codec rejects it too
    assert_eq!(read_compact(&[(1u8 << 2) | 1, 0], 0), None);
    // 100 encoded in the four-byte form
    assert_eq!(read_compact(&((100u32 << 2) | 2).to_le_bytes(), 0), None);
    // a small value in the five-byte form
    let mut five = vec![3u8];
    five.extend_from_slice(&100u32.to_le_bytes());
    assert_eq!(read_compact(&five, 0), None);
}

#[test]
fn fixed_u64_matches_reference_codec() {
    let samples: Vec<u64> = vec![0, 1, 0x0123_4567_89ab_cdef, u64::MAX];
    for x in samples {
        let encoded = x.encode();
        assert_eq!(read_u64(&encoded, 0), Some((x, 8)));
    }
}

#[test]
fn truncated_input_rejected() {
    assert_eq!(read_u64(&[1, 2, 3], 0), None);
    assert_eq!(read_compact(&[], 0), None);
    // two-byte mode with only one byte present
    assert_eq!(read_compact(&[1u8], 0), None);
}
