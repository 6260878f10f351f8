use sharectrl::bytes::{push_be16, push_be32, push_le16, push_le32, read_be16, read_be32, read_le16, read_le32};
use sharectrl::fec::{encode_recovery, padded_len, reconstruct, FecError};
use sharectrl::packet::{fragment, Reassembler, HEADER_LEN, MAX_PAYLOAD};
use sharectrl::secret::{hex_decode, hex_encode, sealed_text, unsealed_text};
use sharectrl::signaling::{PING_LITERAL, PONG_LITERAL};
use sharectrl::utf16::{encode_utf16, encode_wide, text_in_bytes, to_bytes};

#[test]
fn roundtrip_multi_fragment_frame() {
    let au: Vec<u8> = (0..3000u32).map(|i| i as u8).collect();
    let frags = fragment(7, true, &au);
    assert!(frags.len() >= 3);

    let mut r = Reassembler::new();
    let mut out = None;
    for f in &frags {
        if let Some(frame) = r.push(&f.0) {
            out = Some(frame);
        }
    }
    let frame = out.expect("frame reassembled");
    assert_eq!(frame.frame_id, 7);
    assert!(frame.keyframe);
    assert_eq!(frame.data, au);
}

#[test]
fn incomplete_frame_is_dropped_when_superseded() {
    let mut r = Reassembler::new();
    let f1 = fragment(1, false, &vec![9u8; 2000]);
    assert!(r.push(&f1[0].0).is_none());
    let f2 = fragment(2, false, &vec![5u8; 100]);
    assert!(r.push(&f2[0].0).is_some());
    assert_eq!(r.pending_frames(), 0);
}

#[test]
fn fragment_layout_is_exact() {
    let frags = fragment(0x0403_0201, true, &[0xaa, 0xbb]);
    assert_eq!(frags.len(), 1);
    assert_eq!(frags[0].0, vec![1, 2, 3, 4, 0, 0, 1, 0, 1, 0, 0xaa, 0xbb]);
    assert!(fragment(1, false, &[]).is_empty());
    let two = fragment(1, false, &vec![7u8; MAX_PAYLOAD + 1]);
    assert_eq!(two.len(), 2);
    assert_eq!(two[0].0.len(), HEADER_LEN + MAX_PAYLOAD);
    assert_eq!(two[1].0, vec![1, 0, 0, 0, 1, 0, 2, 0, 0, 0, 7]);
}

#[test]
fn fragments_in_any_order_with_repeats() {
    let au: Vec<u8> = (0..5000u32).map(|i| (i * 7) as u8).collect();
    let frags = fragment(42, false, &au);
    let mut r = Reassembler::new();
    for i in [3usize, 0, 3, 4, 1, 0] {
        assert!(r.push(&frags[i].0).is_none());
    }
    let frame = r.push(&frags[2].0).unwrap();
    assert_eq!(frame.data, au);
    assert!(!frame.keyframe);
    // What comes late of a superseded frame is ignored.
    let old = fragment(41, false, &[1, 2, 3]);
    assert!(r.push(&old[0].0).is_none());
    assert_eq!(r.pending_frames(), 0);
}

#[test]
fn newer_partial_survives_an_older_completion() {
    let mut r = Reassembler::default();
    let newer = fragment(10, false, &vec![1u8; 1500]);
    assert!(r.push(&newer[0].0).is_none());
    let older = fragment(9, false, &[5]);
    assert!(r.push(&older[0].0).is_some());
    assert_eq!(r.pending_frames(), 1);
    assert!(r.push(&newer[1].0).is_some());
}

#[test]
fn malformed_fragments_are_ignored() {
    let mut r = Reassembler::new();
    assert!(r.push(&[1, 2, 3]).is_none());
    assert!(r.push(&[1, 0, 0, 0, 0, 0, 0, 0, 0, 0]).is_none());
    assert!(r.push(&[1, 0, 0, 0, 2, 0, 2, 0, 0, 0]).is_none());
    assert_eq!(r.pending_frames(), 0);
}

#[test]
fn disagreeing_fragment_is_recognised() {
    let mut r = Reassembler::new();
    let f = fragment(5, false, &vec![0u8; 2000]);
    assert!(r.agrees(&f[0].0));
    assert!(r.push(&f[0].0).is_none());
    let wrong = [5u8, 0, 0, 0, 7, 0, 9, 0, 0, 0, 1];
    assert!(!r.agrees(&wrong));
    assert!(r.agrees(&f[1].0));
}

#[test]
fn recovers_a_dropped_shard() {
    let shard_len = padded_len(50);
    let original: Vec<Vec<u8>> = (0..4)
        .map(|i| {
            let mut v = vec![0u8; shard_len];
            v.iter_mut()
                .enumerate()
                .for_each(|(j, b)| *b = (i * 31 + j) as u8);
            v
        })
        .collect();

    let recovery = encode_recovery(&original, 2).unwrap();
    assert_eq!(recovery.len(), 2);

    let survived: Vec<(usize, Vec<u8>)> =
        vec![(0, original[0].clone()), (2, original[2].clone())];
    let recv: Vec<(usize, Vec<u8>)> = recovery
        .iter()
        .enumerate()
        .map(|(i, s)| (i, s.clone()))
        .collect();

    let restored = reconstruct(4, 2, &survived, &recv).unwrap();
    let get = |idx: usize| {
        restored
            .iter()
            .find(|(i, _)| *i == idx)
            .map(|(_, s)| s.clone())
    };
    assert_eq!(get(1).unwrap(), original[1]);
    assert_eq!(get(3).unwrap(), original[3]);
    assert_eq!(restored.len(), 2);
}

#[test]
fn padding_rounds_up_to_64() {
    assert_eq!(padded_len(0), 0);
    assert_eq!(padded_len(1), 64);
    assert_eq!(padded_len(64), 64);
    assert_eq!(padded_len(65), 128);
}

#[test]
fn recovery_errors_are_told_apart() {
    assert!(encode_recovery(&[], 3).unwrap().is_empty());
    assert!(encode_recovery(&[vec![0; 64]], 0).unwrap().is_empty());
    // There is no code for this many shards.
    match encode_recovery(&[vec![0; 64]], 70_000) {
        Err(FecError::Unsupported) => {}
        other => panic!("{other:?}"),
    }
    // Shards of different lengths.
    match encode_recovery(&[vec![0; 64], vec![0; 62]], 1) {
        Err(FecError::Rs(why)) => assert!(why.contains("different shard size"), "{why}"),
        other => panic!("{other:?}"),
    }
    // Too few survivors.
    let e = reconstruct(4, 2, &[(0, vec![0; 64])], &[(0, vec![0; 64])]).unwrap_err();
    assert!(e.message().starts_with("reed-solomon: not enough shards"), "{}", e.message());
    assert_eq!(
        FecError::Unsupported.message(),
        "shard count/size unsupported by the codec"
    );
    // Nothing is missing: nothing is restored.
    assert!(reconstruct(1, 1, &[(0, vec![1; 64])], &[]).unwrap().is_empty());
}

#[test]
fn hex_roundtrip() {
    let b = [0x00u8, 0x7f, 0x80, 0xff];
    assert_eq!(hex_decode(&hex_encode(&b)), Some(b.to_vec()));
}

#[test]
fn hex_is_lower_case_and_strict() {
    assert_eq!(hex_encode(&[0xde, 0xad, 0x0b]), "dead0b");
    assert_eq!(hex_decode("DeAd0B"), Some(vec![0xde, 0xad, 0x0b]));
    assert_eq!(hex_decode("abc"), None);
    assert_eq!(hex_decode("zz"), None);
    assert_eq!(hex_decode("a\u{e9}b"), None);
    assert_eq!(hex_decode(""), Some(vec![]));
    assert_eq!(sealed_text(None), None);
    assert_eq!(sealed_text(Some(vec![1, 255])), Some("01ff".to_string()));
    assert_eq!(unsealed_text(Some(b"pw".to_vec())), Some("pw".to_string()));
    assert_eq!(unsealed_text(Some(vec![0xff])), None);
    assert_eq!(unsealed_text(None), None);
}

#[test]
fn numbers_in_both_byte_orders() {
    let mut v = Vec::new();
    push_le16(&mut v, 0x0102);
    push_be16(&mut v, 0x0102);
    push_le32(&mut v, 0x01020304);
    push_be32(&mut v, 0x01020304);
    assert_eq!(v, vec![2, 1, 1, 2, 4, 3, 2, 1, 1, 2, 3, 4]);
    assert_eq!(read_le16(&v, 0), 0x0102);
    assert_eq!(read_be16(&v, 2), 0x0102);
    assert_eq!(read_le32(&v, 4), 0x01020304);
    assert_eq!(read_be32(&v, 8), 0x01020304);
}

#[test]
fn ping_literal_matches_contract() {
    let mut ping = serde_json::Map::new();
    ping.insert("type".to_string(), serde_json::Value::String("ping".to_string()));
    assert_eq!(serde_json::Value::Object(ping).to_string(), PING_LITERAL);
    let mut pong = serde_json::Map::new();
    pong.insert("type".to_string(), serde_json::Value::String("pong".to_string()));
    assert_eq!(serde_json::Value::Object(pong).to_string(), PONG_LITERAL);
}

#[test]
fn utf16_of_text() {
    assert_eq!(encode_utf16("aé"), vec![0x61, 0xe9]);
    assert_eq!(encode_utf16("😀"), "😀".encode_utf16().collect::<Vec<u16>>());
    assert_eq!(encode_wide("hi"), vec![0x68, 0x69, 0]);
    let text = "path \u{5d0} 😀";
    assert_eq!(text_in_bytes(&to_bytes(&encode_wide(text))), text);
    // An odd byte at the end does not count, and neither does what follows a zero.
    assert_eq!(text_in_bytes(&[0x61, 0, 0, 0, 0x62, 0, 9]), "a");
    // Half of a pair stands for nothing.
    assert_eq!(text_in_bytes(&to_bytes(&[0xd83d, 0x61, 0])), "\u{fffd}a");
    assert_eq!(text_in_bytes(&to_bytes(&[0xde00, 0xd83d, 0xde00, 0xd83d])), "\u{fffd}😀\u{fffd}");
}
