use gossamer::mesh::{
    decode_packet, encode_mesh_packet, encode_packet, generate_advertisement_packet,
    handle_incoming_bytes, BlePacket,
};
use gossamer::transit::TransitCache;

const NOW: u64 = 1_700_003_600;

#[test]
fn packet_codec_round_trip() {
    let p = BlePacket { mb_short: 0xdeadbeef, ts_short: 0x01020304, ct: vec![9, 8, 7, 6, 5] };
    let bytes = encode_packet(&p);
    assert_eq!(bytes.len(), 12 + 5);
    assert_eq!(&bytes[0..4], &[0xde, 0xad, 0xbe, 0xef]);
    assert_eq!(&bytes[4..8], &[1, 2, 3, 4]);
    assert_eq!(&bytes[8..12], &[0, 0, 0, 5]);
    let q = decode_packet(&bytes).expect("round trip");
    assert_eq!(q.mb_short, p.mb_short);
    assert_eq!(q.ts_short, p.ts_short);
    assert_eq!(q.ct, p.ct);
}

#[test]
fn decode_rejects_malformed_bytes() {
    assert!(decode_packet(&[]).is_none());
    assert!(decode_packet(&[1, 2, 3]).is_none());
    // Header claims 5 ciphertext bytes but only 4 follow.
    let mut bad = vec![0u8; 12];
    bad[11] = 5;
    bad.extend_from_slice(&[1, 2, 3, 4]);
    assert!(decode_packet(&bad).is_none());
}

#[test]
fn mesh_round_trip_leaves_cache_untouched() {
    let secret = vec![11u8; 32];
    let mut cache = TransitCache::new();
    let packet = encode_mesh_packet(&secret, b"hello", NOW);
    let out = handle_incoming_bytes(&packet, &secret, &mut cache, NOW);
    assert_eq!(out.expect("addressed to us"), b"hello".to_vec());
    assert_eq!(cache.len(), 0, "a consumed packet is not cached");
}

#[test]
fn mesh_accepts_previous_hour_slot() {
    let secret = vec![11u8; 32];
    let mut cache = TransitCache::new();
    let sent_at = NOW;
    let received_at = NOW + 3600; // one slot later: sender used the previous slot
    let packet = encode_mesh_packet(&secret, b"late", sent_at);
    let out = handle_incoming_bytes(&packet, &secret, &mut cache, received_at);
    assert_eq!(out.expect("previous slot is still valid"), b"late".to_vec());
}

#[test]
fn scenario_shared_secret_delivers_and_stranger_stores() {
    // Alice and Bob share secret A; a third node holds B.
    let a = vec![0xaau8; 32];
    let b = vec![0xbbu8; 32];
    let packet = encode_mesh_packet(&a, b"hi", NOW);

    let mut bob_cache = TransitCache::new();
    let got = handle_incoming_bytes(&packet, &a, &mut bob_cache, NOW);
    assert_eq!(got.expect("Bob holds the shared secret"), b"hi".to_vec());
    assert_eq!(bob_cache.len(), 0);

    let mut third_cache = TransitCache::new();
    let got = handle_incoming_bytes(&packet, &b, &mut third_cache, NOW);
    assert!(got.is_none(), "not addressed to the third node");
    assert_eq!(third_cache.len(), 1, "stored for rebroadcast");
    assert_eq!(third_cache.packet_at(0), packet);
}

#[test]
fn malformed_bytes_are_dropped_without_caching() {
    let secret = vec![1u8; 32];
    let mut cache = TransitCache::new();
    let out = handle_incoming_bytes(&[1, 2, 3], &secret, &mut cache, NOW);
    assert!(out.is_none());
    assert_eq!(cache.len(), 0);
}

#[test]
fn advertisement_packet_decodes_on_receiver() {
    let secret = vec![4u8; 32];
    let packet = generate_advertisement_packet(&secret, "nearby");
    let mut cache = TransitCache::new();
    // The packet is stamped with the real clock, so route with the real clock.
    let now = std::time::SystemTime::now()
        .duration_since(std::time::UNIX_EPOCH)
        .unwrap()
        .as_secs();
    let out = handle_incoming_bytes(&packet, &secret, &mut cache, now);
    assert_eq!(out.expect("current slot"), b"nearby".to_vec());
}

#[test]
fn transit_cache_keeps_the_100_most_recent_of_150() {
    let mut cache = TransitCache::new();
    for i in 0u32..150 {
        let packet = i.to_be_bytes().to_vec();
        cache.insert(&packet, 1000 + i as u64);
    }
    assert_eq!(cache.len(), 100);
    for k in 0usize..100 {
        let expected = (k as u32 + 50).to_be_bytes().to_vec();
        assert_eq!(cache.packet_at(k), expected);
        assert_eq!(cache.received_at(k), 1000 + 50 + k as u64);
    }
}

#[test]
fn transit_cache_deduplicates_by_content() {
    let mut cache = TransitCache::new();
    cache.insert(b"same", 1);
    cache.insert(b"same", 2);
    cache.insert(b"other", 3);
    assert_eq!(cache.len(), 2);
    assert_eq!(cache.packet_at(0), b"same".to_vec());
    assert_eq!(cache.received_at(0), 1, "the first receipt wins");
}

#[test]
fn transit_cache_hash_is_md5_of_the_packet() {
    let mut cache = TransitCache::new();
    cache.insert(b"", 1);
    let expected = [
        0xd4, 0x1d, 0x8c, 0xd9, 0x8f, 0x00, 0xb2, 0x04, 0xe9, 0x80, 0x09, 0x98, 0xec, 0xf8,
        0x42, 0x7e,
    ];
    assert_eq!(cache.hash_at(0), expected.to_vec());
}

#[test]
fn transit_sampling_returns_cached_bytes_or_nothing() {
    let mut cache = TransitCache::new();
    assert_eq!(gossamer::facade::get_transit_packet(&cache), Vec::<u8>::new());
    cache.insert(b"alpha", 1);
    cache.insert(b"beta", 2);
    let mut seen_nonempty = false;
    for _ in 0..200 {
        let got = gossamer::facade::get_transit_packet(&cache);
        if !got.is_empty() {
            seen_nonempty = true;
            assert!(got == b"alpha".to_vec() || got == b"beta".to_vec());
        }
    }
    assert!(seen_nonempty, "a fair coin over 200 draws yields some packet");
}
