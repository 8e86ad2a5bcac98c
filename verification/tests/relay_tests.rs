use gossamer::crypto::encrypt;
use gossamer::relay::{
    build_encrypted_event, build_envelope_json, build_event_canonical, build_event_message,
    build_payload_json, build_req_message, build_signed_event, classify_payload, compute_event_id,
    json_escape, process_relay_frame, FrameAction,
};
use sha2::Digest;

#[test]
fn json_escape_handles_specials() {
    assert_eq!(json_escape("plain text"), "plain text");
    assert_eq!(json_escape("a\"b"), "a\\\"b");
    assert_eq!(json_escape("a\\b"), "a\\\\b");
    assert_eq!(json_escape("line\nbreak\ttab\rcr"), "line\\nbreak\\ttab\\rcr");
    assert_eq!(json_escape("\u{1}"), "\\u0001");
    assert_eq!(json_escape("héllo ✓"), "héllo ✓");
}

#[test]
fn canonical_serialization_is_exact() {
    let s = build_event_canonical("aabb", 1700000000, 1, "ccdd", "hi \"there\"");
    assert_eq!(s, "[0,\"aabb\",1700000000,1,[[\"t\",\"ccdd\"]],\"hi \\\"there\\\"\"]");
}

#[test]
fn event_message_is_exact() {
    let s = build_event_message("id00", "pk00", 1700000001, 20000, "mb00", "x", "sig0");
    assert_eq!(
        s,
        "[\"EVENT\",{\"id\":\"id00\",\"pubkey\":\"pk00\",\"created_at\":1700000001,\"kind\":20000,\"tags\":[[\"t\",\"mb00\"]],\"content\":\"x\",\"sig\":\"sig0\"}]"
    );
}

#[test]
fn req_message_is_exact() {
    let with_limit = build_req_message("gossamer_fetch", 1, "mb", Some(20));
    assert_eq!(with_limit, "[\"REQ\",\"gossamer_fetch\",{\"kinds\":[1],\"#t\":[\"mb\"],\"limit\":20}]");
    let without = build_req_message("live_sub", 20000, "mb", None);
    assert_eq!(without, "[\"REQ\",\"live_sub\",{\"kinds\":[20000],\"#t\":[\"mb\"]}]");
}

#[test]
fn event_id_is_sha256_of_canonical() {
    let (digest, id_hex) = compute_event_id("abc");
    assert_eq!(id_hex, "ba7816bf8f01cfea414140de5dae2223b00361a396177a9cb410ff61f20015ad");
    assert_eq!(digest.len(), 32);
    assert_eq!(hex_of(&digest), id_hex);
}

fn hex_of(b: &[u8]) -> String {
    let mut s = String::new();
    for x in b {
        s.push_str(&format!("{:02x}", x));
    }
    s
}

#[test]
fn payload_and_envelope_objects_are_exact() {
    assert_eq!(
        build_payload_json("abcd", "hi \"you\""),
        "{\"content\":\"hi \\\"you\\\"\",\"sender\":\"abcd\"}"
    );
    assert_eq!(build_envelope_json(b"hi", b"hi"), "{\"n\":\"aGk=\",\"p\":\"aGk=\"}");
}

#[test]
fn signed_event_parses_and_signature_verifies() {
    let secret = vec![8u8; 32];
    let now: u64 = 1_700_007_200;
    let frame = build_signed_event(&secret, "payload text", 1, now);
    let v: serde_json::Value = serde_json::from_str(&frame).expect("frame is JSON");
    assert_eq!(v[0], "EVENT");
    let ev = &v[1];
    assert_eq!(ev["kind"], 1);
    assert_eq!(ev["created_at"], now);
    assert_eq!(ev["content"], "payload text");
    let mailbox = gossamer::crypto::generate_mailbox(&secret, now);
    assert_eq!(ev["tags"][0][0], "t");
    assert_eq!(ev["tags"][0][1], mailbox.as_str());

    // The id is the SHA-256 of the canonical serialization.
    let pk_hex = ev["pubkey"].as_str().unwrap();
    let content = ev["content"].as_str().unwrap();
    let canonical = format!(
        "[0,{},{},{},[[\"t\",{}]],{}]",
        serde_json::to_string(pk_hex).unwrap(),
        now,
        1,
        serde_json::to_string(mailbox.as_str()).unwrap(),
        serde_json::to_string(content).unwrap(),
    );
    let digest = sha2::Sha256::digest(canonical.as_bytes());
    assert_eq!(ev["id"].as_str().unwrap(), hex_of(&digest));

    // The Schnorr signature over the id verifies under the ephemeral key.
    let secp = secp256k1::Secp256k1::new();
    let pk = secp256k1::XOnlyPublicKey::from_slice(&hex_bytes(pk_hex)).expect("pubkey");
    let sig = secp256k1::schnorr::Signature::from_slice(
        &hex_bytes(ev["sig"].as_str().unwrap()),
    )
    .expect("signature");
    let msg = secp256k1::Message::from_slice(&digest).expect("32 bytes");
    secp.verify_schnorr(&sig, &msg, &pk).expect("signature verifies");
}

fn hex_bytes(s: &str) -> Vec<u8> {
    gossamer::hexfmt::hex_decode(s).expect("hex")
}

#[test]
fn ephemeral_keys_differ_between_sends() {
    let secret = vec![8u8; 32];
    let f1 = build_signed_event(&secret, "x", 1, 1_700_007_200);
    let f2 = build_signed_event(&secret, "x", 1, 1_700_007_200);
    let v1: serde_json::Value = serde_json::from_str(&f1).unwrap();
    let v2: serde_json::Value = serde_json::from_str(&f2).unwrap();
    assert_ne!(v1[1]["pubkey"], v2[1]["pubkey"], "sender-unlinkability");
}

#[test]
fn process_relay_frame_classifies() {
    let secret = vec![9u8; 32];
    assert!(matches!(
        process_relay_frame("[\"EOSE\",\"sub\"]", &secret),
        FrameAction::EndOfStored
    ));
    assert!(matches!(process_relay_frame("not json", &secret), FrameAction::Skip));
    assert!(matches!(process_relay_frame("[\"NOTICE\",\"hi\"]", &secret), FrameAction::Skip));
    assert!(matches!(
        process_relay_frame("[\"EVENT\",\"sub\",{\"content\":\"no envelope\"}]", &secret),
        FrameAction::Skip
    ));
}

#[test]
fn relay_envelope_round_trip_delivers_plaintext() {
    let secret = vec![10u8; 32];
    let (ct, nonce) = encrypt(&secret, b"the hidden text");
    let content = build_envelope_json(&ct, &nonce);
    let frame = format!(
        "[\"EVENT\",\"sub\",{{\"content\":{}}}]",
        serde_json::to_string(&content).unwrap()
    );
    match process_relay_frame(&frame, &secret) {
        FrameAction::Deliver(text) => assert_eq!(text, "the hidden text"),
        _ => panic!("expected delivery"),
    }
    // A node with another secret skips the same frame.
    let other = vec![11u8; 32];
    assert!(matches!(process_relay_frame(&frame, &other), FrameAction::Skip));
}

#[test]
fn encrypted_event_comes_back_through_the_frame_path() {
    let secret = vec![12u8; 32];
    let now: u64 = 1_700_007_200;
    let payload = build_payload_json("aabbcc", "hello over the relay");
    let publish = build_encrypted_event(&secret, &payload, 1, now);
    // Re-shape the publish frame into the server's delivery form.
    let v: serde_json::Value = serde_json::from_str(&publish).unwrap();
    let delivery = format!("[\"EVENT\",\"sub\",{}]", v[1]);
    match process_relay_frame(&delivery, &secret) {
        FrameAction::Deliver(text) => {
            let (sender, content) = classify_payload(&text);
            assert_eq!(sender, "aabbcc");
            assert_eq!(content, "hello over the relay");
        },
        _ => panic!("expected delivery"),
    }
}

#[test]
fn classify_payload_handles_all_shapes() {
    let (s, c) = classify_payload("{\"sender\":\"ab\",\"content\":\"hi\"}");
    assert_eq!((s.as_str(), c.as_str()), ("ab", "hi"));
    let (s, c) = classify_payload("{\"content\":\"hi\"}");
    assert_eq!((s.as_str(), c.as_str()), ("Unknown", "hi"));
    let (s, c) = classify_payload("{\"sender\":\"ab\"}");
    assert_eq!((s.as_str(), c.as_str()), ("ab", ""));
    let (s, c) = classify_payload("just plain text");
    assert_eq!((s.as_str(), c.as_str()), ("Unknown", "just plain text"));
}
