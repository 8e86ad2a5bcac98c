use gossamer::facade::{
    build_message_event, get_transit_packet, ingest_mesh_packet, prepare_mesh_packet,
    resolve_sender, CoreContext, CoreError,
};
use gossamer::transit::TransitCache;

#[test]
fn context_holds_relay_url_and_db_path() {
    let mut ctx = CoreContext::new();
    assert_eq!(ctx.get_relay_url(), "wss://relay.damus.io");
    assert_eq!(ctx.get_relay(), "wss://relay.damus.io");
    assert_eq!(ctx.get_db_path(), "gossamer.db");
    ctx.set_relay_url(String::from("wss://example.org"));
    assert_eq!(ctx.get_relay_url(), "wss://example.org");
    ctx.set_relay(String::from("wss://other.example"));
    assert_eq!(ctx.get_relay(), "wss://other.example");
    ctx.set_db_path(String::from("/tmp/g.db"));
    assert_eq!(ctx.get_db_path(), "/tmp/g.db");
}

#[test]
fn resolve_sender_prefers_alias_then_truncates() {
    assert_eq!(resolve_sender(Some(String::from("Maria")), "aabbccddeeff0011"), "Maria");
    assert_eq!(resolve_sender(None, "aabbccddeeff0011"), "aabbccdd...");
    assert_eq!(resolve_sender(None, "aabb"), "aabb");
}

#[test]
fn prepare_mesh_packet_rejects_bad_destination() {
    assert_eq!(
        prepare_mesh_packet("not-hex!", "aa", "hi").unwrap_err(),
        CoreError::InvalidHex
    );
    assert_eq!(prepare_mesh_packet("abc", "aa", "hi").unwrap_err(), CoreError::InvalidHex);
}

#[test]
fn mesh_send_and_ingest_round_trip() {
    let secret = vec![0x5au8; 32];
    let secret_hex = {
        let mut s = String::new();
        for b in &secret {
            s.push_str(&format!("{:02x}", b));
        }
        s
    };
    let packet = prepare_mesh_packet(&secret_hex, "f00d", "mesh hello").expect("valid call");
    let now = std::time::SystemTime::now()
        .duration_since(std::time::UNIX_EPOCH)
        .unwrap()
        .as_secs();
    let mut cache = TransitCache::new();
    let (sender, text) =
        ingest_mesh_packet(&packet, &secret, &mut cache, now).expect("addressed to us");
    assert_eq!(sender, "f00d");
    assert_eq!(text, "mesh hello");
    assert_eq!(cache.len(), 0);

    // A node with a different secret stores the packet instead.
    let other = vec![0xa5u8; 32];
    let mut other_cache = TransitCache::new();
    assert!(ingest_mesh_packet(&packet, &other, &mut other_cache, now).is_none());
    assert_eq!(other_cache.len(), 1);
    assert_eq!(get_transit_packet(&other_cache).len() % packet.len(), 0);
}

#[test]
fn message_event_rejects_bad_destination_and_builds_otherwise() {
    assert_eq!(
        build_message_event("xx!", "aa", "hello", 1).unwrap_err(),
        CoreError::InvalidHex
    );
    let dest_hex = "aa".repeat(32);
    let (frame, created_at) = build_message_event(&dest_hex, "f00d", "hello", 1).expect("valid");
    let v: serde_json::Value = serde_json::from_str(&frame).expect("frame is JSON");
    assert_eq!(v[0], "EVENT");
    assert_eq!(v[1]["kind"], 1);
    assert_eq!(v[1]["created_at"], created_at);
    // The content is an envelope that the destination secret opens.
    let delivery = format!("[\"EVENT\",\"sub\",{}]", v[1]);
    let secret = vec![0xaau8; 32];
    match gossamer::relay::process_relay_frame(&delivery, &secret) {
        gossamer::relay::FrameAction::Deliver(text) => {
            let (sender, content) = gossamer::relay::classify_payload(&text);
            assert_eq!(sender, "f00d");
            assert_eq!(content, "hello");
        },
        _ => panic!("expected delivery"),
    }
}
