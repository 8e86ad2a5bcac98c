use gossamer::chunks::{split_into_chunks, ChunkReassembler};
use gossamer::facade::build_chunk_payloads;
use gossamer::relay::{build_chunk_json, classify_incoming, parse_chunk_payload, IncomingPayload};

#[test]
fn chunk_json_is_exact_and_parses_back() {
    let json = build_chunk_json(7, 1, 3, b"hi");
    assert_eq!(json, "{\"chunk_index\":1,\"data\":\"aGk=\",\"id\":7,\"total_chunks\":3}");
    let (id, index, total, data) = parse_chunk_payload(&json).expect("round trip");
    assert_eq!((id, index, total), (7, 1, 3));
    assert_eq!(data, b"hi".to_vec());
}

#[test]
fn parse_chunk_payload_rejects_incomplete_fields() {
    assert!(parse_chunk_payload("{\"id\":7,\"chunk_index\":1}").is_none());
    assert!(parse_chunk_payload("not json").is_none());
    assert!(
        parse_chunk_payload("{\"chunk_index\":1,\"data\":\"!!\",\"id\":7,\"total_chunks\":3}")
            .is_none(),
        "data must be base64"
    );
}

#[test]
fn classify_incoming_tells_chunks_from_messages() {
    let chunk = build_chunk_json(9, 0, 2, b"xy");
    match classify_incoming(&chunk) {
        IncomingPayload::Chunk(id, index, total, data) => {
            assert_eq!((id, index, total), (9, 0, 2));
            assert_eq!(data, b"xy".to_vec());
        },
        _ => panic!("expected a chunk"),
    }
    match classify_incoming("{\"sender\":\"ab\",\"content\":\"hi\"}") {
        IncomingPayload::Message(sender, text) => {
            assert_eq!(sender, "ab");
            assert_eq!(text, "hi");
        },
        _ => panic!("expected a message"),
    }
}

#[test]
fn chunk_payloads_reassemble_into_the_payload() {
    let payload: Vec<u8> = (0u8..200).collect();
    let (id, frames) = build_chunk_payloads(&payload, 64);
    assert_eq!(frames.len(), 4);
    let mut r = ChunkReassembler::new();
    for frame in &frames {
        match classify_incoming(frame) {
            IncomingPayload::Chunk(fid, index, total, data) => {
                assert_eq!(fid, id);
                assert_eq!(total, 4);
                r.add_chunk(fid, index, total, &data);
            },
            _ => panic!("every frame is a chunk"),
        }
    }
    assert_eq!(r.try_complete(id).expect("complete"), payload);
}

#[test]
fn three_chunks_out_of_order_with_a_duplicate() {
    let mut r = ChunkReassembler::new();
    let id: u64 = 77;
    r.add_chunk(id, 2, 3, b"!");
    assert!(r.try_complete(id).is_none(), "one of three");
    r.add_chunk(id, 0, 3, b"hel");
    assert!(r.try_complete(id).is_none(), "two of three");
    r.add_chunk(id, 2, 3, b"IGNORED"); // duplicate index: the first payload wins
    assert!(r.try_complete(id).is_none(), "still two distinct");
    r.add_chunk(id, 1, 3, b"lo");
    let out = r.try_complete(id).expect("all three present");
    assert_eq!(out, b"hello!".to_vec());
    assert!(r.try_complete(id).is_none(), "a completed transfer is consumed");
}

#[test]
fn out_of_range_chunks_are_ignored() {
    let mut r = ChunkReassembler::new();
    r.add_chunk(1, 5, 3, b"nope"); // index past the announced total
    assert!(r.try_complete(1).is_none());
    r.add_chunk(2, 0, 0, b"nope"); // an empty transfer is never created
    assert!(r.try_complete(2).is_none());
}

#[test]
fn transfers_are_independent() {
    let mut r = ChunkReassembler::new();
    r.add_chunk(1, 0, 1, b"one");
    r.add_chunk(2, 0, 2, b"tw");
    assert_eq!(r.try_complete(1).expect("single chunk"), b"one".to_vec());
    assert!(r.try_complete(2).is_none(), "the other transfer is untouched");
    r.add_chunk(2, 1, 2, b"o!");
    assert_eq!(r.try_complete(2).expect("now complete"), b"two!".to_vec());
}

#[test]
fn split_is_exact() {
    let chunks = split_into_chunks(b"abcdefg", 3);
    assert_eq!(chunks, vec![b"abc".to_vec(), b"def".to_vec(), b"g".to_vec()]);
    assert_eq!(split_into_chunks(b"", 3), Vec::<Vec<u8>>::new());
    assert_eq!(split_into_chunks(b"ab", 2), vec![b"ab".to_vec()]);
}

#[test]
fn split_then_reassemble_gives_the_payload_back() {
    let payload: Vec<u8> = (0u8..=255).cycle().take(1000).collect();
    let chunks = split_into_chunks(&payload, 96);
    let total = chunks.len() as u32;
    let mut r = ChunkReassembler::new();
    let id: u64 = 424242;
    // Deliver in reverse order, with every other chunk duplicated.
    for (i, chunk) in chunks.iter().enumerate().rev() {
        assert!(r.try_complete(id).is_none(), "incomplete until the last chunk");
        r.add_chunk(id, i as u32, total, chunk);
        if i % 2 == 0 {
            r.add_chunk(id, i as u32, total, b"garbage");
        }
    }
    assert_eq!(r.try_complete(id).expect("complete"), payload);
}
