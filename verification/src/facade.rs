use vstd::prelude::*;
use crate::clock::now_unix;
use crate::hexfmt::{hex_decode, hex_decoded, is_valid_hex};
use crate::mesh::{handle_incoming_bytes, mesh_packet_of, mesh_route_of, packet_bytes_valid};
use crate::relay::{
    build_encrypted_event, build_payload_json, classified_payload_of, classify_payload,
    is_signed_envelope_event_for, payload_json_of, utf8_lossy, utf8_lossy_of,
};
use crate::transit::{cache_insert_model, md5_of, TransitCache};
use vstd::string::StrSliceExecFns;
use vstd::string::StringExecFns;
use vstd::utf8::encode_utf8;

verus! {

/// Errors surfaced to the host for caller-input faults.
#[derive(Clone, Copy, Debug, PartialEq, Eq)]
pub enum CoreError {
    /// A destination address that is not a well-formed hex string.
    InvalidHex,
    /// A payload too large for the packet length field.
    PayloadTooLarge,
}

/// One stored chat message as handed to the host.
pub struct ChatMessage {
    pub id: String,
    pub sender: String,
    pub text: String,
    pub time: u64,
    pub is_me: bool,
}

/// A contact alias entry.
pub struct Contact {
    pub pubkey: String,
    pub alias: String,
}

/// A full (non-compact) packet record: mailbox tag, ciphertext, nonce,
/// creation time and time-to-live.
pub struct GossamerPacket {
    pub mailbox_id: String,
    pub cipher_text: Vec<u8>,
    pub nonce: Vec<u8>,
    pub created_at: u64,
    pub ttl: u64,
}

/// Explicit per-instance state the host passes into every operation: the
/// relay endpoint and the path of the persistence store.
pub struct CoreContext {
    pub relay_url: String,
    pub db_path: String,
}

impl CoreContext {
    /// A context with the default public relay and store path.
    pub fn new() -> (r: CoreContext)
        ensures
            r.relay_url@ == "wss://relay.damus.io"@,
            r.db_path@ == "gossamer.db"@,
    {
        CoreContext {
            relay_url: String::from_str("wss://relay.damus.io"),
            db_path: String::from_str("gossamer.db"),
        }
    }

    pub fn set_relay_url(&mut self, url: String)
        ensures
            final(self).relay_url == url,
            final(self).db_path == old(self).db_path,
    {
        self.relay_url = url;
    }

    pub fn get_relay_url(&self) -> (r: String)
        ensures
            r@ == self.relay_url@,
    {
        self.relay_url.clone()
    }

    pub fn set_relay(&mut self, url: String)
        ensures
            final(self).relay_url == url,
            final(self).db_path == old(self).db_path,
    {
        self.relay_url = url;
    }

    pub fn get_relay(&self) -> (r: String)
        ensures
            r@ == self.relay_url@,
    {
        self.relay_url.clone()
    }

    pub fn set_db_path(&mut self, path: String)
        ensures
            final(self).db_path == path,
            final(self).relay_url == old(self).relay_url,
    {
        self.db_path = path;
    }

    pub fn get_db_path(&self) -> (r: String)
        ensures
            r@ == self.db_path@,
    {
        self.db_path.clone()
    }
}

/// The display name for a message sender: the stored alias where the host's
/// contact lookup found one, else the identity truncated to eight characters
/// with an ellipsis, or whole if it is that short already.
pub fn resolve_sender(alias: Option<String>, pubkey: &str) -> (r: String)
    ensures
        alias is Some ==> r == alias->Some_0,
        alias is None && pubkey@.len() > 8 ==> r@ == pubkey@.take(8) + "..."@,
        alias is None && pubkey@.len() <= 8 ==> r@ == pubkey@,
{
    match alias {
        Some(a) => a,
        None => {
            let n = pubkey.unicode_len();
            if n > 8 {
                let mut s = String::from_str(pubkey.substring_char(0, 8));
                s.append("...");
                proof {
                    assert(s@ =~= pubkey@.take(8) + "..."@);
                }
                s
            } else {
                String::from_str(pubkey)
            }
        },
    }
}

/// Builds the wire bytes of a mesh packet that carries a payload object for
/// this sender and text, addressed to the hex destination secret, stamped
/// with the wall clock. Rejects a malformed destination and a payload past
/// the length field's capacity.
pub fn prepare_mesh_packet(dest_hex: &str, sender_hex: &str, content: &str) -> (r: Result<
    Vec<u8>,
    CoreError,
>)
    ensures
        r is Ok <==> (is_valid_hex(dest_hex@) && encode_utf8(
            payload_json_of(sender_hex@, content@),
        ).len() + 16 < 0x100000000),
        !is_valid_hex(dest_hex@) ==> r is Err && r->Err_0 == CoreError::InvalidHex,
        is_valid_hex(dest_hex@) && encode_utf8(payload_json_of(sender_hex@, content@)).len() + 16
            >= 0x100000000 ==> r is Err && r->Err_0 == CoreError::PayloadTooLarge,
        r is Ok ==> exists|now: u64|
            r->Ok_0@ == mesh_packet_of(
                hex_decoded(dest_hex@),
                encode_utf8(payload_json_of(sender_hex@, content@)),
                now,
            ),
{
    let dest = match hex_decode(dest_hex) {
        Some(d) => d,
        None => {
            return Err(CoreError::InvalidHex);
        },
    };
    let payload = build_payload_json(sender_hex, content);
    let payload_bytes = payload.as_str().as_bytes();
    if payload_bytes.len() as u64 >= 0xFFFFFFF0u64 {
        return Err(CoreError::PayloadTooLarge);
    }
    let now = now_unix();
    let packet = crate::mesh::encode_mesh_packet(dest.as_slice(), payload_bytes, now);
    proof {
        assert(packet@ == mesh_packet_of(
            hex_decoded(dest_hex@),
            encode_utf8(payload_json_of(sender_hex@, content@)),
            now,
        ));
    }
    Ok(packet)
}

/// Routes incoming mesh bytes and, where the packet was addressed here,
/// splits its plaintext into sender and text for persistence. A readable
/// packet leaves the transit cache untouched; an unreadable well-formed one
/// is cached for rebroadcast; malformed bytes are dropped.
pub fn ingest_mesh_packet(data: &[u8], my_root: &[u8], cache: &mut TransitCache, now: u64) -> (r:
    Option<(String, String)>)
    requires
        now >= 3600,
    ensures
        r is Some <==> mesh_route_of(data@, my_root@, now) is Some,
        r is Some ==> r->Some_0.0@ == classified_payload_of(
            utf8_lossy_of(mesh_route_of(data@, my_root@, now)->Some_0),
        ).0,
        r is Some ==> r->Some_0.1@ == classified_payload_of(
            utf8_lossy_of(mesh_route_of(data@, my_root@, now)->Some_0),
        ).1,
        r is Some ==> final(cache)@ == old(cache)@,
        r is None && packet_bytes_valid(data@) ==> final(cache)@ == cache_insert_model(
            old(cache)@,
            md5_of(data@),
            data@,
            now,
        ),
        r is None && !packet_bytes_valid(data@) ==> final(cache)@ == old(cache)@,
{
    match handle_incoming_bytes(data, my_root, cache, now) {
        Some(plain) => {
            let raw = utf8_lossy(plain.as_slice());
            let (sender, text) = classify_payload(raw.as_str());
            Some((sender, text))
        },
        None => None,
    }
}

/// Hands out a cached transit packet for opportunistic rebroadcast: with
/// even odds one cached packet chosen at random, else an empty buffer.
pub fn get_transit_packet(cache: &TransitCache) -> (r: Vec<u8>)
    ensures
        r@.len() == 0 || exists|i: int| 0 <= i < cache@.len() && r@ == cache@[i].1,
{
    cache.sample_for_broadcast()
}

/// Relies on rand's `random::<u64>`: a fresh transfer id; random, so nothing
/// is promised of the value.
#[verifier::external_body]
fn random_u64() -> u64 {
    rand::random::<u64>()
}

/// Whether `frames` are exactly the chunk payload objects of a transfer:
/// one per fixed-size chunk of the payload, in index order, all under one
/// transfer id and the true total.
pub open spec fn are_chunk_payloads(
    frames: Seq<Seq<char>>,
    id: u64,
    data: Seq<u8>,
    size: nat,
) -> bool {
    let cs = crate::chunks::chunks_of(data, size);
    frames.len() == cs.len() && forall|i: int|
        0 <= i < frames.len() ==> #[trigger] frames[i] == crate::relay::chunk_json_of(
            id,
            i as u32,
            cs.len() as u32,
            cs[i],
        )
}

/// Splits a payload into fixed-size chunks and renders the payload object
/// for each, all tagged with one fresh random transfer id and the total
/// count. Returns the id with the payload objects, in index order; the
/// caller encrypts and sends each, then records a placeholder under the id.
pub fn build_chunk_payloads(data: &[u8], chunk_size: usize) -> (r: (u64, Vec<String>))
    requires
        chunk_size > 0,
        data@.len() <= 0xffffffff,
    ensures
        are_chunk_payloads(r.1.deep_view(), r.0, data@, chunk_size as nat),
{
    let id = random_u64();
    let chunks = crate::chunks::split_into_chunks(data, chunk_size);
    proof {
        crate::chunks::lemma_chunks_count(data@, chunk_size as nat);
    }
    let total: u32 = chunks.len() as u32;
    let mut frames: Vec<String> = Vec::new();
    let mut i: usize = 0;
    while i < chunks.len()
        invariant
            chunks.deep_view() == crate::chunks::chunks_of(data@, chunk_size as nat),
            chunks@.len() <= 0xffffffff,
            total == chunks@.len(),
            i <= chunks@.len(),
            frames.deep_view().len() == i,
            forall|j: int|
                0 <= j < i ==> #[trigger] frames.deep_view()[j] == crate::relay::chunk_json_of(
                    id,
                    j as u32,
                    chunks@.len() as u32,
                    chunks.deep_view()[j],
                ),
        decreases chunks@.len() - i,
    {
        let frame = crate::relay::build_chunk_json(id, i as u32, total, chunks[i].as_slice());
        let ghost prev = frames.deep_view();
        let ghost frame_view = frame@;
        frames.push(frame);
        proof {
            assert(frames.deep_view() =~= prev.push(frame_view));
            assert(chunks.deep_view()[i as int] == chunks@[i as int]@);
            assert(frame_view == crate::relay::chunk_json_of(
                id,
                i as u32,
                chunks@.len() as u32,
                chunks.deep_view()[i as int],
            ));
        }
        i += 1;
    }
    (id, frames)
}

/// Builds the signed, encrypted publish frame that sends a text to the hex
/// destination secret over the relay, stamped with the wall clock. Returns
/// the frame with its creation time; rejects a malformed destination.
pub fn build_message_event(dest_hex: &str, sender_hex: &str, content: &str, kind: u32) -> (r:
    Result<(String, u64), CoreError>)
    ensures
        r is Ok <==> is_valid_hex(dest_hex@),
        r is Err ==> r->Err_0 == CoreError::InvalidHex,
        r is Ok ==> is_signed_envelope_event_for(
            r->Ok_0.0@,
            hex_decoded(dest_hex@),
            encode_utf8(payload_json_of(sender_hex@, content@)),
            kind,
            r->Ok_0.1,
        ),
{
    let dest = match hex_decode(dest_hex) {
        Some(d) => d,
        None => {
            return Err(CoreError::InvalidHex);
        },
    };
    let payload = build_payload_json(sender_hex, content);
    let now = now_unix();
    let event = build_encrypted_event(dest.as_slice(), payload.as_str(), kind, now);
    proof {
        assert(is_signed_envelope_event_for(
            event@,
            hex_decoded(dest_hex@),
            encode_utf8(payload_json_of(sender_hex@, content@)),
            kind,
            now,
        ));
    }
    Ok((event, now))
}

} // verus!
