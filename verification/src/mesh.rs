use vstd::prelude::*;
use crate::bytesutil::{be32_of, u32_be_bytes, u32_from_be, u32_to_be_bytes, lemma_u32_be_round_trip};
use crate::crypto::{
    decrypt, envelope_ct_of, envelope_encrypt, envelope_open_of, mailbox_short, mailbox_short_of,
    lemma_mailbox_deterministic,
};
use crate::clock::now_unix;
use crate::transit::{cache_insert_model, md5_of, TransitCache};
use vstd::string::StringSliceAdditionalSpecFns;

verus! {

/// The compact mesh packet: a truncated mailbox, a truncated timestamp (which
/// doubles as the nonce seed), and the ciphertext.
pub struct BlePacket {
    /// Big-endian prefix of the destination's mailbox digest.
    pub mb_short: u32,
    /// Unix time truncated to 32 bits; replay guard and nonce seed.
    pub ts_short: u32,
    /// Envelope ciphertext.
    pub ct: Vec<u8>,
}

/// The wire bytes of a mesh packet: both short fields big-endian, then the
/// ciphertext behind a 4-byte big-endian length prefix.
pub open spec fn packet_bytes_of(mb_short: u32, ts_short: u32, ct: Seq<u8>) -> Seq<u8>
    recommends
        ct.len() < 0x100000000,
{
    u32_be_bytes(mb_short) + u32_be_bytes(ts_short) + u32_be_bytes(ct.len() as u32) + ct
}

/// Whether a byte string is a well-formed mesh packet: a full header whose
/// length field matches the remainder.
pub open spec fn packet_bytes_valid(data: Seq<u8>) -> bool {
    data.len() >= 12 && be32_of(data.subrange(8, 12)) == data.len() - 12
}

/// Serializes a packet to its wire bytes.
pub fn encode_packet(p: &BlePacket) -> (r: Vec<u8>)
    requires
        p.ct@.len() < 0x100000000,
    ensures
        r@ == packet_bytes_of(p.mb_short, p.ts_short, p.ct@),
{
    let mut out = u32_to_be_bytes(p.mb_short);
    let mut ts = u32_to_be_bytes(p.ts_short);
    out.append(&mut ts);
    let mut ln = u32_to_be_bytes(p.ct.len() as u32);
    out.append(&mut ln);
    let ghost header = out@;
    let mut i: usize = 0;
    while i < p.ct.len()
        invariant
            i <= p.ct@.len(),
            out@ == header + p.ct@.take(i as int),
        decreases p.ct@.len() - i,
    {
        out.push(p.ct[i]);
        proof {
            assert(header + p.ct@.take(i + 1) =~= (header + p.ct@.take(i as int)).push(
                p.ct@[i as int],
            ));
        }
        i += 1;
    }
    proof {
        assert(p.ct@.take(p.ct@.len() as int) =~= p.ct@);
        assert(out@ =~= packet_bytes_of(p.mb_short, p.ts_short, p.ct@));
    }
    out
}

/// Parses wire bytes back into a packet. Malformed input yields nothing:
/// on a broadcast medium it is simply not a mesh packet.
pub fn decode_packet(data: &[u8]) -> (r: Option<BlePacket>)
    ensures
        r is Some <==> packet_bytes_valid(data@),
        r is Some ==> r->Some_0.mb_short == be32_of(data@.subrange(0, 4)),
        r is Some ==> r->Some_0.ts_short == be32_of(data@.subrange(4, 8)),
        r is Some ==> r->Some_0.ct@ == data@.skip(12),
{
    if data.len() < 12 {
        return None;
    }
    let mb = u32_from_be(data[0], data[1], data[2], data[3]);
    let ts = u32_from_be(data[4], data[5], data[6], data[7]);
    let ln = u32_from_be(data[8], data[9], data[10], data[11]);
    proof {
        assert(seq![data@[0], data@[1], data@[2], data@[3]] =~= data@.subrange(0, 4));
        assert(seq![data@[4], data@[5], data@[6], data@[7]] =~= data@.subrange(4, 8));
        assert(seq![data@[8], data@[9], data@[10], data@[11]] =~= data@.subrange(8, 12));
    }
    if ln as usize != data.len() - 12 {
        return None;
    }
    let ct = vstd::slice::slice_to_vec(vstd::slice::slice_subrange(data, 12, data.len()));
    Some(BlePacket { mb_short: mb, ts_short: ts, ct })
}

/// Encoding then parsing gives back the packet's fields.
pub proof fn lemma_packet_round_trip(mb: u32, ts: u32, ct: Seq<u8>)
    requires
        ct.len() < 0x100000000,
    ensures
        packet_bytes_valid(packet_bytes_of(mb, ts, ct)),
        be32_of(packet_bytes_of(mb, ts, ct).subrange(0, 4)) == mb,
        be32_of(packet_bytes_of(mb, ts, ct).subrange(4, 8)) == ts,
        packet_bytes_of(mb, ts, ct).skip(12) == ct,
{
    let d = packet_bytes_of(mb, ts, ct);
    assert(d.subrange(0, 4) =~= u32_be_bytes(mb));
    assert(d.subrange(4, 8) =~= u32_be_bytes(ts));
    assert(d.subrange(8, 12) =~= u32_be_bytes(ct.len() as u32));
    assert(d.skip(12) =~= ct);
    lemma_u32_be_round_trip(mb);
    lemma_u32_be_round_trip(ts);
    lemma_u32_be_round_trip(ct.len() as u32);
}

/// The compact-mode nonce: the truncated timestamp big-endian in the first
/// four bytes of a zeroed 24-byte buffer. Two packets encrypted under the
/// same secret within one second share this nonce — the documented size
/// tradeoff of the compact mesh form.
pub open spec fn mesh_nonce_of(ts_short: u32) -> Seq<u8> {
    u32_be_bytes(ts_short) + Seq::new(20, |i: int| 0u8)
}

/// Builds the compact-mode nonce for a truncated timestamp.
pub fn mesh_nonce(ts_short: u32) -> (r: Vec<u8>)
    ensures
        r@ == mesh_nonce_of(ts_short),
        r@.len() == 24,
{
    let mut v = u32_to_be_bytes(ts_short);
    let mut i: usize = 0;
    while i < 20
        invariant
            i <= 20,
            v@ == u32_be_bytes(ts_short) + Seq::new(i as nat, |j: int| 0u8),
        decreases 20 - i,
    {
        v.push(0u8);
        proof {
            assert(u32_be_bytes(ts_short) + Seq::new((i + 1) as nat, |j: int| 0u8)
                =~= (u32_be_bytes(ts_short) + Seq::new(i as nat, |j: int| 0u8)).push(0u8));
        }
        i += 1;
    }
    v
}

/// The wire bytes of the mesh packet that `encode_mesh_packet` builds for a
/// destination secret, plaintext and send time.
pub open spec fn mesh_packet_of(dest_root: Seq<u8>, msg: Seq<u8>, now: u64) -> Seq<u8> {
    packet_bytes_of(
        mailbox_short_of(dest_root, now),
        now as u32,
        envelope_ct_of(dest_root, mesh_nonce_of(now as u32), msg),
    )
}

/// Builds the mesh packet for a plaintext addressed to a destination secret
/// at a given send time: truncated mailbox for the current slot, compact-mode
/// nonce from the truncated time, envelope encryption, wire encoding.
pub fn encode_mesh_packet(dest_root: &[u8], msg: &[u8], now: u64) -> (r: Vec<u8>)
    requires
        msg@.len() + 16 < 0x100000000,
    ensures
        r@ == mesh_packet_of(dest_root@, msg@, now),
        envelope_ct_of(dest_root@, mesh_nonce_of(now as u32), msg@).len() == msg@.len() + 16,
        envelope_open_of(
            dest_root@,
            mesh_nonce_of(now as u32),
            envelope_ct_of(dest_root@, mesh_nonce_of(now as u32), msg@),
        ) == Some(msg@),
{
    let mb = mailbox_short(dest_root, now);
    let ts: u32 = now as u32;
    let nonce = mesh_nonce(ts);
    let ct = envelope_encrypt(dest_root, msg, nonce.as_slice());
    let packet = BlePacket { mb_short: mb, ts_short: ts, ct };
    encode_packet(&packet)
}

/// Builds a mesh advertisement packet for a text message, stamped with the
/// wall clock.
pub fn generate_advertisement_packet(dest_root: &[u8], msg: &str) -> (r: Vec<u8>)
    requires
        msg.spec_bytes().len() + 16 < 0x100000000,
    ensures
        exists|now: u64| r@ == mesh_packet_of(dest_root@, msg.spec_bytes(), now),
{
    let now = now_unix();
    let r = encode_mesh_packet(dest_root, msg.as_bytes(), now);
    proof {
        assert(r@ == mesh_packet_of(dest_root@, msg.spec_bytes(), now));
    }
    r
}

/// What routing yields for incoming bytes: the plaintext where the bytes are
/// a well-formed packet whose truncated mailbox matches this node for the
/// current or previous hour slot and whose envelope authenticates; nothing
/// otherwise.
pub open spec fn mesh_route_of(data: Seq<u8>, root: Seq<u8>, now: u64) -> Option<Seq<u8>>
    recommends
        now >= 3600,
{
    if !packet_bytes_valid(data) {
        None
    } else {
        let mb = be32_of(data.subrange(0, 4));
        let ts = be32_of(data.subrange(4, 8));
        let ct = data.skip(12);
        if mb == mailbox_short_of(root, now) || mb == mailbox_short_of(root, (now - 3600) as u64) {
            envelope_open_of(root, mesh_nonce_of(ts), ct)
        } else {
            None
        }
    }
}

/// Routes incoming mesh bytes. A packet this node can read is returned as
/// plaintext and not cached (it is consumed); a well-formed packet this node
/// cannot read goes to the transit cache for store-and-forward relay;
/// malformed bytes are dropped silently. A packet encoded under the same
/// secret in the current hour slot always comes back as its plaintext.
pub fn handle_incoming_bytes(data: &[u8], my_root: &[u8], cache: &mut TransitCache, now: u64) -> (r:
    Option<Vec<u8>>)
    requires
        now >= 3600,
    ensures
        r is Some <==> mesh_route_of(data@, my_root@, now) is Some,
        r is Some ==> r->Some_0@ == mesh_route_of(data@, my_root@, now)->Some_0,
        r is Some ==> final(cache)@ == old(cache)@,
        r is None && packet_bytes_valid(data@) ==> final(cache)@ == cache_insert_model(
            old(cache)@,
            md5_of(data@),
            data@,
            now,
        ),
        r is None && !packet_bytes_valid(data@) ==> final(cache)@ == old(cache)@,
{
    let r: Option<Vec<u8>>;
    match decode_packet(data) {
        None => {
            r = None;
        },
        Some(packet) => {
            let cur = mailbox_short(my_root, now);
            let prev = mailbox_short(my_root, now - 3600);
            if packet.mb_short == cur || packet.mb_short == prev {
                let nonce = mesh_nonce(packet.ts_short);
                match decrypt(my_root, nonce.as_slice(), packet.ct.as_slice()) {
                    Ok(plain) => {
                        r = Some(plain);
                    },
                    Err(_) => {
                        cache.insert(data, now);
                        r = None;
                    },
                }
            } else {
                cache.insert(data, now);
                r = None;
            }
        },
    }
    r
}

/// Mesh round-trip law: a packet encoded for a secret in the current hour
/// slot routes back to its plaintext on the node holding that secret (and by
/// `handle_incoming_bytes`'s contract the transit cache is then untouched).
/// The last hypothesis is exactly what `encode_mesh_packet` ensures of its
/// ciphertext: the envelope it sealed opens back to the plaintext.
pub proof fn lemma_mesh_round_trip(root: Seq<u8>, msg: Seq<u8>, t: u64, now: u64)
    requires
        t / 3600 == now / 3600,
        now >= 3600,
        envelope_ct_of(root, mesh_nonce_of(t as u32), msg).len() < 0x100000000,
        envelope_open_of(
            root,
            mesh_nonce_of(t as u32),
            envelope_ct_of(root, mesh_nonce_of(t as u32), msg),
        ) == Some(msg),
    ensures
        mesh_route_of(mesh_packet_of(root, msg, t), root, now) == Some(msg),
{
    let d = mesh_packet_of(root, msg, t);
    let ct = envelope_ct_of(root, mesh_nonce_of(t as u32), msg);
    lemma_packet_round_trip(mailbox_short_of(root, t), t as u32, ct);
    lemma_mailbox_deterministic(root, t, now);
}

} // verus!
