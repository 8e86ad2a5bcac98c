use vstd::prelude::*;
use crate::crypto::{
    decrypt, encrypt, envelope_ct_of, envelope_open_of, generate_mailbox, get_ephemeral_signer,
    mailbox_of, schnorr_sign, serialize_xonly, sha256_of, sha256_str,
};
use crate::hexfmt::{hex_digit, hex_encode, hex_of, lemma_hex_of_len};
use crate::strutil::{dec_of, push_char, push_decimal};
use vstd::string::StrSliceExecFns;
use vstd::string::StringExecFns;
use vstd::string::StringSliceAdditionalSpecFns;

verus! {

/// The JSON string-escaping of one character: quote, backslash and the named
/// control characters get a two-character escape, other control characters a
/// `\u00..` escape, everything else stands as itself.
pub open spec fn esc_char(c: char) -> Seq<char> {
    if c == '"' {
        seq!['\\', '"']
    } else if c == '\\' {
        seq!['\\', '\\']
    } else if c == '\n' {
        seq!['\\', 'n']
    } else if c == '\r' {
        seq!['\\', 'r']
    } else if c == '\t' {
        seq!['\\', 't']
    } else if (c as u32) < 32 {
        seq!['\\', 'u', '0', '0', hex_digit((c as u32 / 16) as u8), hex_digit((c as u32 % 16) as u8)]
    } else {
        seq![c]
    }
}

/// The JSON string-escaping of a text.
pub open spec fn json_escaped(s: Seq<char>) -> Seq<char>
    decreases s.len(),
{
    if s.len() == 0 {
        Seq::empty()
    } else {
        json_escaped(s.drop_last()) + esc_char(s.last())
    }
}

/// Escapes a text for inclusion in a JSON string literal.
pub fn json_escape(s: &str) -> (r: String)
    ensures
        r@ == json_escaped(s@),
{
    let n = s.unicode_len();
    let mut out = String::new();
    let mut i: usize = 0;
    while i < n
        invariant
            n == s@.len(),
            i <= n,
            out@ == json_escaped(s@.take(i as int)),
        decreases n - i,
    {
        let c = s.get_char(i);
        if c == '"' {
            push_char(&mut out, '\\');
            push_char(&mut out, '"');
        } else if c == '\\' {
            push_char(&mut out, '\\');
            push_char(&mut out, '\\');
        } else if c == '\n' {
            push_char(&mut out, '\\');
            push_char(&mut out, 'n');
        } else if c == '\r' {
            push_char(&mut out, '\\');
            push_char(&mut out, 'r');
        } else if c == '\t' {
            push_char(&mut out, '\\');
            push_char(&mut out, 't');
        } else if (c as u32) < 32 {
            push_char(&mut out, '\\');
            push_char(&mut out, 'u');
            push_char(&mut out, '0');
            push_char(&mut out, '0');
            push_char(&mut out, crate::hexfmt::hex_digit_exec((c as u32 / 16) as u8));
            push_char(&mut out, crate::hexfmt::hex_digit_exec((c as u32 % 16) as u8));
        } else {
            push_char(&mut out, c);
        }
        proof {
            let pre = s@.take(i as int);
            let post = s@.take(i + 1);
            assert(post.drop_last() =~= pre);
            assert(post.last() == s@[i as int]);
            assert(out@ =~= json_escaped(pre) + esc_char(s@[i as int]));
        }
        i += 1;
    }
    proof {
        assert(s@.take(s@.len() as int) =~= s@);
    }
    out
}

/// The canonical serialization that the event id is computed over:
/// `[0, pubkey, created_at, kind, [["t", mailbox]], content]`.
pub open spec fn event_canonical_of(
    pk_hex: Seq<char>,
    created_at: u64,
    kind: u32,
    mailbox: Seq<char>,
    content: Seq<char>,
) -> Seq<char> {
    "[0,\""@ + pk_hex + "\","@ + dec_of(created_at) + ","@ + dec_of(kind as u64) + ",[[\"t\",\""@
        + mailbox + "\"]],\""@ + json_escaped(content) + "\"]"@
}

/// Builds the canonical serialization of an event.
pub fn build_event_canonical(
    pk_hex: &str,
    created_at: u64,
    kind: u32,
    mailbox: &str,
    content: &str,
) -> (r: String)
    ensures
        r@ == event_canonical_of(pk_hex@, created_at, kind, mailbox@, content@),
{
    let mut s = String::new();
    s.append("[0,\"");
    s.append(pk_hex);
    s.append("\",");
    push_decimal(&mut s, created_at);
    s.append(",");
    push_decimal(&mut s, kind as u64);
    s.append(",[[\"t\",\"");
    s.append(mailbox);
    s.append("\"]],\"");
    let esc = json_escape(content);
    s.append(esc.as_str());
    s.append("\"]");
    proof {
        assert(s@ =~= event_canonical_of(pk_hex@, created_at, kind, mailbox@, content@));
    }
    s
}

/// The publish frame sent to the relay: `["EVENT", {..signed event..}]`.
pub open spec fn event_message_of(
    id_hex: Seq<char>,
    pk_hex: Seq<char>,
    created_at: u64,
    kind: u32,
    mailbox: Seq<char>,
    content: Seq<char>,
    sig_hex: Seq<char>,
) -> Seq<char> {
    "[\"EVENT\",{\"id\":\""@ + id_hex + "\",\"pubkey\":\""@ + pk_hex + "\",\"created_at\":"@
        + dec_of(created_at) + ",\"kind\":"@ + dec_of(kind as u64) + ",\"tags\":[[\"t\",\""@
        + mailbox + "\"]],\"content\":\""@ + json_escaped(content) + "\",\"sig\":\""@ + sig_hex
        + "\"}]"@
}

/// Builds the publish frame for a signed event.
pub fn build_event_message(
    id_hex: &str,
    pk_hex: &str,
    created_at: u64,
    kind: u32,
    mailbox: &str,
    content: &str,
    sig_hex: &str,
) -> (r: String)
    ensures
        r@ == event_message_of(
            id_hex@,
            pk_hex@,
            created_at,
            kind,
            mailbox@,
            content@,
            sig_hex@,
        ),
{
    let mut s = String::new();
    s.append("[\"EVENT\",{\"id\":\"");
    s.append(id_hex);
    s.append("\",\"pubkey\":\"");
    s.append(pk_hex);
    s.append("\",\"created_at\":");
    push_decimal(&mut s, created_at);
    s.append(",\"kind\":");
    push_decimal(&mut s, kind as u64);
    s.append(",\"tags\":[[\"t\",\"");
    s.append(mailbox);
    s.append("\"]],\"content\":\"");
    let esc = json_escape(content);
    s.append(esc.as_str());
    s.append("\",\"sig\":\"");
    s.append(sig_hex);
    s.append("\"}]");
    proof {
        assert(s@ =~= event_message_of(
            id_hex@,
            pk_hex@,
            created_at,
            kind,
            mailbox@,
            content@,
            sig_hex@,
        ));
    }
    s
}

/// A subscription frame: `["REQ", sub_id, {"kinds":[kind], "#t":[mailbox]}]`,
/// with an optional event-count limit.
pub open spec fn req_message_of(
    sub_id: Seq<char>,
    kind: u32,
    mailbox: Seq<char>,
    limit: Option<u64>,
) -> Seq<char> {
    "[\"REQ\",\""@ + sub_id + "\",{\"kinds\":["@ + dec_of(kind as u64) + "],\"#t\":[\""@ + mailbox
        + "\"]"@ + (if limit is Some {
        ",\"limit\":"@ + dec_of(limit->Some_0)
    } else {
        Seq::<char>::empty()
    }) + "}]"@
}

/// Builds the subscription frame for a mailbox and event kind.
pub fn build_req_message(sub_id: &str, kind: u32, mailbox: &str, limit: Option<u64>) -> (r: String)
    ensures
        r@ == req_message_of(sub_id@, kind, mailbox@, limit),
{
    let mut s = String::new();
    s.append("[\"REQ\",\"");
    s.append(sub_id);
    s.append("\",{\"kinds\":[");
    push_decimal(&mut s, kind as u64);
    s.append("],\"#t\":[\"");
    s.append(mailbox);
    s.append("\"]");
    match limit {
        Some(n) => {
            s.append(",\"limit\":");
            push_decimal(&mut s, n);
        },
        None => {},
    }
    s.append("}]");
    proof {
        assert(s@ =~= req_message_of(sub_id@, kind, mailbox@, limit));
    }
    s
}

/// The event id: SHA-256 over the canonical serialization. Returns the raw
/// digest and its hex form.
pub fn compute_event_id(canonical: &str) -> (r: (Vec<u8>, String))
    ensures
        r.0@ == sha256_of(canonical@),
        r.0@.len() == 32,
        r.1@ == hex_of(sha256_of(canonical@)),
{
    let digest = sha256_str(canonical);
    let id_hex = hex_encode(digest.as_slice());
    (digest, id_hex)
}

/// Whether `r` is a well-formed publish frame for this content, addressed to
/// the secret's mailbox at the send time, with some 64-digit ephemeral public
/// key and 128-digit signature, and an id that is the SHA-256 of the
/// canonical serialization.
pub open spec fn is_signed_event_for(
    r: Seq<char>,
    dest_root: Seq<u8>,
    content: Seq<char>,
    kind: u32,
    now: u64,
) -> bool {
    exists|pk_hex: Seq<char>, sig_hex: Seq<char>|
        pk_hex.len() == 64 && sig_hex.len() == 128 && r == event_message_of(
            hex_of(
                sha256_of(event_canonical_of(pk_hex, now, kind, mailbox_of(dest_root, now), content)),
            ),
            pk_hex,
            now,
            kind,
            mailbox_of(dest_root, now),
            content,
            sig_hex,
        )
}

/// Builds and signs a complete publish frame for a payload addressed to a
/// destination secret: the mailbox for the send time, a fresh ephemeral
/// keypair, the id as SHA-256 of the canonical serialization, and a Schnorr
/// signature over the id. The keypair and signature are random, so the
/// contract fixes the frame up to the 64-digit public key and the 128-digit
/// signature.
pub fn build_signed_event(dest_root: &[u8], content: &str, kind: u32, now: u64) -> (r: String)
    ensures
        is_signed_event_for(r@, dest_root@, content@, kind, now),
{
    let mailbox = generate_mailbox(dest_root, now);
    let (kp, xonly) = get_ephemeral_signer();
    let pk_bytes = serialize_xonly(&xonly);
    let pk_hex = hex_encode(pk_bytes.as_slice());
    let canonical = build_event_canonical(pk_hex.as_str(), now, kind, mailbox.as_str(), content);
    let (id_bytes, id_hex) = compute_event_id(canonical.as_str());
    let sig = schnorr_sign(&kp, id_bytes.as_slice());
    let sig_hex = hex_encode(sig.as_slice());
    let r = build_event_message(
        id_hex.as_str(),
        pk_hex.as_str(),
        now,
        kind,
        mailbox.as_str(),
        content,
        sig_hex.as_str(),
    );
    proof {
        lemma_hex_of_len(pk_bytes@);
        lemma_hex_of_len(sig@);
        assert(pk_hex@.len() == 64 && sig_hex@.len() == 128 && r@ == event_message_of(
            hex_of(
                sha256_of(
                    event_canonical_of(pk_hex@, now, kind, mailbox_of(dest_root@, now), content@),
                ),
            ),
            pk_hex@,
            now,
            kind,
            mailbox_of(dest_root@, now),
            content@,
            sig_hex@,
        ));
        assert(is_signed_event_for(r@, dest_root@, content@, kind, now));
    }
    r
}

/// Whether a text is valid JSON.
pub uninterp spec fn json_valid_of(s: Seq<char>) -> bool;

/// Relies on serde_json's `from_str`: whether the text parses as JSON, a
/// function of the text alone.
#[verifier::external_body]
fn json_is_valid(s: &str) -> (r: bool)
    ensures
        r == json_valid_of(s@),
{
    serde_json::from_str::<serde_json::Value>(s).is_ok()
}

/// The string at a top-level key of a JSON object, where the text parses and
/// the key holds a string.
pub uninterp spec fn json_string_field_of(s: Seq<char>, key: Seq<char>) -> Option<Seq<char>>;

/// Relies on serde_json (`from_str`, `Value` indexing by key, `as_str`): the
/// string at a top-level key, a function of the text and key alone; nothing
/// where the text does not parse or the key holds no string.
#[verifier::external_body]
fn json_string_field(s: &str, key: &str) -> (r: Option<String>)
    ensures
        r is Some <==> json_string_field_of(s@, key@) is Some,
        r is Some ==> r->Some_0@ == json_string_field_of(s@, key@)->Some_0,
{
    let v: serde_json::Value = serde_json::from_str(s).ok()?;
    v[key].as_str().map(|x| x.to_string())
}

/// The parts of a relay frame that the client reads: the frame tag (the
/// first array element) and, where present, the event's content string
/// (under the third element).
pub uninterp spec fn relay_frame_of(txt: Seq<char>) -> Option<(Seq<char>, Option<Seq<char>>)>;

/// Relies on serde_json (`from_str`, `Value` indexing, `as_str`): the tag
/// and content of a relay frame, a function of the text alone; nothing where
/// the text does not parse or the first element is no string.
#[verifier::external_body]
fn relay_frame_fields(txt: &str) -> (r: Option<(String, Option<String>)>)
    ensures
        r is Some <==> relay_frame_of(txt@) is Some,
        r is Some ==> r->Some_0.0@ == relay_frame_of(txt@)->Some_0.0,
        r is Some ==> (r->Some_0.1 is Some <==> relay_frame_of(txt@)->Some_0.1 is Some),
        r is Some && r->Some_0.1 is Some ==> r->Some_0.1->Some_0@ == relay_frame_of(
            txt@,
        )->Some_0.1->Some_0,
{
    let v: serde_json::Value = serde_json::from_str(txt).ok()?;
    let tag = v[0].as_str()?.to_string();
    let content = v[2]["content"].as_str().map(|x| x.to_string());
    Some((tag, content))
}

/// The bytes a standard-alphabet base64 text denotes, where it is one.
pub uninterp spec fn b64_decode_of(s: Seq<char>) -> Option<Seq<u8>>;

/// The standard-alphabet base64 text for a byte string.
pub uninterp spec fn b64_encode_of(b: Seq<u8>) -> Seq<char>;

/// Relies on base64's standard-alphabet `decode`: bytes determined by the
/// text alone; fails exactly where the text is not standard base64.
#[verifier::external_body]
fn b64_decode(s: &str) -> (r: Option<Vec<u8>>)
    ensures
        r is Some <==> b64_decode_of(s@) is Some,
        r is Some ==> r->Some_0@ == b64_decode_of(s@)->Some_0,
{
    base64::Engine::decode(&base64::prelude::BASE64_STANDARD, s).ok()
}

/// Relies on base64's standard-alphabet `encode`: text determined by the
/// bytes alone, and `decode` gives the bytes back from it.
#[verifier::external_body]
fn b64_encode(b: &[u8]) -> (r: String)
    ensures
        r@ == b64_encode_of(b@),
        b64_decode_of(r@) == Some(b@),
{
    base64::Engine::encode(&base64::prelude::BASE64_STANDARD, b)
}

/// The unsigned number at a top-level key of a JSON object, where the text
/// parses and the key holds one.
pub uninterp spec fn json_u64_field_of(s: Seq<char>, key: Seq<char>) -> Option<u64>;

/// Relies on serde_json (`from_str`, `Value` indexing by key, `as_u64`): the
/// unsigned number at a top-level key, a function of the text and key alone;
/// nothing where the text does not parse or the key holds no such number.
#[verifier::external_body]
fn json_u64_field(s: &str, key: &str) -> (r: Option<u64>)
    ensures
        r is Some <==> json_u64_field_of(s@, key@) is Some,
        r is Some ==> r->Some_0 == json_u64_field_of(s@, key@)->Some_0,
{
    let v: serde_json::Value = serde_json::from_str(s).ok()?;
    v[key].as_u64()
}

/// The text std's lossy UTF-8 conversion yields for a byte string.
pub uninterp spec fn utf8_lossy_of(b: Seq<u8>) -> Seq<char>;

/// Relies on std's `String::from_utf8_lossy`: text determined by the bytes
/// alone.
#[verifier::external_body]
pub(crate) fn utf8_lossy(b: &[u8]) -> (r: String)
    ensures
        r@ == utf8_lossy_of(b@),
{
    String::from_utf8_lossy(b).to_string()
}

/// The application payload object carried inside an envelope:
/// `{"content": text, "sender": hex identity}` (keys in serialization
/// order).
pub open spec fn payload_json_of(sender: Seq<char>, content: Seq<char>) -> Seq<char> {
    "{\"content\":\""@ + json_escaped(content) + "\",\"sender\":\""@ + json_escaped(sender)
        + "\"}"@
}

/// Builds the application payload object for a sender identity and text.
pub fn build_payload_json(sender: &str, content: &str) -> (r: String)
    ensures
        r@ == payload_json_of(sender@, content@),
{
    let mut s = String::new();
    s.append("{\"content\":\"");
    let esc_c = json_escape(content);
    s.append(esc_c.as_str());
    s.append("\",\"sender\":\"");
    let esc_s = json_escape(sender);
    s.append(esc_s.as_str());
    s.append("\"}");
    proof {
        assert(s@ =~= payload_json_of(sender@, content@));
    }
    s
}

/// The encrypted-envelope content convention: `{"n": base64 nonce,
/// "p": base64 ciphertext}`.
pub open spec fn envelope_json_of(ct: Seq<u8>, nonce: Seq<u8>) -> Seq<char> {
    "{\"n\":\""@ + b64_encode_of(nonce) + "\",\"p\":\""@ + b64_encode_of(ct) + "\"}"@
}

/// Builds the envelope content object for a ciphertext and nonce.
pub fn build_envelope_json(ct: &[u8], nonce: &[u8]) -> (r: String)
    ensures
        r@ == envelope_json_of(ct@, nonce@),
{
    let mut s = String::new();
    s.append("{\"n\":\"");
    let n64 = b64_encode(nonce);
    s.append(n64.as_str());
    s.append("\",\"p\":\"");
    let p64 = b64_encode(ct);
    s.append(p64.as_str());
    s.append("\"}");
    proof {
        assert(s@ =~= envelope_json_of(ct@, nonce@));
    }
    s
}

/// What decrypting an envelope-convention content under a secret yields: the
/// plaintext where both fields are present, decode as base64, the nonce is
/// 24 bytes, and the ciphertext authenticates; nothing otherwise.
pub open spec fn envelope_plaintext_of(content: Seq<char>, root: Seq<u8>) -> Option<Seq<u8>> {
    let p = json_string_field_of(content, "p"@);
    let n = json_string_field_of(content, "n"@);
    if p is Some && n is Some {
        let ct = b64_decode_of(p->Some_0);
        let nb = b64_decode_of(n->Some_0);
        if ct is Some && nb is Some && nb->Some_0.len() == 24 {
            envelope_open_of(root, nb->Some_0, ct->Some_0)
        } else {
            None
        }
    } else {
        None
    }
}

/// What one relay frame yields for this node: the decrypted plaintext where
/// the frame is an event whose content is an envelope this secret opens.
pub open spec fn frame_plaintext_of(txt: Seq<char>, root: Seq<u8>) -> Option<Seq<u8>> {
    let f = relay_frame_of(txt);
    if f is Some && f->Some_0.0 == "EVENT"@ && f->Some_0.1 is Some {
        envelope_plaintext_of(f->Some_0.1->Some_0, root)
    } else {
        None
    }
}

/// What the client does with one incoming relay frame.
pub enum FrameAction {
    /// The end-of-stored-events marker: stop reading.
    EndOfStored,
    /// An event addressed to this node: its decrypted text.
    Deliver(String),
    /// Anything else — not an event, not addressed here, or malformed. On a
    /// shared relay this is the routine case and is silently skipped.
    Skip,
}

/// Classifies one incoming relay frame for the `check` loop: the
/// end-of-stored-events marker stops the read; an event whose envelope this
/// secret opens is delivered as text; everything else is skipped.
pub fn process_relay_frame(txt: &str, my_root: &[u8]) -> (r: FrameAction)
    ensures
        r is EndOfStored <==> (relay_frame_of(txt@) is Some && relay_frame_of(txt@)->Some_0.0
            == "EOSE"@),
        r is Deliver <==> frame_plaintext_of(txt@, my_root@) is Some,
        r is Deliver ==> r->Deliver_0@ == utf8_lossy_of(
            frame_plaintext_of(txt@, my_root@)->Some_0,
        ),
{
    proof {
        reveal_strlit("EOSE");
        reveal_strlit("EVENT");
        assert("EOSE"@.len() == 4);
        assert("EVENT"@.len() == 5);
    }
    let frame = relay_frame_fields(txt);
    let (tag, content_opt) = match frame {
        Some(f) => f,
        None => {
            return FrameAction::Skip;
        },
    };
    if tag == String::from_str("EOSE") {
        return FrameAction::EndOfStored;
    }
    if !(tag == String::from_str("EVENT")) {
        return FrameAction::Skip;
    }
    let content = match content_opt {
        Some(c) => c,
        None => {
            return FrameAction::Skip;
        },
    };
    let p = match json_string_field(content.as_str(), "p") {
        Some(v) => v,
        None => {
            return FrameAction::Skip;
        },
    };
    let n = match json_string_field(content.as_str(), "n") {
        Some(v) => v,
        None => {
            return FrameAction::Skip;
        },
    };
    let ct = match b64_decode(p.as_str()) {
        Some(v) => v,
        None => {
            return FrameAction::Skip;
        },
    };
    let nb = match b64_decode(n.as_str()) {
        Some(v) => v,
        None => {
            return FrameAction::Skip;
        },
    };
    if nb.len() != 24 {
        return FrameAction::Skip;
    }
    match decrypt(my_root, nb.as_slice(), ct.as_slice()) {
        Ok(plain) => FrameAction::Deliver(utf8_lossy(plain.as_slice())),
        Err(_) => FrameAction::Skip,
    }
}

/// The payload object carrying one piece of a chunked transfer:
/// `{"chunk_index": index, "data": base64 bytes, "id": transfer id,
/// "total_chunks": total}` (keys in serialization order).
pub open spec fn chunk_json_of(id: u64, index: u32, total: u32, data: Seq<u8>) -> Seq<char> {
    "{\"chunk_index\":"@ + dec_of(index as u64) + ",\"data\":\""@ + b64_encode_of(data)
        + "\",\"id\":"@ + dec_of(id) + ",\"total_chunks\":"@ + dec_of(total as u64) + "}"@
}

/// Builds the payload object for one chunk of a transfer.
pub fn build_chunk_json(id: u64, index: u32, total: u32, data: &[u8]) -> (r: String)
    ensures
        r@ == chunk_json_of(id, index, total, data@),
{
    let mut s = String::new();
    s.append("{\"chunk_index\":");
    push_decimal(&mut s, index as u64);
    s.append(",\"data\":\"");
    let b = b64_encode(data);
    s.append(b.as_str());
    s.append("\",\"id\":");
    push_decimal(&mut s, id);
    s.append(",\"total_chunks\":");
    push_decimal(&mut s, total as u64);
    s.append("}");
    proof {
        assert(s@ =~= chunk_json_of(id, index, total, data@));
    }
    s
}

/// What a text denotes as a chunk-transfer payload: present exactly when all
/// four fields are there, the counts fit 32 bits, and the data is base64.
pub open spec fn chunk_payload_of(s: Seq<char>) -> Option<(u64, u32, u32, Seq<u8>)> {
    let id = json_u64_field_of(s, "id"@);
    let idx = json_u64_field_of(s, "chunk_index"@);
    let tot = json_u64_field_of(s, "total_chunks"@);
    let data = json_string_field_of(s, "data"@);
    if id is Some && idx is Some && tot is Some && data is Some && idx->Some_0 <= 0xffffffff
        && tot->Some_0 <= 0xffffffff && b64_decode_of(data->Some_0) is Some {
        Some(
            (
                id->Some_0,
                idx->Some_0 as u32,
                tot->Some_0 as u32,
                b64_decode_of(data->Some_0)->Some_0,
            ),
        )
    } else {
        None
    }
}

/// Parses a text as a chunk-transfer payload:
/// `(transfer id, index, total, bytes)`.
pub fn parse_chunk_payload(s: &str) -> (r: Option<(u64, u32, u32, Vec<u8>)>)
    ensures
        r is Some <==> chunk_payload_of(s@) is Some,
        r is Some ==> r->Some_0.0 == chunk_payload_of(s@)->Some_0.0,
        r is Some ==> r->Some_0.1 == chunk_payload_of(s@)->Some_0.1,
        r is Some ==> r->Some_0.2 == chunk_payload_of(s@)->Some_0.2,
        r is Some ==> r->Some_0.3@ == chunk_payload_of(s@)->Some_0.3,
{
    let id = match json_u64_field(s, "id") {
        Some(v) => v,
        None => {
            return None;
        },
    };
    let idx = match json_u64_field(s, "chunk_index") {
        Some(v) => v,
        None => {
            return None;
        },
    };
    let tot = match json_u64_field(s, "total_chunks") {
        Some(v) => v,
        None => {
            return None;
        },
    };
    let data64 = match json_string_field(s, "data") {
        Some(v) => v,
        None => {
            return None;
        },
    };
    if idx > 0xffffffff || tot > 0xffffffff {
        return None;
    }
    let data = match b64_decode(data64.as_str()) {
        Some(v) => v,
        None => {
            return None;
        },
    };
    Some((id, idx as u32, tot as u32, data))
}

/// One decrypted payload, classified: a piece of a chunked transfer to hand
/// to the reassembler, or a plain message to store.
pub enum IncomingPayload {
    /// `(transfer id, index, total, bytes)` of one chunk.
    Chunk(u64, u32, u32, Vec<u8>),
    /// `(sender, text)` of a plain message.
    Message(String, String),
}

/// Classifies a decrypted payload: a well-formed chunk field set becomes a
/// chunk, everything else a plain message under the message conventions.
pub fn classify_incoming(text: &str) -> (r: IncomingPayload)
    ensures
        r is Chunk <==> chunk_payload_of(text@) is Some,
        r is Chunk ==> r->Chunk_0 == chunk_payload_of(text@)->Some_0.0,
        r is Chunk ==> r->Chunk_1 == chunk_payload_of(text@)->Some_0.1,
        r is Chunk ==> r->Chunk_2 == chunk_payload_of(text@)->Some_0.2,
        r is Chunk ==> r->Chunk_3@ == chunk_payload_of(text@)->Some_0.3,
        r is Message ==> r->Message_0@ == classified_payload_of(text@).0,
        r is Message ==> r->Message_1@ == classified_payload_of(text@).1,
{
    match parse_chunk_payload(text) {
        Some((id, idx, tot, data)) => IncomingPayload::Chunk(id, idx, tot, data),
        None => {
            let (sender, content) = classify_payload(text);
            IncomingPayload::Message(sender, content)
        },
    }
}

/// The `(sender, text)` a received plaintext denotes: its `sender` and
/// `content` fields where it is JSON (missing fields fall back to
/// `"Unknown"` and the empty text), else an unknown sender with the raw
/// text itself.
pub open spec fn classified_payload_of(raw: Seq<char>) -> (Seq<char>, Seq<char>) {
    if json_valid_of(raw) {
        (
            if json_string_field_of(raw, "sender"@) is Some {
                json_string_field_of(raw, "sender"@)->Some_0
            } else {
                "Unknown"@
            },
            if json_string_field_of(raw, "content"@) is Some {
                json_string_field_of(raw, "content"@)->Some_0
            } else {
                Seq::<char>::empty()
            },
        )
    } else {
        ("Unknown"@, raw)
    }
}

/// Splits a received plaintext into sender and message text, accepting both
/// the JSON payload convention and bare text.
pub fn classify_payload(raw: &str) -> (r: (String, String))
    ensures
        r.0@ == classified_payload_of(raw@).0,
        r.1@ == classified_payload_of(raw@).1,
{
    if json_is_valid(raw) {
        let sender = match json_string_field(raw, "sender") {
            Some(s) => s,
            None => String::from_str("Unknown"),
        };
        let content = match json_string_field(raw, "content") {
            Some(c) => c,
            None => String::new(),
        };
        (sender, content)
    } else {
        (String::from_str("Unknown"), String::from_str(raw))
    }
}

/// Whether `r` is a well-formed publish frame whose content is the encrypted
/// envelope of this payload under the destination secret and some 24-byte
/// nonce — and that envelope opens back to the payload under the same secret.
pub open spec fn is_signed_envelope_event_for(
    r: Seq<char>,
    dest_root: Seq<u8>,
    payload: Seq<u8>,
    kind: u32,
    now: u64,
) -> bool {
    exists|nonce: Seq<u8>|
        #![trigger envelope_json_of(envelope_ct_of(dest_root, nonce, payload), nonce)]
        (nonce.len() == 24 && envelope_open_of(
            dest_root,
            nonce,
            envelope_ct_of(dest_root, nonce, payload),
        ) == Some(payload) && is_signed_event_for(
            r,
            dest_root,
            envelope_json_of(envelope_ct_of(dest_root, nonce, payload), nonce),
            kind,
            now,
        ))
}

/// Builds and signs a publish frame whose content is the encrypted envelope
/// of a payload under the destination secret and a fresh random nonce: the
/// canonical send path. The contract fixes the frame up to the random key,
/// signature and nonce, and states that the envelope opens back to the
/// payload under the same secret.
pub fn build_encrypted_event(dest_root: &[u8], payload: &str, kind: u32, now: u64) -> (r: String)
    ensures
        is_signed_envelope_event_for(r@, dest_root@, payload.spec_bytes(), kind, now),
{
    let (ct, nonce) = encrypt(dest_root, payload.as_bytes());
    let content = build_envelope_json(ct.as_slice(), nonce.as_slice());
    let r = build_signed_event(dest_root, content.as_str(), kind, now);
    proof {
        assert(nonce@.len() == 24 && envelope_open_of(
            dest_root@,
            nonce@,
            envelope_ct_of(dest_root@, nonce@, payload.spec_bytes()),
        ) == Some(payload.spec_bytes()) && is_signed_event_for(
            r@,
            dest_root@,
            envelope_json_of(envelope_ct_of(dest_root@, nonce@, payload.spec_bytes()), nonce@),
            kind,
            now,
        ));
        assert(is_signed_envelope_event_for(r@, dest_root@, payload.spec_bytes(), kind, now));
    }
    r
}

} // verus!
