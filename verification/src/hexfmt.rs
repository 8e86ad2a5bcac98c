use vstd::prelude::*;
use crate::strutil::push_char;

verus! {

/// The lowercase hex digit character for a nibble value.
pub open spec fn hex_digit(n: u8) -> char
    recommends
        n < 16,
{
    if n < 10 {
        (n + 48) as char
    } else {
        (n + 87) as char
    }
}

/// Lowercase hex encoding of a byte sequence: two digits per byte, high nibble first.
pub open spec fn hex_of(bytes: Seq<u8>) -> Seq<char>
    decreases bytes.len(),
{
    if bytes.len() == 0 {
        Seq::empty()
    } else {
        hex_of(bytes.drop_last()) + seq![
            hex_digit(bytes.last() / 16),
            hex_digit(bytes.last() % 16),
        ]
    }
}

pub proof fn lemma_hex_of_len(bytes: Seq<u8>)
    ensures
        hex_of(bytes).len() == 2 * bytes.len(),
    decreases bytes.len(),
{
    if bytes.len() > 0 {
        lemma_hex_of_len(bytes.drop_last());
    }
}

pub(crate) fn hex_digit_exec(n: u8) -> (c: char)
    requires
        n < 16,
    ensures
        c == hex_digit(n),
{
    if n < 10 {
        (n + 48) as char
    } else {
        (n + 87) as char
    }
}

/// Lowercase hex encoding of a byte slice.
pub fn hex_encode(bytes: &[u8]) -> (r: String)
    ensures
        r@ == hex_of(bytes@),
{
    let mut out = String::new();
    let mut i: usize = 0;
    while i < bytes.len()
        invariant
            i <= bytes@.len(),
            out@ == hex_of(bytes@.take(i as int)),
        decreases bytes@.len() - i,
    {
        let b = bytes[i];
        push_char(&mut out, hex_digit_exec(b / 16));
        push_char(&mut out, hex_digit_exec(b % 16));
        proof {
            let pre = bytes@.take(i as int);
            let post = bytes@.take(i + 1);
            assert(post.drop_last() =~= pre);
            assert(post.last() == bytes@[i as int]);
            assert(out@ =~= hex_of(post));
        }
        i += 1;
    }
    proof {
        assert(bytes@.take(bytes@.len() as int) =~= bytes@);
    }
    out
}

proof fn lemma_hex_digit_val(n: u8)
    requires
        n < 16,
    ensures
        is_hex_char(hex_digit(n)),
        hex_val(hex_digit(n)) == n,
{
}

/// Hex round trip: what `hex_encode` writes, `hex_decode` accepts and reads
/// back as the original bytes.
pub proof fn lemma_hex_round_trip(bytes: Seq<u8>)
    ensures
        is_valid_hex(hex_of(bytes)),
        hex_decoded(hex_of(bytes)) == bytes,
    decreases bytes.len(),
{
    lemma_hex_of_len(bytes);
    let s = hex_of(bytes);
    if bytes.len() == 0 {
        assert(hex_decoded(s) =~= bytes);
    } else {
        let pre = bytes.drop_last();
        let ps = hex_of(pre);
        lemma_hex_round_trip(pre);
        lemma_hex_of_len(pre);
        lemma_hex_digit_val(bytes.last() / 16);
        lemma_hex_digit_val(bytes.last() % 16);
        assert(forall|j: int| 0 <= j < ps.len() ==> s[j] == #[trigger] ps[j]);
        assert(s[2 * pre.len() as int] == hex_digit(bytes.last() / 16));
        assert(s[2 * pre.len() as int + 1] == hex_digit(bytes.last() % 16));
        assert forall|j: int| 0 <= j < s.len() implies is_hex_char(#[trigger] s[j]) by {
            if j >= ps.len() {
                assert(j == 2 * pre.len() as int || j == 2 * pre.len() as int + 1);
            }
        }
        assert forall|i: int| 0 <= i < bytes.len() implies hex_decoded(s)[i] == #[trigger] bytes[i]
            by {
            if i < pre.len() {
                assert(s[2 * i] == ps[2 * i]);
                assert(s[2 * i + 1] == ps[2 * i + 1]);
                assert(hex_decoded(ps)[i] == pre[i]);
            } else {
                assert(i == pre.len());
                assert(bytes[i] == bytes.last());
                assert((hex_val(s[2 * i]) * 16 + hex_val(s[2 * i + 1])) as u8 == bytes.last());
            }
        }
        assert(hex_decoded(s) =~= bytes);
    }
}

/// Whether a character is a hex digit (either case).
pub open spec fn is_hex_char(c: char) -> bool {
    (48 <= c as u32 && c as u32 <= 57) || (97 <= c as u32 && c as u32 <= 102) || (65 <= c as u32
        && c as u32 <= 70)
}

/// The nibble value of a hex digit character.
pub open spec fn hex_val(c: char) -> u8
    recommends
        is_hex_char(c),
{
    if 48 <= c as u32 && c as u32 <= 57 {
        (c as u32 - 48) as u8
    } else if 97 <= c as u32 && c as u32 <= 102 {
        (c as u32 - 87) as u8
    } else {
        (c as u32 - 55) as u8
    }
}

/// The bytes denoted by a sequence of hex digit pairs.
pub open spec fn hex_decoded(s: Seq<char>) -> Seq<u8> {
    Seq::new((s.len() / 2) as nat, |i: int| (hex_val(s[2 * i]) * 16 + hex_val(s[2 * i + 1])) as u8)
}

fn hex_val_exec(c: char) -> (r: Option<u8>)
    ensures
        r is Some <==> is_hex_char(c),
        r is Some ==> r->Some_0 == hex_val(c),
{
    let u = c as u32;
    if 48 <= u && u <= 57 {
        Some((u - 48) as u8)
    } else if 97 <= u && u <= 102 {
        Some((u - 87) as u8)
    } else if 65 <= u && u <= 70 {
        Some((u - 55) as u8)
    } else {
        None
    }
}

/// Whether a text is a well-formed hex string: even length, hex digits only.
pub open spec fn is_valid_hex(s: Seq<char>) -> bool {
    s.len() % 2 == 0 && forall|i: int| 0 <= i < s.len() ==> is_hex_char(#[trigger] s[i])
}

/// Decodes a hex string to bytes. Returns `None` exactly when the length is
/// odd or some character is not a hex digit.
pub fn hex_decode(s: &str) -> (r: Option<Vec<u8>>)
    ensures
        r is Some <==> is_valid_hex(s@),
        r is Some ==> r->Some_0@ == hex_decoded(s@),
{
    let n = s.unicode_len();
    if n % 2 != 0 {
        return None;
    }
    let mut out: Vec<u8> = Vec::new();
    let mut i: usize = 0;
    while i < n
        invariant
            n == s@.len(),
            n % 2 == 0,
            i <= n,
            i % 2 == 0,
            forall|j: int| 0 <= j < i ==> is_hex_char(s@[j]),
            out@ =~= hex_decoded(s@).take(i as int / 2),
        decreases n - i,
    {
        let c_hi = s.get_char(i);
        let c_lo = s.get_char(i + 1);
        let hi = match hex_val_exec(c_hi) {
            Some(v) => v,
            None => {
                return None;
            },
        };
        let lo = match hex_val_exec(c_lo) {
            Some(v) => v,
            None => {
                return None;
            },
        };
        out.push(hi * 16 + lo);
        proof {
            assert(out@ =~= hex_decoded(s@).take((i + 2) as int / 2));
        }
        i += 2;
    }
    proof {
        assert(out@ =~= hex_decoded(s@));
    }
    Some(out)
}

} // verus!
