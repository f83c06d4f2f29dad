//! The mod list that Forge servers embed in their status response: a byte
//! string packed fifteen bits to a character, then a small binary layout.
use vstd::prelude::*;
use vstd::slice::slice_subrange;
use crate::text::{chars_of, lit};

verus! {

/// One mod of a Forge server's list.
pub struct ForgeMod {
    pub mod_id: String,
    /// The mod's version, or `IGNORESERVERONLY` for a mod that clients need not have.
    pub mod_marker: String,
}

// ---------------------------------------------------------------------------
// The packing of bytes into characters
// ---------------------------------------------------------------------------

/// Bit `i` of the stream that the characters after the two header characters
/// carry: fifteen bits each, least significant first.
pub open spec fn stream_bit(cs: Seq<char>, i: int) -> bool {
    (((cs[2 + i / 15] as u32) & 0x7FFF) >> ((i % 15) as u32)) & 1 == 1
}

pub open spec fn bit_value(b: bool, t: u8) -> u8 {
    if b { (1u8 << t) as u8 } else { 0 }
}

/// The byte whose bit `t` is `f(p + t)`.
pub open spec fn byte_from(f: spec_fn(int) -> bool, p: int) -> u8 {
    bit_value(f(p), 0) | bit_value(f(p + 1), 1) | bit_value(f(p + 2), 2) | bit_value(f(p + 3), 3)
        | bit_value(f(p + 4), 4) | bit_value(f(p + 5), 5) | bit_value(f(p + 6), 6) | bit_value(f(p + 7), 7)
}

/// The length that the two header characters declare.
pub open spec fn declared_len(cs: Seq<char>) -> u64 {
    (cs[0] as u32 as u64) | ((cs[1] as u32 as u64) << 15u64)
}

/// How many bytes come out: the declared length, or as many whole bytes as
/// the characters hold where they hold fewer.
pub open spec fn unpacked_len(cs: Seq<char>) -> nat {
    let all: int = 15 * (cs.len() - 2) / 8;
    (if declared_len(cs) < all { declared_len(cs) as int } else { all }) as nat
}

/// The bytes packed into `cs`; `None` where there is no header.
pub open spec fn unpacked(cs: Seq<char>) -> Option<Seq<u8>> {
    if cs.len() < 2 {
        None
    } else {
        Some(Seq::new(unpacked_len(cs), |j: int| byte_from(|i: int| stream_bit(cs, i), 8 * j)))
    }
}

proof fn lemma_low_byte(x: u32, a0: u8, a1: u8, a2: u8, a3: u8, a4: u8, a5: u8, a6: u8, a7: u8) by (bit_vector)
    requires
        a0 == ((x >> 0u32) & 1) as u8,
        a1 == ((x >> 1u32) & 1) as u8,
        a2 == ((x >> 2u32) & 1) as u8,
        a3 == ((x >> 3u32) & 1) as u8,
        a4 == ((x >> 4u32) & 1) as u8,
        a5 == ((x >> 5u32) & 1) as u8,
        a6 == ((x >> 6u32) & 1) as u8,
        a7 == ((x >> 7u32) & 1) as u8,
    ensures
        (x & 0xFF) as u8 == a0 | (a1 << 1u8) | (a2 << 2u8) | (a3 << 3u8) | (a4 << 4u8) | (a5 << 5u8)
            | (a6 << 6u8) | (a7 << 7u8),
{
}

proof fn lemma_bit_value(x: u32, t: u8)
    requires
        t < 8,
    ensures
        bit_value((x >> t as u32) & 1 == 1, t) == (((x >> t as u32) & 1) as u8) << t,
{
    assert(((x >> t as u32) & 1 == 1) ==> (1u8 << t) == (((x >> t as u32) & 1) as u8) << t) by (bit_vector);
    assert(((x >> t as u32) & 1 != 1) ==> 0u8 == (((x >> t as u32) & 1) as u8) << t) by (bit_vector);
}

/// The low byte of `x`, read bit by bit.
proof fn lemma_byte_of_buffer(x: u32, f: spec_fn(int) -> bool, p: int)
    requires
        forall|t: u32| t < 8 ==> #[trigger] f(p + t) == ((x >> t) & 1 == 1),
    ensures
        (x & 0xFF) as u8 == byte_from(f, p),
{
    assert(f(p + 0u32) == ((x >> 0u32) & 1 == 1));
    assert(f(p + 1u32) == ((x >> 1u32) & 1 == 1));
    assert(f(p + 2u32) == ((x >> 2u32) & 1 == 1));
    assert(f(p + 3u32) == ((x >> 3u32) & 1 == 1));
    assert(f(p + 4u32) == ((x >> 4u32) & 1 == 1));
    assert(f(p + 5u32) == ((x >> 5u32) & 1 == 1));
    assert(f(p + 6u32) == ((x >> 6u32) & 1 == 1));
    assert(f(p + 7u32) == ((x >> 7u32) & 1 == 1));
    lemma_bit_value(x, 0);
    lemma_bit_value(x, 1);
    lemma_bit_value(x, 2);
    lemma_bit_value(x, 3);
    lemma_bit_value(x, 4);
    lemma_bit_value(x, 5);
    lemma_bit_value(x, 6);
    lemma_bit_value(x, 7);
    lemma_low_byte(x, ((x >> 0u32) & 1) as u8, ((x >> 1u32) & 1) as u8, ((x >> 2u32) & 1) as u8,
        ((x >> 3u32) & 1) as u8, ((x >> 4u32) & 1) as u8, ((x >> 5u32) & 1) as u8,
        ((x >> 6u32) & 1) as u8, ((x >> 7u32) & 1) as u8);
    assert((((x >> 0u32) & 1) as u8) << 0u8 == ((x >> 0u32) & 1) as u8) by (bit_vector);
}

proof fn lemma_shift_bits(x: u32, t: u32) by (bit_vector)
    requires
        t < 24,
    ensures
        ((x >> 8u32) >> t) & 1 == (x >> (t + 8) as u32) & 1,
{
}

proof fn lemma_shift_empty(x: u32, b: u32) by (bit_vector)
    requires
        8 <= b <= 32,
        b < 32 ==> x >> b == 0,
    ensures
        b - 8 < 32 ==> (x >> 8u32) >> (b - 8) as u32 == 0,
{
}

proof fn lemma_or_low(x: u32, v: u32, b: u32, t: u32) by (bit_vector)
    requires
        b <= 7,
        x >> b == 0,
        v <= 0x7FFF,
        t < b,
    ensures
        ((x | (v << b)) >> t) & 1 == (x >> t) & 1,
{
}

proof fn lemma_or_high(x: u32, v: u32, b: u32, t: u32) by (bit_vector)
    requires
        b <= 7,
        x >> b == 0,
        v <= 0x7FFF,
        b <= t < b + 15,
    ensures
        ((x | (v << b)) >> t) & 1 == (v >> (t - b) as u32) & 1,
{
}

proof fn lemma_or_bound(x: u32, v: u32, b: u32) by (bit_vector)
    requires
        b <= 7,
        x >> b == 0,
        v <= 0x7FFF,
    ensures
        (x | (v << b)) >> (b + 15) as u32 == 0,
{
}

/// Unpacks the byte string that `encoded` carries fifteen bits to a character.
pub fn decode_optimized(encoded: &str) -> (r: Option<Vec<u8>>)
    ensures
        match unpacked(encoded@) {
            None => r is None,
            Some(b) => r matches Some(v) && v@ == b,
        },
{
    let cs = chars_of(encoded);
    if cs.len() < 2 {
        return None;
    }
    let ghost f = |i: int| stream_bit(cs@, i);
    let size: u64 = (cs[0] as u32 as u64) | ((cs[1] as u32 as u64) << 15u64);
    let mut bytes: Vec<u8> = Vec::new();
    let mut buffer: u32 = 0;
    let mut bits_in_buf: u32 = 0;
    let mut k: usize = 2;
    assert(buffer >> bits_in_buf == 0) by (bit_vector)
        requires
            buffer == 0,
    ;
    while k < cs.len() && (bytes.len() as u64) < size
        invariant
            cs@ == encoded@,
            f == (|i: int| stream_bit(cs@, i)),
            size == declared_len(cs@),
            2 <= k <= cs.len(),
            bytes.len() <= size,
            bits_in_buf as int == 15 * (k - 2) - 8 * bytes.len(),
            bits_in_buf <= 22,
            buffer >> bits_in_buf == 0,
            forall|t: u32| t < bits_in_buf ==> #[trigger] f(8 * bytes.len() + t) == ((buffer >> t) & 1 == 1),
            forall|j: int| 0 <= j < bytes.len() ==> bytes@[j] == byte_from(f, 8 * j),
        decreases cs.len() - k, size - bytes.len(),
    {
        let ghost len0 = bytes.len();
        while bits_in_buf >= 8 && (bytes.len() as u64) < size
            invariant
                f == (|i: int| stream_bit(cs@, i)),
                2 <= k < cs.len(),
                bytes.len() <= size,
                len0 <= bytes.len(),
                bits_in_buf as int == 15 * (k - 2) - 8 * bytes.len(),
                bits_in_buf <= 22,
                bits_in_buf < 32 ==> buffer >> bits_in_buf == 0,
                forall|t: u32| t < bits_in_buf ==> #[trigger] f(8 * bytes.len() + t) == ((buffer >> t) & 1 == 1),
                forall|j: int| 0 <= j < bytes.len() ==> bytes@[j] == byte_from(f, 8 * j),
            decreases bits_in_buf,
        {
            proof {
                lemma_byte_of_buffer(buffer, f, 8 * bytes.len());
            }
            let ghost old_len = bytes.len();
            let ghost old_buf = buffer;
            bytes.push(#[verifier::truncate] ((buffer & 0xFF) as u8));
            proof {
                lemma_shift_empty(buffer, bits_in_buf);
            }
            buffer = buffer >> 8u32;
            bits_in_buf = bits_in_buf - 8;
            assert forall|t: u32| t < bits_in_buf implies #[trigger] f(8 * bytes.len() + t) == ((buffer >> t) & 1 == 1) by {
                lemma_shift_bits(old_buf, t);
                assert(8 * bytes.len() + t == 8 * old_len + (t + 8) as u32);
            }
        }
        if (bytes.len() as u64) < size {
            let ghost len = bytes.len();
            let ghost old_buf = buffer;
            let ghost b = bits_in_buf;
            let c: u32 = cs[k] as u32;
            let v: u32 = c & 0x7FFF;
            assert(v <= 0x7FFF) by (bit_vector)
                requires
                    v == c & 0x7FFF,
            ;
            proof {
                lemma_or_bound(buffer, v, bits_in_buf);
            }
            buffer = buffer | (v << bits_in_buf);
            bits_in_buf = bits_in_buf + 15;
            assert forall|t: u32| t < bits_in_buf implies #[trigger] f(8 * bytes.len() + t) == ((buffer >> t) & 1 == 1) by {
                if t < b {
                    lemma_or_low(old_buf, v, b, t);
                } else {
                    lemma_or_high(old_buf, v, b, t);
                    let i: int = 8 * len + t;
                    assert(i == 15 * (k - 2) + (t - b)) ;
                    assert(i / 15 == k - 2 && i % 15 == t - b) by (nonlinear_arith)
                        requires
                            i == 15 * (k - 2) + (t - b),
                            0 <= t - b < 15,
                    ;
                }
            }
            k += 1;
        }
    }
    let ghost n = cs.len() - 2;
    while (bytes.len() as u64) < size && bits_in_buf >= 8
        invariant
            cs@ == encoded@,
            f == (|i: int| stream_bit(cs@, i)),
            2 <= k <= cs.len(),
            k < cs.len() ==> bytes.len() == size,
            size == declared_len(cs@),
            bytes.len() <= size,
            bits_in_buf as int == 15 * (k - 2) - 8 * bytes.len(),
            bits_in_buf <= 22,
            bits_in_buf < 32 ==> buffer >> bits_in_buf == 0,
            forall|t: u32| t < bits_in_buf ==> #[trigger] f(8 * bytes.len() + t) == ((buffer >> t) & 1 == 1),
            forall|j: int| 0 <= j < bytes.len() ==> bytes@[j] == byte_from(f, 8 * j),
        decreases bits_in_buf,
    {
        proof {
            lemma_byte_of_buffer(buffer, f, 8 * bytes.len());
        }
        let ghost old_len = bytes.len();
        let ghost old_buf = buffer;
        bytes.push(#[verifier::truncate] ((buffer & 0xFF) as u8));
        proof {
            lemma_shift_empty(buffer, bits_in_buf);
        }
        buffer = buffer >> 8u32;
        bits_in_buf = bits_in_buf - 8;
        assert forall|t: u32| t < bits_in_buf implies #[trigger] f(8 * bytes.len() + t) == ((buffer >> t) & 1 == 1) by {
            lemma_shift_bits(old_buf, t);
            assert(8 * bytes.len() + t == 8 * old_len + (t + 8) as u32);
        }
    }
    assert(15 * (k - 2) <= 15 * n);
    assert(bytes.len() <= 15 * n / 8);
    assert(bytes.len() < size ==> bytes.len() == 15 * n / 8);
    assert(bytes.len() == unpacked_len(cs@));
    assert(bytes@ =~= Seq::new(unpacked_len(cs@), |j: int| byte_from(|i: int| stream_bit(cs@, i), 8 * j)));
    Some(bytes)
}

// ---------------------------------------------------------------------------
// The wire layout
// ---------------------------------------------------------------------------

/// A variable-length integer at the start of `b`, from its `i`-th byte on,
/// with `acc` holding the bits of the bytes before it: the value and the
/// number of bytes it takes. At most five bytes; the last has its high bit clear.
pub open spec fn varint_from(b: Seq<u8>, i: nat, acc: u32) -> Option<(u32, nat)>
    decreases 5 - i,
{
    if i >= 5 || i >= b.len() {
        None
    } else {
        let acc2 = acc | (((b[i as int] & 0x7F) as u32) << (7 * i) as u32);
        if b[i as int] & 0x80 == 0 {
            Some((acc2, i + 1))
        } else {
            varint_from(b, i + 1, acc2)
        }
    }
}

pub open spec fn varint(b: Seq<u8>) -> Option<(u32, nat)> {
    varint_from(b, 0, 0)
}

/// The text of bytes, where they are UTF-8.
pub open spec fn utf8_text(b: Seq<u8>) -> Option<Seq<char>> {
    if vstd::utf8::valid_utf8(b) { Some(vstd::utf8::decode_utf8(b)) } else { None }
}

/// A string prefixed with its length in bytes: the text and the bytes it takes.
pub open spec fn utf(b: Seq<u8>) -> Option<(Seq<char>, nat)> {
    match varint(b) {
        None => None,
        Some((len, n)) => if b.len() - n < len {
            None
        } else {
            match utf8_text(b.subrange(n as int, n + len)) {
                None => None,
                Some(s) => Some((s, (n + len) as nat)),
            }
        },
    }
}

/// `n` channels of a mod, each a name, a version and a flag: what is left after them.
pub open spec fn skip_channels(b: Seq<u8>, n: nat) -> Option<Seq<u8>>
    decreases n,
{
    if n == 0 {
        Some(b)
    } else {
        match skip_channels(b, (n - 1) as nat) {
            None => None,
            Some(r) => match utf(r) {
                None => None,
                Some((_, a)) => {
                    let r2 = r.subrange(a as int, r.len() as int);
                    match utf(r2) {
                        None => None,
                        Some((_, c)) => if r2.len() - c < 1 {
                            None
                        } else {
                            Some(r2.subrange(c as int + 1, r2.len() as int))
                        },
                    }
                },
            },
        }
    }
}

pub open spec fn ignore_server_only_marker() -> Seq<char> {
    "IGNORESERVERONLY"@
}

/// One mod at the start of `b`: its id, its version (or the marker), and what
/// follows it.
pub open spec fn mod_entry(b: Seq<u8>) -> Option<(Seq<char>, Seq<char>, Seq<u8>)> {
    match varint(b) {
        None => None,
        Some((flags, n)) => {
            let r = b.subrange(n as int, b.len() as int);
            match utf(r) {
                None => None,
                Some((id, a)) => {
                    let r2 = r.subrange(a as int, r.len() as int);
                    let ver: Option<(Seq<char>, Seq<u8>)> = if flags & 1 != 0 {
                        Some((ignore_server_only_marker(), r2))
                    } else {
                        match utf(r2) {
                            None => None,
                            Some((v, c)) => Some((v, r2.subrange(c as int, r2.len() as int))),
                        }
                    };
                    match ver {
                        None => None,
                        Some((v, r3)) => match skip_channels(r3, (flags >> 1u32) as nat) {
                            None => None,
                            Some(r4) => Some((id, v, r4)),
                        },
                    }
                },
            }
        },
    }
}

/// The first `n` mods of `b`, as (id, version), and what follows them.
pub open spec fn mod_entries(b: Seq<u8>, n: nat) -> Option<(Seq<(Seq<char>, Seq<char>)>, Seq<u8>)>
    decreases n,
{
    if n == 0 {
        Some((Seq::empty(), b))
    } else {
        match mod_entries(b, (n - 1) as nat) {
            None => None,
            Some((ms, r)) => match mod_entry(r) {
                None => None,
                Some((id, v, r2)) => Some((ms.push((id, v)), r2)),
            },
        }
    }
}

/// A decoded mod list: a truncation flag, a big-endian 16-bit count, and
/// that many mods.
pub open spec fn mod_list(b: Seq<u8>) -> Option<Seq<(Seq<char>, Seq<char>)>> {
    if b.len() < 3 {
        None
    } else {
        let count = b[1] as nat * 256 + b[2] as nat;
        match mod_entries(b.subrange(3, b.len() as int), count) {
            None => None,
            Some((ms, _)) => Some(ms),
        }
    }
}

proof fn lemma_varint_within(b: Seq<u8>, i: nat, acc: u32)
    ensures
        varint_from(b, i, acc) matches Some((_, n)) ==> i < n <= b.len(),
    decreases 5 - i,
{
    if i < 5 && i < b.len() {
        let acc2 = acc | (((b[i as int] & 0x7F) as u32) << (7 * i) as u32);
        lemma_varint_within(b, i + 1, acc2);
    }
}

proof fn lemma_skip_stays_none(b: Seq<u8>, m: nat, k: nat)
    requires
        skip_channels(b, m) is None,
        m <= k,
    ensures
        skip_channels(b, k) is None,
    decreases k - m,
{
    if m < k {
        lemma_skip_stays_none(b, m, (k - 1) as nat);
    }
}

proof fn lemma_mods_stay_none(b: Seq<u8>, m: nat, k: nat)
    requires
        mod_entries(b, m) is None,
        m <= k,
    ensures
        mod_entries(b, k) is None,
    decreases k - m,
{
    if m < k {
        lemma_mods_stay_none(b, m, (k - 1) as nat);
    }
}

/// Relies on std::str::from_utf8: it succeeds exactly on valid UTF-8, and the
/// text is what the bytes encode.
#[verifier::external_body]
fn utf8_to_string(b: &[u8]) -> (r: Option<String>)
    ensures
        r is Some <==> vstd::utf8::valid_utf8(b@),
        r matches Some(s) ==> s@ == vstd::utf8::decode_utf8(b@),
{
    std::str::from_utf8(b).ok().map(|s| s.to_string())
}

pub fn read_bool(bytes: &mut &[u8]) -> (r: Option<bool>)
    ensures
        old(bytes)@.len() == 0 ==> r is None && final(bytes)@ == old(bytes)@,
        old(bytes)@.len() > 0 ==> r == Some(old(bytes)@[0] != 0)
            && final(bytes)@ == old(bytes)@.subrange(1, old(bytes)@.len() as int),
{
    if bytes.len() == 0 {
        return None;
    }
    let byte = bytes[0];
    *bytes = slice_subrange(*bytes, 1, bytes.len());
    Some(byte != 0)
}

pub fn read_u16(bytes: &mut &[u8]) -> (r: Option<u16>)
    ensures
        old(bytes)@.len() < 2 ==> r is None && final(bytes)@ == old(bytes)@,
        old(bytes)@.len() >= 2 ==> (r matches Some(v)
            && v as nat == old(bytes)@[0] as nat * 256 + old(bytes)@[1] as nat
            && final(bytes)@ == old(bytes)@.subrange(2, old(bytes)@.len() as int)),
{
    if bytes.len() < 2 {
        return None;
    }
    let hi = bytes[0];
    let lo = bytes[1];
    *bytes = slice_subrange(*bytes, 2, bytes.len());
    let v: u16 = ((hi as u16) << 8u16) | (lo as u16);
    assert(v == hi as u16 * 256 + lo as u16) by (bit_vector)
        requires
            v == ((hi as u16) << 8u16) | (lo as u16),
    ;
    Some(v)
}

pub fn read_varint(bytes: &mut &[u8]) -> (r: Option<u32>)
    ensures
        match varint(old(bytes)@) {
            None => r is None,
            Some((v, n)) => r == Some(v)
                && final(bytes)@ == old(bytes)@.subrange(n as int, old(bytes)@.len() as int),
        },
{
    let ghost orig = bytes@;
    let mut num: u32 = 0;
    let mut shift: u32 = 0;
    let mut i: usize = 0;
    assert(orig.subrange(0, orig.len() as int) =~= orig);
    while i < 5
        invariant
            orig == old(bytes)@,
            i <= 5,
            i <= orig.len(),
            shift == 7 * i,
            bytes@ == orig.subrange(i as int, orig.len() as int),
            varint(orig) == varint_from(orig, i as nat, num),
        decreases 5 - i,
    {
        if bytes.len() == 0 {
            return None;
        }
        let byte = bytes[0];
        assert(byte == orig[i as int]);
        *bytes = slice_subrange(*bytes, 1, bytes.len());
        assert(bytes@ =~= orig.subrange(i + 1, orig.len() as int));
        let ghost prev = num;
        num = num | (((byte & 0x7F) as u32) << shift);
        assert(num == prev | (((orig[i as int] & 0x7F) as u32) << (7 * i as nat) as u32));
        if byte & 0x80 == 0 {
            assert(varint_from(orig, i as nat, prev) == Some((num, (i + 1) as nat)));
            return Some(num);
        }
        assert(varint_from(orig, i as nat, prev) == varint_from(orig, (i + 1) as nat, num));
        shift += 7;
        i += 1;
    }
    None
}

pub fn read_utf(bytes: &mut &[u8]) -> (r: Option<String>)
    ensures
        match utf(old(bytes)@) {
            None => r is None,
            Some((s, n)) => r matches Some(x) && x@ == s
                && final(bytes)@ == old(bytes)@.subrange(n as int, old(bytes)@.len() as int),
        },
{
    let ghost orig = bytes@;
    let len = match read_varint(bytes) {
        Some(l) => l as usize,
        None => return None,
    };
    let ghost n = varint(orig).unwrap().1;
    proof {
        lemma_varint_within(orig, 0, 0);
    }
    assert(bytes@.len() == orig.len() - n);
    if bytes.len() < len {
        return None;
    }
    assert(bytes@.subrange(0, len as int) =~= orig.subrange(n as int, n + len));
    let text = utf8_to_string(slice_subrange(*bytes, 0, len));
    match text {
        None => None,
        Some(t) => {
            *bytes = slice_subrange(*bytes, len, bytes.len());
            assert(bytes@ =~= orig.subrange(n + len, orig.len() as int));
            Some(t)
        },
    }
}

/// Reads past `n` channels, keeping nothing of them.
fn skip_channel_list(bytes: &mut &[u8], n: u32) -> (ok: bool)
    ensures
        match skip_channels(old(bytes)@, n as nat) {
            None => !ok,
            Some(r) => ok && final(bytes)@ == r,
        },
{
    let ghost orig = bytes@;
    let mut i: u32 = 0;
    while i < n
        invariant
            orig == old(bytes)@,
            i <= n,
            skip_channels(orig, i as nat) == Some(bytes@),
        decreases n - i,
    {
        let ghost before = bytes@;
        assert(skip_channels(orig, (i + 1) as nat) == match utf(before) {
            None => None,
            Some((_, a)) => {
                let r2 = before.subrange(a as int, before.len() as int);
                match utf(r2) {
                    None => None,
                    Some((_, c)) => if r2.len() - c < 1 {
                        None
                    } else {
                        Some(r2.subrange(c as int + 1, r2.len() as int))
                    },
                }
            },
        });
        if read_utf(bytes).is_none() {
            proof {
                lemma_skip_stays_none(orig, (i + 1) as nat, n as nat);
            }
            return false;
        }
        let ghost mid = bytes@;
        if read_utf(bytes).is_none() {
            proof {
                lemma_skip_stays_none(orig, (i + 1) as nat, n as nat);
            }
            return false;
        }
        let ghost mid2 = bytes@;
        if read_bool(bytes).is_none() {
            proof {
                lemma_skip_stays_none(orig, (i + 1) as nat, n as nat);
            }
            return false;
        }
        i += 1;
        assert(bytes@ =~= mid2.subrange(1, mid2.len() as int));
    }
    true
}

/// The mods of a decoded list, as (id, version).
pub open spec fn mods_view(ms: Seq<ForgeMod>) -> Seq<(Seq<char>, Seq<char>)> {
    ms.map_values(|m: ForgeMod| (m.mod_id@, m.mod_marker@))
}

/// The mod list held in decoded bytes; `None` where the bytes end too early.
pub fn mods_from_bytes(data: &[u8]) -> (r: Option<Vec<ForgeMod>>)
    ensures
        match mod_list(data@) {
            None => r is None,
            Some(ms) => r matches Some(v) && mods_view(v@) == ms,
        },
{
    let mut bytes = data;
    let _truncated = match read_bool(&mut bytes) {
        Some(t) => t,
        None => return None,
    };
    let mods_size = match read_u16(&mut bytes) {
        Some(n) => n,
        None => return None,
    };
    assert(bytes@ =~= data@.subrange(3, data@.len() as int));
    let ghost rest = bytes@;
    let mut mods: Vec<ForgeMod> = Vec::new();
    let mut k: u16 = 0;
    while k < mods_size
        invariant
            k <= mods_size,
            data@.len() >= 3,
            rest == data@.subrange(3, data@.len() as int),
            mods_size as nat == data@[1] as nat * 256 + data@[2] as nat,
            mod_entries(rest, k as nat) matches Some((ms, r)) && mods_view(mods@) == ms && bytes@ == r,
        decreases mods_size - k,
    {
        let ghost start = bytes@;
        let ghost done = mod_entries(rest, k as nat).unwrap().0;
        assert(mod_entries(rest, (k + 1) as nat) == match mod_entry(start) {
            None => None,
            Some((id, v, r2)) => Some((done.push((id, v)), r2)),
        });
        let flags = match read_varint(&mut bytes) {
            Some(f) => f,
            None => {
                proof {
                    lemma_mods_stay_none(rest, (k + 1) as nat, mods_size as nat);
                }
                return None;
            },
        };
        proof {
            lemma_varint_within(start, 0, 0);
        }
        let channel_size = flags >> 1u32;
        let is_ignore_server_only = (flags & 1) != 0;
        let mod_id = match read_utf(&mut bytes) {
            Some(s) => s,
            None => {
                proof {
                    lemma_mods_stay_none(rest, (k + 1) as nat, mods_size as nat);
                }
                return None;
            },
        };
        let mod_version = if is_ignore_server_only {
            lit("IGNORESERVERONLY")
        } else {
            match read_utf(&mut bytes) {
                Some(s) => s,
                None => {
                    proof {
                        lemma_mods_stay_none(rest, (k + 1) as nat, mods_size as nat);
                    }
                    return None;
                },
            }
        };
        if !skip_channel_list(&mut bytes, channel_size) {
            proof {
                lemma_mods_stay_none(rest, (k + 1) as nat, mods_size as nat);
            }
            return None;
        }
        let ghost before = mods@;
        mods.push(ForgeMod { mod_id, mod_marker: mod_version });
        assert(mods_view(mods@) =~= mods_view(before).push((mod_id@, mod_version@)));
        k += 1;
    }
    Some(mods)
}

/// The mods listed in a Forge server's packed mod data; `None` where the data
/// has no header or ends too early.
pub fn extract_forge_mods(encoded: &str) -> (r: Option<Vec<ForgeMod>>)
    ensures
        match unpacked(encoded@) {
            None => r is None,
            Some(b) => match mod_list(b) {
                None => r is None,
                Some(ms) => r matches Some(v) && mods_view(v@) == ms,
            },
        },
{
    let decoded = match decode_optimized(encoded) {
        Some(d) => d,
        None => return None,
    };
    mods_from_bytes(decoded.as_slice())
}

// ---------------------------------------------------------------------------
// Packing, the inverse of unpacking
// ---------------------------------------------------------------------------

/// Bit `p` of a byte string, least significant bit of each byte first; clear
/// past its end.
pub open spec fn byte_bit(b: Seq<u8>, p: int) -> bool {
    0 <= p < 8 * b.len() && (b[p / 8] >> ((p % 8) as u8)) & 1 == 1
}

/// Bit `t` of the code of `c`.
pub open spec fn char_bit(c: char, t: u32) -> bool {
    ((c as u32) >> t) & 1 == 1
}

/// `cs` is the packing of `b`: a header with its length in two fifteen-bit
/// halves, then as few characters as hold all its bits, fifteen each, the
/// last one padded with clear bits.
pub open spec fn packs(cs: Seq<char>, b: Seq<u8>) -> bool {
    let n = b.len();
    &&& n < 0x4000_0000
    &&& cs.len() == 2 + (8 * n + 14) / 15
    &&& cs[0] as u32 == n % 0x8000
    &&& cs[1] as u32 == n / 0x8000
    &&& forall|k: int| 2 <= k < cs.len() ==> #[trigger] (cs[k] as u32) <= 0x7FFF
    &&& forall|k: int, t: u32| 0 <= k < (8 * n + 14) / 15 && t < 15 ==>
        #[trigger] char_bit(cs[2 + k], t) == byte_bit(b, 15 * k + t)
}

proof fn lemma_header(a: u64, c: u64)
    requires
        a < 0x8000,
        c < 0x8000,
    ensures
        a | (c << 15u64) == a + c * 0x8000,
{
    assert(a | (c << 15u64) == a + (c << 15u64)) by (bit_vector)
        requires
            a < 0x8000,
            c < 0x8000,
    ;
    assert(c << 15u64 == c * 0x8000) by (bit_vector)
        requires
            c < 0x8000,
    ;
}

proof fn lemma_low_bits_of_char(x: u32, t: u32) by (bit_vector)
    requires
        x <= 0x7FFF,
        t < 15,
    ensures
        ((x & 0x7FFF) >> t) & 1 == (x >> t) & 1,
{
}

proof fn lemma_bits_of_byte(y: u8, t: u32) by (bit_vector)
    requires
        t < 8,
    ensures
        (((y as u32) >> t) & 1 == 1) == ((y >> (t as u8)) & 1 == 1),
        ((y as u32) & 0xFF) as u8 == y,
{
}

/// Unpacking the packing of a byte string gives the byte string back.
pub proof fn lemma_unpack_inverts_pack(cs: Seq<char>, b: Seq<u8>)
    requires
        packs(cs, b),
    ensures
        unpacked(cs) == Some(b),
{
    let n = b.len();
    let k = cs.len() - 2;
    lemma_header(cs[0] as u32 as u64, cs[1] as u32 as u64);
    assert(declared_len(cs) == n);
    assert(15 * k >= 8 * n);
    assert(k > 0 ==> 15 * (k - 1) < 8 * n);
    assert(unpacked_len(cs) == n);
    let f = |i: int| stream_bit(cs, i);
    assert forall|j: int| 0 <= j < n implies byte_from(f, 8 * j) == b[j] by {
        assert forall|t: u32| t < 8 implies #[trigger] f(8 * j + t) == (((b[j] as u32) >> t) & 1 == 1) by {
            let i: int = 8 * j + t;
            let q = i / 15;
            let r = i % 15;
            assert(0 <= q < k && 0 <= r < 15 && i == 15 * q + r) by (nonlinear_arith)
                requires
                    i == 8 * j + t,
                    0 <= j < n,
                    t < 8,
                    15 * k >= 8 * n,
                    q == i / 15,
                    r == i % 15,
            ;
            assert(i / 8 == j && i % 8 == t);
            lemma_low_bits_of_char(cs[2 + q] as u32, r as u32);
            lemma_bits_of_byte(b[j], t);
            assert(char_bit(cs[2 + q], r as u32) == byte_bit(b, 15 * q + (r as u32)));
        }
        lemma_byte_of_buffer(b[j] as u32, f, 8 * j);
        lemma_bits_of_byte(b[j], 0);
    }
    assert(unpacked(cs).unwrap() =~= b);
}

} // verus!
