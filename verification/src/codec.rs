//! The deterministic binary schema shared with external readers.
//!
//! Fixed-width integers are little-endian; a sequence of keys is a 32-bit
//! little-endian count followed by that many 32-byte keys; a boolean is a
//! single byte, zero or one. Spec-level encoders and parsers define the
//! schema; the executable readers and writers are proved against them.

use vstd::prelude::*;

use crate::KEY_LEN;
use crate::is_key;

verus! {

/// The value of two bytes read as a little-endian 16-bit integer.
pub open spec fn le16(b0: u8, b1: u8) -> u16 {
    (b0 + 256 * b1) as u16
}

/// The value of four bytes read as a little-endian 32-bit integer.
pub open spec fn le32(b0: u8, b1: u8, b2: u8, b3: u8) -> u32 {
    (b0 + 256 * b1 + 65536 * b2 + 16777216 * b3) as u32
}

/// The two little-endian bytes of a 16-bit integer.
pub open spec fn u16_bytes(x: u16) -> Seq<u8> {
    seq![(x % 256) as u8, (x / 256) as u8]
}

/// The four little-endian bytes of a 32-bit integer.
pub open spec fn u32_bytes(x: u32) -> Seq<u8> {
    seq![
        (x % 256) as u8,
        ((x / 256) % 256) as u8,
        ((x / 65536) % 256) as u8,
        (x / 16777216) as u8,
    ]
}

/// The single byte encoding a boolean.
pub open spec fn bool_byte(b: bool) -> u8 {
    if b { 1 } else { 0 }
}

pub proof fn lemma_le16_of_bytes(x: u16)
    ensures
        le16(u16_bytes(x)[0], u16_bytes(x)[1]) == x,
{
}

pub proof fn lemma_bytes_of_le16(b0: u8, b1: u8)
    ensures
        u16_bytes(le16(b0, b1)) =~= seq![b0, b1],
{
}

pub proof fn lemma_le32_of_bytes(x: u32)
    ensures
        le32(u32_bytes(x)[0], u32_bytes(x)[1], u32_bytes(x)[2], u32_bytes(x)[3]) == x,
{
}

#[verifier::rlimit(30)]
pub proof fn lemma_bytes_of_le32(b0: u8, b1: u8, b2: u8, b3: u8)
    ensures
        u32_bytes(le32(b0, b1, b2, b3)) =~= seq![b0, b1, b2, b3],
{
    let x = le32(b0, b1, b2, b3);
    assert(x == b0 + 256 * b1 + 65536 * b2 + 16777216 * b3);
    assert((x % 256) as u8 == b0 && ((x / 256) % 256) as u8 == b1 && ((x / 65536) % 256) as u8
        == b2 && (x / 16777216) as u8 == b3) by (bit_vector)
        requires
            x == b0 + 256 * b1 + 65536 * b2 + 16777216 * b3,
    ;
}

/// Reads a little-endian 16-bit integer at offset `i`.
pub fn read_u16(data: &Vec<u8>, i: usize) -> (r: u16)
    requires
        i + 2 <= data@.len(),
    ensures
        r == le16(data@[i as int], data@[i as int + 1]),
{
    let n: usize = data.len();
    proof {
        assert(i + 2 <= n);
    }
    data[i] as u16 + 256 * (data[i + 1] as u16)
}

/// Reads a little-endian 32-bit integer at offset `i`.
pub fn read_u32(data: &Vec<u8>, i: usize) -> (r: u32)
    requires
        i + 4 <= data@.len(),
    ensures
        r == le32(
            data@[i as int],
            data@[i as int + 1],
            data@[i as int + 2],
            data@[i as int + 3],
        ),
{
    let n: usize = data.len();
    proof {
        assert(i + 4 <= n);
    }
    data[i] as u32 + 256 * (data[i + 1] as u32) + 65536 * (data[i + 2] as u32) + 16777216 * (data[i
        + 3] as u32)
}

/// Appends the little-endian bytes of a 16-bit integer.
pub fn write_u16(out: &mut Vec<u8>, x: u16)
    ensures
        final(out)@ == old(out)@ + u16_bytes(x),
{
    out.push((x % 256) as u8);
    out.push((x / 256) as u8);
    proof {
        assert(out@ =~= old(out)@ + u16_bytes(x));
    }
}

/// Appends the little-endian bytes of a 32-bit integer.
pub fn write_u32(out: &mut Vec<u8>, x: u32)
    ensures
        final(out)@ == old(out)@ + u32_bytes(x),
{
    out.push((x % 256) as u8);
    out.push(((x / 256) % 256) as u8);
    out.push(((x / 65536) % 256) as u8);
    out.push((x / 16777216) as u8);
    proof {
        assert(out@ =~= old(out)@ + u32_bytes(x));
    }
}

/// Appends a copy of `src`.
pub fn write_bytes(out: &mut Vec<u8>, src: &Vec<u8>)
    ensures
        final(out)@ == old(out)@ + src@,
{
    let mut j: usize = 0;
    while j < src.len()
        invariant
            j <= src@.len(),
            out@ == old(out)@ + src@.take(j as int),
        decreases src@.len() - j,
    {
        out.push(src[j]);
        j += 1;
        proof {
            assert(out@ =~= old(out)@ + src@.take(j as int));
        }
    }
    proof {
        assert(src@.take(src@.len() as int) =~= src@);
    }
}

/// Copies the 32 bytes at offset `i` into a fresh vector.
pub fn read_key(data: &Vec<u8>, i: usize) -> (r: Vec<u8>)
    requires
        i + KEY_LEN <= data@.len(),
    ensures
        r@ == data@.subrange(i as int, i as int + KEY_LEN),
{
    let n: usize = data.len();
    let mut out: Vec<u8> = Vec::new();
    let mut j: usize = 0;
    while j < KEY_LEN
        invariant
            j <= KEY_LEN,
            n == data@.len(),
            i + KEY_LEN <= data@.len(),
            out@ == data@.subrange(i as int, i as int + j),
        decreases KEY_LEN - j,
    {
        out.push(data[i + j]);
        j += 1;
        proof {
            assert(out@ =~= data@.subrange(i as int, i as int + j));
        }
    }
    out
}

/// A run of `n` zero bytes: the padding of a freshly created slot.
pub open spec fn zeros(n: nat) -> Seq<u8> {
    Seq::new(n, |i: int| 0u8)
}

/// Whether `k` occurs among `keys`.
pub fn contains_key(keys: &Vec<Vec<u8>>, k: &Vec<u8>) -> (r: bool)
    ensures
        r == keys.deep_view().contains(k@),
{
    let mut i: usize = 0;
    while i < keys.len()
        invariant
            i <= keys@.len(),
            forall|j: int| 0 <= j < i ==> keys.deep_view()[j] != k@,
        decreases keys@.len() - i,
    {
        if crate::bytes_equal(&keys[i], k) {
            proof {
                assert(keys.deep_view()[i as int] == k@);
            }
            return true;
        }
        proof {
            assert(keys.deep_view()[i as int] == keys@[i as int]@);
        }
        i += 1;
    }
    false
}

/// The concatenation of a sequence of keys, without a count prefix.
pub open spec fn keys_bytes(ks: Seq<Seq<u8>>) -> Seq<u8>
    decreases ks.len(),
{
    if ks.len() == 0 {
        Seq::empty()
    } else {
        ks[0] + keys_bytes(ks.drop_first())
    }
}

/// Every element of `ks` is a key.
pub open spec fn all_keys(ks: Seq<Seq<u8>>) -> bool {
    forall|i: int| 0 <= i < ks.len() ==> is_key(#[trigger] ks[i])
}

pub proof fn lemma_keys_bytes_len(ks: Seq<Seq<u8>>)
    requires
        all_keys(ks),
    ensures
        keys_bytes(ks).len() == KEY_LEN * ks.len(),
    decreases ks.len(),
{
    if ks.len() > 0 {
        lemma_keys_bytes_len(ks.drop_first());
    }
}

/// Appending one key on the right extends the concatenation on the right.
pub proof fn lemma_keys_bytes_push(ks: Seq<Seq<u8>>, k: Seq<u8>)
    ensures
        keys_bytes(ks.push(k)) == keys_bytes(ks) + k,
    decreases ks.len(),
{
    if ks.len() == 0 {
        assert(ks.push(k).drop_first() =~~= ks);
        assert(keys_bytes(ks.push(k)) =~= keys_bytes(ks) + k);
    } else {
        assert(ks.push(k).drop_first() =~~= ks.drop_first().push(k));
        lemma_keys_bytes_push(ks.drop_first(), k);
        assert(keys_bytes(ks.push(k)) =~= keys_bytes(ks) + k);
    }
}

/// Parses exactly `n` keys from the front of `s`; returns the keys and the
/// number of bytes consumed.
pub open spec fn parse_keys(s: Seq<u8>, n: nat) -> Option<(Seq<Seq<u8>>, int)>
    decreases n,
{
    if n == 0 {
        Some((Seq::empty(), 0))
    } else if s.len() < KEY_LEN {
        None
    } else {
        match parse_keys(s.skip(KEY_LEN as int), (n - 1) as nat) {
            Some((ks, c)) => Some((seq![s.take(KEY_LEN as int)] + ks, KEY_LEN + c)),
            None => None,
        }
    }
}

/// Parsing the concatenation of `n` keys, whatever follows it, yields
/// exactly those keys back.
pub proof fn lemma_parse_keys_of_bytes(ks: Seq<Seq<u8>>, tail: Seq<u8>)
    requires
        all_keys(ks),
    ensures
        parse_keys(keys_bytes(ks) + tail, ks.len()) == Some((ks, KEY_LEN * ks.len())),
    decreases ks.len(),
{
    if ks.len() == 0 {
        assert(keys_bytes(ks) + tail =~= tail);
        assert(ks =~~= Seq::<Seq<u8>>::empty());
    } else {
        let s = keys_bytes(ks) + tail;
        lemma_keys_bytes_len(ks.drop_first());
        assert(s.skip(KEY_LEN as int) =~= keys_bytes(ks.drop_first()) + tail);
        assert(s.take(KEY_LEN as int) =~= ks[0]);
        lemma_parse_keys_of_bytes(ks.drop_first(), tail);
        assert(seq![s.take(KEY_LEN as int)] + ks.drop_first() =~~= ks);
    }
}

/// A successful parse of `n` keys consumed exactly the bytes that re-encode
/// those keys, and each key is 32 bytes.
pub proof fn lemma_parse_keys_exact(s: Seq<u8>, n: nat)
    requires
        parse_keys(s, n) is Some,
    ensures
        match parse_keys(s, n) {
            Some((ks, c)) => {
                &&& ks.len() == n
                &&& c == KEY_LEN * n
                &&& 0 <= c <= s.len()
                &&& all_keys(ks)
                &&& keys_bytes(ks) == s.take(c)
            },
            None => false,
        },
    decreases n,
{
    if n == 0 {
        match parse_keys(s, n) {
            Some((ks, c)) => {
                assert(keys_bytes(ks) =~= s.take(0));
            },
            None => {},
        }
    } else {
        lemma_parse_keys_exact(s.skip(KEY_LEN as int), (n - 1) as nat);
        match parse_keys(s, n) {
            Some((ks, c)) => {
                let rest = parse_keys(s.skip(KEY_LEN as int), (n - 1) as nat);
                match rest {
                    Some((ks1, c1)) => {
                        assert(keys_bytes(ks) =~= s.take(c)) by {
                            assert(ks.drop_first() =~~= ks1);
                            assert(keys_bytes(ks1) == s.skip(KEY_LEN as int).take(c1));
                            assert(s.take(KEY_LEN as int) + s.skip(KEY_LEN as int).take(c1) =~= s.take(c));
                        }
                    },
                    None => {},
                }
            },
            None => {},
        }
    }
}

/// Reads `n` keys starting at `start`; returns the keys and the offset just
/// past them, or nothing when the data runs out.
pub fn read_keys(data: &Vec<u8>, start: usize, n: u32) -> (r: Option<(Vec<Vec<u8>>, usize)>)
    requires
        start <= data@.len(),
    ensures
        match r {
            Some((ks, end)) => {
                &&& parse_keys(data@.skip(start as int), n as nat) == Some(
                    (ks.deep_view(), end - start),
                )
                &&& start <= end <= data@.len()
                &&& ks@.len() == n
            },
            None => parse_keys(data@.skip(start as int), n as nat) is None,
        },
{
    let mut ks: Vec<Vec<u8>> = Vec::new();
    let mut cur: usize = start;
    let mut k: u32 = 0;
    while k < n
        invariant
            k <= n,
            start <= cur <= data@.len(),
            ks@.len() == k,
            parse_keys(data@.skip(start as int), n as nat) == (match parse_keys(
                data@.skip(cur as int),
                (n - k) as nat,
            ) {
                Some((rest, c)) => Some((ks.deep_view() + rest, cur - start + c)),
                None => None::<(Seq<Seq<u8>>, int)>,
            }),
        decreases n - k,
    {
        if data.len() - cur < KEY_LEN {
            proof {
                assert(data@.skip(cur as int).len() < KEY_LEN);
            }
            return None;
        }
        let ghost prev_ks = ks.deep_view();
        let ghost prev_cur = cur as int;
        let key = read_key(data, cur);
        ks.push(key);
        cur += KEY_LEN;
        k += 1;
        proof {
            let s = data@.skip(prev_cur);
            assert(s.skip(KEY_LEN as int) =~= data@.skip(prev_cur + KEY_LEN));
            assert(s.take(KEY_LEN as int) =~= key@);
            assert(ks.deep_view() =~~= prev_ks.push(key@));
            match parse_keys(data@.skip(cur as int), (n - k) as nat) {
                Some((rest, c)) => {
                    assert(prev_ks + (seq![key@] + rest) =~~= ks.deep_view() + rest);
                },
                None => {},
            }
        }
    }
    proof {
        assert(data@.skip(cur as int).len() >= 0);
        assert(ks.deep_view() + Seq::<Seq<u8>>::empty() =~~= ks.deep_view());
    }
    Some((ks, cur))
}

} // verus!
