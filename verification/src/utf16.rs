//! UTF-16 text in fixed-size `u16` buffers, as the protocol carries names,
//! passwords and chat messages.
use vstd::prelude::*;
use vstd::utf8::*;
use vstd::string::*;
use crate::wire::{le16_units, read_le16, u16s_le_bytes};

verus! {

broadcast use vstd::utf8::encode_utf8_valid_utf8;

/// The UTF-16 code units of one character: the scalar itself below
/// 0x10000, else a high and a low surrogate.
pub open spec fn utf16_units(c: char) -> Seq<u16> {
    let x = c as u32;
    if x < 0x10000 {
        seq![x as u16]
    } else {
        seq![
            (0xD800 + (x - 0x10000) / 0x400) as u16,
            (0xDC00 + (x - 0x10000) % 0x400) as u16,
        ]
    }
}

/// The UTF-16 encoding of a character sequence.
pub open spec fn encode_utf16(s: Seq<char>) -> Seq<u16>
    decreases s.len(),
{
    if s.len() == 0 {
        seq![]
    } else {
        utf16_units(s[0]) + encode_utf16(s.drop_first())
    }
}

/// The number of bytes of the UTF-8 encoding of one character.
pub open spec fn utf8_width(c: char) -> nat {
    let x = c as u32;
    if x < 0x80 {
        1
    } else if x < 0x800 {
        2
    } else if x < 0x10000 {
        3
    } else {
        4
    }
}

/// The characters whose UTF-8 encoding is the first `n` bytes of that of `s`
/// (what slicing a string at byte `n` keeps).
pub open spec fn utf8_prefix(s: Seq<char>, n: int) -> Seq<char> {
    decode_utf8(encode_utf8(s).take(n))
}

/// `units` written over the start of `buf`, followed by a 0 terminator where
/// room is left; the rest of `buf` is kept.
pub open spec fn write_terminated(buf: Seq<u16>, units: Seq<u16>) -> Seq<u16> {
    if units.len() < buf.len() {
        units + seq![0u16] + buf.skip(units.len() + 1int)
    } else {
        units
    }
}

/// The buffer `buf` after the string `s` has been written into it: `s`
/// is cut to at most `buf.len()` bytes of UTF-8, encoded as UTF-16, and
/// terminated by a 0 unit where room is left.
pub open spec fn utf16_fill(buf: Seq<u16>, s: Seq<char>) -> Seq<u16> {
    write_terminated(buf, encode_utf16(utf8_prefix(s, fill_limit(s, buf.len()))))
}

/// How many bytes of the UTF-8 encoding of `s` fit in a buffer of `len` units.
pub open spec fn fill_limit(s: Seq<char>, len: nat) -> int {
    if encode_utf8(s).len() < len {
        encode_utf8(s).len() as int
    } else {
        len as int
    }
}

/// A high (leading) surrogate code unit.
pub open spec fn is_high_surrogate(u: u16) -> bool {
    0xD800 <= u <= 0xDBFF
}

/// A low (trailing) surrogate code unit.
pub open spec fn is_low_surrogate(u: u16) -> bool {
    0xDC00 <= u <= 0xDFFF
}

/// The scalar that a high and a low surrogate encode together.
pub open spec fn surrogate_pair_value(hi: u16, lo: u16) -> u32 {
    (0x10000 + (hi - 0xD800) * 0x400 + (lo - 0xDC00)) as u32
}

/// Lossy UTF-16 decoding: a surrogate pair gives one character, a surrogate
/// that is not part of a pair gives U+FFFD (and decoding goes on with the
/// unit after it), any other unit gives the character of that value.
pub open spec fn decode_utf16_lossy(u: Seq<u16>) -> Seq<char>
    decreases u.len(),
{
    if u.len() == 0 {
        seq![]
    } else if is_high_surrogate(u[0]) && u.len() >= 2 && is_low_surrogate(u[1]) {
        seq![surrogate_pair_value(u[0], u[1]) as char] + decode_utf16_lossy(u.skip(2))
    } else if is_high_surrogate(u[0]) || is_low_surrogate(u[0]) {
        seq!['\u{FFFD}'] + decode_utf16_lossy(u.drop_first())
    } else {
        seq![(u[0] as u32) as char] + decode_utf16_lossy(u.drop_first())
    }
}

/// The characters of `s` before its first NUL (all of `s` if it has none).
pub open spec fn before_nul(s: Seq<char>) -> Seq<char>
    decreases s.len(),
{
    if s.len() == 0 {
        s
    } else if s[0] == '\0' {
        seq![]
    } else {
        seq![s[0]] + before_nul(s.drop_first())
    }
}

/// The text that a byte buffer of little-endian UTF-16 holds: decoded
/// lossily, up to its first NUL.
pub open spec fn utf16_buffer_text(b: Seq<u8>) -> Seq<char> {
    before_nul(decode_utf16_lossy(le16_units(b)))
}

/// `s` holds no NUL character.
pub open spec fn no_nul(s: Seq<char>) -> bool {
    forall|i: int| 0 <= i < s.len() ==> s[i] != '\0'
}

// ----- lemmas on the UTF-8 and UTF-16 encodings -----

proof fn lemma_encode_utf8_append(a: Seq<char>, b: Seq<char>)
    ensures
        encode_utf8(a + b) == encode_utf8(a) + encode_utf8(b),
    decreases a.len(),
{
    if a.len() == 0 {
        assert(a + b =~= b);
    } else {
        lemma_encode_utf8_append(a.drop_first(), b);
        assert((a + b).drop_first() =~= a.drop_first() + b);
    }
}

proof fn lemma_encode_utf16_append(a: Seq<char>, b: Seq<char>)
    ensures
        encode_utf16(a + b) == encode_utf16(a) + encode_utf16(b),
    decreases a.len(),
{
    if a.len() == 0 {
        assert(a + b =~= b);
    } else {
        lemma_encode_utf16_append(a.drop_first(), b);
        assert((a + b).drop_first() =~= a.drop_first() + b);
    }
}

proof fn lemma_encode_scalar_len(c: char)
    ensures
        encode_scalar(c as u32).len() == utf8_width(c),
        1 <= utf8_width(c) <= 4,
        utf16_units(c).len() <= utf8_width(c),
        utf16_units(c).len() >= 1,
{
    char_is_scalar(c);
}

/// The UTF-8 and UTF-16 encodings of the first `i + 1` characters.
proof fn lemma_take_step(s: Seq<char>, i: int)
    requires
        0 <= i < s.len(),
    ensures
        encode_utf8(s.take(i + 1)) == encode_utf8(s.take(i)) + encode_scalar(s[i] as u32),
        encode_utf16(s.take(i + 1)) == encode_utf16(s.take(i)) + utf16_units(s[i]),
{
    let one = seq![s[i]];
    assert(s.take(i + 1) =~= s.take(i) + one);
    lemma_encode_utf8_append(s.take(i), one);
    lemma_encode_utf16_append(s.take(i), one);
    assert(one.drop_first() =~= Seq::<char>::empty());
    assert(one[0] == s[i]);
    assert(encode_utf8(one.drop_first()) == Seq::<u8>::empty());
    assert(encode_utf16(one.drop_first()) == Seq::<u16>::empty());
    assert(encode_utf8(one) =~= encode_scalar(s[i] as u32));
    assert(encode_utf16(one) =~= utf16_units(s[i]));
}

proof fn lemma_utf8_len_strict_mono(s: Seq<char>, i: int, j: int)
    requires
        0 <= i < j <= s.len(),
    ensures
        encode_utf8(s.take(i)).len() < encode_utf8(s.take(j)).len(),
    decreases j - i,
{
    lemma_take_step(s, j - 1);
    lemma_encode_scalar_len(s[j - 1]);
    if i < j - 1 {
        lemma_utf8_len_strict_mono(s, i, j - 1);
    }
}

/// A character boundary of the UTF-8 encoding of `s` ends a prefix of `s`.
proof fn lemma_boundary_index(s: Seq<char>, n: int) -> (k: int)
    requires
        is_char_boundary(encode_utf8(s), n),
    ensures
        0 <= k <= s.len(),
        encode_utf8(s.take(k)).len() == n,
    decreases s.len(),
{
    if n == 0 {
        assert(s.take(0) =~= Seq::<char>::empty());
        0
    } else {
        let bytes = encode_utf8(s);
        if s.len() == 0 {
            assert(bytes.len() == 0);
            assert(false);
        }
        encode_utf8_first_scalar(s);
        let first = length_of_first_scalar(bytes);
        assert(first == encode_scalar(s[0] as u32).len());
        assert(pop_first_scalar(bytes) =~= encode_utf8(s.drop_first()));
        assert(is_char_boundary(encode_utf8(s.drop_first()), n - first));
        let k1 = lemma_boundary_index(s.drop_first(), n - first);
        assert(s.take(k1 + 1).drop_first() =~= s.drop_first().take(k1));
        assert(s.take(k1 + 1)[0] == s[0]);
        assert(encode_utf8(s.take(k1 + 1)) == encode_scalar(s[0] as u32) + encode_utf8(
            s.drop_first().take(k1),
        ));
        k1 + 1
    }
}

/// The prefix of `s` whose UTF-8 encoding has `n` bytes is what slicing at `n` keeps.
proof fn lemma_utf8_prefix_take(s: Seq<char>, k: int, n: int)
    requires
        0 <= k <= s.len(),
        encode_utf8(s.take(k)).len() == n,
    ensures
        utf8_prefix(s, n) == s.take(k),
{
    assert(s =~= s.take(k) + s.skip(k));
    lemma_encode_utf8_append(s.take(k), s.skip(k));
    assert(encode_utf8(s).take(n) =~= encode_utf8(s.take(k)));
    encode_utf8_decode_utf8(s.take(k));
}

proof fn lemma_decode_encode(t: Seq<char>, rest: Seq<u16>)
    ensures
        decode_utf16_lossy(encode_utf16(t) + rest) == t + decode_utf16_lossy(rest),
    decreases t.len(),
{
    if t.len() == 0 {
        assert(encode_utf16(t) + rest =~= rest);
        assert(t + decode_utf16_lossy(rest) =~= decode_utf16_lossy(rest));
    } else {
        let c = t[0];
        let x = c as u32;
        char_is_scalar(c);
        char_u32_cast(c, x);
        let tail = encode_utf16(t.drop_first()) + rest;
        lemma_decode_encode(t.drop_first(), rest);
        let all = utf16_units(c) + tail;
        assert(encode_utf16(t) + rest =~= all);
        if x < 0x10000 {
            assert(all[0] == x as u16);
            assert(all.drop_first() =~= tail);
            assert(decode_utf16_lossy(all) == seq![c] + decode_utf16_lossy(tail));
        } else {
            let hi = (0xD800 + (x - 0x10000) / 0x400) as u16;
            let lo = (0xDC00 + (x - 0x10000) % 0x400) as u16;
            assert(all[0] == hi);
            assert(all[1] == lo);
            assert(is_high_surrogate(hi));
            assert(is_low_surrogate(lo));
            assert(surrogate_pair_value(hi, lo) == x);
            assert(all.skip(2) =~= tail);
            assert(decode_utf16_lossy(all) == seq![c] + decode_utf16_lossy(tail));
        }
        assert(t =~= seq![c] + t.drop_first());
        assert(t + decode_utf16_lossy(rest) =~= seq![c] + (t.drop_first() + decode_utf16_lossy(
            rest,
        )));
    }
}

proof fn lemma_before_nul_append(t: Seq<char>, r: Seq<char>)
    requires
        no_nul(t),
    ensures
        before_nul(t + r) == t + before_nul(r),
    decreases t.len(),
{
    if t.len() == 0 {
        assert(t + r =~= r);
        assert(t + before_nul(r) =~= before_nul(r));
    } else {
        lemma_before_nul_append(t.drop_first(), r);
        assert((t + r).drop_first() =~= t.drop_first() + r);
        assert((t + r)[0] == t[0]);
        assert(t + before_nul(r) =~= seq![t[0]] + (t.drop_first() + before_nul(r)));
    }
}

proof fn lemma_le16_units_of_bytes(x: Seq<u16>)
    ensures
        le16_units(u16s_le_bytes(x)) == x,
{
    let b = u16s_le_bytes(x);
    assert forall|j: int| 0 <= j < x.len() implies le16_units(b)[j] == x[j] by {
        assert(b[2 * j] == (x[j] % 256) as u8);
        assert(b[2 * j + 1] == (x[j] / 256) as u8);
    }
    assert(le16_units(b) =~= x);
}

/// Text written into a UTF-16 buffer reads back: the little-endian bytes of
/// a buffer into which `s` was written decode to the part of `s` that was
/// written, provided that part holds no NUL.
pub proof fn law_utf16_buffer_roundtrip(buf: Seq<u16>, s: Seq<char>)
    requires
        is_char_boundary(encode_utf8(s), fill_limit(s, buf.len())),
        no_nul(utf8_prefix(s, fill_limit(s, buf.len()))),
    ensures
        utf16_buffer_text(u16s_le_bytes(utf16_fill(buf, s))) == utf8_prefix(
            s,
            fill_limit(s, buf.len()),
        ),
{
    let n = fill_limit(s, buf.len());
    let t = utf8_prefix(s, n);
    lemma_prefix_units_fit(s, n);
    lemma_text_of_written(buf, t);
}

proof fn lemma_prefix_units_fit(s: Seq<char>, n: int)
    requires
        is_char_boundary(encode_utf8(s), n),
    ensures
        encode_utf16(utf8_prefix(s, n)).len() <= n,
{
    let k = lemma_boundary_index(s, n);
    lemma_utf8_prefix_take(s, k, n);
    lemma_utf16_len_le_utf8_len(s, k);
}

proof fn lemma_text_of_written(buf: Seq<u16>, t: Seq<char>)
    requires
        no_nul(t),
        encode_utf16(t).len() <= buf.len(),
    ensures
        utf16_buffer_text(u16s_le_bytes(write_terminated(buf, encode_utf16(t)))) == t,
{
    let u = encode_utf16(t);
    let filled = write_terminated(buf, u);
    lemma_le16_units_of_bytes(filled);
    if u.len() < buf.len() {
        let r = seq![0u16] + buf.skip(u.len() + 1int);
        assert(filled =~= u + r);
        lemma_text_terminated(t, r);
    } else {
        lemma_text_whole(t);
    }
}

proof fn lemma_decode_nul_first(rest: Seq<u16>)
    ensures
        before_nul(decode_utf16_lossy(seq![0u16] + rest)) == Seq::<char>::empty(),
{
    let r = seq![0u16] + rest;
    assert(r[0] == 0u16);
    assert(r.drop_first() =~= rest);
    assert(((0u16 as u32) as char) == '\0');
    assert(decode_utf16_lossy(r) == seq!['\0'] + decode_utf16_lossy(rest));
    lemma_before_nul_step('\0', decode_utf16_lossy(rest));
}

proof fn lemma_text_terminated(t: Seq<char>, r: Seq<u16>)
    requires
        no_nul(t),
        r.len() > 0,
        r[0] == 0u16,
    ensures
        before_nul(decode_utf16_lossy(encode_utf16(t) + r)) == t,
{
    lemma_decode_encode(t, r);
    assert(r =~= seq![0u16] + r.drop_first());
    lemma_decode_nul_first(r.drop_first());
    lemma_before_nul_append(t, decode_utf16_lossy(r));
    assert(t + Seq::<char>::empty() =~= t);
}

proof fn lemma_text_whole(t: Seq<char>)
    requires
        no_nul(t),
    ensures
        before_nul(decode_utf16_lossy(encode_utf16(t))) == t,
{
    lemma_decode_encode(t, Seq::<u16>::empty());
    assert(encode_utf16(t) + Seq::<u16>::empty() =~= encode_utf16(t));
    assert(decode_utf16_lossy(Seq::<u16>::empty()) == Seq::<char>::empty());
    assert(t + Seq::<char>::empty() =~= t);
    lemma_before_nul_append(t, Seq::<char>::empty());
    assert(before_nul(Seq::<char>::empty()) == Seq::<char>::empty());
}

/// Writing text into a buffer keeps its size.
pub proof fn lemma_utf16_fill_len(buf: Seq<u16>, s: Seq<char>)
    requires
        is_char_boundary(encode_utf8(s), fill_limit(s, buf.len())),
    ensures
        utf16_fill(buf, s).len() == buf.len(),
{
    lemma_prefix_units_fit(s, fill_limit(s, buf.len()));
}

proof fn lemma_decode_agree_to_nul(u1: Seq<u16>, u2: Seq<u16>, z: int)
    requires
        0 <= z < u1.len(),
        z < u2.len(),
        u1.take(z + 1) == u2.take(z + 1),
        u1[z] == 0,
    ensures
        before_nul(decode_utf16_lossy(u1)) == before_nul(decode_utf16_lossy(u2)),
    decreases z,
{
    assert(u1[0] == u1.take(z + 1)[0]);
    assert(u2[0] == u2.take(z + 1)[0]);
    if z == 0 {
        assert(decode_utf16_lossy(u1) == seq![(0u16 as u32) as char] + decode_utf16_lossy(
            u1.drop_first(),
        ));
        assert(decode_utf16_lossy(u2) == seq![(0u16 as u32) as char] + decode_utf16_lossy(
            u2.drop_first(),
        ));
        assert(((0u16 as u32) as char) == '\0');
        lemma_before_nul_step('\0', decode_utf16_lossy(u1.drop_first()));
        lemma_before_nul_step('\0', decode_utf16_lossy(u2.drop_first()));
    } else {
        assert(u1[1] == u1.take(z + 1)[1]);
        assert(u2[1] == u2.take(z + 1)[1]);
        if is_high_surrogate(u1[0]) && is_low_surrogate(u1[1]) {
            let c = surrogate_pair_value(u1[0], u1[1]) as char;
            assert(z >= 2);
            assert(u1.skip(2).take(z - 1) =~= u1.take(z + 1).skip(2));
            assert(u2.skip(2).take(z - 1) =~= u2.take(z + 1).skip(2));
            lemma_decode_agree_to_nul(u1.skip(2), u2.skip(2), z - 2);
            lemma_before_nul_step(c, decode_utf16_lossy(u1.skip(2)));
            lemma_before_nul_step(c, decode_utf16_lossy(u2.skip(2)));
        } else {
            let c = if is_high_surrogate(u1[0]) || is_low_surrogate(u1[0]) {
                '\u{FFFD}'
            } else {
                (u1[0] as u32) as char
            };
            assert(decode_utf16_lossy(u1) == seq![c] + decode_utf16_lossy(u1.drop_first()));
            assert(decode_utf16_lossy(u2) == seq![c] + decode_utf16_lossy(u2.drop_first()));
            assert(u1.drop_first().take(z) =~= u1.take(z + 1).drop_first());
            assert(u2.drop_first().take(z) =~= u2.take(z + 1).drop_first());
            lemma_decode_agree_to_nul(u1.drop_first(), u2.drop_first(), z - 1);
            lemma_before_nul_step(c, decode_utf16_lossy(u1.drop_first()));
            lemma_before_nul_step(c, decode_utf16_lossy(u2.drop_first()));
        }
    }
}

/// Bytes after a NUL unit never matter: appending any bytes to a buffer that
/// holds a zero unit (at an even offset) leaves its text unchanged.
pub proof fn law_text_ignores_bytes_after_nul(v: Seq<u8>, w: Seq<u8>, i: int)
    requires
        0 <= i,
        2 * i + 1 < v.len(),
        v[2 * i] == 0,
        v[2 * i + 1] == 0,
    ensures
        utf16_buffer_text(v + w) == utf16_buffer_text(v),
{
    let u1 = le16_units(v);
    let u2 = le16_units(v + w);
    assert forall|j: int| 0 <= j <= i implies u2[j] == u1[j] by {
        assert((v + w)[2 * j] == v[2 * j]);
        assert((v + w)[2 * j + 1] == v[2 * j + 1]);
    }
    assert(u1.take(i + 1) =~= u2.take(i + 1));
    assert(u1[i] == 0);
    lemma_decode_agree_to_nul(u1, u2, i);
}

proof fn lemma_utf16_len_le_utf8_len(s: Seq<char>, k: int)
    requires
        0 <= k <= s.len(),
    ensures
        encode_utf16(s.take(k)).len() <= encode_utf8(s.take(k)).len(),
    decreases k,
{
    if k == 0 {
        assert(s.take(0) =~= Seq::<char>::empty());
    } else {
        lemma_utf16_len_le_utf8_len(s, k - 1);
        lemma_take_step(s, k - 1);
        lemma_encode_scalar_len(s[k - 1]);
    }
}

// ----- executable code -----

/// Writes `s` into `v` as UTF-16: at most `v.len()` bytes of `s` are
/// taken (cut where the string allows slicing there), their code units
/// are written from the start of `v`, and a 0 unit follows them if `v`
/// has room left; the rest of `v` is kept.
pub fn str_to_utf16_buffer(s: &str, v: &mut [u16])
    requires
        is_char_boundary(s.spec_bytes(), fill_limit(s@, old(v)@.len())),
    ensures
        final(v)@ == utf16_fill(old(v)@, s@),
{
    let ghost n: int = if s.spec_bytes().len() < v@.len() {
        s.spec_bytes().len() as int
    } else {
        v@.len() as int
    };
    let ghost k = lemma_boundary_index(s@, n);
    let total: usize = s.unicode_len();
    let mut i: usize = 0;
    let mut bytes: usize = 0;
    let mut p: usize = 0;
    let mut stop = false;
    proof {
        assert(s@.take(0) =~= Seq::<char>::empty());
        assert(old(v)@.skip(0) =~= old(v)@);
    }
    while i < total && !stop
        invariant
            total == s@.len(),
            n <= old(v)@.len(),
            n == encode_utf8(s@).len() || n == old(v)@.len(),
            n <= encode_utf8(s@).len(),
            0 <= k <= s@.len(),
            encode_utf8(s@.take(k)).len() == n,
            i <= k,
            stop ==> i == k,
            bytes == encode_utf8(s@.take(i as int)).len(),
            bytes <= n,
            p == encode_utf16(s@.take(i as int)).len(),
            p <= bytes,
            v@.len() == old(v)@.len(),
            v@ == encode_utf16(s@.take(i as int)) + old(v)@.skip(p as int),
        decreases total - i + (if stop { 0int } else { 1int }),
    {
        let c = s.get_char(i);
        let x = c as u32;
        proof {
            lemma_take_step(s@, i as int);
            lemma_encode_scalar_len(c);
            char_is_scalar(c);
        }
        let w: usize = if x < 0x80 {
            1
        } else if x < 0x800 {
            2
        } else if x < 0x10000 {
            3
        } else {
            4
        };
        assert(w == utf8_width(c));
        proof {
            if i + 1 < total {
                lemma_utf8_len_strict_mono(s@, i + 1, total as int);
            }
            assert(s@.take(total as int) =~= s@);
            assert(bytes + w <= encode_utf8(s@).len());
        }
        if w > v.len() - bytes {
            proof {
                if i < k {
                    if i + 1 < k {
                        lemma_utf8_len_strict_mono(s@, i + 1, k);
                    }
                }
            }
            stop = true;
        } else {
            proof {
                if i == k {
                    assert(false);
                }
            }
            if x < 0x10000 {
                v[p] = x as u16;
                p = p + 1;
            } else {
                let y = x - 0x10000;
                v[p] = (0xD800 + y / 0x400) as u16;
                v[p + 1] = (0xDC00 + y % 0x400) as u16;
                p = p + 2;
            }
            bytes = bytes + w;
            i = i + 1;
            assert(v@ =~= encode_utf16(s@.take(i as int)) + old(v)@.skip(p as int));
        }
    }
    proof {
        if !stop {
            assert(s@.take(total as int) =~= s@);
            if i < k {
                lemma_utf8_len_strict_mono(s@, i as int, k);
            }
        }
        lemma_utf8_prefix_take(s@, k, n);
    }
    if p < v.len() {
        v[p] = 0;
    }
    assert(v@ =~= utf16_fill(old(v)@, s@));
}

/// `char::from_u32`: the character with the given scalar value, if it is one.
#[verifier::external_body]
fn char_from_u32(x: u32) -> (r: Option<char>)
    ensures
        r is Some <==> is_scalar(x),
        r matches Some(c) ==> c as u32 == x,
{
    char::from_u32(x)
}

/// `String::push`: appends one character.
#[verifier::external_body]
pub(crate) fn string_push(s: &mut String, c: char)
    ensures
        final(s)@ == old(s)@.push(c),
{
    s.push(c)
}

proof fn lemma_before_nul_step(c: char, rest: Seq<char>)
    ensures
        before_nul(seq![c] + rest) == (if c == '\0' {
            Seq::<char>::empty()
        } else {
            seq![c] + before_nul(rest)
        }),
{
    let t = seq![c] + rest;
    assert(t[0] == c);
    assert(t.drop_first() =~= rest);
}

/// Reads `v` as little-endian UTF-16 (an odd last byte is left out),
/// decodes it lossily, and returns the text before the first NUL.
pub fn u8_utf16_buffer_to_str(v: &[u8]) -> (r: String)
    ensures
        r@ == utf16_buffer_text(v@),
{
    let vlen: usize = v.len();
    let m: usize = vlen / 2;
    let ghost units = le16_units(v@);
    let mut out = String::new();
    let mut i: usize = 0;
    let mut stop = false;
    proof {
        assert(units.skip(0) =~= units);
        assert(out@ + before_nul(decode_utf16_lossy(units.skip(0))) =~= before_nul(
            decode_utf16_lossy(units),
        ));
    }
    while i < m && !stop
        invariant
            vlen == v@.len(),
            m == v@.len() / 2,
            units == le16_units(v@),
            units.len() == m,
            i <= m,
            !stop ==> before_nul(decode_utf16_lossy(units)) == out@ + before_nul(
                decode_utf16_lossy(units.skip(i as int)),
            ),
            stop ==> before_nul(decode_utf16_lossy(units)) == out@,
        decreases m - i + (if stop { 0int } else { 1int }),
    {
        let ghost rest = units.skip(i as int);
        assert(2 * i + 1 < v@.len());
        let u = read_le16(v[2 * i], v[2 * i + 1]);
        assert(u == units[i as int]);
        assert(rest[0] == u);
        let c: char;
        let mut lo: u16 = 0;
        let mut pair = false;
        if 0xD800 <= u && u <= 0xDBFF && i + 1 < m {
            assert(2 * i + 3 < v@.len());
            lo = read_le16(v[2 * i + 2], v[2 * i + 3]);
            assert(lo == units[i + 1]);
            pair = 0xDC00 <= lo && lo <= 0xDFFF;
        }
        if pair {
            assert(rest[1] == lo);
            let x: u32 = 0x10000 + (u as u32 - 0xD800) * 0x400 + (lo as u32 - 0xDC00);
            assert(x == surrogate_pair_value(u, lo));
            let r = char_from_u32(x);
            c = r.unwrap();
            proof {
                char_u32_cast(c, x);
                assert(rest.skip(2) =~= units.skip(i + 2));
            }
            i = i + 2;
        } else if 0xD800 <= u && u <= 0xDFFF {
            c = '\u{FFFD}';
            proof {
                assert(rest.drop_first() =~= units.skip(i + 1));
            }
            i = i + 1;
        } else {
            let r = char_from_u32(u as u32);
            c = r.unwrap();
            proof {
                char_u32_cast(c, u as u32);
                assert(rest.drop_first() =~= units.skip(i + 1));
            }
            i = i + 1;
        }
        proof {
            lemma_before_nul_step(c, decode_utf16_lossy(units.skip(i as int)));
        }
        if c == '\0' {
            stop = true;
        } else {
            let ghost before = out@;
            string_push(&mut out, c);
            assert(out@ + before_nul(decode_utf16_lossy(units.skip(i as int))) =~= before + (seq![c]
                + before_nul(decode_utf16_lossy(units.skip(i as int)))));
        }
    }
    proof {
        if !stop {
            assert(units.skip(i as int) =~= Seq::<u16>::empty());
            assert(out@ + Seq::<char>::empty() =~= out@);
        }
    }
    out
}

} // verus!
