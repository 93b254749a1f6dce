//! Packing of short byte strings into little-endian integers.
//!
//! JSON keys and method names are not compared as strings. Their bytes are
//! packed, sixteen to a 128-bit word with the first byte lowest, and the
//! dispatchers branch on the packed value.

use vstd::prelude::*;

verus! {

/// Number of bytes that one packed word holds.
pub const WORD_BYTES: usize = 16;

/// Number of words that a packed property name holds.
pub const KEY_WORDS: usize = 4;

/// Longest property name, in bytes, that can be packed.
pub const MAX_KEY_BYTES: usize = 64;

/// `256` to the power `n`.
pub open spec fn pow256(n: nat) -> nat
    decreases n,
{
    if n == 0 {
        1
    } else {
        256 * pow256((n - 1) as nat)
    }
}

/// The little-endian number that the bytes of `s` spell: byte `i` counts
/// `256^i` times. Zero bytes at the end of `s` add nothing to it; the
/// strings of a request hold no zero byte.
pub open spec fn pack(s: Seq<u8>) -> nat
    decreases s.len(),
{
    if s.len() == 0 {
        0
    } else {
        pack(s.drop_last()) + (s.last() as nat) * pow256((s.len() - 1) as nat)
    }
}

/// The lower-case form of an ASCII byte; other bytes are unchanged.
pub open spec fn lower(b: u8) -> u8 {
    if 65 <= b <= 90 {
        (b + 32) as u8
    } else {
        b
    }
}

/// `s` with every byte in lower case.
pub open spec fn lower_all(s: Seq<u8>) -> Seq<u8> {
    Seq::new(s.len(), |i: int| lower(s[i]))
}

/// `s` as the packer reads it: folded to lower case if `fold` is set.
pub open spec fn folded(s: Seq<u8>, fold: bool) -> Seq<u8> {
    if fold {
        lower_all(s)
    } else {
        s
    }
}

/// Word `w` of `s`: the bytes from `16 * w` on, at most sixteen of them.
pub open spec fn word_bytes(s: Seq<u8>, w: int) -> Seq<u8> {
    if 0 <= w && 16 * w < s.len() {
        if 16 * w + 16 <= s.len() {
            s.subrange(16 * w, 16 * w + 16)
        } else {
            s.subrange(16 * w, s.len() as int)
        }
    } else {
        Seq::empty()
    }
}

/// No byte of `s` is zero.
pub open spec fn no_zero(s: Seq<u8>) -> bool {
    forall|i: int| 0 <= i < s.len() ==> s[i] != 0
}

pub proof fn lemma_pow256_positive(n: nat)
    ensures
        pow256(n) > 0,
    decreases n,
{
    if n > 0 {
        lemma_pow256_positive((n - 1) as nat);
    }
}

pub proof fn lemma_pow256_monotonic(a: nat, b: nat)
    requires
        a <= b,
    ensures
        pow256(a) <= pow256(b),
    decreases b,
{
    if a < b {
        lemma_pow256_monotonic(a, (b - 1) as nat);
        lemma_pow256_positive((b - 1) as nat);
    }
}

/// `256^16` is `2^128`, one more than the largest `u128`.
pub proof fn lemma_pow256_16()
    ensures
        pow256(16) == 0x1_0000_0000_0000_0000_0000_0000_0000_0000,
        pow256(15) == 0x100_0000_0000_0000_0000_0000_0000_0000,
{
    reveal_with_fuel(pow256, 17);
}

/// A packed string is smaller than `256` to its length.
pub proof fn lemma_pack_bound(s: Seq<u8>)
    ensures
        pack(s) < pow256(s.len()),
    decreases s.len(),
{
    if s.len() > 0 {
        lemma_pack_bound(s.drop_last());
        let p = pow256((s.len() - 1) as nat);
        let l = s.last() as nat;
        assert(l * p + p <= 256 * p) by (nonlinear_arith)
            requires
                l <= 255,
        ;
    }
}

/// A packed string that ends in a byte other than zero is at least `256` to
/// its length less one.
pub proof fn lemma_pack_lower_bound(s: Seq<u8>)
    requires
        s.len() > 0,
        s.last() != 0,
    ensures
        pack(s) >= pow256((s.len() - 1) as nat),
{
    let p = pow256((s.len() - 1) as nat);
    let l = s.last() as nat;
    assert(l * p >= p) by (nonlinear_arith)
        requires
            l >= 1,
    ;
}

/// Packing tells apart any two strings without a zero byte: equal packed
/// values come from equal strings, whatever their lengths.
pub proof fn lemma_pack_injective(a: Seq<u8>, b: Seq<u8>)
    requires
        no_zero(a),
        no_zero(b),
        pack(a) == pack(b),
    ensures
        a == b,
    decreases a.len() + b.len(),
{
    if a.len() == 0 || b.len() == 0 {
        if a.len() > 0 {
            lemma_pack_lower_bound(a);
            lemma_pow256_positive((a.len() - 1) as nat);
        }
        if b.len() > 0 {
            lemma_pack_lower_bound(b);
            lemma_pow256_positive((b.len() - 1) as nat);
        }
        assert(a =~= b);
    } else {
        lemma_pack_bound(a);
        lemma_pack_bound(b);
        lemma_pack_lower_bound(a);
        lemma_pack_lower_bound(b);
        if a.len() < b.len() {
            lemma_pow256_monotonic(a.len(), (b.len() - 1) as nat);
        }
        if b.len() < a.len() {
            lemma_pow256_monotonic(b.len(), (a.len() - 1) as nat);
        }
        assert(a.len() == b.len());
        let p = pow256((a.len() - 1) as nat);
        let la = a.last() as nat;
        let lb = b.last() as nat;
        let ra = pack(a.drop_last());
        let rb = pack(b.drop_last());
        lemma_pack_bound(a.drop_last());
        lemma_pack_bound(b.drop_last());
        assert(la == lb) by (nonlinear_arith)
            requires
                ra + la * p == rb + lb * p,
                ra < p,
                rb < p,
        ;
        assert(ra == rb) by (nonlinear_arith)
            requires
                ra + la * p == rb + lb * p,
                la == lb,
        ;
        lemma_pack_injective(a.drop_last(), b.drop_last());
        assert(a =~= a.drop_last().push(a.last()));
        assert(b =~= b.drop_last().push(b.last()));
    }
}

/// Two keys without a zero byte whose lower-case forms pack to the same value
/// are the same key up to case.
pub proof fn lemma_key_hash_unique(a: Seq<u8>, b: Seq<u8>)
    requires
        no_zero(a),
        no_zero(b),
        pack(lower_all(a)) == pack(lower_all(b)),
    ensures
        lower_all(a) == lower_all(b),
{
    lemma_pack_injective(lower_all(a), lower_all(b));
}

/// The lower-case form of an ASCII byte.
pub fn to_lower(b: u8) -> (r: u8)
    ensures
        r == lower(b),
{
    if 65 <= b && b <= 90 {
        b + 32
    } else {
        b
    }
}

/// Packs word `w` of `content`, in lower case if `fold` is set.
pub fn pack_word(content: &[u8], w: usize, fold: bool) -> (h: u128)
    requires
        w < KEY_WORDS,
    ensures
        h == pack(word_bytes(folded(content@, fold), w as int)),
{
    let from: usize = 16 * w;
    let ghost src = folded(content@, fold);
    let ghost word = word_bytes(src, w as int);
    if from >= content.len() {
        return 0;
    }
    let to: usize = if content.len() - from >= 16 {
        from + 16
    } else {
        content.len()
    };
    let mut h: u128 = 0;
    let mut mult: u128 = 1;
    let mut i: usize = from;
    proof {
        assert(word =~= src.subrange(from as int, to as int));
        assert(word.take(0) =~= Seq::<u8>::empty());
    }
    while i < to
        invariant
            from <= i <= to <= content.len(),
            to - from <= 16,
            src == folded(content@, fold),
            word == src.subrange(from as int, to as int),
            h == pack(word.take(i - from)),
            i < to ==> mult == pow256((i - from) as nat),
        decreases to - i,
    {
        let c: u8 = if fold {
            to_lower(content[i])
        } else {
            content[i]
        };
        proof {
            lemma_pow256_16();
            let k = (i - from) as nat;
            let t = word.take(k as int + 1);
            assert(t.drop_last() =~= word.take(k as int));
            assert(t.last() == c);
            lemma_pack_bound(t);
            lemma_pow256_monotonic(k + 1, 16);
            lemma_pow256_monotonic(k, 15);
            assert(t.len() == k + 1);
            assert(pack(t) == pack(t.drop_last()) + (t.last() as nat) * pow256(k));
            assert(mult == pow256(k));
            assert((c as int) * (mult as int) == (c as nat) * pow256(k));
            assert(h + (c as int) * (mult as int) == pack(t));
            assert(pack(t) < 0x1_0000_0000_0000_0000_0000_0000_0000_0000);
            if i + 1 < to {
                lemma_pow256_monotonic(k + 1, 15);
            }
        }
        h = h + (c as u128) * mult;
        if i + 1 < to {
            mult = mult * 256;
        }
        i = i + 1;
    }
    proof {
        assert(word.take(to - from) =~= word);
    }
    h
}

/// A string of at most sixteen bytes is its own first word.
pub proof fn lemma_first_word(s: Seq<u8>)
    requires
        s.len() <= 16,
    ensures
        word_bytes(s, 0) == s,
{
    if s.len() > 0 {
        assert(s.subrange(0, s.len() as int) =~= s);
    } else {
        assert(s =~= Seq::<u8>::empty());
    }
}

/// Packs a string of at most sixteen bytes as it is written.
pub fn pack_short(content: &[u8]) -> (h: u128)
    requires
        content.len() <= 16,
    ensures
        h == pack(content@),
{
    proof {
        lemma_first_word(content@);
    }
    pack_word(content, 0, false)
}

/// The index of the first `b` in `s` at or after `from`, or the length of
/// `s` if there is none.
pub open spec fn find_byte(s: Seq<u8>, b: u8, from: int) -> int
    decreases s.len() - from,
{
    if from < 0 || from >= s.len() {
        s.len() as int
    } else if s[from] == b {
        from
    } else {
        find_byte(s, b, from + 1)
    }
}

/// The index of the first `b` in `content`, or its length if there is none.
pub fn find_first(content: &[u8], b: u8) -> (at: usize)
    ensures
        at == find_byte(content@, b, 0),
        at <= content.len(),
{
    let mut i: usize = 0;
    while i < content.len() && content[i] != b
        invariant
            i <= content.len(),
            find_byte(content@, b, 0) == find_byte(content@, b, i as int),
        decreases content.len() - i,
    {
        i = i + 1;
    }
    i
}

} // verus!
