//! Breakpoint patching as a read-modify-write of one aligned machine word.
use vstd::prelude::*;

verus! {

/// Bytes in a machine word.
pub const WORD_BYTES: usize = 8;

/// The one-byte software breakpoint instruction (`int3`).
pub const TRAP_BYTE: u8 = 0xcc;

/// Byte `k` of a little-endian word (byte 0 is the least significant).
pub open spec fn byte_of(word: u64, k: int) -> u64 {
    (word >> ((8 * k) as u64)) & 0xff
}

/// The start of the aligned word that holds `addr`.
pub open spec fn word_start(addr: usize) -> int {
    addr as int - (addr as int) % 8
}

/// The position of `addr` inside its aligned word.
pub open spec fn word_offset(addr: usize) -> int {
    (addr as int) % 8
}

/// A word that differs from `word` at most in byte `k`, where it holds `val`.
pub open spec fn replaces_byte(new_word: u64, word: u64, k: int, val: u8) -> bool {
    &&& byte_of(new_word, k) == val as u64
    &&& forall|j: int| 0 <= j < 8 && j != k ==> #[trigger] byte_of(new_word, j) == byte_of(word, j)
}

/// `word` with byte `k` replaced by `val`.
pub open spec fn spliced(word: u64, k: int, val: u8) -> u64 {
    choose|w: u64| replaces_byte(w, word, k, val)
}

/// A byte of a word fits in a `u8`.
pub proof fn lemma_byte_fits(word: u64, k: int)
    ensures
        byte_of(word, k) < 256,
        (byte_of(word, k) as u8) as u64 == byte_of(word, k),
{
    let s: u64 = (8 * k) as u64;
    assert((word >> s) & 0xff < 256) by (bit_vector);
}

/// Two words with the same eight bytes are the same word.
pub proof fn lemma_word_from_bytes(a: u64, b: u64)
    requires
        forall|j: int| 0 <= j < 8 ==> #[trigger] byte_of(a, j) == byte_of(b, j),
    ensures
        a == b,
{
    assert(byte_of(a, 0) == byte_of(b, 0));
    assert(byte_of(a, 1) == byte_of(b, 1));
    assert(byte_of(a, 2) == byte_of(b, 2));
    assert(byte_of(a, 3) == byte_of(b, 3));
    assert(byte_of(a, 4) == byte_of(b, 4));
    assert(byte_of(a, 5) == byte_of(b, 5));
    assert(byte_of(a, 6) == byte_of(b, 6));
    assert(byte_of(a, 7) == byte_of(b, 7));
    assert(a == b) by (bit_vector)
        requires
            (a >> 0u64) & 0xff == (b >> 0u64) & 0xff,
            (a >> 8u64) & 0xff == (b >> 8u64) & 0xff,
            (a >> 16u64) & 0xff == (b >> 16u64) & 0xff,
            (a >> 24u64) & 0xff == (b >> 24u64) & 0xff,
            (a >> 32u64) & 0xff == (b >> 32u64) & 0xff,
            (a >> 40u64) & 0xff == (b >> 40u64) & 0xff,
            (a >> 48u64) & 0xff == (b >> 48u64) & 0xff,
            (a >> 56u64) & 0xff == (b >> 56u64) & 0xff,
    ;
}

/// Rounds `addr` down to the start of its machine word.
pub fn align_addr_to_word(addr: usize) -> (r: usize)
    ensures
        r == word_start(addr),
{
    let r = addr & !(WORD_BYTES - 1);
    assert(addr & !7usize == addr - addr % 8) by (bit_vector);
    r
}

spec fn splice_formula(word: u64, k: int, val: u8) -> u64 {
    (word & !(0xffu64 << ((8 * k) as u64))) | ((val as u64) << ((8 * k) as u64))
}

proof fn lemma_splice_formula(word: u64, k: int, val: u8)
    requires
        0 <= k < 8,
    ensures
        replaces_byte(splice_formula(word, k, val), word, k, val),
{
    let shift: u64 = (8 * k) as u64;
    let v = val as u64;
    let updated = splice_formula(word, k, val);
    assert forall|j: int| 0 <= j < 8 && j != k implies #[trigger] byte_of(updated, j) == byte_of(
        word,
        j,
    ) by {
        let s2: u64 = (8 * j) as u64;
        assert(((((word & !(0xffu64 << shift)) | (v << shift)) >> s2) & 0xff) == ((word >> s2)
            & 0xff)) by (bit_vector)
            requires
                shift <= 56,
                s2 <= 56,
                shift % 8 == 0,
                s2 % 8 == 0,
                shift != s2,
                v < 256,
        ;
    }
    assert(((((word & !(0xffu64 << shift)) | (v << shift)) >> shift) & 0xff) == v) by (bit_vector)
        requires
            shift <= 56,
            shift % 8 == 0,
            v < 256,
    ;
}

/// Some word replaces byte `k` of `word` by `val`: the spliced word does.
pub proof fn lemma_spliced(word: u64, k: int, val: u8)
    requires
        0 <= k < 8,
    ensures
        replaces_byte(spliced(word, k, val), word, k, val),
{
    lemma_splice_formula(word, k, val);
    lemma_spliced_unique(splice_formula(word, k, val), word, k, val);
}

/// Puts `val` at byte `offset` of `word`; returns the new word and the byte
/// that stood there before.
pub fn splice_byte(word: u64, offset: usize, val: u8) -> (r: (u64, u8))
    requires
        offset < WORD_BYTES,
    ensures
        r.1 as u64 == byte_of(word, offset as int),
        r.0 == spliced(word, offset as int, val),
        replaces_byte(r.0, word, offset as int, val),
{
    let shift: u64 = 8 * offset as u64;
    let low = (word >> shift) & 0xff;
    assert(low < 256) by (bit_vector)
        requires
            low == (word >> shift) & 0xff,
    ;
    let original = low as u8;
    let masked = word & !(0xffu64 << shift);
    let updated = masked | ((val as u64) << shift);
    proof {
        lemma_splice_formula(word, offset as int, val);
        assert(updated == splice_formula(word, offset as int, val));
        lemma_spliced_unique(updated, word, offset as int, val);
    }
    (updated, original)
}

/// A word that replaces one byte is the spliced word.
pub proof fn lemma_spliced_unique(w: u64, word: u64, k: int, val: u8)
    requires
        0 <= k < 8,
        replaces_byte(w, word, k, val),
    ensures
        spliced(word, k, val) == w,
        replaces_byte(spliced(word, k, val), word, k, val),
{
    let c = spliced(word, k, val);
    assert(replaces_byte(c, word, k, val));
    assert forall|j: int| 0 <= j < 8 implies #[trigger] byte_of(c, j) == byte_of(w, j) by {
        if j != k {
            assert(byte_of(c, j) == byte_of(word, j));
            assert(byte_of(w, j) == byte_of(word, j));
        }
    }
    lemma_word_from_bytes(c, w);
}

/// Splicing back the byte that a splice replaced gives the word that was
/// spliced.
pub proof fn lemma_splice_undone(word: u64, k: int, val: u8, orig: u8)
    requires
        0 <= k < 8,
        orig as u64 == byte_of(word, k),
    ensures
        spliced(spliced(word, k, val), k, orig) == word,
{
    let p = spliced(word, k, val);
    let q = spliced(p, k, orig);
    lemma_spliced(word, k, val);
    lemma_spliced(p, k, orig);
    assert forall|j: int| 0 <= j < 8 implies #[trigger] byte_of(q, j) == byte_of(word, j) by {
        if j != k {
            assert(byte_of(q, j) == byte_of(p, j));
        }
    }
    lemma_word_from_bytes(q, word);
}

} // verus!
