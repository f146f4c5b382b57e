//! The address syntax that `break` accepts: an optional `0x` or `0X`
//! followed by one or more hexadecimal digits, optionally after a `*`.
use vstd::prelude::*;
use vstd::string::StringSliceAdditionalSpecFns;

verus! {

pub open spec fn is_hex_digit(c: u8) -> bool {
    (0x30 <= c <= 0x39) || (0x61 <= c <= 0x66) || (0x41 <= c <= 0x46)
}

pub open spec fn digit_value(c: u8) -> int {
    if c <= 0x39 {
        c - 0x30
    } else if c >= 0x61 {
        c - 0x61 + 10
    } else {
        c - 0x41 + 10
    }
}

/// The number that a string of hexadecimal digits writes.
pub open spec fn hex_value(d: Seq<u8>) -> int
    decreases d.len(),
{
    if d.len() == 0 {
        0
    } else {
        hex_value(d.drop_last()) * 16 + digit_value(d.last())
    }
}

pub open spec fn all_hex_digits(d: Seq<u8>) -> bool {
    forall|i: int| 0 <= i < d.len() ==> #[trigger] is_hex_digit(d[i])
}

pub open spec fn has_hex_prefix(b: Seq<u8>) -> bool {
    b.len() >= 2 && b[0] == 0x30 && (b[1] == 0x78 || b[1] == 0x58)
}

/// The digits of an address token, without its `0x` prefix.
pub open spec fn digits_of(b: Seq<u8>) -> Seq<u8> {
    if has_hex_prefix(b) {
        b.skip(2)
    } else {
        b
    }
}

/// The address that the bytes of a token write, if they write one that fits
/// in a `usize`.
pub open spec fn address_of(b: Seq<u8>) -> Option<usize> {
    let d = digits_of(b);
    if d.len() > 0 && all_hex_digits(d) && hex_value(d) <= usize::MAX {
        Some(hex_value(d) as usize)
    } else {
        None
    }
}

/// The bytes of a `break` argument with a leading `*` taken off.
pub open spec fn without_star(b: Seq<u8>) -> Seq<u8> {
    if b.len() > 0 && b[0] == 0x2a {
        b.skip(1)
    } else {
        b
    }
}

proof fn lemma_hex_value_nonneg(d: Seq<u8>)
    requires
        all_hex_digits(d),
    ensures
        hex_value(d) >= 0,
    decreases d.len(),
{
    if d.len() > 0 {
        assert(all_hex_digits(d.drop_last()));
        lemma_hex_value_nonneg(d.drop_last());
        assert(is_hex_digit(d[d.len() - 1]));
    }
}

proof fn lemma_hex_value_grows(d: Seq<u8>, j: int)
    requires
        0 <= j <= d.len(),
        all_hex_digits(d),
    ensures
        hex_value(d.take(j)) <= hex_value(d),
    decreases d.len() - j,
{
    if j < d.len() {
        lemma_hex_value_grows(d, j + 1);
        assert(d.take(j + 1).drop_last() =~= d.take(j));
        assert(is_hex_digit(d[j]));
        assert(all_hex_digits(d.take(j)));
        lemma_hex_value_nonneg(d.take(j));
    } else {
        assert(d.take(j) =~= d);
    }
}

fn parse_hex_bytes(b: &[u8], start: usize) -> (r: Option<usize>)
    requires
        start <= b@.len(),
    ensures
        r == address_of(b@.skip(start as int)),
{
    let ghost s = b@.skip(start as int);
    let mut i: usize = start;
    if b.len() - start >= 2 && b[start] == 0x30 && (b[start + 1] == 0x78 || b[start + 1] == 0x58) {
        i = start + 2;
    }
    assert(has_hex_prefix(s) == (i == start + 2));
    let ghost d = digits_of(s);
    assert(d =~= b@.skip(i as int));
    if i == b.len() {
        assert(address_of(s) is None);
        return None;
    }
    let first = i;
    let mut acc: usize = 0;
    while i < b.len()
        invariant
            first <= i <= b@.len(),
            start <= first,
            s == b@.skip(start as int),
            d == digits_of(s),
            d =~= b@.skip(first as int),
            all_hex_digits(d.take(i - first)),
            acc as int == hex_value(d.take(i - first)),
        decreases b@.len() - i,
    {
        let c = b[i];
        let is_digit = (0x30 <= c && c <= 0x39) || (0x61 <= c && c <= 0x66) || (0x41 <= c && c
            <= 0x46);
        if !is_digit {
            assert(!is_hex_digit(d[i - first]));
            assert(!all_hex_digits(d));
            assert(address_of(s) is None);
            return None;
        }
        let v: usize = if c <= 0x39 {
            (c - 0x30) as usize
        } else if c >= 0x61 {
            (c - 0x61 + 10) as usize
        } else {
            (c - 0x41 + 10) as usize
        };
        assert(d.take(i - first + 1).drop_last() =~= d.take(i - first));
        if acc > (usize::MAX - v) / 16 {
            proof {
                assert(acc * 16 + v > usize::MAX) by (nonlinear_arith)
                    requires
                        acc > (usize::MAX - v) / 16,
                        v <= usize::MAX,
                ;
                if all_hex_digits(d) {
                    lemma_hex_value_grows(d, i - first + 1);
                }
                assert(address_of(s) is None);
            }
            return None;
        }
        assert(acc * 16 + v <= usize::MAX) by (nonlinear_arith)
            requires
                acc <= (usize::MAX - v) / 16,
                v <= usize::MAX,
        ;
        acc = acc * 16 + v;
        i = i + 1;
    }
    assert(d.take(i - first) =~= d);
    assert(address_of(s) == Some(acc));
    Some(acc)
}

/// Reads an address token: an optional `0x` or `0X` prefix, then one or more
/// hexadecimal digits whose value fits in a `usize`.
pub fn parse_address(addr: &str) -> (r: Option<usize>)
    ensures
        r == address_of(addr.spec_bytes()),
{
    let b = addr.as_bytes();
    assert(b@.skip(0) =~= b@);
    parse_hex_bytes(b, 0)
}

/// Reads the argument of `break`: an address token, with or without a
/// leading `*`.
pub fn breakpoint_address(arg: &str) -> (r: Option<usize>)
    ensures
        r == address_of(without_star(arg.spec_bytes())),
{
    let b = arg.as_bytes();
    if b.len() > 0 && b[0] == 0x2a {
        parse_hex_bytes(b, 1)
    } else {
        assert(b@.skip(0) =~= b@);
        parse_hex_bytes(b, 0)
    }
}

} // verus!
