//! IPv4 addresses in dotted-decimal text.

use vstd::prelude::*;
use crate::text::{is_digit, decimal_value, decimal_digits, push_decimal};

verus! {

/// Number of digits that `s` holds from position `from` on without a break.
pub open spec fn digit_run(s: Seq<char>, from: int) -> nat
    decreases s.len() - from,
{
    if 0 <= from < s.len() && is_digit(s[from]) {
        1 + digit_run(s, from + 1)
    } else {
        0
    }
}

/// A decimal field at `from`: all the digits that stand there, at least one
/// and at most `max_digits`, with a value below `limit`. With `plain` set, a
/// field of several digits may not start with a zero. The result is the
/// value and the position after the field.
pub open spec fn read_number(
    s: Seq<char>,
    from: int,
    max_digits: nat,
    limit: nat,
    plain: bool,
) -> Option<(nat, int)> {
    let n = digit_run(s, from);
    let value = decimal_value(s.subrange(from, from + n));
    if n == 0 || n > max_digits || value >= limit || (plain && n > 1 && s[from] == '0') {
        None
    } else {
        Some((value, from + n))
    }
}

/// `count` fields below 256 of up to three digits, separated by dots, from
/// position `from` on; `high` holds the fields read before. The result is the
/// fields as one number, 8 bits each, and the position after the last one.
pub open spec fn read_octets(s: Seq<char>, from: int, count: nat, high: nat, plain: bool) -> Option<
    (nat, int),
>
    decreases count,
{
    match read_number(s, from, 3, 256, plain) {
        None => None,
        Some((value, next)) => {
            let sum = high * 256 + value;
            if count <= 1 {
                Some((sum, next))
            } else if next < s.len() && s[next] == '.' {
                read_octets(s, next + 1, (count - 1) as nat, sum, plain)
            } else {
                None
            }
        },
    }
}

/// The address that `s` writes as four decimal fields with dots between
/// them, where no field of several digits starts with a zero; none when `s`
/// is anything else.
pub open spec fn dotted_quad_value(s: Seq<char>) -> Option<u32> {
    match read_octets(s, 0, 4, 0, true) {
        Some((value, end)) => if end == s.len() {
            Some(value as u32)
        } else {
            None
        },
        None => None,
    }
}

/// The field at `from`, as `read_number` defines it.
pub fn parse_number(s: &Vec<char>, from: usize, max_digits: usize, limit: u32, plain: bool) -> (r:
    Option<(u32, usize)>)
    requires
        max_digits <= 8,
    ensures
        match read_number(s@, from as int, max_digits as nat, limit as nat, plain) {
            Some((value, next)) => r == Some((value as u32, next as usize)) && value < limit
                && from < next <= s.len(),
            None => r is None,
        },
{
    if from >= s.len() {
        return None;
    }
    let mut pos: usize = from;
    let mut value: u32 = 0;
    while pos < s.len() && 0x30 <= s[pos] as u32 && s[pos] as u32 <= 0x39
        invariant
            from <= pos <= s.len(),
            pos - from <= max_digits <= 8,
            digit_run(s@, from as int) == (pos - from) + digit_run(s@, pos as int),
            value == decimal_value(s@.subrange(from as int, pos as int)),
            value < pow10((pos - from) as nat),
        decreases s.len() - pos,
    {
        if pos - from >= max_digits {
            return None;
        }
        proof {
            let longer = s@.subrange(from as int, pos + 1);
            assert(longer.drop_last() == s@.subrange(from as int, pos as int));
            lemma_pow10_bounds((pos - from) as nat);
            lemma_pow10_bounds((pos + 1 - from) as nat);
        }
        value = value * 10 + (s[pos] as u32 - 0x30);
        pos = pos + 1;
    }
    if pos == from || value >= limit || (plain && pos - from > 1 && s[from] == '0') {
        None
    } else {
        Some((value, pos))
    }
}

/// Ten to the power `e`.
pub open spec fn pow10(e: nat) -> nat
    decreases e,
{
    if e == 0 {
        1
    } else {
        10 * pow10((e - 1) as nat)
    }
}

proof fn lemma_pow10_bounds(e: nat)
    requires
        e <= 9,
    ensures
        1 <= pow10(e) <= 1_000_000_000,
        e <= 8 ==> pow10(e) <= 100_000_000,
    decreases 9 - e,
{
    if e < 9 {
        lemma_pow10_bounds(e + 1);
        assert(pow10(e + 1) == 10 * pow10(e));
    } else {
        reveal_with_fuel(pow10, 10);
    }
    if e > 0 {
        assert(pow10(e) == 10 * pow10((e - 1) as nat));
    }
}

/// The address that `s` writes in dotted-decimal form.
pub fn parse_dotted_quad(s: &Vec<char>) -> (r: Option<u32>)
    ensures
        r == dotted_quad_value(s@),
{
    let mut pos: usize = 0;
    let mut value: u32 = 0;
    let mut left: usize = 4;
    while left > 0
        invariant
            0 <= left <= 4,
            pos <= s.len(),
            value < pow256((4 - left) as nat),
            left > 0 ==> read_octets(s@, 0, 4, 0, true) == read_octets(
                s@,
                pos as int,
                left as nat,
                value as nat,
                true,
            ),
            left == 0 ==> read_octets(s@, 0, 4, 0, true) == Some((value as nat, pos as int)),
        decreases left,
    {
        proof {
            lemma_pow256_values();
        }
        match parse_number(s, pos, 3, 256, true) {
            None => {
                return None;
            },
            Some((octet, next)) => {
                value = value * 256 + octet;
                if left == 1 {
                    pos = next;
                } else if next < s.len() && s[next] == '.' {
                    pos = next + 1;
                } else {
                    return None;
                }
                left = left - 1;
            },
        }
    }
    if pos == s.len() {
        Some(value)
    } else {
        None
    }
}

/// 256 to the power `e`.
pub open spec fn pow256(e: nat) -> nat
    decreases e,
{
    if e == 0 {
        1
    } else {
        256 * pow256((e - 1) as nat)
    }
}

proof fn lemma_pow256_values()
    ensures
        pow256(0) == 1,
        pow256(1) == 0x100,
        pow256(2) == 0x1_0000,
        pow256(3) == 0x100_0000,
        pow256(4) == 0x1_0000_0000,
{
    reveal_with_fuel(pow256, 5);
}

/// One of the four fields of an address, the highest first.
pub open spec fn octet_of(addr: u32, index: nat) -> nat {
    (addr as nat / pow256((3 - index) as nat)) % 256
}

/// An address in dotted-decimal form.
pub open spec fn quad_text(addr: u32) -> Seq<char> {
    decimal_digits(octet_of(addr, 0)) + seq!['.'] + decimal_digits(octet_of(addr, 1)) + seq!['.']
        + decimal_digits(octet_of(addr, 2)) + seq!['.'] + decimal_digits(octet_of(addr, 3))
}

/// Appends an address in dotted-decimal form.
pub fn push_quad(out: &mut Vec<char>, addr: u32)
    ensures
        final(out)@ == old(out)@ + quad_text(addr),
{
    proof {
        lemma_pow256_values();
    }
    let ghost before = out@;
    let ghost dot = seq!['.'];
    push_decimal(out, (addr / 0x100_0000 % 256) as u64);
    out.push('.');
    assert(out@ == before + (decimal_digits(octet_of(addr, 0)) + dot));
    push_decimal(out, (addr / 0x1_0000 % 256) as u64);
    out.push('.');
    assert(out@ == before + (decimal_digits(octet_of(addr, 0)) + dot + decimal_digits(
        octet_of(addr, 1),
    ) + dot));
    push_decimal(out, (addr / 0x100 % 256) as u64);
    out.push('.');
    assert(out@ == before + (decimal_digits(octet_of(addr, 0)) + dot + decimal_digits(
        octet_of(addr, 1),
    ) + dot + decimal_digits(octet_of(addr, 2)) + dot));
    push_decimal(out, (addr % 256) as u64);
    assert(octet_of(addr, 3) == addr % 256) by {
        assert(pow256(0) == 1);
        assert(addr as nat / 1 == addr as nat);
    }
    assert(out@ == before + (decimal_digits(octet_of(addr, 0)) + dot + decimal_digits(
        octet_of(addr, 1),
    ) + dot + decimal_digits(octet_of(addr, 2)) + dot + decimal_digits(octet_of(addr, 3))));
}


/// A number in decimal is a string of digits that writes the number back; it
/// starts with a zero only where the number is zero.
pub proof fn lemma_decimal_digits(n: nat)
    ensures
        decimal_digits(n).len() >= 1,
        forall|i: int| 0 <= i < decimal_digits(n).len() ==> is_digit(#[trigger] decimal_digits(n)[i]),
        decimal_value(decimal_digits(n)) == n,
        n < 10 ==> decimal_digits(n).len() == 1,
        10 <= n < 100 ==> decimal_digits(n).len() == 2,
        100 <= n < 1000 ==> decimal_digits(n).len() == 3,
        n != 0 ==> decimal_digits(n)[0] != '0',
    decreases n,
{
    let d = decimal_digits(n);
    if n < 10 {
        assert(d.drop_last() == Seq::<char>::empty());
        assert(decimal_value(d.drop_last()) == 0);
        assert(d.last() == crate::text::digit_char(n));
    } else {
        lemma_decimal_digits(n / 10);
        let front = decimal_digits(n / 10);
        assert(d.drop_last() == front);
        assert(d.last() == crate::text::digit_char(n % 10));
        assert(d[0] == front[0]);
    }
}

/// Digits that stand at `from` and end at the end of the text or before
/// something else are read as one field.
pub proof fn lemma_digit_run(s: Seq<char>, from: int, len: nat)
    requires
        0 <= from,
        from + len <= s.len(),
        forall|i: int| from <= i < from + len ==> is_digit(#[trigger] s[i]),
        from + len < s.len() ==> !is_digit(s[from + len]),
    ensures
        digit_run(s, from) == len,
    decreases len,
{
    if len > 0 {
        lemma_digit_run(s, from + 1, (len - 1) as nat);
    }
}

/// A field below 256 in decimal is read back as itself.
proof fn lemma_read_octet(s: Seq<char>, from: int, octet: nat)
    requires
        0 <= from,
        octet < 256,
        from + decimal_digits(octet).len() <= s.len(),
        s.subrange(from, from + decimal_digits(octet).len()) == decimal_digits(octet),
        from + decimal_digits(octet).len() < s.len() ==> s[from + decimal_digits(octet).len()] == '.',
    ensures
        read_number(s, from, 3, 256, true) == Some((octet, from + decimal_digits(octet).len())),
{
    let d = decimal_digits(octet);
    lemma_decimal_digits(octet);
    assert forall|i: int| from <= i < from + d.len() implies is_digit(#[trigger] s[i]) by {
        assert(s[i] == d[i - from]);
    }
    lemma_digit_run(s, from, d.len());
    assert(s[from] == d[0]);
}

/// An address written out is read back as itself.
pub proof fn lemma_quad_round_trip(addr: u32)
    ensures
        dotted_quad_value(quad_text(addr)) == Some(addr),
{
    lemma_pow256_values();
    let s = quad_text(addr);
    let o0 = octet_of(addr, 0);
    let o1 = octet_of(addr, 1);
    let o2 = octet_of(addr, 2);
    let o3 = octet_of(addr, 3);
    let d0 = decimal_digits(o0);
    let d1 = decimal_digits(o1);
    let d2 = decimal_digits(o2);
    let d3 = decimal_digits(o3);
    lemma_decimal_digits(o0);
    lemma_decimal_digits(o1);
    lemma_decimal_digits(o2);
    lemma_decimal_digits(o3);
    let p1: int = d0.len() as int + 1;
    let p2: int = p1 + d1.len() + 1;
    let p3: int = p2 + d2.len() + 1;
    assert(s.len() == p3 + d3.len());
    assert(s.subrange(0, d0.len() as int) == d0);
    assert(s[d0.len() as int] == '.');
    assert(s.subrange(p1, p1 + d1.len()) == d1);
    assert(s[p1 + d1.len()] == '.');
    assert(s.subrange(p2, p2 + d2.len()) == d2);
    assert(s[p2 + d2.len()] == '.');
    assert(s.subrange(p3, p3 + d3.len()) == d3);
    lemma_read_octet(s, 0, o0);
    lemma_read_octet(s, p1, o1);
    lemma_read_octet(s, p2, o2);
    lemma_read_octet(s, p3, o3);
    let v1: nat = o0;
    let v2: nat = v1 * 256 + o1;
    let v3: nat = v2 * 256 + o2;
    let v4: nat = v3 * 256 + o3;
    assert(read_octets(s, p3, 1, v3, true) == Some((v4, s.len() as int)));
    assert(read_octets(s, p2, 2, v2, true) == Some((v4, s.len() as int)));
    assert(read_octets(s, p1, 3, v1, true) == Some((v4, s.len() as int)));
    assert(read_octets(s, 0, 4, 0, true) == Some((v4, s.len() as int)));
    assert(v4 == addr) by {
        let a: int = addr as int;
        assert(addr as nat / 1 == addr as nat);
        assert(o3 == a % 256);
        assert(o2 == (a / 0x100) % 256);
        assert(o1 == (a / 0x1_0000) % 256);
        assert(o0 == (a / 0x100_0000) % 256);
        assert(a / 0x100_0000 < 256) by (nonlinear_arith)
            requires
                0 <= a < 0x1_0000_0000,
        ;
        assert(addr == ((((addr / 0x100_0000) % 256) * 256 + (addr / 0x1_0000) % 256) * 256 + (addr
            / 0x100) % 256) * 256 + addr % 256) by (bit_vector);
    }
}

} // verus!
