//! Range text: one block from `a.b.c.d/n`, `a.b.c.d-e.f.g.h` or `a.b.c.d`.

use vstd::prelude::*;
use vstd::arithmetic::power2::{pow2, lemma_pow2_strictly_increases, lemma_pow2_unfold, lemma2_to64};
use crate::addr::{read_number, read_octets, dotted_quad_value, parse_dotted_quad};
use crate::block::{NetworkBlock, Source, block_size};
use crate::text::{trimmed, trim_range, chars_of};

verus! {

/// Why a text gave no block.
#[derive(Clone, Copy, Debug, PartialEq, Eq, Structural)]
pub enum RangeError {
    /// One side of `start-end` is no address.
    InvalidAddress,
    /// The end of `start-end` lies below its start.
    EndBeforeStart,
    /// The text has none of the three forms.
    InvalidFormat,
}

/// The address and prefix length that `s` writes as `a.b.c.d/n`: four fields
/// of one to three digits below 256, a slash, and one or two digits that give
/// at most 32; none when `s` is anything else. Fields may start with zeros.
pub open spec fn cidr_text_value(s: Seq<char>) -> Option<(u32, u8)> {
    match read_octets(s, 0, 4, 0, false) {
        Some((addr, slash)) => if slash < s.len() && s[slash] == '/' {
            match read_number(s, slash + 1, 2, 33, false) {
                Some((prefix_len, end)) => if end == s.len() {
                    Some((addr as u32, prefix_len as u8))
                } else {
                    None
                },
                None => None,
            }
        } else {
            None
        },
        None => None,
    }
}

/// `Ipv4Net::from_str` of ipnet, with `addr()` as a number and
/// `prefix_len()` of the network it gives. That parser reads four decimal
/// fields of at most three digits and a value below 256 with dots between
/// them, a slash, a field of at most two digits and a value below 33, and
/// then wants the end of the text; it puts no limit on leading zeros.
#[verifier::external_body]
fn parse_cidr_text(text: &str) -> (r: Option<(u32, u8)>)
    ensures
        r == cidr_text_value(text@),
{
    match text.parse::<ipnet::Ipv4Net>() {
        Ok(net) => Some((u32::from(net.addr()), net.prefix_len())),
        Err(_) => None,
    }
}

/// Position of the first `c` in `s` at or after `from`; the length of `s`
/// when there is none.
pub open spec fn find_char(s: Seq<char>, c: char, from: int) -> int
    decreases s.len() - from,
{
    if from >= s.len() {
        s.len() as int
    } else if from >= 0 && s[from] == c {
        from
    } else {
        find_char(s, c, from + 1)
    }
}

pub fn position_of(s: &Vec<char>, c: char, from: usize) -> (r: usize)
    ensures
        r == find_char(s@, c, from as int),
        from <= r <= s.len() || (from > s.len() && r == s.len()),
{
    let mut pos: usize = from;
    while pos < s.len() && s[pos] != c
        invariant
            from <= pos,
            find_char(s@, c, from as int) == find_char(s@, c, pos as int),
        decreases s.len() - pos,
    {
        pos = pos + 1;
    }
    if pos > s.len() {
        s.len()
    } else {
        pos
    }
}

/// The largest `k` with two to the `k` at most `n`; zero for zero.
pub open spec fn floor_log2(n: nat) -> nat
    decreases n,
{
    if n <= 1 {
        0
    } else {
        1 + floor_log2(n / 2)
    }
}

/// A positive number lies between two to its `floor_log2` and twice that.
pub proof fn lemma_floor_log2(n: nat)
    requires
        n >= 1,
    ensures
        pow2(floor_log2(n)) <= n < 2 * pow2(floor_log2(n)),
    decreases n,
{
    lemma2_to64();
    if n > 1 {
        lemma_floor_log2(n / 2);
        lemma_pow2_unfold(floor_log2(n / 2) + 1);
    }
}

/// Number of addresses from `start` to `end`, both included.
pub open spec fn range_count(start: u32, end: u32) -> nat {
    (end - start + 1) as nat
}

/// Prefix length of the block that stands for `start..=end`, where `start`
/// is not above `end`: the block has as many addresses as the largest power
/// of two that is not above the count.
pub open spec fn range_prefix(start: u32, end: u32) -> u8 {
    (32 - floor_log2(range_count(start, end))) as u8
}

/// The prefix length of the block that stands for `start..=end`; none for a
/// range whose end lies below its start.
pub fn range_prefix_len(start: u32, end: u32) -> (r: Option<u8>)
    ensures
        r == (if start <= end {
            Some(range_prefix(start, end))
        } else {
            None
        }),
        r matches Some(prefix_len) ==> prefix_len <= 32,
{
    if end < start {
        return None;
    }
    let count: u64 = end as u64 - start as u64 + 1;
    proof {
        lemma_floor_log2(count as nat);
        lemma2_to64();
        if floor_log2(count as nat) > 32 {
            lemma_pow2_strictly_increases(32, floor_log2(count as nat));
        }
    }
    let mut rest: u64 = count;
    let mut bits: u8 = 0;
    while rest > 1
        invariant
            rest >= 1,
            bits + floor_log2(rest as nat) == floor_log2(count as nat),
            floor_log2(count as nat) <= 32,
        decreases rest,
    {
        rest = rest / 2;
        bits = bits + 1;
    }
    Some(32 - bits)
}

/// The block that a text stands for, as address and prefix length.
///
/// A text in the form `a.b.c.d/n` gives that block. Otherwise a text with
/// exactly one dash gives the block of `range_prefix` at the address before
/// the dash, if both sides are addresses once trimmed and the second is not
/// below the first. Otherwise an address gives the block of that one address.
pub open spec fn range_text_value(s: Seq<char>) -> Result<(u32, u8), RangeError> {
    let dash = find_char(s, '-', 0);
    if let Some(block) = cidr_text_value(s) {
        Ok(block)
    } else if dash < s.len() && find_char(s, '-', dash + 1) == s.len() {
        match (
            dotted_quad_value(trimmed(s.subrange(0, dash))),
            dotted_quad_value(trimmed(s.subrange(dash + 1, s.len() as int))),
        ) {
            (Some(start), Some(end)) => if start <= end {
                Ok((start, range_prefix(start, end)))
            } else {
                Err(RangeError::EndBeforeStart)
            },
            _ => Err(RangeError::InvalidAddress),
        }
    } else {
        match dotted_quad_value(s) {
            Some(addr) => Ok((addr, 32u8)),
            None => Err(RangeError::InvalidFormat),
        }
    }
}

/// The characters of `text[from..to]`.
pub fn slice_of(text: &Vec<char>, from: usize, to: usize) -> (v: Vec<char>)
    requires
        from <= to <= text.len(),
    ensures
        v@ == text@.subrange(from as int, to as int),
{
    let mut v: Vec<char> = Vec::new();
    let mut pos: usize = from;
    while pos < to
        invariant
            from <= pos <= to <= text.len(),
            v@ == text@.subrange(from as int, pos as int),
        decreases to - pos,
    {
        v.push(text[pos]);
        pos = pos + 1;
    }
    v
}

/// The address in `text[from..to]` once trimmed.
fn parse_trimmed_quad(text: &Vec<char>, from: usize, to: usize) -> (r: Option<u32>)
    requires
        from <= to <= text.len(),
    ensures
        r == dotted_quad_value(trimmed(text@.subrange(from as int, to as int))),
{
    let (start, end) = trim_range(text, from, to);
    let part = slice_of(text, start, end);
    parse_dotted_quad(&part)
}

/// Reads one block from a text and tags it with `source`.
pub fn parse_ip_range(input: &str, source: Source) -> (r: Result<NetworkBlock, RangeError>)
    ensures
        match range_text_value(input@) {
            Ok((addr, prefix_len)) => r matches Ok(block) && block.wf() && block.addr() == addr
                && block.prefix_len() == prefix_len && block.source() == source,
            Err(e) => r == Err::<NetworkBlock, RangeError>(e),
        },
{
    if let Some((addr, prefix_len)) = parse_cidr_text(input) {
        proof {
            lemma_cidr_prefix(input@);
        }
        return Ok(NetworkBlock::from_parts(addr, prefix_len, source));
    }
    let text = chars_of(input);
    let dash = position_of(&text, '-', 0);
    if dash < text.len() && position_of(&text, '-', dash + 1) == text.len() {
        let start = parse_trimmed_quad(&text, 0, dash);
        let end = parse_trimmed_quad(&text, dash + 1, text.len());
        match (start, end) {
            (Some(start), Some(end)) => {
                match range_prefix_len(start, end) {
                    Some(prefix_len) => Ok(NetworkBlock::from_parts(start, prefix_len, source)),
                    None => Err(RangeError::EndBeforeStart),
                }
            },
            _ => Err(RangeError::InvalidAddress),
        }
    } else {
        match parse_dotted_quad(&text) {
            Some(addr) => Ok(NetworkBlock::single(addr, source)),
            None => Err(RangeError::InvalidFormat),
        }
    }
}

/// A prefix length read from text is at most 32.
pub proof fn lemma_cidr_prefix(s: Seq<char>)
    ensures
        cidr_text_value(s) matches Some((_, prefix_len)) ==> prefix_len <= 32,
{
}

/// The block that stands for `start..=end` has a power of two of addresses
/// that is not above the number of addresses in the range, and twice that
/// power is above it.
pub proof fn lemma_range_block_size(start: u32, end: u32)
    requires
        start <= end,
    ensures
        range_prefix(start, end) <= 32,
        block_size(range_prefix(start, end)) == pow2(floor_log2(range_count(start, end))),
        block_size(range_prefix(start, end)) <= end - start + 1 < 2 * block_size(
            range_prefix(start, end),
        ),
{
    lemma2_to64();
    let n: nat = range_count(start, end);
    lemma_floor_log2(n);
    if floor_log2(n) > 32 {
        lemma_pow2_strictly_increases(32, floor_log2(n));
    }
}

} // verus!
