//! Address blocks and the hosts they contain.

use vstd::prelude::*;
use vstd::arithmetic::power2::{pow2, lemma_pow2_pos, lemma_pow2_strictly_increases, lemma2_to64};
use vstd::arithmetic::div_mod::{lemma_fundamental_div_mod, lemma_mod_bound, lemma_div_pos_is_pos};
use vstd::bits::lemma_u64_shl_is_mul;

verus! {

/// Where a block came from in the input.
#[derive(Clone, Copy, Debug, PartialEq, Eq, Structural)]
pub enum Source {
    Cidr,
    Range,
    SingleIp,
    Json,
}

/// The name under which a source stands in the endpoint stream.
pub open spec fn label_text(source: Source) -> Seq<char> {
    match source {
        Source::Cidr => "CIDR"@,
        Source::Range => "Range"@,
        Source::SingleIp => "SingleIP"@,
        Source::Json => "JSON"@,
    }
}

impl Source {
    pub fn label(&self) -> (s: String)
        ensures
            s@ == label_text(*self),
    {
        match self {
            Source::Cidr => "CIDR".to_owned(),
            Source::Range => "Range".to_owned(),
            Source::SingleIp => "SingleIP".to_owned(),
            Source::Json => "JSON".to_owned(),
        }
    }
}

/// Number of addresses in a block with the given prefix length.
pub open spec fn block_size(prefix_len: u8) -> nat {
    pow2((32 - prefix_len) as nat)
}

/// Lowest address of the block that holds `addr`.
pub open spec fn network_of(addr: u32, prefix_len: u8) -> nat {
    (addr as nat / block_size(prefix_len)) * block_size(prefix_len)
}

/// Highest address of the block that holds `addr`.
pub open spec fn broadcast_of(addr: u32, prefix_len: u8) -> nat {
    (network_of(addr, prefix_len) + block_size(prefix_len) - 1) as nat
}

/// First address that is scanned: the network address is skipped unless the
/// block has one or two addresses only.
pub open spec fn first_host_of(addr: u32, prefix_len: u8) -> nat {
    if prefix_len < 31 {
        network_of(addr, prefix_len) + 1
    } else {
        network_of(addr, prefix_len)
    }
}

/// Number of addresses that are scanned.
pub open spec fn host_count_of(prefix_len: u8) -> nat {
    if prefix_len < 31 {
        (block_size(prefix_len) - 2) as nat
    } else {
        block_size(prefix_len)
    }
}

/// The scanned addresses of a block, ascending.
pub open spec fn hosts_of(addr: u32, prefix_len: u8) -> Seq<u32> {
    Seq::new(host_count_of(prefix_len), |i: int| (first_host_of(addr, prefix_len) + i) as u32)
}

/// Facts about block sizes that the arithmetic below rests on.
pub proof fn lemma_block_bounds(addr: u32, prefix_len: u8)
    requires
        prefix_len <= 32,
    ensures
        1 <= block_size(prefix_len) <= 0x1_0000_0000,
        prefix_len < 31 ==> block_size(prefix_len) >= 4,
        prefix_len == 31 ==> block_size(prefix_len) == 2,
        prefix_len == 32 ==> block_size(prefix_len) == 1,
        network_of(addr, prefix_len) <= addr <= broadcast_of(addr, prefix_len),
        broadcast_of(addr, prefix_len) <= u32::MAX,
        network_of(addr, prefix_len) == addr - addr as nat % block_size(prefix_len),
{
    let k: nat = (32 - prefix_len) as nat;
    let size: int = block_size(prefix_len) as int;
    lemma2_to64();
    lemma_pow2_pos(k);
    if k < 32 {
        lemma_pow2_strictly_increases(k, 32);
    }
    if k > 2 {
        lemma_pow2_strictly_increases(2, k);
    }
    lemma_fundamental_div_mod(addr as int, size);
    lemma_mod_bound(addr as int, size);
    lemma_div_pos_is_pos(addr as int, size);
    let q: int = addr as int / size;
    assert(size * q == q * size) by (nonlinear_arith);
    // the block that holds `addr` ends below 2^32
    lemma_fundamental_div_mod(0x1_0000_0000, size);
    lemma_pow2_divides(k, 32);
    let blocks: int = 0x1_0000_0000int / size;
    assert(size * blocks == 0x1_0000_0000int);
    assert(q < blocks) by (nonlinear_arith)
        requires
            size * q <= addr,
            addr < 0x1_0000_0000int,
            size * blocks == 0x1_0000_0000int,
            size > 0,
    ;
    assert(q * size + size <= 0x1_0000_0000int) by (nonlinear_arith)
        requires
            q + 1 <= blocks,
            size * blocks == 0x1_0000_0000int,
            size > 0,
    ;
}

/// Every block has a host.
pub proof fn lemma_host_count_positive(prefix_len: u8)
    ensures
        host_count_of(prefix_len) >= 1,
{
    lemma2_to64();
    lemma_pow2_pos((32 - prefix_len) as nat);
    if prefix_len < 30 {
        lemma_pow2_strictly_increases(2, (32 - prefix_len) as nat);
    }
}

/// A smaller power of two divides a larger one.
pub proof fn lemma_pow2_divides(small: nat, large: nat)
    requires
        small <= large,
    ensures
        pow2(large) % pow2(small) == 0,
    decreases large - small,
{
    lemma_pow2_pos(small);
    if small == large {
        vstd::arithmetic::div_mod::lemma_mod_self_0(pow2(small) as int);
    } else {
        lemma_pow2_divides(small, (large - 1) as nat);
        vstd::arithmetic::power2::lemma_pow2_unfold(large);
        let m: int = pow2(small) as int;
        let p: int = pow2((large - 1) as nat) as int;
        assert(p % m == 0);
        vstd::arithmetic::div_mod::lemma_mul_mod_noop_right(2, p, m);
        assert(2 * (p % m) == 0);
        assert(0int % m == 0);
    }
}

/// A contiguous range of IPv4 addresses given by an address and a prefix
/// length, with the tag of the input form it came from.
#[derive(Clone, Copy, Debug, PartialEq, Eq, Structural)]
pub struct NetworkBlock {
    addr: u32,
    prefix_len: u8,
    source: Source,
}

impl NetworkBlock {
    #[verifier::type_invariant]
    spec fn prefix_in_range(self) -> bool {
        self.prefix_len <= 32
    }

    /// The prefix length is at most 32.
    pub closed spec fn wf(&self) -> bool {
        self.prefix_len <= 32
    }

    pub closed spec fn spec_addr(&self) -> u32 {
        self.addr
    }

    pub closed spec fn spec_prefix_len(&self) -> u8 {
        self.prefix_len
    }

    pub closed spec fn spec_source(&self) -> Source {
        self.source
    }

    /// The scanned addresses of this block, ascending.
    pub open spec fn hosts(&self) -> Seq<u32> {
        hosts_of(self.spec_addr(), self.spec_prefix_len())
    }

    /// A block of the given address and prefix length; none when the prefix
    /// length exceeds 32.
    pub fn new(addr: u32, prefix_len: u8, source: Source) -> (r: Option<NetworkBlock>)
        ensures
            r is Some <==> prefix_len <= 32,
            r matches Some(b) ==> b.wf() && b.spec_addr() == addr && b.spec_prefix_len()
                == prefix_len && b.spec_source() == source,
    {
        if prefix_len <= 32 {
            Some(NetworkBlock { addr, prefix_len, source })
        } else {
            None
        }
    }

    /// A block of a prefix length that is known to be in range.
    pub(crate) fn from_parts(addr: u32, prefix_len: u8, source: Source) -> (b: NetworkBlock)
        requires
            prefix_len <= 32,
        ensures
            b.wf(),
            b.spec_addr() == addr,
            b.spec_prefix_len() == prefix_len,
            b.spec_source() == source,
    {
        NetworkBlock { addr, prefix_len, source }
    }

    /// The block of one address.
    pub fn single(addr: u32, source: Source) -> (b: NetworkBlock)
        ensures
            b.wf(),
            b.spec_addr() == addr,
            b.spec_prefix_len() == 32,
            b.spec_source() == source,
    {
        NetworkBlock { addr, prefix_len: 32, source }
    }

    #[verifier::when_used_as_spec(spec_addr)]
    pub fn addr(&self) -> (r: u32)
        ensures
            r == self.spec_addr(),
    {
        self.addr
    }

    #[verifier::when_used_as_spec(spec_prefix_len)]
    pub fn prefix_len(&self) -> (r: u8)
        ensures
            r == self.spec_prefix_len(),
            r <= 32,
            self.wf(),
    {
        proof {
            use_type_invariant(self);
        }
        self.prefix_len
    }

    #[verifier::when_used_as_spec(spec_source)]
    pub fn source(&self) -> (r: Source)
        ensures
            r == self.spec_source(),
    {
        self.source
    }

    /// Number of addresses in the block, 2^(32 - prefix length).
    pub fn size(&self) -> (r: u64)
        ensures
            r == block_size(self.spec_prefix_len()),
            1 <= r <= 0x1_0000_0000,
    {
        proof {
            use_type_invariant(self);
            lemma_block_bounds(self.addr, self.prefix_len);
            lemma_u64_shl_is_mul(1, (32 - self.prefix_len) as u64);
        }
        let shift: u64 = 32 - self.prefix_len as u64;
        1u64 << shift
    }

    /// Lowest address of the block.
    pub fn network(&self) -> (r: u32)
        ensures
            r == network_of(self.spec_addr(), self.spec_prefix_len()),
    {
        proof {
            use_type_invariant(self);
            lemma_block_bounds(self.addr, self.prefix_len);
        }
        let size: u64 = self.size();
        let low: u64 = self.addr as u64 % size;
        (self.addr as u64 - low) as u32
    }

    /// Highest address of the block.
    pub fn broadcast(&self) -> (r: u32)
        ensures
            r == broadcast_of(self.spec_addr(), self.spec_prefix_len()),
    {
        proof {
            use_type_invariant(self);
            lemma_block_bounds(self.addr, self.prefix_len);
        }
        let size: u64 = self.size();
        let network: u64 = self.network() as u64;
        (network + size - 1) as u32
    }

    /// Number of scanned addresses.
    pub fn host_count(&self) -> (r: u64)
        ensures
            r == self.hosts().len(),
            1 <= r <= 0x1_0000_0000,
    {
        proof {
            use_type_invariant(self);
            lemma_block_bounds(self.addr, self.prefix_len);
        }
        let size: u64 = self.size();
        if self.prefix_len < 31 {
            size - 2
        } else {
            size
        }
    }

    /// The scanned address at a position, counted from zero in ascending
    /// order; none past the last one.
    pub fn host(&self, index: u64) -> (r: Option<u32>)
        ensures
            r == (if index < self.hosts().len() {
                Some(self.hosts()[index as int])
            } else {
                None
            }),
            self.hosts().len() <= 0x1_0000_0000,
    {
        proof {
            use_type_invariant(self);
            lemma_block_bounds(self.addr, self.prefix_len);
        }
        if index < self.host_count() {
            let network: u64 = self.network() as u64;
            let first: u64 = if self.prefix_len < 31 {
                network + 1
            } else {
                network
            };
            Some((first + index) as u32)
        } else {
            None
        }
    }
}

/// Number of hosts in a list of blocks.
pub open spec fn host_total(blocks: Seq<NetworkBlock>) -> nat
    decreases blocks.len(),
{
    if blocks.len() == 0 {
        0
    } else {
        host_total(blocks.drop_last()) + blocks.last().hosts().len()
    }
}

/// Number of hosts in a list of blocks; the largest number that fits where
/// there are more.
pub fn total_hosts(blocks: &Vec<NetworkBlock>) -> (r: u64)
    ensures
        r == if host_total(blocks@) <= u64::MAX {
            host_total(blocks@)
        } else {
            u64::MAX as nat
        },
{
    let mut sum: u64 = 0;
    let mut i: usize = 0;
    assert(blocks@.take(0) == Seq::<NetworkBlock>::empty());
    while i < blocks.len()
        invariant
            i <= blocks.len(),
            sum == if host_total(blocks@.take(i as int)) <= u64::MAX {
                host_total(blocks@.take(i as int))
            } else {
                u64::MAX as nat
            },
        decreases blocks.len() - i,
    {
        assert(blocks@.take(i + 1).drop_last() == blocks@.take(i as int));
        let count: u64 = blocks[i].host_count();
        sum = if sum > u64::MAX - count {
            u64::MAX
        } else {
            sum + count
        };
        i = i + 1;
    }
    assert(blocks@.take(i as int) == blocks@);
    sum
}

/// The hosts of a block are the addresses from the network address to the
/// broadcast address in ascending order; a block of more than two addresses
/// leaves out exactly those two, a block of one or two addresses leaves out
/// none.
pub proof fn lemma_hosts_of_block(addr: u32, prefix_len: u8)
    requires
        prefix_len <= 32,
    ensures
        forall|i: int, j: int|
            0 <= i < j < hosts_of(addr, prefix_len).len() ==> hosts_of(addr, prefix_len)[i]
                < hosts_of(addr, prefix_len)[j],
        prefix_len < 31 ==> {
            &&& hosts_of(addr, prefix_len).len() == block_size(prefix_len) - 2
            &&& !hosts_of(addr, prefix_len).contains(network_of(addr, prefix_len) as u32)
            &&& !hosts_of(addr, prefix_len).contains(broadcast_of(addr, prefix_len) as u32)
            &&& forall|a: u32|
                network_of(addr, prefix_len) < a < broadcast_of(addr, prefix_len) ==> hosts_of(
                    addr,
                    prefix_len,
                ).contains(a)
        },
        prefix_len >= 31 ==> {
            &&& hosts_of(addr, prefix_len).len() == block_size(prefix_len)
            &&& forall|a: u32|
                network_of(addr, prefix_len) <= a <= broadcast_of(addr, prefix_len) ==> hosts_of(
                    addr,
                    prefix_len,
                ).contains(a)
        },
        forall|i: int|
            0 <= i < hosts_of(addr, prefix_len).len() ==> network_of(addr, prefix_len)
                <= #[trigger] hosts_of(addr, prefix_len)[i] <= broadcast_of(addr, prefix_len),
{
    lemma_block_bounds(addr, prefix_len);
    let hosts = hosts_of(addr, prefix_len);
    let first: int = first_host_of(addr, prefix_len) as int;
    assert forall|a: u32| first <= a < first + hosts.len() implies hosts.contains(a) by {
        assert(hosts[a - first] == a);
    }
}

} // verus!
