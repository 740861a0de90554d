use public_ollama_finder::block::{NetworkBlock, Source};
use public_ollama_finder::range::{parse_ip_range, range_prefix_len, RangeError};

fn addr(a: u32, b: u32, c: u32, d: u32) -> u32 {
    (a << 24) | (b << 16) | (c << 8) | d
}

fn hosts(block: &NetworkBlock) -> Vec<u32> {
    let mut out = Vec::new();
    let mut i: u64 = 0;
    while let Some(h) = block.host(i) {
        out.push(h);
        i += 1;
    }
    out
}

fn ipnet_hosts(text: &str) -> Vec<u32> {
    text.parse::<ipnet::Ipv4Net>().unwrap().hosts().map(u32::from).collect()
}

#[test]
fn slash_30_has_two_hosts() {
    let block = parse_ip_range("10.0.0.0/30", Source::Cidr).unwrap();
    assert_eq!(block.addr(), addr(10, 0, 0, 0));
    assert_eq!(block.prefix_len(), 30);
    assert_eq!(block.size(), 4);
    assert_eq!(block.network(), addr(10, 0, 0, 0));
    assert_eq!(block.broadcast(), addr(10, 0, 0, 3));
    assert_eq!(block.host_count(), 2);
    assert_eq!(hosts(&block), vec![addr(10, 0, 0, 1), addr(10, 0, 0, 2)]);
}

#[test]
fn slash_31_and_32_keep_every_address() {
    let pair = parse_ip_range("10.0.0.6/31", Source::Cidr).unwrap();
    assert_eq!(hosts(&pair), vec![addr(10, 0, 0, 6), addr(10, 0, 0, 7)]);
    let one = parse_ip_range("10.0.0.7/32", Source::Cidr).unwrap();
    assert_eq!(hosts(&one), vec![addr(10, 0, 0, 7)]);
    assert_eq!(one.host_count(), 1);
}

#[test]
fn hosts_agree_with_ipnet() {
    for text in ["192.168.1.77/24", "10.1.2.3/27", "172.16.5.4/30", "8.8.8.8/31", "1.2.3.4/32", "255.255.255.255/29", "0.0.0.0/28"] {
        let block = parse_ip_range(text, Source::Cidr).unwrap();
        assert_eq!(hosts(&block), ipnet_hosts(text), "{}", text);
    }
}

#[test]
fn whole_space_counts() {
    let block = NetworkBlock::new(addr(9, 9, 9, 9), 0, Source::Cidr).unwrap();
    assert_eq!(block.size(), 1u64 << 32);
    assert_eq!(block.host_count(), (1u64 << 32) - 2);
    assert_eq!(block.network(), 0);
    assert_eq!(block.broadcast(), u32::MAX);
    assert_eq!(block.host(0), Some(1));
    assert_eq!(block.host((1u64 << 32) - 3), Some(u32::MAX - 1));
    assert_eq!(block.host((1u64 << 32) - 2), None);
}

#[test]
fn prefix_over_32_is_no_block() {
    assert!(NetworkBlock::new(0, 33, Source::Cidr).is_none());
    assert!(NetworkBlock::new(0, 32, Source::Cidr).is_some());
}

#[test]
fn cidr_text_follows_ipnet() {
    for text in ["10.0.0.0/8", "010.001.0.0/08", "1.2.3.4/32", "1.2.3.4/33", "1.2.3.4/", "1.2.3/8", "256.1.1.1/8",
        "1.2.3.4/008", "1.2.3.4/8 ", " 1.2.3.4/8", "1.2.3.4", "0001.2.3.4/8", "1.2.3.4/+8", "1..3.4/8", "\u{661}.2.3.4/8"] {
        let ours = parse_ip_range(text, Source::Cidr).ok().filter(|_| text.contains('/'));
        let theirs = text.parse::<ipnet::Ipv4Net>().ok();
        assert_eq!(ours.map(|b| (b.addr(), b.prefix_len())), theirs.map(|n| (u32::from(n.addr()), n.prefix_len())), "{:?}", text);
    }
}

#[test]
fn single_dash_range_is_one_host() {
    let block = parse_ip_range("192.168.1.10-192.168.1.10", Source::Range).unwrap();
    assert_eq!(block.addr(), addr(192, 168, 1, 10));
    assert_eq!(block.prefix_len(), 32);
    assert_eq!(hosts(&block), vec![addr(192, 168, 1, 10)]);
    assert_eq!(block.source(), Source::Range);
}

#[test]
fn dash_range_is_anchored_and_sized_to_the_power_of_two_below() {
    // 256 addresses: the whole range
    let block = parse_ip_range("10.0.0.0-10.0.0.255", Source::Range).unwrap();
    assert_eq!((block.addr(), block.prefix_len()), (addr(10, 0, 0, 0), 24));
    // 6 addresses: the largest power of two that is not above six is four
    let block = parse_ip_range("10.0.0.0-10.0.0.5", Source::Range).unwrap();
    assert_eq!((block.addr(), block.prefix_len()), (addr(10, 0, 0, 0), 30));
    assert_eq!(block.size(), 4);
    let block = parse_ip_range("10.0.0.1 - 10.0.0.6", Source::Range).unwrap();
    assert_eq!((block.addr(), block.prefix_len()), (addr(10, 0, 0, 1), 30));
    // 255 addresses: 128
    let block = parse_ip_range("192.168.1.1-192.168.1.255", Source::Range).unwrap();
    assert_eq!((block.addr(), block.prefix_len()), (addr(192, 168, 1, 1), 25));
    assert_eq!(block.size(), 128);
    // the whole address space
    let block = parse_ip_range("0.0.0.0-255.255.255.255", Source::Range).unwrap();
    assert_eq!((block.addr(), block.prefix_len()), (0, 0));
}

#[test]
fn range_prefix_values() {
    assert_eq!(range_prefix_len(0, u32::MAX), Some(0));
    assert_eq!(range_prefix_len(0, u32::MAX - 1), Some(1));
    assert_eq!(range_prefix_len(0, 0), Some(32));
    assert_eq!(range_prefix_len(7, 8), Some(31));
    assert_eq!(range_prefix_len(7, 9), Some(31));
    assert_eq!(range_prefix_len(16, 31), Some(28));
    assert_eq!(range_prefix_len(1, 12), Some(29));
    assert_eq!(range_prefix_len(3, 2), None);
    assert_eq!(range_prefix_len(u32::MAX, 0), None);
    for (start, end) in [(5u32, 900u32), (0, 1023), (0, 1022), (77, 77 + 4095), (77, 77 + 4096), (9, u32::MAX)] {
        let count = (end - start) as u64 + 1;
        let prefix = range_prefix_len(start, end).unwrap() as u32;
        assert_eq!(prefix, 32 - count.ilog2());
        let size = 1u64 << (32 - prefix);
        assert!(size <= count && count < 2 * size);
    }
}

#[test]
fn a_range_that_ends_below_its_start_is_an_error() {
    assert_eq!(parse_ip_range("10.0.0.9-10.0.0.1", Source::Range).err(), Some(RangeError::EndBeforeStart));
    assert_eq!(parse_ip_range("0.0.0.1 - 0.0.0.0", Source::Range).err(), Some(RangeError::EndBeforeStart));
    assert_eq!(parse_ip_range("255.255.255.255-0.0.0.0", Source::Json).err(), Some(RangeError::EndBeforeStart));
    assert!(parse_ip_range("10.0.0.9-10.0.0.9", Source::Range).is_ok());
}

#[test]
fn range_errors() {
    assert_eq!(parse_ip_range("10.0.0.1-10.0.0.999", Source::Range).err(), Some(RangeError::InvalidAddress));
    assert_eq!(parse_ip_range("01.0.0.1-10.0.0.9", Source::Range).err(), Some(RangeError::InvalidAddress));
    assert_eq!(parse_ip_range("10.0.0.1-", Source::Range).err(), Some(RangeError::InvalidAddress));
    assert_eq!(parse_ip_range("10.0.0.1-10.0.0.2-10.0.0.3", Source::Range).err(), Some(RangeError::InvalidFormat));
    assert_eq!(parse_ip_range("hello", Source::Json).err(), Some(RangeError::InvalidFormat));
    assert_eq!(parse_ip_range("", Source::Json).err(), Some(RangeError::InvalidFormat));
    assert_eq!(parse_ip_range(" 10.0.0.1", Source::Json).err(), Some(RangeError::InvalidFormat));
    assert_eq!(parse_ip_range("# not a comment", Source::Json).err(), Some(RangeError::InvalidFormat));
}

#[test]
fn bare_address_is_one_host() {
    let block = parse_ip_range("203.0.113.5", Source::Json).unwrap();
    assert_eq!((block.addr(), block.prefix_len(), block.source()), (addr(203, 0, 113, 5), 32, Source::Json));
    assert!(parse_ip_range("203.0.113.05", Source::Json).is_err());
    assert!(parse_ip_range("203.0.113.256", Source::Json).is_err());
    assert!(parse_ip_range("0.0.0.0", Source::Json).is_ok());
}

#[test]
fn source_labels() {
    assert_eq!(Source::Cidr.label(), "CIDR");
    assert_eq!(Source::Range.label(), "Range");
    assert_eq!(Source::SingleIp.label(), "SingleIP");
    assert_eq!(Source::Json.label(), "JSON");
}

fn standard_address(text: &str) -> Option<u32> {
    let parsed = text.parse().ok()?;
    ipnet::Ipv4Net::new(parsed, 32).ok().map(|net| u32::from(net.addr()))
}

#[test]
fn bare_addresses_agree_with_the_standard_parser() {
    for text in [
        "0.0.0.0", "255.255.255.255", "1.2.3.4", "01.2.3.4", "1.2.3.04", "1.2.3.256", "1.2.3", "1.2.3.4.5", "1.2.3.4.",
        ".1.2.3.4", "1..2.3", "a.b.c.d", "1.2.3.4 ", "0.0.0.00", "000.0.0.0", "1.2.3.1000", "+1.2.3.4", "1.2.3.-4",
        "\u{661}.2.3.4", "192.168.001.1", "192.168.1.1", "10.20.30.40", "",
    ] {
        let ours = parse_ip_range(text, Source::SingleIp).ok().map(|b| (b.addr(), b.prefix_len()));
        assert_eq!(ours, standard_address(text).map(|a| (a, 32)), "{:?}", text);
    }
}
