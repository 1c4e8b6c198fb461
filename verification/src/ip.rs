use crate::error::ConfigError;
use vstd::prelude::*;

verus! {

/// An IP address of either family, held as its bits.
#[derive(Clone, Copy, Debug, PartialEq, Eq, Structural)]
pub enum IpAddress {
    V4(u32),
    V6(u128),
}

/// An IPv4 address as std reads it from text, as its bits. `None` where std
/// rejects the text.
pub uninterp spec fn parsed_ipv4(text: Seq<char>) -> Option<u32>;

/// An IPv6 address as std reads it from text, as its bits. `None` where std
/// rejects the text.
pub uninterp spec fn parsed_ipv6(text: Seq<char>) -> Option<u128>;

/// Calls `hickory_proto::rr::rdata::A::from_str`, which hands the text to
/// `Ipv4Addr::from_str` of std. The contract only names the outcome.
#[verifier::external_body]
pub(crate) fn parse_ipv4(text: &str) -> (ip: Option<u32>)
    ensures
        ip == parsed_ipv4(text@),
{
    match text.parse::<hickory_server::proto::rr::rdata::A>() {
        Ok(ip) => Some(u32::from(ip.0)),
        Err(_) => None,
    }
}

/// Calls `hickory_proto::rr::rdata::AAAA::from_str`, which hands the text to
/// `Ipv6Addr::from_str` of std. The contract only names the outcome.
#[verifier::external_body]
pub(crate) fn parse_ipv6(text: &str) -> (ip: Option<u128>)
    ensures
        ip == parsed_ipv6(text@),
{
    match text.parse::<hickory_server::proto::rr::rdata::AAAA>() {
        Ok(ip) => Some(u128::from(ip.0)),
        Err(_) => None,
    }
}

impl IpAddress {
    /// The address that a text stands for: an IPv4 address where it reads
    /// as one, else an IPv6 address where it reads as one.
    pub open spec fn of_text(text: Seq<char>) -> Option<IpAddress> {
        match parsed_ipv4(text) {
            Some(bits) => Some(IpAddress::V4(bits)),
            None => match parsed_ipv6(text) {
                Some(bits) => Some(IpAddress::V6(bits)),
                None => None,
            },
        }
    }

    /// Reads an address of either family, such as `192.0.2.1` or
    /// `2001:db8::1`.
    pub fn parse(text: &str) -> (ip: Option<IpAddress>)
        ensures
            ip == Self::of_text(text@),
    {
        match parse_ipv4(text) {
            Some(bits) => Some(IpAddress::V4(bits)),
            None => match parse_ipv6(text) {
                Some(bits) => Some(IpAddress::V6(bits)),
                None => None,
            },
        }
    }

    /// The address as a coordinate of the 128-bit space; an IPv4 address is
    /// zero-extended.
    pub open spec fn coordinate(self) -> u128 {
        match self {
            IpAddress::V4(bits) => bits as u128,
            IpAddress::V6(bits) => bits,
        }
    }

    /// The address as a coordinate of the 128-bit space.
    pub fn to_bits(&self) -> (bits: u128)
        ensures
            bits == self.coordinate(),
    {
        match self {
            IpAddress::V4(bits) => *bits as u128,
            IpAddress::V6(bits) => *bits,
        }
    }
}

/// The mask that selects the low `host_bits` bits of a coordinate.
pub open spec fn host_mask(host_bits: u32) -> u128 {
    if host_bits >= 128 {
        u128::MAX
    } else {
        ((1u128 << host_bits) - 1) as u128
    }
}

/// The number of address bits of a family.
pub open spec fn family_bits(v6: bool) -> u8 {
    if v6 {
        128
    } else {
        32
    }
}

/// A network in CIDR notation as `ipnet` reads it from text: the family
/// (`true` for IPv6), the address before the slash as its bits, and the
/// prefix length. `None` where `ipnet` rejects the text.
pub uninterp spec fn parsed_net(text: Seq<char>) -> Option<(bool, u128, u8)>;

/// Calls `ipnet::IpNet::from_str` and takes the network apart with the
/// getters `addr` and `prefix_len`. The contract only names the outcome:
/// nothing is claimed of which texts are accepted or of the values found.
#[verifier::external_body]
fn parse_net(text: &str) -> (parts: Option<(bool, u128, u8)>)
    ensures
        parts == parsed_net(text@),
{
    match text.parse::<ipnet::IpNet>() {
        Ok(ipnet::IpNet::V4(net)) => Some((false, u128::from(u32::from(net.addr())), net.prefix_len())),
        Ok(ipnet::IpNet::V6(net)) => Some((true, u128::from(net.addr()), net.prefix_len())),
        Err(_) => None,
    }
}

/// A closed interval `[start, end]` of coordinates.
#[derive(Clone, Copy, Debug, PartialEq, Eq, PartialOrd, Ord)]
pub struct IpRange {
    start: u128,
    end: u128,
}

impl IpRange {
    #[verifier::type_invariant]
    spec fn inv(self) -> bool {
        self.start <= self.end
    }

    /// The first address of the interval.
    pub closed spec fn spec_start(&self) -> u128 {
        self.start
    }

    /// The last address of the interval.
    pub closed spec fn spec_end(&self) -> u128 {
        self.end
    }

    /// The interval from `start` to `end`.
    pub closed spec fn between(start: u128, end: u128) -> IpRange {
        IpRange { start, end }
    }

    /// An interval begins and ends where it was made to.
    pub proof fn lemma_between(start: u128, end: u128)
        ensures
            Self::between(start, end).start() == start,
            Self::between(start, end).end() == end,
    {
    }

    /// The interval is not empty.
    pub open spec fn wf(self) -> bool {
        self.start() <= self.end()
    }

    /// `bits` lies in the interval.
    pub open spec fn covers(self, bits: u128) -> bool {
        self.start() <= bits <= self.end()
    }

    /// The order of ranges: by start, then by end.
    pub open spec fn precedes(self, other: IpRange) -> bool {
        self.start() < other.start() || (self.start() == other.start() && self.end() <= other.end())
    }

    /// Whether a network of the family, with `addr` before the slash and the
    /// given prefix length, exists.
    pub open spec fn is_net(v6: bool, addr: u128, prefix_len: u8) -> bool {
        prefix_len <= family_bits(v6) && (v6 || addr <= u32::MAX)
    }

    /// The first address of that network: `addr` with its host bits cleared.
    pub open spec fn net_start(v6: bool, addr: u128, prefix_len: u8) -> u128 {
        addr & !host_mask((family_bits(v6) - prefix_len) as u32)
    }

    /// The last address of that network: `addr` with its host bits set.
    pub open spec fn net_end(v6: bool, addr: u128, prefix_len: u8) -> u128 {
        addr | host_mask((family_bits(v6) - prefix_len) as u32)
    }

    /// The interval from `start` to `end`, where there is one.
    pub fn new(start: u128, end: u128) -> (range: Option<IpRange>)
        ensures
            start <= end ==> range == Some(Self::between(start, end)),
            start <= end ==> range->0.start() == start && range->0.end() == end,
            start > end ==> range is None,
    {
        if start <= end {
            Some(IpRange { start, end })
        } else {
            None
        }
    }

    /// The first address of the interval.
    #[verifier::when_used_as_spec(spec_start)]
    pub fn start(&self) -> (bits: u128)
        ensures
            bits == self.start(),
            self.wf(),
    {
        proof {
            use_type_invariant(self);
        }
        self.start
    }

    /// The last address of the interval.
    #[verifier::when_used_as_spec(spec_end)]
    pub fn end(&self) -> (bits: u128)
        ensures
            bits == self.end(),
            self.wf(),
    {
        proof {
            use_type_invariant(self);
        }
        self.end
    }

    /// Whether `bits` lies in the interval.
    pub fn contains(&self, bits: u128) -> (inside: bool)
        ensures
            inside == self.covers(bits),
    {
        self.start <= bits && bits <= self.end
    }

    /// The addresses of a network, from its network address to its broadcast
    /// address.
    pub fn from_net(v6: bool, addr: u128, prefix_len: u8) -> (range: Option<IpRange>)
        ensures
            Self::is_net(v6, addr, prefix_len) ==> range == Some(
                Self::between(
                    Self::net_start(v6, addr, prefix_len),
                    Self::net_end(v6, addr, prefix_len),
                ),
            ),
            Self::is_net(v6, addr, prefix_len) ==> range->0.start() == Self::net_start(
                v6,
                addr,
                prefix_len,
            ) && range->0.end() == Self::net_end(v6, addr, prefix_len),
            !Self::is_net(v6, addr, prefix_len) ==> range is None,
    {
        let width: u8 = if v6 { 128 } else { 32 };
        if prefix_len > width || (!v6 && addr > 0xffff_ffff) {
            return None;
        }
        let host_bits: u32 = (width - prefix_len) as u32;
        let mask: u128 = if host_bits >= 128 {
            u128::MAX
        } else {
            assert((1u128 << host_bits) >= 1) by (bit_vector)
                requires
                    host_bits < 128,
            ;
            (1u128 << host_bits) - 1
        };
        let start: u128 = addr & !mask;
        let end: u128 = addr | mask;
        assert(addr & !mask <= addr | mask) by (bit_vector);
        Some(IpRange { start, end })
    }

    /// The range of the network that a text stands for, if it stands for
    /// one: from its network address to its broadcast address.
    pub open spec fn of_text(text: Seq<char>) -> Option<IpRange> {
        match parsed_net(text) {
            Some((v6, addr, prefix_len)) => if Self::is_net(v6, addr, prefix_len) {
                Some(
                    Self::between(
                        Self::net_start(v6, addr, prefix_len),
                        Self::net_end(v6, addr, prefix_len),
                    ),
                )
            } else {
                None
            },
            None => None,
        }
    }

    /// Reads a network in CIDR notation, such as `10.0.0.0/8` or `fd00::/8`.
    pub fn try_from(s: &str) -> (range: Result<IpRange, ConfigError>)
        ensures
            match Self::of_text(s@) {
                Some(net) => range == Ok::<IpRange, ConfigError>(net),
                None => range == Err::<IpRange, ConfigError>(ConfigError::Network),
            },
    {
        match parse_net(s) {
            Some((v6, addr, prefix_len)) => match Self::from_net(v6, addr, prefix_len) {
                Some(range) => Ok(range),
                None => Err(ConfigError::Network),
            },
            None => Err(ConfigError::Network),
        }
    }
}

/// The addresses of a network are those that agree with its address in all
/// but the host bits.
pub proof fn lemma_net_holds_its_prefix(v6: bool, addr: u128, prefix_len: u8, bits: u128)
    requires
        IpRange::is_net(v6, addr, prefix_len),
    ensures
        ({
            let mask = host_mask((family_bits(v6) - prefix_len) as u32);
            IpRange::net_start(v6, addr, prefix_len) <= bits <= IpRange::net_end(
                v6,
                addr,
                prefix_len,
            ) <==> bits & !mask == addr & !mask
        }),
{
    let host_bits: u32 = (family_bits(v6) - prefix_len) as u32;
    let mask: u128 = host_mask(host_bits);
    if host_bits >= 128 {
        assert(addr & !u128::MAX == 0 && bits & !u128::MAX == 0 && addr | u128::MAX == u128::MAX)
            by (bit_vector);
    } else {
        assert((1u128 << host_bits) >= 1) by (bit_vector)
            requires
                host_bits < 128,
        ;
        assert(((addr & !mask) <= bits && bits <= (addr | mask)) <==> (bits & !mask == addr
            & !mask)) by (bit_vector)
            requires
                host_bits < 128,
                (1u128 << host_bits) >= 1,
                mask == (1u128 << host_bits) - 1,
        ;
    }
}

/// The ranges are in ascending order, by start and then by end.
pub open spec fn sorted(ranges: Seq<IpRange>) -> bool {
    forall|i: int, j: int| 0 <= i < j < ranges.len() ==> ranges[i].precedes(ranges[j])
}

/// No two of the ranges share an address.
pub open spec fn disjoint(ranges: Seq<IpRange>) -> bool {
    forall|i: int, j: int|
        0 <= i < ranges.len() && 0 <= j < ranges.len() && i != j ==> ranges[i].end()
            < ranges[j].start() || ranges[j].end() < ranges[i].start()
}

/// Some range holds `bits`: what a scan of all the ranges finds.
pub open spec fn covered(ranges: Seq<IpRange>, bits: u128) -> bool {
    exists|i: int| 0 <= i < ranges.len() && #[trigger] ranges[i].covers(bits)
}

/// The bisection of `ranges[low..high]` for `bits`: the middle range is
/// probed, and the search goes on to its left where `bits` is not above the
/// range's end, to its right where it is.
pub open spec fn bisect(ranges: Seq<IpRange>, low: int, high: int, bits: u128) -> bool
    decreases high - low,
{
    if 0 <= low < high <= ranges.len() {
        let mid = low + (high - low) / 2;
        if ranges[mid].covers(bits) {
            true
        } else if ranges[mid].end() < bits {
            bisect(ranges, mid + 1, high, bits)
        } else {
            bisect(ranges, low, mid, bits)
        }
    } else {
        false
    }
}

/// A bisection finds only what a scan finds, and all of it where the ranges
/// are sorted, not empty and disjoint.
pub proof fn lemma_bisect_scans(ranges: Seq<IpRange>, low: int, high: int, bits: u128)
    requires
        0 <= low <= high <= ranges.len(),
    ensures
        bisect(ranges, low, high, bits) ==> exists|i: int|
            low <= i < high && #[trigger] ranges[i].covers(bits),
        sorted(ranges) && disjoint(ranges) && (forall|i: int|
            0 <= i < ranges.len() ==> ranges[i].wf()) ==> (bisect(ranges, low, high, bits)
            <==> exists|i: int| low <= i < high && #[trigger] ranges[i].covers(bits)),
    decreases high - low,
{
    if low < high {
        let mid = low + (high - low) / 2;
        let all = sorted(ranges) && disjoint(ranges) && (forall|i: int|
            0 <= i < ranges.len() ==> ranges[i].wf());
        if ranges[mid].covers(bits) {
        } else if ranges[mid].end() < bits {
            lemma_bisect_scans(ranges, mid + 1, high, bits);
            if all {
                assert forall|i: int| low <= i <= mid implies !ranges[i].covers(bits) by {
                    if i < mid {
                        assert(ranges[i].precedes(ranges[mid]));
                    }
                }
            }
        } else {
            lemma_bisect_scans(ranges, low, mid, bits);
            if all {
                assert forall|i: int| mid <= i < high implies !ranges[i].covers(bits) by {
                    if mid < i {
                        assert(ranges[mid].precedes(ranges[i]));
                    }
                }
            }
        }
    }
}

/// Two lists of the same ranges, in whatever order, hold the same addresses.
pub proof fn lemma_same_ranges_cover(left: Seq<IpRange>, right: Seq<IpRange>)
    requires
        left.to_multiset() == right.to_multiset(),
    ensures
        forall|bits: u128| covered(left, bits) <==> covered(right, bits),
{
    broadcast use vstd::seq_lib::to_multiset_contains;

    assert forall|bits: u128| covered(left, bits) <==> covered(right, bits) by {
        if covered(left, bits) {
            let i = choose|i: int| 0 <= i < left.len() && left[i].covers(bits);
            assert(left.contains(left[i]));
            assert(right.to_multiset().count(left[i]) > 0);
            assert(right.contains(left[i]));
            let j = choose|j: int| 0 <= j < right.len() && right[j] == left[i];
            assert(right[j].covers(bits));
        }
        if covered(right, bits) {
            let i = choose|i: int| 0 <= i < right.len() && right[i].covers(bits);
            assert(right.contains(right[i]));
            assert(left.to_multiset().count(right[i]) > 0);
            assert(left.contains(right[i]));
            let j = choose|j: int| 0 <= j < left.len() && left[j] == right[i];
            assert(left[j].covers(bits));
        }
    }
}

/// Every range of the list is not empty.
pub open spec fn all_wf(ranges: Seq<IpRange>) -> bool {
    forall|i: int| 0 <= i < ranges.len() ==> ranges[i].wf()
}

/// Ranges that are not empty and of which no two share an address stay so
/// in whatever order they are put: a list of the same ranges is disjoint
/// too.
pub proof fn lemma_same_ranges_disjoint(left: Seq<IpRange>, right: Seq<IpRange>)
    requires
        left.to_multiset() == right.to_multiset(),
        disjoint(left),
        all_wf(left),
    ensures
        disjoint(right),
        all_wf(right),
{
    broadcast use vstd::seq_lib::to_multiset_contains;

    assert(left.no_duplicates()) by {
        assert forall|i: int, j: int| 0 <= i < left.len() && 0 <= j < left.len() && i != j implies left[i]
            != left[j] by {
            assert(left[i].wf() && left[j].wf());
        }
    }
    left.lemma_multiset_has_no_duplicates();
    right.lemma_multiset_has_no_duplicates_conv();
    assert forall|i: int| 0 <= i < right.len() implies right[i].wf() by {
        assert(right.contains(right[i]));
        assert(left.to_multiset().count(right[i]) > 0);
        assert(left.contains(right[i]));
        let p = choose|p: int| 0 <= p < left.len() && left[p] == right[i];
        assert(left[p].wf());
    }
    assert forall|i: int, j: int|
        0 <= i < right.len() && 0 <= j < right.len() && i != j implies right[i].end()
        < right[j].start() || right[j].end() < right[i].start() by {
        assert(right.contains(right[i]));
        assert(right.contains(right[j]));
        assert(left.to_multiset().count(right[i]) > 0);
        assert(left.to_multiset().count(right[j]) > 0);
        assert(left.contains(right[i]));
        assert(left.contains(right[j]));
        let p = choose|p: int| 0 <= p < left.len() && left[p] == right[i];
        let q = choose|q: int| 0 <= q < left.len() && left[q] == right[j];
        assert(right[i] != right[j]);
        assert(p != q);
    }
}

/// Whether the first range comes before the second in the order of ranges,
/// or is the same.
fn comes_first(a: &IpRange, b: &IpRange) -> (first: bool)
    ensures
        first == a.precedes(*b),
        a.wf(),
        b.wf(),
{
    a.start() < b.start() || (a.start() == b.start() && a.end() <= b.end())
}

/// Merges two sorted lists of ranges into one.
fn merge_sorted(left: &Vec<IpRange>, right: &Vec<IpRange>) -> (out: Vec<IpRange>)
    requires
        sorted(left@),
        sorted(right@),
        all_wf(left@),
        all_wf(right@),
    ensures
        sorted(out@),
        all_wf(out@),
        out@.to_multiset() == left@.to_multiset().add(right@.to_multiset()),
{
    let mut out: Vec<IpRange> = Vec::new();
    let mut i: usize = 0;
    let mut j: usize = 0;
    proof {
        broadcast use vstd::multiset::group_multiset_axioms;

        assert(left@.take(0) =~= out@);
        assert(right@.take(0) =~= out@);
        assert forall|range: IpRange| out@.to_multiset().count(range) == 0 by {
            vstd::seq_lib::to_multiset_contains(out@, range);
        }
        assert(out@.to_multiset() =~= out@.to_multiset().add(out@.to_multiset()));
    }
    while i < left.len() || j < right.len()
        invariant
            0 <= i <= left.len(),
            0 <= j <= right.len(),
            sorted(left@),
            sorted(right@),
            all_wf(left@),
            all_wf(right@),
            sorted(out@),
            all_wf(out@),
            out@.to_multiset() == left@.take(i as int).to_multiset().add(
                right@.take(j as int).to_multiset(),
            ),
            forall|k: int|
                0 <= k < out@.len() && i < left@.len() ==> (#[trigger] out@[k]).precedes(
                    left@[i as int],
                ),
            forall|k: int|
                0 <= k < out@.len() && j < right@.len() ==> (#[trigger] out@[k]).precedes(
                    right@[j as int],
                ),
        decreases (left.len() - i) + (right.len() - j),
    {
        let from_left: bool = if i >= left.len() {
            false
        } else if j >= right.len() {
            true
        } else {
            comes_first(&left[i], &right[j])
        };
        let ghost before = out@;
        if from_left {
            let range: IpRange = left[i];
            out.push(range);
            proof {
                vstd::seq_lib::to_multiset_build(before, range);
                vstd::seq_lib::to_multiset_build(left@.take(i as int), range);
                assert(left@.take(i as int).push(range) =~= left@.take(i + 1));
                assert(out@.to_multiset() =~= left@.take(i + 1).to_multiset().add(
                    right@.take(j as int).to_multiset(),
                ));
                if i + 1 < left@.len() {
                    assert(left@[i as int].precedes(left@[i + 1]));
                }
                if j < right@.len() {
                    assert(range.wf() && right@[j as int].wf());
                }
            }
            i += 1;
        } else {
            let range: IpRange = right[j];
            out.push(range);
            proof {
                vstd::seq_lib::to_multiset_build(before, range);
                vstd::seq_lib::to_multiset_build(right@.take(j as int), range);
                assert(right@.take(j as int).push(range) =~= right@.take(j + 1));
                assert(out@.to_multiset() =~= left@.take(i as int).to_multiset().add(
                    right@.take(j + 1).to_multiset(),
                ));
                if j + 1 < right@.len() {
                    assert(right@[j as int].precedes(right@[j + 1]));
                }
                if i < left@.len() {
                    assert(range.wf() && left@[i as int].wf());
                }
            }
            j += 1;
        }
    }
    proof {
        assert(left@.take(left@.len() as int) =~= left@);
        assert(right@.take(right@.len() as int) =~= right@);
    }
    out
}

/// Sorts the ranges from position `low` up to `high`: each half is sorted,
/// and the halves are merged.
fn sort_between(ranges: &Vec<IpRange>, low: usize, high: usize) -> (out: Vec<IpRange>)
    requires
        low <= high <= ranges.len(),
    ensures
        sorted(out@),
        all_wf(out@),
        out@.to_multiset() == ranges@.subrange(low as int, high as int).to_multiset(),
    decreases high - low,
{
    if high - low <= 1 {
        let mut out: Vec<IpRange> = Vec::new();
        if high - low == 1 {
            let range: IpRange = ranges[low];
            let _: u128 = range.start();
            out.push(range);
        }
        assert(out@ =~= ranges@.subrange(low as int, high as int));
        out
    } else {
        let mid: usize = low + (high - low) / 2;
        let left: Vec<IpRange> = sort_between(ranges, low, mid);
        let right: Vec<IpRange> = sort_between(ranges, mid, high);
        proof {
            vstd::seq_lib::lemma_multiset_commutative(
                ranges@.subrange(low as int, mid as int),
                ranges@.subrange(mid as int, high as int),
            );
            assert(ranges@.subrange(low as int, mid as int) + ranges@.subrange(
                mid as int,
                high as int,
            ) =~= ranges@.subrange(low as int, high as int));
        }
        merge_sorted(&left, &right)
    }
}

/// Makes one range of ranges that overlap, in a sorted list of ranges, so
/// that no two of the ranges share an address. The same addresses are held
/// as before, and where no two ranges overlapped nothing changes.
fn merge_overlaps(given: &Vec<IpRange>) -> (out: Vec<IpRange>)
    requires
        sorted(given@),
        all_wf(given@),
    ensures
        sorted(out@),
        all_wf(out@),
        disjoint(out@),
        forall|bits: u128| covered(out@, bits) <==> covered(given@, bits),
        disjoint(given@) ==> out@ == given@,
{
    let mut out: Vec<IpRange> = Vec::new();
    let mut i: usize = 0;
    proof {
        assert(given@.take(0) =~= out@);
    }
    while i < given.len()
        invariant
            0 <= i <= given.len(),
            sorted(given@),
            forall|k: int| 0 <= k < given@.len() ==> given@[k].wf(),
            forall|k: int| 0 <= k < out@.len() ==> out@[k].wf(),
            forall|a: int, b: int| 0 <= a < b < out@.len() ==> out@[a].end() < out@[b].start(),
            forall|k: int|
                0 <= k < out@.len() && i < given@.len() ==> out@[k].start() <= given@[i as int].start(),
            out@.len() <= i,
            i > 0 ==> out@.len() > 0,
            forall|bits: u128| covered(out@, bits) <==> covered(given@.take(i as int), bits),
            disjoint(given@) ==> out@ == given@.take(i as int),
        decreases given.len() - i,
    {
        let range: IpRange = given[i];
        let first: u128 = range.start();
        let last: u128 = range.end();
        let ghost before = out@;
        let ghost prefix = given@.take(i as int);
        let ghost next = given@.take(i + 1);
        proof {
            assert(next =~= prefix.push(range));
            if i + 1 < given@.len() {
                assert(given@[i as int].precedes(given@[i + 1]));
            }
        }
        let n: usize = out.len();
        if n > 0 && first <= out[n - 1].end() {
            let top: IpRange = out[n - 1];
            let top_first: u128 = top.start();
            let top_last: u128 = top.end();
            let end: u128 = if last > top_last {
                last
            } else {
                top_last
            };
            let joined: IpRange = match IpRange::new(top_first, end) {
                Some(joined) => joined,
                None => top,
            };
            out.set(n - 1, joined);
            proof {
                assert(joined.start() == top_first && joined.end() == end);
                assert forall|bits: u128| covered(out@, bits) <==> covered(next, bits) by {
                    if covered(out@, bits) {
                        let k = choose|k: int| 0 <= k < out@.len() && out@[k].covers(bits);
                        if k < n - 1 {
                            assert(before[k].covers(bits));
                            assert(covered(before, bits));
                        } else if top.covers(bits) {
                            assert(before[n - 1].covers(bits));
                            assert(covered(before, bits));
                        } else {
                            assert(range.covers(bits));
                            assert(next[i as int].covers(bits));
                        }
                        if covered(before, bits) {
                            let p = choose|p: int| 0 <= p < prefix.len() && prefix[p].covers(bits);
                            assert(next[p].covers(bits));
                        }
                    }
                    if covered(next, bits) {
                        let p = choose|p: int| 0 <= p < next.len() && next[p].covers(bits);
                        if p < i {
                            assert(prefix[p].covers(bits));
                            assert(covered(before, bits));
                            let k = choose|k: int| 0 <= k < before.len() && before[k].covers(bits);
                            if k < n - 1 {
                                assert(out@[k].covers(bits));
                            } else {
                                assert(out@[n - 1].covers(bits));
                            }
                        } else {
                            assert(out@[n - 1].covers(bits));
                        }
                    }
                }
                if disjoint(given@) {
                    assert(before[n - 1] == given@[n - 1]);
                    assert(false);
                }
            }
        } else {
            out.push(range);
            proof {
                assert forall|bits: u128| covered(out@, bits) <==> covered(next, bits) by {
                    if covered(out@, bits) {
                        let k = choose|k: int| 0 <= k < out@.len() && out@[k].covers(bits);
                        if k < n {
                            assert(before[k].covers(bits));
                            assert(covered(before, bits));
                            let p = choose|p: int| 0 <= p < prefix.len() && prefix[p].covers(bits);
                            assert(next[p].covers(bits));
                        } else {
                            assert(next[i as int].covers(bits));
                        }
                    }
                    if covered(next, bits) {
                        let p = choose|p: int| 0 <= p < next.len() && next[p].covers(bits);
                        if p < i {
                            assert(prefix[p].covers(bits));
                            assert(covered(before, bits));
                            let k = choose|k: int| 0 <= k < before.len() && before[k].covers(bits);
                            assert(out@[k].covers(bits));
                        } else {
                            assert(out@[n as int].covers(bits));
                        }
                    }
                }
                if disjoint(given@) {
                    assert(out@ =~= next);
                }
            }
        }
        i += 1;
    }
    proof {
        assert(given@.take(given@.len() as int) =~= given@);
        assert forall|a: int, b: int| 0 <= a < b < out@.len() implies out@[a].precedes(
            out@[b],
        ) by {}
    }
    out
}

/// A set of address ranges, kept sorted and apart for lookup by bisection.
#[derive(Debug, PartialEq, Eq, PartialOrd, Ord)]
pub struct IpRangeVec {
    ranges: Vec<IpRange>,
}

impl View for IpRangeVec {
    type V = Seq<IpRange>;

    closed spec fn view(&self) -> Seq<IpRange> {
        self.ranges@
    }
}

impl Clone for IpRangeVec {
    fn clone(&self) -> (copy: Self)
        ensures
            copy@ == self@,
    {
        proof {
            use_type_invariant(self);
        }
        let ranges = self.ranges.clone();
        assert(ranges@ =~= self.ranges@);
        IpRangeVec { ranges }
    }
}

impl IpRangeVec {
    #[verifier::type_invariant]
    spec fn inv(self) -> bool {
        sorted(self.ranges@) && all_wf(self.ranges@) && disjoint(self.ranges@)
    }

    /// Every range is not empty, they are in ascending order, and no two of
    /// them share an address.
    pub open spec fn wf(self) -> bool {
        sorted(self@) && all_wf(self@) && disjoint(self@)
    }

    /// Sorts the ranges and makes one range of ranges that overlap, so that
    /// no two ranges of the index share an address. The index holds the
    /// addresses that the given ranges hold; ranges of which no two overlap
    /// are kept as they are.
    pub fn new(ranges: Vec<IpRange>) -> (index: Self)
        ensures
            index.wf(),
            disjoint(index@),
            forall|bits: u128| covered(index@, bits) <==> covered(ranges@, bits),
            disjoint(ranges@) && all_wf(ranges@) ==> index@.to_multiset() == ranges@.to_multiset()
                && index@.len() == ranges@.len(),
    {
        let ordered: Vec<IpRange> = sort_between(&ranges, 0, ranges.len());
        proof {
            assert(ranges@.subrange(0, ranges@.len() as int) =~= ranges@);
            lemma_same_ranges_cover(ordered@, ranges@);
            if disjoint(ranges@) && all_wf(ranges@) {
                lemma_same_ranges_disjoint(ranges@, ordered@);
                vstd::seq_lib::to_multiset_len(ordered@);
                vstd::seq_lib::to_multiset_len(ranges@);
            }
        }
        let out: Vec<IpRange> = merge_overlaps(&ordered);
        IpRangeVec { ranges: out }
    }

    /// Some range of the index holds `bits`.
    pub open spec fn holds(&self, bits: u128) -> bool {
        covered(self@, bits)
    }

    /// Whether some range holds the address. It is found by bisection, which
    /// finds what a scan of all the ranges finds, since no two of them
    /// overlap.
    pub fn contains(&self, ip: IpAddress) -> (found: bool)
        ensures
            found == covered(self@, ip.coordinate()),
    {
        let bits: u128 = ip.to_bits();
        proof {
            use_type_invariant(self);
            lemma_bisect_scans(self@, 0, self@.len() as int, bits);
        }
        let mut low: usize = 0;
        let mut high: usize = self.ranges.len();
        while low < high
            invariant
                0 <= low <= high <= self.ranges@.len(),
                bits == ip.coordinate(),
                self@ == self.ranges@,
                bisect(self.ranges@, 0, self.ranges@.len() as int, bits) == covered(self@, bits),
                bisect(self.ranges@, 0, self.ranges@.len() as int, bits) == bisect(
                    self.ranges@,
                    low as int,
                    high as int,
                    bits,
                ),
            decreases high - low,
        {
            let mid: usize = low + (high - low) / 2;
            let probe: &IpRange = &self.ranges[mid];
            if probe.start() <= bits && bits <= probe.end() {
                return true;
            } else if probe.end() < bits {
                low = mid + 1;
            } else {
                high = mid;
            }
        }
        false
    }

    /// The number of ranges.
    pub fn len(&self) -> (n: usize)
        ensures
            n == self@.len(),
    {
        self.ranges.len()
    }

    /// The range at position `i` of the ascending order.
    pub fn get(&self, i: usize) -> (range: Option<IpRange>)
        ensures
            i < self@.len() ==> range == Some(self@[i as int]),
            i >= self@.len() ==> range is None,
    {
        if i < self.ranges.len() {
            Some(self.ranges[i])
        } else {
            None
        }
    }
}

} // verus!
