//! IPv4 addresses and the CIDR arithmetic of the subnet allocator.

use vstd::arithmetic::power2::*;
use vstd::bits::*;
use vstd::prelude::*;

use crate::error::Error;
use crate::text;

verus! {

/// An IPv4 address, as its 32 bits.
#[derive(Debug, Clone, Copy, PartialEq, Eq, Hash, Structural)]
pub struct Ipv4Addr {
    pub bits: u32,
}

/// The `i`-th of the four octets of an address, from the left.
pub open spec fn octet(ip: Ipv4Addr, i: int) -> nat {
    if i == 0 {
        (ip.bits / 16777216) as nat
    } else if i == 1 {
        (ip.bits / 65536 % 256) as nat
    } else if i == 2 {
        (ip.bits / 256 % 256) as nat
    } else {
        (ip.bits % 256) as nat
    }
}

/// Dotted notation, such as `172.16.0.2`.
pub open spec fn ip_text(ip: Ipv4Addr) -> Seq<char> {
    text::decimal(octet(ip, 0)) + "."@ + text::decimal(octet(ip, 1)) + "."@ + text::decimal(
        octet(ip, 2),
    ) + "."@ + text::decimal(octet(ip, 3))
}

/// The address that a text is the dotted notation of.
pub open spec fn ip_of(s: Seq<char>) -> Option<Ipv4Addr> {
    if exists|ip: Ipv4Addr| #[trigger] ip_text(ip) == s {
        Some(choose|ip: Ipv4Addr| #[trigger] ip_text(ip) == s)
    } else {
        None
    }
}

impl Ipv4Addr {
    /// The address with the given octets.
    pub fn new(a: u8, b: u8, c: u8, d: u8) -> (ip: Ipv4Addr)
        ensures
            octet(ip, 0) == a,
            octet(ip, 1) == b,
            octet(ip, 2) == c,
            octet(ip, 3) == d,
            ip.bits == a * 16777216 + b * 65536 + c * 256 + d,
    {
        let bits: u32 = (a as u32) * 16777216 + (b as u32) * 65536 + (c as u32) * 256 + (d as u32);
        proof {
            assert(bits / 16777216 == a && bits / 65536 % 256 == b && bits / 256 % 256 == c && bits
                % 256 == d) by (bit_vector)
                requires
                    bits == (a as u32) * 16777216 + (b as u32) * 65536 + (c as u32) * 256 + (
                    d as u32),
            ;
        }
        Ipv4Addr { bits }
    }

    /// The four octets.
    pub fn octets(self) -> (o: (u8, u8, u8, u8))
        ensures
            o.0 == octet(self, 0),
            o.1 == octet(self, 1),
            o.2 == octet(self, 2),
            o.3 == octet(self, 3),
    {
        let b: u32 = self.bits;
        ((b / 16777216) as u8, (b / 65536 % 256) as u8, (b / 256 % 256) as u8, (b % 256) as u8)
    }

    /// Dotted notation.
    pub fn to_text(self) -> (s: String)
        ensures
            s@ == ip_text(self),
    {
        let (a, b, c, d) = self.octets();
        text::cat7(
            &text::decimal_string(a as u64),
            ".",
            &text::decimal_string(b as u64),
            ".",
            &text::decimal_string(c as u64),
            ".",
            &text::decimal_string(d as u64),
        )
    }

    /// The address that `s` is the dotted notation of. Leading zeros, signs
    /// and white space are not dotted notation.
    pub fn parse(s: &str) -> (r: Option<Ipv4Addr>)
        ensures
            r == ip_of(s@),
            r is Some ==> s@ == ip_text(r->0),
            r is None ==> forall|ip: Ipv4Addr| s@ != #[trigger] ip_text(ip),
    {
        let chars = text::chars_of(s);
        let mut done: Vec<u8> = Vec::new();
        let mut cur: u8 = 0;
        let mut i: usize = 0;
        proof {
            assert(chars@.take(0) =~= seq![]);
            assert(done@.map_values(|d: u8| d as nat) =~= seq![]);
        }
        while i < chars.len()
            invariant
                chars@ == s@,
                i <= chars@.len(),
                dotted(chars@.take(i as int)) == Some(
                    (done@.map_values(|d: u8| d as nat), cur as nat),
                ),
            decreases chars@.len() - i,
        {
            let c: char = chars[i];
            let ghost prefix = chars@.take(i as int + 1);
            proof {
                assert(prefix.drop_last() =~= chars@.take(i as int));
                assert(prefix.last() == c);
                assert(prefix + chars@.skip(i as int + 1) =~= chars@);
            }
            if c == '.' {
                let ghost before = done@;
                done.push(cur);
                proof {
                    assert(done@.map_values(|d: u8| d as nat) =~= before.map_values(
                        |d: u8| d as nat,
                    ).push(cur as nat));
                }
                cur = 0;
            } else {
                match text::digit_of(c) {
                    Some(d) if (cur as u32) * 10 + (d as u32) <= 255 => {
                        cur = cur * 10 + d;
                    },
                    _ => {
                        proof {
                            lemma_dotted_stuck(prefix, chars@.skip(i as int + 1));
                            assert forall|ip: Ipv4Addr| s@ != #[trigger] ip_text(ip) by {
                                lemma_dotted_ip_text(ip);
                            }
                        }
                        return None;
                    },
                }
            }
            i += 1;
        }
        proof {
            assert(chars@.take(i as int) =~= chars@);
            assert forall|ip: Ipv4Addr| s@ == #[trigger] ip_text(ip) implies done@.len() == 3
                && octet(ip, 0) == done@[0] && octet(ip, 1) == done@[1] && octet(ip, 2)
                == done@[2] && octet(ip, 3) == cur by {
                lemma_dotted_ip_text(ip);
                let dv = done@.map_values(|d: u8| d as nat);
                assert(dv.len() == 3);
                assert(dv[0] == done@[0] && dv[1] == done@[1] && dv[2] == done@[2]);
            }
        }
        if done.len() != 3 {
            return None;
        }
        let ip = Ipv4Addr::new(done[0], done[1], done[2], cur);
        if text::str_eq(&ip.to_text(), s) {
            proof {
                law_ip_text_injective(ip, ip_of(s@)->0);
            }
            Some(ip)
        } else {
            None
        }
    }
}

/// Dotted notation read from the left: the numbers before each dot and the
/// one behind the last, as long as none exceeds an octet.
spec fn dotted(s: Seq<char>) -> Option<(Seq<nat>, nat)>
    decreases s.len(),
{
    if s.len() == 0 {
        Some((seq![], 0))
    } else {
        match dotted(s.drop_last()) {
            None => None,
            Some((done, cur)) => if s.last() == '.' {
                Some((done.push(cur), 0))
            } else if text::is_digit(s.last()) && cur * 10 + text::digit_value(s.last()) <= 255 {
                Some((done, cur * 10 + text::digit_value(s.last())))
            } else {
                None
            },
        }
    }
}

/// What is not dotted notation stays so, whatever follows.
proof fn lemma_dotted_stuck(s: Seq<char>, t: Seq<char>)
    requires
        dotted(s) is None,
    ensures
        dotted(s + t) is None,
    decreases t.len(),
{
    if t.len() == 0 {
        assert(s + t =~= s);
    } else {
        lemma_dotted_stuck(s, t.drop_last());
        assert((s + t).drop_last() =~= s + t.drop_last());
    }
}

/// A number in decimal is read as itself.
proof fn lemma_dotted_number(s: Seq<char>, done: Seq<nat>, n: nat)
    requires
        dotted(s) == Some((done, 0nat)),
        n <= 255,
    ensures
        dotted(s + text::decimal(n)) == Some((done, n)),
    decreases n,
{
    text::lemma_digit_char(n % 10);
    let t = s + text::decimal(n);
    if n < 10 {
        assert(t.drop_last() =~= s);
        assert(t.last() == text::digit_char(n));
    } else {
        lemma_dotted_number(s, done, n / 10);
        assert(t.drop_last() =~= s + text::decimal(n / 10));
        assert(t.last() == text::digit_char(n % 10));
    }
}

/// A dot closes a number.
proof fn lemma_dotted_dot(s: Seq<char>, done: Seq<nat>, n: nat)
    requires
        dotted(s) == Some((done, n)),
    ensures
        dotted(s + "."@) == Some((done.push(n), 0nat)),
{
    reveal_strlit(".");
    assert("."@ =~= seq!['.']);
    assert((s + "."@).drop_last() =~= s);
}

/// The dotted notation of an address is read as its octets.
proof fn lemma_dotted_ip_text(ip: Ipv4Addr)
    ensures
        dotted(ip_text(ip)) == Some((seq![octet(ip, 0), octet(ip, 1), octet(ip, 2)], octet(ip, 3))),
{
    let (a, b, c, d) = (octet(ip, 0), octet(ip, 1), octet(ip, 2), octet(ip, 3));
    assert(a <= 255 && b <= 255 && c <= 255 && d <= 255);
    let s0 = Seq::<char>::empty();
    lemma_dotted_number(s0, seq![], a);
    let s1 = s0 + text::decimal(a);
    assert(s1 =~= text::decimal(a));
    lemma_dotted_dot(s1, seq![], a);
    let s2 = s1 + "."@;
    lemma_dotted_number(s2, seq![].push(a), b);
    let s3 = s2 + text::decimal(b);
    lemma_dotted_dot(s3, seq![].push(a), b);
    let s4 = s3 + "."@;
    lemma_dotted_number(s4, seq![].push(a).push(b), c);
    let s5 = s4 + text::decimal(c);
    lemma_dotted_dot(s5, seq![].push(a).push(b), c);
    let s6 = s5 + "."@;
    lemma_dotted_number(s6, seq![].push(a).push(b).push(c), d);
    assert(seq![].push(a).push(b).push(c) =~= seq![a, b, c]);
}

/// An address is known by its octets.
pub proof fn lemma_octets_determine(x: Ipv4Addr, y: Ipv4Addr)
    requires
        forall|i: int| 0 <= i < 4 ==> #[trigger] octet(x, i) == octet(y, i),
    ensures
        x == y,
{
    assert(octet(x, 0) == octet(y, 0));
    assert(octet(x, 1) == octet(y, 1));
    assert(octet(x, 2) == octet(y, 2));
    assert(octet(x, 3) == octet(y, 3));
    let a = x.bits;
    let b = y.bits;
    assert(a == b) by (bit_vector)
        requires
            a / 16777216 == b / 16777216,
            a / 65536 % 256 == b / 65536 % 256,
            a / 256 % 256 == b / 256 % 256,
            a % 256 == b % 256,
    ;
}

/// Different addresses have different dotted notations.
pub proof fn law_ip_text_injective(x: Ipv4Addr, y: Ipv4Addr)
    requires
        ip_text(x) == ip_text(y),
    ensures
        x == y,
{
    lemma_dotted_ip_text(x);
    lemma_dotted_ip_text(y);
    let dx = seq![octet(x, 0), octet(x, 1), octet(x, 2)];
    let dy = seq![octet(y, 0), octet(y, 1), octet(y, 2)];
    assert(dx[0] == dy[0] && dx[1] == dy[1] && dx[2] == dy[2]);
    lemma_octets_determine(x, y);
}

// ---------------------------------------------------------------------------
// Networks
// ---------------------------------------------------------------------------

/// An IPv4 network in CIDR form, such as `172.16.0.0/12`.
#[derive(Debug, Clone, Copy, PartialEq, Eq, Structural)]
pub struct Ipv4Net {
    pub addr: Ipv4Addr,
    pub prefix: u8,
}

/// How many addresses a network with this prefix length holds.
pub open spec fn net_size(prefix: u8) -> nat {
    pow2((32 - prefix) as nat)
}

/// The network with this prefix length that `ip` lies in.
pub open spec fn net_around(ip: Ipv4Addr, prefix: u8) -> Ipv4Net {
    Ipv4Net {
        addr: Ipv4Addr { bits: (ip.bits - ip.bits as nat % net_size(prefix)) as u32 },
        prefix,
    }
}

/// CIDR notation.
pub open spec fn net_text(net: Ipv4Net) -> Seq<char> {
    ip_text(net.addr) + "/"@ + text::decimal(net.prefix as nat)
}

/// The network that CIDR notation denotes, with any host bits masked off, or
/// the reason why a text is none.
pub open spec fn cidr_of(s: Seq<char>) -> Result<Ipv4Net, Seq<char>> {
    let slash = text::char_index(s, '/') as int;
    let why = "invalid CIDR "@ + text::debug_quoted(s) + ": "@;
    if slash >= s.len() {
        Err(why + "missing prefix"@)
    } else {
        match ip_of(s.take(slash)) {
            None => Err(why + "invalid IPv4 address syntax"@),
            Some(ip) => match text::read_number(s.skip(slash + 1), 255) {
                Err(e) => Err(why + text::number_error_text(e)),
                Ok(prefix) => if prefix == 0 || prefix > 32 {
                    Err(why + "bad prefix"@)
                } else {
                    Ok(net_around(ip, prefix as u8))
                },
            },
        }
    }
}

/// Two to the `e`, for less than 32 bits.
fn two_to(e: u8) -> (n: u32)
    requires
        e < 32,
    ensures
        n == pow2(e as nat),
        n > 0,
{
    proof {
        lemma_u32_pow2_no_overflow(e as nat);
        lemma_u32_shl_is_mul(1, e as u32);
        lemma_pow2_pos(e as nat);
    }
    1u32 << e
}

impl Ipv4Net {
    /// Whether the prefix length is usable and the address has no host bits.
    pub open spec fn wf(self) -> bool {
        1 <= self.prefix <= 32 && self.addr.bits as nat % net_size(self.prefix) == 0
    }

    /// The `idx`-th address of the network.
    pub open spec fn nth(self, idx: int) -> Ipv4Addr {
        Ipv4Addr { bits: (self.addr.bits + idx) as u32 }
    }

    /// Whether `ip` lies in the network.
    pub open spec fn contains(self, ip: Ipv4Addr) -> bool {
        self.addr.bits <= ip.bits < self.addr.bits + net_size(self.prefix)
    }

    /// How many networks with this prefix length fit in.
    pub open spec fn fitting(self, prefix: u8) -> nat {
        pow2((prefix - self.prefix) as nat)
    }

    /// The `index`-th network with this prefix length from the start of this
    /// one; past the end of the address space they begin anew.
    pub open spec fn part(self, index: int, prefix: u8) -> Ipv4Net {
        let bits = (self.addr.bits + index * net_size(prefix)) % 0x1_0000_0000;
        Ipv4Net { addr: Ipv4Addr { bits: bits as u32 }, prefix }
    }

    /// Parses CIDR notation, masking off any host bits.
    pub fn parse(s: &str) -> (r: Result<Ipv4Net, Error>)
        ensures
            match r {
                Ok(net) => cidr_of(s@) == Ok::<Ipv4Net, Seq<char>>(net) && net.wf(),
                Err(e) => e matches Error::Net(m) && cidr_of(s@) == Err::<Ipv4Net, Seq<char>>(m@),
            },
    {
        let (addr, prefix) = match text::split_once(s, '/') {
            Some(parts) => parts,
            None => {
                return Err(
                    Error::Net(
                        text::cat4("invalid CIDR ", &text::quote(s), ": ", "missing prefix"),
                    ),
                );
            },
        };
        let ip = match Ipv4Addr::parse(&addr) {
            Some(ip) => ip,
            None => {
                return Err(
                    Error::Net(
                        text::cat4(
                            "invalid CIDR ",
                            &text::quote(s),
                            ": ",
                            "invalid IPv4 address syntax",
                        ),
                    ),
                );
            },
        };
        let prefix: u64 = match text::parse_number(&prefix, 255) {
            Ok(n) => n,
            Err(e) => {
                return Err(
                    Error::Net(
                        text::cat4("invalid CIDR ", &text::quote(s), ": ", e.message()),
                    ),
                );
            },
        };
        if prefix == 0 || prefix > 32 {
            return Err(
                Error::Net(text::cat4("invalid CIDR ", &text::quote(s), ": ", "bad prefix")),
            );
        }
        let prefix: u8 = prefix as u8;
        let size: u32 = two_to(32 - prefix);
        proof {
            vstd::arithmetic::div_mod::lemma_mod_decreases(ip.bits as nat, size as nat);
        }
        let bits: u32 = ip.bits - ip.bits % size;
        proof {
            vstd::arithmetic::div_mod::lemma_fundamental_div_mod(ip.bits as int, size as int);
            let q = ip.bits as int / size as int;
            assert(bits == size * q);
            vstd::arithmetic::div_mod::lemma_mod_multiples_basic(q, size as int);
            vstd::arithmetic::mul::lemma_mul_is_commutative(q, size as int);
        }
        Ok(Ipv4Net { addr: Ipv4Addr { bits }, prefix })
    }

    /// CIDR notation.
    pub fn to_text(&self) -> (s: String)
        ensures
            s@ == net_text(*self),
    {
        text::cat3(&self.addr.to_text(), "/", &text::decimal_string(self.prefix as u64))
    }

    /// Number of addresses in this network.
    pub fn size(&self) -> (n: u32)
        requires
            self.wf(),
        ensures
            n == net_size(self.prefix),
    {
        two_to(32 - self.prefix)
    }

    /// The address at host offset `idx` from the network address.
    pub fn host(&self, idx: u32) -> (ip: Ipv4Addr)
        requires
            self.addr.bits + idx <= u32::MAX,
        ensures
            ip == self.nth(idx as int),
            ip.bits == self.addr.bits + idx,
    {
        Ipv4Addr { bits: self.addr.bits + idx }
    }

    /// The `index`-th subnet of size /`prefix` from the start of this network;
    /// one of the network's own if `index` is less than their number.
    pub fn subnet(&self, index: u32, prefix: u8) -> (net: Ipv4Net)
        requires
            self.wf(),
            self.prefix <= prefix <= 32,
        ensures
            net == self.part(index as int, prefix),
            net.wf(),
            index < self.fitting(prefix) ==> net.addr.bits == self.addr.bits + index * net_size(
                prefix,
            ),
    {
        let size: u32 = two_to(32 - prefix);
        proof {
            lemma_part_wf(*self, index as int, prefix);
            if index < self.fitting(prefix) {
                lemma_part_fits(*self, index as int, prefix);
            }
            assert(0 <= index * size <= 0xffff_ffff * 0xffff_ffff) by (nonlinear_arith)
                requires
                    0 <= index <= 0xffff_ffff,
                    0 <= size <= 0xffff_ffff,
            ;
        }
        let bits: u64 = (self.addr.bits as u64 + index as u64 * size as u64) % 0x1_0000_0000;
        Ipv4Net { addr: Ipv4Addr { bits: bits as u32 }, prefix }
    }

    /// How many /`prefix` subnets fit inside this network.
    pub fn subnet_count(&self, prefix: u8) -> (n: u32)
        requires
            self.wf(),
            self.prefix <= prefix <= 32,
        ensures
            n == self.fitting(prefix),
    {
        two_to(prefix - self.prefix)
    }

    /// Dotted netmask of the network, such as `255.255.255.0` for a /24.
    pub fn netmask(&self) -> (ip: Ipv4Addr)
        requires
            self.wf(),
        ensures
            ip.bits == 0x1_0000_0000 - net_size(self.prefix),
    {
        let size: u32 = two_to(32 - self.prefix);
        Ipv4Addr { bits: u32::MAX - (size - 1) }
    }
}

/// A network ends within the address space, so all its addresses exist.
pub proof fn lemma_net_ends_in_space(net: Ipv4Net)
    requires
        net.wf(),
    ensures
        net.addr.bits + net_size(net.prefix) <= 0x1_0000_0000,
        net_size(net.prefix) > 0,
{
    let size = net_size(net.prefix) as int;
    let e = (32 - net.prefix) as nat;
    let rest = net.prefix as nat;
    lemma_pow2_pos(e);
    lemma_pow2_adds(e, rest);
    lemma2_to64();
    let bits = net.addr.bits as int;
    vstd::arithmetic::div_mod::lemma_fundamental_div_mod(bits, size);
    let q = bits / size;
    let all = pow2(rest) as int;
    assert(bits == size * q);
    assert(size * all == 0x1_0000_0000);
    assert(q < all) by (nonlinear_arith)
        requires
            size * q < size * all,
            size > 0,
    ;
    assert(size * (q + 1) <= size * all) by (nonlinear_arith)
        requires
            q + 1 <= all,
            size > 0,
    ;
    assert(size * (q + 1) == size * q + size) by (nonlinear_arith);
}

/// A subnet is well formed, wherever it lies.
pub proof fn lemma_part_wf(net: Ipv4Net, index: int, prefix: u8)
    requires
        net.wf(),
        net.prefix <= prefix <= 32,
        0 <= index,
    ensures
        net.part(index, prefix).wf(),
{
    let small = net_size(prefix) as int;
    let big = net_size(net.prefix) as int;
    let count = net.fitting(prefix) as int;
    let all = pow2(prefix as nat) as int;
    lemma_pow2_adds((32 - prefix) as nat, (prefix - net.prefix) as nat);
    lemma_pow2_adds((32 - prefix) as nat, prefix as nat);
    lemma_pow2_pos((32 - prefix) as nat);
    lemma_pow2_pos(prefix as nat);
    lemma2_to64();
    let bits = net.addr.bits as int;
    vstd::arithmetic::div_mod::lemma_fundamental_div_mod(bits, big);
    let q = bits / big;
    let x = bits + index * small;
    assert(x == (count * q + index) * small) by (nonlinear_arith)
        requires
            bits == big * q,
            small * count == big,
            x == bits + index * small,
    ;
    vstd::arithmetic::div_mod::lemma_mod_multiples_basic(count * q + index, small);
    vstd::arithmetic::div_mod::lemma_mod_mod(x, small, all);
    assert(small * all == 0x1_0000_0000);
    assert((x % 0x1_0000_0000) % small == 0);
}

/// A subnet lies inside its network and is itself well formed.
pub proof fn lemma_part_fits(net: Ipv4Net, index: int, prefix: u8)
    requires
        net.wf(),
        net.prefix <= prefix <= 32,
        0 <= index < net.fitting(prefix),
    ensures
        net.part(index, prefix).wf(),
        net.part(index, prefix).addr.bits == net.addr.bits + index * net_size(prefix),
        0 <= index * net_size(prefix),
        index * net_size(prefix) + net_size(prefix) <= net_size(net.prefix),
        net.addr.bits + index * net_size(prefix) + net_size(prefix) <= 0x1_0000_0000,
{
    let small = net_size(prefix) as int;
    let big = net_size(net.prefix) as int;
    let count = net.fitting(prefix) as int;
    lemma_pow2_adds((32 - prefix) as nat, (prefix - net.prefix) as nat);
    assert(small * count == big);
    lemma_pow2_pos((32 - prefix) as nat);
    lemma_net_ends_in_space(net);
    assert(index * small + small <= small * count) by (nonlinear_arith)
        requires
            index + 1 <= count,
            small > 0,
    ;
    assert(0 <= index * small) by (nonlinear_arith)
        requires
            index >= 0,
            small > 0,
    ;
    let bits = net.addr.bits as int;
    vstd::arithmetic::div_mod::lemma_fundamental_div_mod(bits, big);
    let q = bits / big;
    assert(bits + index * small == small * (count * q + index)) by (nonlinear_arith)
        requires
            bits == big * q,
            small * count == big,
    ;
    vstd::arithmetic::div_mod::lemma_mod_multiples_basic(count * q + index, small);
    vstd::arithmetic::mul::lemma_mul_is_commutative(count * q + index, small);
}

/// Subnets with different indices share no address, and every address of a
/// subnet is one of the network it was carved from.
pub proof fn law_subnets_partition(net: Ipv4Net, i: int, j: int, prefix: u8, ip: Ipv4Addr)
    requires
        net.wf(),
        net.prefix <= prefix <= 32,
        0 <= i < net.fitting(prefix),
        0 <= j < net.fitting(prefix),
        net.part(i, prefix).contains(ip),
    ensures
        net.contains(ip),
        net.part(j, prefix).contains(ip) ==> i == j,
{
    lemma_part_fits(net, i, prefix);
    lemma_part_fits(net, j, prefix);
    let size = net_size(prefix) as int;
    lemma_pow2_pos((32 - prefix) as nat);
    if net.part(j, prefix).contains(ip) {
        if i < j {
            assert(i * size + size <= j * size) by (nonlinear_arith)
                requires
                    i + 1 <= j,
                    size > 0,
            ;
        } else if j < i {
            assert(j * size + size <= i * size) by (nonlinear_arith)
                requires
                    j + 1 <= i,
                    size > 0,
            ;
        }
    }
}

/// Parsing a network's CIDR notation gives the network back.
pub proof fn law_cidr_round_trip(net: Ipv4Net)
    requires
        net.wf(),
    ensures
        cidr_of(net_text(net)) == Ok::<Ipv4Net, Seq<char>>(net),
{
    let s = net_text(net);
    let head = ip_text(net.addr);
    let tail = text::decimal(net.prefix as nat);
    reveal_strlit("/");
    lemma_ip_text_has_no_slash(net.addr);
    let at = head.len() as int;
    assert(s[at] == '/');
    assert forall|j: int| 0 <= j < at implies s[j] != '/' by {
        assert(s[j] == head[j]);
    }
    text::lemma_char_index_at(s, '/', at);
    assert(s.take(at) =~= head);
    assert(s.skip(at + 1) =~= tail);
    assert(ip_text(net.addr) == head);
    law_ip_text_injective(net.addr, ip_of(head)->0);
    text::lemma_read_decimal(net.prefix as nat, 255);
}

/// An address with a prefix length denotes the network of that size that the
/// address lies in, whichever of its addresses was given; a length that no
/// network has is refused, and so is a text without one.
pub proof fn law_any_address_denotes_its_network(ip: Ipv4Addr, prefix: u8)
    ensures
        ({
            let r = cidr_of(ip_text(ip) + "/"@ + text::decimal(prefix as nat));
            &&& 1 <= prefix <= 32 <==> r is Ok
            &&& r is Ok ==> r->Ok_0.prefix == prefix && r->Ok_0.contains(ip) && r->Ok_0.wf()
        }),
        cidr_of(ip_text(ip)) is Err,
{
    let head = ip_text(ip);
    let tail = text::decimal(prefix as nat);
    let s = head + "/"@ + tail;
    reveal_strlit("/");
    lemma_ip_text_has_no_slash(ip);
    let at = head.len() as int;
    assert(s[at] == '/');
    assert forall|j: int| 0 <= j < at implies s[j] != '/' by {
        assert(s[j] == head[j]);
    }
    text::lemma_char_index_at(s, '/', at);
    assert(s.take(at) =~= head);
    assert(s.skip(at + 1) =~= tail);
    law_ip_text_injective(ip, ip_of(head)->0);
    text::lemma_read_decimal(prefix as nat, 255);
    text::lemma_char_index(head, '/');
    if 1 <= prefix <= 32 {
        let size = net_size(prefix);
        vstd::arithmetic::power2::lemma_pow2_pos((32 - prefix) as nat);
        let rest = ip.bits as int % size as int;
        vstd::arithmetic::div_mod::lemma_fundamental_div_mod(ip.bits as int, size as int);
        vstd::arithmetic::div_mod::lemma_mod_division_less_than_divisor(
            ip.bits as int,
            size as int,
        );
        vstd::arithmetic::div_mod::lemma_div_pos_is_pos(ip.bits as int, size as int);
        let q = ip.bits as int / size as int;
        assert(ip.bits - rest == size * q);
        vstd::arithmetic::mul::lemma_mul_nonnegative(size as int, q);
        vstd::arithmetic::div_mod::lemma_mod_multiples_basic(q, size as int);
        vstd::arithmetic::mul::lemma_mul_is_commutative(size as int, q);
    }
}

/// The octets of an address are its bits, the first the highest.
pub proof fn law_octets_make_up_the_address(ip: Ipv4Addr)
    ensures
        ip.bits == octet(ip, 0) * 16777216 + octet(ip, 1) * 65536 + octet(ip, 2) * 256 + octet(
            ip,
            3,
        ),
        octet(ip, 0) <= 255 && octet(ip, 1) <= 255 && octet(ip, 2) <= 255 && octet(ip, 3) <= 255,
{
}

/// A network that is one bit longer is half as large, a single address is the
/// smallest, and a network is as large as all the parts that fit in.
pub proof fn law_network_sizes(net: Ipv4Net, prefix: u8)
    requires
        1 <= net.prefix <= prefix <= 32,
    ensures
        net_size(32) == 1,
        prefix < 32 ==> net_size(prefix) == 2 * net_size((prefix + 1) as u8),
        net.fitting(prefix) * net_size(prefix) == net_size(net.prefix),
{
    vstd::arithmetic::power2::lemma2_to64();
    if prefix < 32 {
        vstd::arithmetic::power2::lemma_pow2_unfold((32 - prefix) as nat);
    }
    vstd::arithmetic::power2::lemma_pow2_adds(
        (prefix - net.prefix) as nat,
        (32 - prefix) as nat,
    );
}

/// Dotted notation holds no slash.
proof fn lemma_ip_text_has_no_slash(ip: Ipv4Addr)
    ensures
        forall|j: int| 0 <= j < ip_text(ip).len() ==> #[trigger] ip_text(ip)[j] != '/',
{
    reveal_strlit(".");
    assert("."@ =~= seq!['.']);
    text::lemma_decimal_digits(octet(ip, 0));
    text::lemma_decimal_digits(octet(ip, 1));
    text::lemma_decimal_digits(octet(ip, 2));
    text::lemma_decimal_digits(octet(ip, 3));
    let a = text::decimal(octet(ip, 0));
    let b = text::decimal(octet(ip, 1));
    let c = text::decimal(octet(ip, 2));
    let d = text::decimal(octet(ip, 3));
    assert forall|j: int| 0 <= j < ip_text(ip).len() implies #[trigger] ip_text(ip)[j] != '/' by {
        let x = a.len() as int;
        let y = x + 1 + b.len();
        let z = y + 1 + c.len();
        if j < x {
            assert(ip_text(ip)[j] == a[j]);
        } else if j == x || j == y || j == z {
            assert(ip_text(ip)[j] == '.');
        } else if j < y {
            assert(ip_text(ip)[j] == b[j - x - 1]);
        } else if j < z {
            assert(ip_text(ip)[j] == c[j - y - 1]);
        } else {
            assert(ip_text(ip)[j] == d[j - z - 1]);
        }
    }
}

} // verus!
