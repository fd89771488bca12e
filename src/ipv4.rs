//! IPv4 addresses with a network prefix, as written in CIDR notation.
use crate::text::{chars_of, dec_text, push_decimal, string_of};
use vstd::arithmetic::div_mod::{lemma_fundamental_div_mod, lemma_mod_pos_bound};
use vstd::prelude::*;

verus! {

/// Why a text is not an address in CIDR notation.
#[derive(PartialEq, Eq, Structural, Clone, Copy, Debug)]
pub enum AddrError {
    /// The text does not hold exactly one `/`.
    InvalidArgument,
    /// The address part is not four decimal octets separated by dots.
    InvalidIpPart,
    /// The prefix length is not a decimal number from 1 to 32.
    InvalidMaskBit,
}

/// Why a node id cannot move within its network.
#[derive(PartialEq, Eq, Structural, Clone, Copy, Debug)]
pub enum NodeIdError {
    /// Every host bit is already set.
    AlreadyHighest,
    /// Every host bit is already clear.
    AlreadyLowest,
}

/// The number of addresses that `bits` host bits span.
pub open spec fn block(bits: nat) -> nat
    decreases bits,
{
    if bits == 0 {
        1
    } else {
        2 * block((bits - 1) as nat)
    }
}

proof fn lemma_block_mono(a: nat, b: nat)
    requires
        a <= b,
    ensures
        1 <= block(a) <= block(b),
    decreases b,
{
    if b > 0 {
        if a < b {
            lemma_block_mono(a, (b - 1) as nat);
        } else {
            lemma_block_mono((b - 1) as nat, (b - 1) as nat);
        }
    }
}

proof fn lemma_block_full()
    ensures
        block(31) == 2147483648,
        block(32) == 4294967296,
{
    reveal_with_fuel(block, 33);
}

proof fn lemma_block_bound(bits: nat)
    requires
        bits <= 32,
    ensures
        1 <= block(bits) <= 4294967296,
{
    lemma_block_mono(bits, 32);
    lemma_block_full();
}

proof fn lemma_block_adds(a: nat, b: nat)
    ensures
        block(a + b) == block(a) * block(b),
    decreases b,
{
    if b == 0 {
        assert(block(0) == 1);
        assert(a + b == a);
    } else {
        let c = (b - 1) as nat;
        lemma_block_adds(a, c);
        let x = block(a);
        let y = block(c);
        assert(block(a + c) == x * y);
        assert(a + b == (a + c) + 1);
        assert(block(a + b) == 2 * block(a + c));
        assert(block(b) == 2 * y);
        assert(2 * (x * y) == x * (2 * y)) by (nonlinear_arith);
    }
}

proof fn lemma_block_divides(bits: nat)
    requires
        bits <= 32,
    ensures
        4294967296int % (block(bits) as int) == 0,
{
    lemma_block_adds(bits, (32 - bits) as nat);
    lemma_block_bound(bits);
    lemma_block_bound((32 - bits) as nat);
    let x = block(bits) as int;
    let y = block((32 - bits) as nat) as int;
    lemma_block_full();
    assert(bits + ((32 - bits) as nat) == 32);
    assert(4294967296int == x * y);
    assert((x * y) % x == 0) by (nonlinear_arith)
        requires
            x >= 1,
    ;
}

/// The size of the network of a `prefix`-bit prefix.
pub open spec fn span(prefix: int) -> int {
    block((32 - prefix) as nat) as int
}

/// The network address: the host bits cleared.
pub open spec fn network_of(addr: int, prefix: int) -> int {
    addr - addr % span(prefix)
}

/// The host bits of an address.
pub open spec fn host_of(addr: int, prefix: int) -> int {
    addr % span(prefix)
}

/// The netmask as a 32-bit value: the `prefix` high bits set.
pub open spec fn mask_of(prefix: int) -> int {
    4294967296 - span(prefix)
}

/// Octet `i` (0 is the most significant) of a 32-bit value.
pub open spec fn octet(v: int, i: int) -> int {
    if i == 0 {
        (v / 16777216) % 256
    } else if i == 1 {
        (v / 65536) % 256
    } else if i == 2 {
        (v / 256) % 256
    } else {
        v % 256
    }
}

/// The four octets of a 32-bit value in decimal, joined by `sep`.
pub open spec fn octets_text(v: int, sep: char) -> Seq<char> {
    dec_text(octet(v, 0) as nat) + seq![sep] + dec_text(octet(v, 1) as nat) + seq![sep]
        + dec_text(octet(v, 2) as nat) + seq![sep] + dec_text(octet(v, 3) as nat)
}

/// The pieces of `s` between occurrences of `sep`; one more than there are
/// separators.
pub open spec fn split_on(s: Seq<char>, sep: char) -> Seq<Seq<char>>
    decreases s.len(),
{
    if s.len() == 0 {
        seq![Seq::<char>::empty()]
    } else {
        let prev = split_on(s.drop_last(), sep);
        if s.last() == sep {
            prev.push(Seq::<char>::empty())
        } else {
            prev.update(prev.len() - 1, prev.last().push(s.last()))
        }
    }
}

proof fn lemma_split_nonempty(s: Seq<char>, sep: char)
    ensures
        split_on(s, sep).len() >= 1,
    decreases s.len(),
{
    if s.len() > 0 {
        lemma_split_nonempty(s.drop_last(), sep);
    }
}

pub open spec fn is_digit(c: char) -> bool {
    '0' <= c <= '9'
}

/// The value of a run of decimal digits.
pub open spec fn dec_value(s: Seq<char>) -> nat
    decreases s.len(),
{
    if s.len() == 0 {
        0
    } else {
        dec_value(s.drop_last()) * 10 + (s.last() as nat - 48) as nat
    }
}

/// A non-empty run of decimal digits.
pub open spec fn is_decimal(s: Seq<char>) -> bool {
    s.len() > 0 && forall|i: int| 0 <= i < s.len() ==> is_digit(#[trigger] s[i])
}

pub open spec fn is_octet(s: Seq<char>) -> bool {
    is_decimal(s) && dec_value(s) <= 255
}

/// What `from_cidr_notation` makes of a text: the address and the prefix
/// length, or the reason it is refused.
pub open spec fn parse_cidr(s: Seq<char>) -> Result<(int, int), AddrError> {
    let parts = split_on(s, '/');
    if parts.len() != 2 {
        Err(AddrError::InvalidArgument)
    } else {
        let ds = split_on(parts[0], '.');
        if ds.len() != 4 || !(is_octet(ds[0]) && is_octet(ds[1]) && is_octet(ds[2]) && is_octet(
            ds[3],
        )) {
            Err(AddrError::InvalidIpPart)
        } else if !(is_decimal(parts[1]) && 1 <= dec_value(parts[1]) <= 32) {
            Err(AddrError::InvalidMaskBit)
        } else {
            Ok(
                (
                    (dec_value(ds[0]) * 16777216 + dec_value(ds[1]) * 65536 + dec_value(ds[2])
                        * 256 + dec_value(ds[3])) as int,
                    dec_value(parts[1]) as int,
                ),
            )
        }
    }
}

pub open spec fn pieces_view(v: Seq<Vec<char>>) -> Seq<Seq<char>> {
    v.map_values(|p: Vec<char>| p@)
}

fn split_chars(s: &Vec<char>, sep: char) -> (r: Vec<Vec<char>>)
    ensures
        pieces_view(r@) == split_on(s@, sep),
{
    let mut done: Vec<Vec<char>> = Vec::new();
    let mut cur: Vec<char> = Vec::new();
    let mut i: usize = 0;
    while i < s.len()
        invariant
            0 <= i <= s@.len(),
            pieces_view(done@).push(cur@) == split_on(s@.take(i as int), sep),
        decreases s@.len() - i,
    {
        let ghost before = s@.take(i as int);
        assert(s@.take(i + 1).drop_last() =~= before);
        assert(s@.take(i + 1).last() == s@[i as int]);
        proof {
            lemma_split_nonempty(before, sep);
        }
        if s[i] == sep {
            let piece = cur;
            done.push(piece);
            cur = Vec::new();
            assert(pieces_view(done@).push(cur@) =~= split_on(s@.take(i + 1), sep));
        } else {
            cur.push(s[i]);
            assert(pieces_view(done@).push(cur@) =~= split_on(s@.take(i + 1), sep));
        }
        i += 1;
    }
    assert(s@.take(s@.len() as int) =~= s@);
    done.push(cur);
    assert(pieces_view(done@) =~= split_on(s@, sep));
    done
}

proof fn lemma_dec_value_grows(s: Seq<char>, k: int)
    requires
        0 <= k <= s.len(),
        forall|i: int| 0 <= i < s.len() ==> is_digit(#[trigger] s[i]),
    ensures
        dec_value(s.take(k)) <= dec_value(s),
    decreases s.len() - k,
{
    if k < s.len() {
        lemma_dec_value_grows(s, k + 1);
        assert(s.take(k + 1).drop_last() =~= s.take(k));
    } else {
        assert(s.take(k) =~= s);
    }
}

/// The value of a decimal piece, or `None` where it is not one; values
/// above 999 are given as 1000.
fn decimal(p: &Vec<char>) -> (r: Option<u32>)
    ensures
        r is Some <==> is_decimal(p@),
        r matches Some(v) ==> (v == if dec_value(p@) > 999 {
            1000
        } else {
            dec_value(p@)
        }),
{
    if p.len() == 0 {
        return None;
    }
    let mut acc: u32 = 0;
    let mut i: usize = 0;
    while i < p.len()
        invariant
            0 <= i <= p@.len(),
            forall|j: int| 0 <= j < i ==> is_digit(#[trigger] p@[j]),
            acc == if dec_value(p@.take(i as int)) > 999 {
                1000
            } else {
                dec_value(p@.take(i as int))
            },
        decreases p@.len() - i,
    {
        let c = p[i];
        if !('0' <= c && c <= '9') {
            assert(!is_digit(p@[i as int]));
            return None;
        }
        let d = (c as u32) - 48;
        assert(p@.take(i + 1).drop_last() =~= p@.take(i as int));
        assert(p@.take(i + 1).last() == c);
        if acc < 1000 {
            let v = acc * 10 + d;
            acc = if v > 999 {
                1000
            } else {
                v
            };
        }
        i += 1;
    }
    assert(p@.take(p@.len() as int) =~= p@);
    Some(acc)
}
/// An IPv4 address and the length of its network prefix.
#[derive(Clone, Copy, Debug, PartialEq, Eq, Hash)]
pub struct IPv4 {
    addr: u32,
    prefix: u32,
}

impl IPv4 {
    /// The address as an integer.
    pub closed spec fn addr_spec(&self) -> int {
        self.addr as int
    }

    /// The length of the network prefix.
    pub closed spec fn prefix_spec(&self) -> int {
        self.prefix as int
    }

    /// The prefix is between 1 and 32 bits long.
    #[verifier::type_invariant]
    spec fn wf(&self) -> bool {
        1 <= self.prefix <= 32
    }

    /// The address `addr` with a `prefix`-bit network prefix.
    pub fn from_parts(addr: u32, prefix: u32) -> (r: IPv4)
        requires
            1 <= prefix <= 32,
        ensures
            r.addr_spec() == addr,
            r.prefix_spec() == prefix,
    {
        IPv4 { addr, prefix }
    }

    /// Reads an address in CIDR notation, as `192.168.1.10/24`.
    pub fn from_cidr_notation(s: &str) -> (r: Result<IPv4, AddrError>)
        ensures
            parse_cidr(s@) matches Ok((a, p)) ==> r matches Ok(ip) && ip.addr_spec()
                == a && ip.prefix_spec() == p,
            parse_cidr(s@) matches Err(e) ==> r == Err::<IPv4, AddrError>(e),
    {
        let text = chars_of(s);
        let parts = split_chars(&text, '/');
        if parts.len() != 2 {
            return Err(AddrError::InvalidArgument);
        }
        assert(parts@[0]@ == split_on(s@, '/')[0]);
        assert(parts@[1]@ == split_on(s@, '/')[1]);
        let ds = split_chars(&parts[0], '.');
        if ds.len() != 4 {
            return Err(AddrError::InvalidIpPart);
        }
        let ghost dv = pieces_view(ds@);
        assert(ds@[0]@ == dv[0] && ds@[1]@ == dv[1] && ds@[2]@ == dv[2] && ds@[3]@ == dv[3]);
        let o0 = decimal(&ds[0]);
        let o1 = decimal(&ds[1]);
        let o2 = decimal(&ds[2]);
        let o3 = decimal(&ds[3]);
        let (a0, a1, a2, a3) = match (o0, o1, o2, o3) {
            (Some(a0), Some(a1), Some(a2), Some(a3)) => {
                if a0 > 255 || a1 > 255 || a2 > 255 || a3 > 255 {
                    return Err(AddrError::InvalidIpPart);
                }
                (a0, a1, a2, a3)
            },
            _ => {
                return Err(AddrError::InvalidIpPart);
            },
        };
        let m = match decimal(&parts[1]) {
            Some(m) => {
                if m < 1 || m > 32 {
                    return Err(AddrError::InvalidMaskBit);
                }
                m
            },
            None => {
                return Err(AddrError::InvalidMaskBit);
            },
        };
        Ok(IPv4 { addr: a0 * 16777216 + a1 * 65536 + a2 * 256 + a3, prefix: m })
    }

    /// Same address and same prefix length.
    pub fn same_as(&self, other: &IPv4) -> (r: bool)
        ensures
            r == (self.addr_spec() == other.addr_spec() && self.prefix_spec()
                == other.prefix_spec()),
    {
        self.addr == other.addr && self.prefix == other.prefix
    }

    fn with_addr(&self, addr: u32) -> (r: IPv4)
        ensures
            r.addr_spec() == addr,
            r.prefix_spec() == self.prefix_spec(),
    {
        proof {
            use_type_invariant(self);
        }
        IPv4 { addr, prefix: self.prefix }
    }

    fn span_exec(&self) -> (r: u64)
        ensures
            r == span(self.prefix_spec()),
            1 <= r <= 2147483648,
    {
        proof {
            use_type_invariant(self);
        }
        let bits = 32 - self.prefix;
        let mut h: u64 = 1;
        let mut k: u32 = 0;
        while k < bits
            invariant
                bits == 32 - self.prefix,
                bits <= 31,
                k <= bits,
                h == block(k as nat),
            decreases bits - k,
        {
            proof {
                lemma_block_bound(k as nat);
            }
            h = h * 2;
            k = k + 1;
        }
        proof {
            lemma_block_bound(k as nat);
            lemma_block_mono(k as nat, 31);
            lemma_block_full();
        }
        h
    }

    /// The address in dotted decimal, as `192.168.1.10`.
    pub fn ip(&self) -> (r: String)
        ensures
            r@ == octets_text(self.addr_spec(), '.'),
    {
        string_of(&octets_chars(self.addr, '.'))
    }

    /// The netmask in dotted decimal, as `255.255.255.0`.
    pub fn mask(&self) -> (r: String)
        ensures
            r@ == octets_text(mask_of(self.prefix_spec()), '.'),
    {
        proof {
            use_type_invariant(self);
        }
        let m = (4294967296u64 - self.span_exec()) as u32;
        string_of(&octets_chars(m, '.'))
    }

    /// The length of the network prefix.
    pub fn mask_bit(&self) -> (r: u32)
        ensures
            r == self.prefix_spec(),
    {
        self.prefix
    }

    /// The network address, with the same prefix.
    pub fn nw_addr(&self) -> (r: IPv4)
        ensures
            r.prefix_spec() == self.prefix_spec(),
            r.addr_spec() == network_of(self.addr_spec(), self.prefix_spec()),
    {
        proof {
            use_type_invariant(self);
        }
        let s = self.span_exec();
        let a = self.addr as u64;
        proof {
            lemma_fundamental_div_mod(a as int, s as int);
            lemma_mod_pos_bound(a as int, s as int);
            assert(s * (a / s) >= 0) by (nonlinear_arith)
                requires
                    s >= 1,
            ;
        }
        self.with_addr((a - a % s) as u32)
    }

    /// The address whose host bits are the low bits of `n` (as a 32-bit
    /// two's-complement value), in the same network.
    pub fn nth_sibling(&self, n: i32) -> (r: IPv4)
        ensures
            r.prefix_spec() == self.prefix_spec(),
            r.addr_spec() == network_of(self.addr_spec(), self.prefix_spec()) + (
            #[verifier::truncate]
            (n as u32)) as int % span(self.prefix_spec()),
    {
        proof {
            use_type_invariant(self);
        }
        let s = self.span_exec();
        let a = self.addr as u64;
        let low = (#[verifier::truncate] (n as u32)) as u64 % s;
        proof {
            lemma_block_divides((32 - self.prefix) as nat);
            lemma_fundamental_div_mod(a as int, s as int);
            lemma_mod_pos_bound(a as int, s as int);
            lemma_mod_pos_bound((#[verifier::truncate] (n as u32)) as int, s as int);
        }
        proof {
            assert(a - a % s + low < 4294967296) by (nonlinear_arith)
                requires
                    a < 4294967296,
                    low < s,
                    s >= 1,
                    s * (a / s) + a % s == a,
                    4294967296int % (s as int) == 0,
                    a % s < s,
            ;
        }
        self.with_addr((a - a % s + low) as u32)
    }

    /// The highest address of the network.
    pub fn largest_sibling(&self) -> (r: IPv4)
        ensures
            r.prefix_spec() == self.prefix_spec(),
            r.addr_spec() == network_of(self.addr_spec(), self.prefix_spec()) + span(
                self.prefix_spec(),
            ) - 1,
    {
        proof {
            use_type_invariant(self);
        }
        let s = self.span_exec();
        let a = self.addr as u64;
        proof {
            lemma_block_divides((32 - self.prefix) as nat);
            lemma_fundamental_div_mod(a as int, s as int);
            lemma_mod_pos_bound(a as int, s as int);
            assert(a - a % s + (s - 1) < 4294967296) by (nonlinear_arith)
                requires
                    a < 4294967296,
                    s >= 1,
                    s * (a / s) + a % s == a,
                    4294967296int % (s as int) == 0,
                    a % s < s,
            ;
        }
        self.with_addr((a - a % s + (s - 1)) as u32)
    }

    /// Moves to the next address of the network; fails, leaving the address
    /// as it is, where every host bit is already set.
    pub fn incr_node_id(&mut self) -> (r: Result<(), NodeIdError>)
        ensures
            final(self).prefix_spec() == old(self).prefix_spec(),
            host_of(old(self).addr_spec(), old(self).prefix_spec()) == span(
                old(self).prefix_spec(),
            ) - 1 ==> r == Err::<(), NodeIdError>(NodeIdError::AlreadyHighest)
                && final(self).addr_spec() == old(self).addr_spec(),
            host_of(old(self).addr_spec(), old(self).prefix_spec()) != span(
                old(self).prefix_spec(),
            ) - 1 ==> r is Ok && final(self).addr_spec() == old(self).addr_spec() + 1,
    {
        proof {
            use_type_invariant(&*self);
        }
        let s = self.span_exec();
        let a = self.addr as u64;
        if a % s == s - 1 {
            return Err(NodeIdError::AlreadyHighest);
        }
        proof {
            lemma_block_divides((32 - self.prefix) as nat);
            lemma_fundamental_div_mod(a as int, s as int);
            lemma_mod_pos_bound(a as int, s as int);
        }
        proof {
            assert(a + 1 < 4294967296) by (nonlinear_arith)
                requires
                    a < 4294967296,
                    s >= 1,
                    a % s != s - 1,
                    a % s < s,
                    s * (a / s) + a % s == a,
                    4294967296int % (s as int) == 0,
            ;
        }
        self.addr = self.addr + 1;
        Ok(())
    }

    /// Moves to the previous address of the network; fails, leaving the
    /// address as it is, where every host bit is already clear.
    pub fn decr_node_id(&mut self) -> (r: Result<(), NodeIdError>)
        ensures
            final(self).prefix_spec() == old(self).prefix_spec(),
            host_of(old(self).addr_spec(), old(self).prefix_spec()) == 0 ==> r == Err::<
                (),
                NodeIdError,
            >(NodeIdError::AlreadyLowest) && final(self).addr_spec() == old(self).addr_spec(),
            host_of(old(self).addr_spec(), old(self).prefix_spec()) != 0 ==> r is Ok
                && final(self).addr_spec() == old(self).addr_spec() - 1,
    {
        proof {
            use_type_invariant(&*self);
        }
        let s = self.span_exec();
        let a = self.addr as u64;
        if a % s == 0 {
            return Err(NodeIdError::AlreadyLowest);
        }
        proof {
            if a == 0 {
                lemma_mod_pos_bound(0, s as int);
                assert(0int % (s as int) == 0) by (nonlinear_arith)
                    requires
                        s >= 1,
                ;
            }
        }
        self.addr = self.addr - 1;
        Ok(())
    }

    /// The octets joined by `-`, then `-` and the prefix length, as
    /// `192-168-1-10-24`: a form fit for names.
    pub fn hyphenated(&self) -> (r: String)
        ensures
            r@ == octets_text(self.addr_spec(), '-') + seq!['-'] + dec_text(
                self.prefix_spec() as nat,
            ),
    {
        proof {
            use_type_invariant(self);
        }
        let mut out = octets_chars(self.addr, '-');
        out.push('-');
        push_decimal(&mut out, self.prefix);
        string_of(&out)
    }
}

/// The DHCP range of a network whose bridge has address `bridge`: from the
/// address after the bridge's to the one before the highest of the network.
pub fn dhcp_range(bridge: &IPv4) -> (r: Result<(IPv4, IPv4), NodeIdError>)
    ensures
        host_of(bridge.addr_spec(), bridge.prefix_spec()) == span(bridge.prefix_spec()) - 1 ==> r
            == Err::<(IPv4, IPv4), NodeIdError>(NodeIdError::AlreadyHighest),
        host_of(bridge.addr_spec(), bridge.prefix_spec()) != span(bridge.prefix_spec()) - 1 ==> (
        r matches Ok((start, end)) && start.prefix_spec()
            == bridge.prefix_spec() && end.prefix_spec() == bridge.prefix_spec()
            && start.addr_spec() == bridge.addr_spec() + 1 && end.addr_spec() == network_of(
            bridge.addr_spec(),
            bridge.prefix_spec(),
        ) + (#[verifier::truncate] ((-2i32) as u32)) as int % span(bridge.prefix_spec())),
{
    let mut start = *bridge;
    match start.incr_node_id() {
        Err(e) => Err(e),
        Ok(()) => Ok((start, bridge.nth_sibling(-2))),
    }
}

fn octets_chars(v: u32, sep: char) -> (r: Vec<char>)
    ensures
        r@ == octets_text(v as int, sep),
{
    let mut out: Vec<char> = Vec::new();
    push_decimal(&mut out, (v / 16777216) % 256);
    out.push(sep);
    push_decimal(&mut out, (v / 65536) % 256);
    out.push(sep);
    push_decimal(&mut out, (v / 256) % 256);
    out.push(sep);
    push_decimal(&mut out, v % 256);
    assert(out@ =~= octets_text(v as int, sep));
    out
}

} // verus!
