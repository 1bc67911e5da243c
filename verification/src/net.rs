//! IP addresses as plain values: an IPv4 address is its 32 bits (the first
//! octet most significant), an IPv6 address its 16 octets. IPv4 addresses
//! are written and read in dotted-decimal notation.

use crate::text::{
    all_digits, decimal, digit_value, digits_value, is_digit, lemma_decimal, push_char,
    push_decimal,
};
use vstd::prelude::*;

verus! {

/// The address with the given octets, first octet most significant.
pub open spec fn ipv4_bits(a: u8, b: u8, c: u8, d: u8) -> u32 {
    (a * 16777216 + b * 65536 + c * 256 + d) as u32
}

/// The four octets of an address, first octet most significant.
pub open spec fn ipv4_octets(bits: u32) -> Seq<u8> {
    seq![
        (bits / 16777216) as u8,
        ((bits / 65536) % 256) as u8,
        ((bits / 256) % 256) as u8,
        (bits % 256) as u8,
    ]
}

/// Dotted-decimal notation, as `Display` writes an IPv4 address.
pub open spec fn ipv4_text(bits: u32) -> Seq<char> {
    let o = ipv4_octets(bits);
    decimal(o[0] as nat) + seq!['.'] + decimal(o[1] as nat) + seq!['.'] + decimal(o[2] as nat)
        + seq!['.'] + decimal(o[3] as nat)
}

/// The pieces of `s` between occurrences of `c` (one piece more than
/// there are `c`s).
pub open spec fn split_chars(s: Seq<char>, c: char) -> Seq<Seq<char>>
    decreases s.len(),
{
    if s.len() == 0 {
        seq![Seq::empty()]
    } else {
        let p = split_chars(s.drop_last(), c);
        if s.last() == c {
            p.push(Seq::empty())
        } else {
            p.update(p.len() - 1, p.last().push(s.last()))
        }
    }
}

/// One octet of a dotted-decimal address as `Ipv4Addr::from_str` accepts
/// it: one to three ASCII digits, no leading zero, value at most 255.
pub open spec fn ipv4_group_ok(g: Seq<char>) -> bool {
    &&& 1 <= g.len() <= 3
    &&& all_digits(g)
    &&& !(g.len() > 1 && g[0] == '0')
    &&& digits_value(g) <= 255
}

/// What `Ipv4Addr::from_str` accepts: exactly four valid octets separated
/// by dots, and nothing else.
pub open spec fn parse_ipv4_text(s: Seq<char>) -> Option<u32> {
    let g = split_chars(s, '.');
    if g.len() == 4 && ipv4_group_ok(g[0]) && ipv4_group_ok(g[1]) && ipv4_group_ok(g[2])
        && ipv4_group_ok(g[3]) {
        Some(
            ipv4_bits(
                digits_value(g[0]) as u8,
                digits_value(g[1]) as u8,
                digits_value(g[2]) as u8,
                digits_value(g[3]) as u8,
            ),
        )
    } else {
        None
    }
}

/// The error of a text that is not a dotted-decimal IPv4 address.
#[derive(Debug, Clone, Copy, PartialEq, Eq, Structural)]
pub struct AddrParseError;

/// An IPv4 address.
#[derive(Debug, Clone, Copy, PartialEq, Eq, Structural)]
pub struct Ipv4Addr {
    bits: u32,
}

impl View for Ipv4Addr {
    type V = u32;

    closed spec fn view(&self) -> u32 {
        self.bits
    }
}

impl Ipv4Addr {
    /// The address `a.b.c.d`.
    pub fn new(a: u8, b: u8, c: u8, d: u8) -> (r: Ipv4Addr)
        ensures
            r@ == ipv4_bits(a, b, c, d),
    {
        Ipv4Addr { bits: (a as u32) * 16777216 + (b as u32) * 65536 + (c as u32) * 256 + (d as u32) }
    }

    /// The address with the given bits.
    pub fn from_bits(bits: u32) -> (r: Ipv4Addr)
        ensures
            r@ == bits,
    {
        Ipv4Addr { bits }
    }

    /// The bits of the address.
    pub fn to_bits(&self) -> (r: u32)
        ensures
            r == self@,
    {
        self.bits
    }

    /// `0.0.0.0`.
    pub fn unspecified() -> (r: Ipv4Addr)
        ensures
            r@ == 0,
    {
        Ipv4Addr { bits: 0 }
    }

    /// Whether this is `0.0.0.0`.
    pub fn is_unspecified(&self) -> (r: bool)
        ensures
            r == (self@ == 0),
    {
        self.bits == 0
    }

    /// The four octets, first octet most significant.
    pub fn octets(&self) -> (r: [u8; 4])
        ensures
            r@ == ipv4_octets(self@),
    {
        let b = self.bits;
        let r = [(b / 16777216) as u8, ((b / 65536) % 256) as u8, ((b / 256) % 256) as u8, (b % 256) as u8];
        proof {
            assert(r@ == ipv4_octets(self@));
        }
        r
    }

    /// Bitwise and of two addresses.
    pub fn bitand(&self, other: &Ipv4Addr) -> (r: Ipv4Addr)
        ensures
            r@ == self@ & other@,
    {
        Ipv4Addr { bits: self.bits & other.bits }
    }

    /// Bitwise or of two addresses.
    pub fn bitor(&self, other: &Ipv4Addr) -> (r: Ipv4Addr)
        ensures
            r@ == self@ | other@,
    {
        Ipv4Addr { bits: self.bits | other.bits }
    }

    /// Appends the dotted-decimal notation of the address.
    pub fn push_text(&self, s: &mut String)
        ensures
            final(s)@ == old(s)@ + ipv4_text(self@),
    {
        let o = self.octets();
        push_decimal(s, o[0] as u64);
        push_char(s, '.');
        push_decimal(s, o[1] as u64);
        push_char(s, '.');
        push_decimal(s, o[2] as u64);
        push_char(s, '.');
        push_decimal(s, o[3] as u64);
        proof {
            let t = ipv4_octets(self@);
            assert(old(s)@ + decimal(t[0] as nat) + seq!['.'] + decimal(t[1] as nat) + seq!['.']
                + decimal(t[2] as nat) + seq!['.'] + decimal(t[3] as nat) == old(s)@ + ipv4_text(
                self@,
            ));
        }
    }

    /// The dotted-decimal notation of the address, e.g. `172.21.0.1`.
    pub fn to_string(&self) -> (s: String)
        ensures
            s@ == ipv4_text(self@),
    {
        let mut s = String::new();
        self.push_text(&mut s);
        proof {
            assert(Seq::<char>::empty() + ipv4_text(self@) == ipv4_text(self@));
        }
        s
    }

    /// Reads a dotted-decimal address the way `Ipv4Addr::from_str` does.
    pub fn from_str(s: &str) -> (r: Result<Ipv4Addr, AddrParseError>)
        ensures
            match parse_ipv4_text(s@) {
                Some(bits) => r == Ok::<Ipv4Addr, AddrParseError>(Ipv4Addr::from_bits_spec(bits)),
                None => r is Err,
            },
    {
        let n = s.unicode_len();
        let mut vals: Vec<u8> = Vec::new();
        let mut all_ok = true;
        let mut cur: Vec<char> = Vec::new();
        let mut i: usize = 0;
        while i < n
            invariant
                n == s@.len(),
                i <= n,
                vals@.len() + 1 == split_chars(s@.take(i as int), '.').len(),
                cur@ == split_chars(s@.take(i as int), '.').last(),
                all_ok ==> forall|j: int|
                    0 <= j < vals@.len() ==> ipv4_group_ok(
                        #[trigger] split_chars(s@.take(i as int), '.')[j],
                    ) && vals@[j] == digits_value(split_chars(s@.take(i as int), '.')[j]),
                !all_ok ==> exists|j: int|
                    0 <= j < vals@.len() && !ipv4_group_ok(
                        #[trigger] split_chars(s@.take(i as int), '.')[j],
                    ),
            decreases n - i,
        {
            let c = s.get_char(i);
            let ghost before = split_chars(s@.take(i as int), '.');
            proof {
                assert(s@.take(i + 1).drop_last() == s@.take(i as int));
                assert(s@.take(i + 1).last() == c);
            }
            if c == '.' {
                let g = ipv4_group(&cur);
                match g {
                    Some(v) => vals.push(v),
                    None => {
                        vals.push(0);
                        all_ok = false;
                    },
                }
                cur = Vec::new();
                proof {
                    let after = split_chars(s@.take(i + 1), '.');
                    assert(after == before.push(Seq::empty()));
                    assert forall|j: int| 0 <= j < vals@.len() - 1 implies after[j] == before[j] by {}
                    if !all_ok {
                        if g is None {
                            assert(!ipv4_group_ok(after[vals@.len() - 1]));
                        } else {
                            let j = choose|j: int|
                                0 <= j < vals@.len() - 1 && !ipv4_group_ok(#[trigger] before[j]);
                            assert(!ipv4_group_ok(after[j]));
                        }
                    }
                }
            } else {
                cur.push(c);
                proof {
                    let after = split_chars(s@.take(i + 1), '.');
                    assert(after == before.update(before.len() - 1, before.last().push(c)));
                    assert forall|j: int| 0 <= j < vals@.len() implies after[j] == before[j] by {}
                    if !all_ok {
                        let j = choose|j: int|
                            0 <= j < vals@.len() && !ipv4_group_ok(#[trigger] before[j]);
                        assert(!ipv4_group_ok(after[j]));
                    }
                }
            }
            i = i + 1;
        }
        proof {
            assert(s@.take(n as int) == s@);
        }
        let last = ipv4_group(&cur);
        if !all_ok || vals.len() != 3 {
            return Err(AddrParseError);
        }
        match last {
            Some(d) => Ok(Ipv4Addr::new(vals[0], vals[1], vals[2], d)),
            None => Err(AddrParseError),
        }
    }

    /// The address with the given bits, in specifications.
    pub closed spec fn from_bits_spec(bits: u32) -> Ipv4Addr {
        Ipv4Addr { bits }
    }

    /// [`Ipv4Addr::from_bits_spec`] gives the address with those bits.
    pub broadcast proof fn lemma_from_bits_spec(bits: u32)
        ensures
            #[trigger] Ipv4Addr::from_bits_spec(bits)@ == bits,
    {
    }

    /// An address is determined by its bits.
    pub broadcast proof fn lemma_view_injective(a: Ipv4Addr, b: Ipv4Addr)
        ensures
            #[trigger] a@ == #[trigger] b@ ==> a == b,
    {
    }
}

/// The value of one dotted-decimal octet, if it is valid.
fn ipv4_group(g: &Vec<char>) -> (r: Option<u8>)
    ensures
        r == (if ipv4_group_ok(g@) {
            Some(digits_value(g@) as u8)
        } else {
            None::<u8>
        }),
{
    let n = g.len();
    if n < 1 || n > 3 {
        return None;
    }
    if n > 1 && g[0] == '0' {
        return None;
    }
    let mut v: u32 = 0;
    let mut i: usize = 0;
    while i < n
        invariant
            n == g@.len(),
            1 <= n <= 3,
            i <= n,
            all_digits(g@.take(i as int)),
            v == digits_value(g@.take(i as int)),
            v < 1000,
            v < 10 || i >= 2,
            v < 100 || i >= 3,
        decreases n - i,
    {
        let c = g[i];
        proof {
            assert(g@.take(i + 1).drop_last() == g@.take(i as int));
            assert(g@.take(i + 1).last() == c);
        }
        if !('0' <= c && c <= '9') {
            proof {
                assert(!is_digit(g@[i as int]));
            }
            return None;
        }
        v = v * 10 + (c as u32 - 48);
        proof {
            assert(digit_value(c) == c as u32 - 48);
            assert(all_digits(g@.take(i + 1)));
        }
        i = i + 1;
    }
    proof {
        assert(g@.take(n as int) == g@);
    }
    if v > 255 {
        return None;
    }
    Some(v as u8)
}

proof fn lemma_split_chars_extend(p: Seq<char>, w: Seq<char>, c: char)
    requires
        forall|i: int| 0 <= i < w.len() ==> w[i] != c,
    ensures
        split_chars(p + w, c) == split_chars(p, c).update(
            split_chars(p, c).len() - 1,
            split_chars(p, c).last() + w,
        ),
        split_chars(p, c).len() >= 1,
    decreases w.len(),
{
    lemma_split_chars_nonempty(p, c);
    if w.len() == 0 {
        assert(p + w == p);
        assert(split_chars(p, c).last() + w == split_chars(p, c).last());
        assert(split_chars(p, c).update(split_chars(p, c).len() - 1, split_chars(p, c).last())
            == split_chars(p, c));
    } else {
        let v = w.drop_last();
        lemma_split_chars_extend(p, v, c);
        assert((p + w).drop_last() == p + v);
        assert((p + w).last() == w.last());
        assert(w[w.len() - 1] != c);
        let sp = split_chars(p, c);
        let q = split_chars(p + v, c);
        assert(q == sp.update(sp.len() - 1, sp.last() + v));
        assert(q.len() == sp.len());
        assert(q.last() == sp.last() + v);
        assert((sp.last() + v).push(w.last()) == sp.last() + w);
        assert(split_chars(p + w, c) == q.update(q.len() - 1, q.last().push(w.last())));
        assert(q.update(q.len() - 1, sp.last() + w) == sp.update(sp.len() - 1, sp.last() + w));
    }
}

proof fn lemma_split_chars_nonempty(p: Seq<char>, c: char)
    ensures
        split_chars(p, c).len() >= 1,
    decreases p.len(),
{
    if p.len() > 0 {
        lemma_split_chars_nonempty(p.drop_last(), c);
    }
}

proof fn lemma_split_chars_sep(p: Seq<char>, c: char)
    ensures
        split_chars(p + seq![c], c) == split_chars(p, c).push(Seq::empty()),
{
    assert((p + seq![c]).drop_last() == p);
    assert((p + seq![c]).last() == c);
}

proof fn lemma_octet_text(o: u8)
    ensures
        ipv4_group_ok(decimal(o as nat)),
        digits_value(decimal(o as nat)) == o,
        forall|i: int| 0 <= i < decimal(o as nat).len() ==> #[trigger] decimal(o as nat)[i] != '.',
{
    lemma_decimal(o as nat);
    let d = decimal(o as nat);
    assert forall|i: int| 0 <= i < d.len() implies #[trigger] d[i] != '.' by {
        assert(is_digit(d[i]));
    }
}

proof fn lemma_ipv4_bits_octets(bits: u32)
    ensures
        ipv4_bits(
            ipv4_octets(bits)[0],
            ipv4_octets(bits)[1],
            ipv4_octets(bits)[2],
            ipv4_octets(bits)[3],
        ) == bits,
{
    let b = bits as int;
    assert(b == (b / 16777216) * 16777216 + ((b / 65536) % 256) * 65536 + ((b / 256) % 256) * 256
        + b % 256) by (nonlinear_arith)
        requires
            0 <= b < 0x1_0000_0000,
    ;
}

/// Reading back the dotted-decimal notation of an address gives the
/// address.
pub proof fn law_ipv4_text_round_trip(bits: u32)
    ensures
        parse_ipv4_text(ipv4_text(bits)) == Some(bits),
{
    let o = ipv4_octets(bits);
    let d0 = decimal(o[0] as nat);
    let d1 = decimal(o[1] as nat);
    let d2 = decimal(o[2] as nat);
    let d3 = decimal(o[3] as nat);
    lemma_octet_text(o[0]);
    lemma_octet_text(o[1]);
    lemma_octet_text(o[2]);
    lemma_octet_text(o[3]);
    let e = Seq::<char>::empty();
    assert(split_chars(e, '.') == seq![e]);
    lemma_split_chars_extend(e, d0, '.');
    assert(e + d0 == d0);
    assert(seq![e].update(0, e + d0) == seq![d0]);
    lemma_split_chars_sep(d0, '.');
    let p1 = d0 + seq!['.'];
    lemma_split_chars_extend(p1, d1, '.');
    assert(seq![d0, e].update(1, e + d1) == seq![d0, d1]);
    assert(e + d1 == d1);
    lemma_split_chars_sep(p1 + d1, '.');
    let p2 = p1 + d1 + seq!['.'];
    lemma_split_chars_extend(p2, d2, '.');
    assert(e + d2 == d2);
    assert(seq![d0, d1, e].update(2, d2) == seq![d0, d1, d2]);
    lemma_split_chars_sep(p2 + d2, '.');
    let p3 = p2 + d2 + seq!['.'];
    lemma_split_chars_extend(p3, d3, '.');
    assert(e + d3 == d3);
    assert(seq![d0, d1, d2, e].update(3, d3) == seq![d0, d1, d2, d3]);
    assert(p3 + d3 == ipv4_text(bits));
    lemma_ipv4_bits_octets(bits);
}

/// An IPv6 address.
#[derive(Debug, Clone, Copy, PartialEq, Eq)]
pub struct Ipv6Addr {
    octets: [u8; 16],
}

impl View for Ipv6Addr {
    type V = Seq<u8>;

    closed spec fn view(&self) -> Seq<u8> {
        self.octets@
    }
}

impl Ipv6Addr {
    /// The address with these sixteen octets.
    pub fn from_octets(octets: [u8; 16]) -> (r: Ipv6Addr)
        ensures
            r@ == octets@,
    {
        Ipv6Addr { octets }
    }

    /// The sixteen octets of the address.
    pub fn octets(&self) -> (r: [u8; 16])
        ensures
            r@ == self@,
            r@.len() == 16,
    {
        self.octets
    }

    /// Octet-wise and of two addresses.
    pub fn bitand(&self, other: &Ipv6Addr) -> (r: Ipv6Addr)
        ensures
            r@.len() == 16,
            forall|i: int| 0 <= i < 16 ==> #[trigger] r@[i] == self@[i] & other@[i],
    {
        let mut o = self.octets;
        let mut i: usize = 0;
        while i < 16
            invariant
                i <= 16,
                o@.len() == 16,
                forall|j: int| 0 <= j < i ==> #[trigger] o@[j] == self@[j] & other@[j],
                forall|j: int| i <= j < 16 ==> #[trigger] o@[j] == self@[j],
            decreases 16 - i,
        {
            o[i] = o[i] & other.octets[i];
            i = i + 1;
        }
        Ipv6Addr { octets: o }
    }
}

/// An IPv4 or an IPv6 address.
#[derive(Debug, Clone, Copy, PartialEq, Eq)]
pub enum IpAddr {
    V4(Ipv4Addr),
    V6(Ipv6Addr),
}

} // verus!
