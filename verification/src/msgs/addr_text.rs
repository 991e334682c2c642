//! The text form of a SOCKS address: `a.b.c.d:port`, `[v6]:port` with the
//! IPv6 address in its shortest form, or `name:port`.

use crate::msgs::socks5::{AddrOrDomain, SocksAddr, SpecAddr};
use crate::msgs::WireModel;
use vstd::prelude::*;
use vstd::string::StringExecFns;

verus! {

/// The digit of value `d` (below 16): `0`-`9`, then `a`-`f`.
pub open spec fn digit_char(d: nat) -> char {
    if d < 10 {
        (48 + d) as char
    } else {
        (87 + d) as char
    }
}

/// `n` in decimal.
pub open spec fn decimal(n: nat) -> Seq<char>
    decreases n,
{
    if n < 10 {
        seq![digit_char(n)]
    } else {
        decimal(n / 10).push(digit_char(n % 10))
    }
}

/// `n` in lower-case hexadecimal.
pub open spec fn hexadecimal(n: nat) -> Seq<char>
    decreases n,
{
    if n < 16 {
        seq![digit_char(n)]
    } else {
        hexadecimal(n / 16).push(digit_char(n % 16))
    }
}

/// Four bytes as a dotted IPv4 address.
pub open spec fn ipv4_text(b: Seq<u8>) -> Seq<char> {
    decimal(b[0] as nat) + seq!['.'] + decimal(b[1] as nat) + seq!['.'] + decimal(b[2] as nat) + seq!['.']
        + decimal(b[3] as nat)
}

/// The eight 16-bit groups of an IPv6 address, from its sixteen bytes.
pub open spec fn ipv6_groups(b: Seq<u8>) -> Seq<u16> {
    Seq::new(8, |i: int| ((b[2 * i] as u16) * 256 + (b[2 * i + 1] as u16)) as u16)
}

/// Groups in hexadecimal, separated by colons.
pub open spec fn hex_groups(s: Seq<u16>) -> Seq<char>
    decreases s.len(),
{
    if s.len() == 0 {
        Seq::empty()
    } else if s.len() == 1 {
        hexadecimal(s[0] as nat)
    } else {
        hexadecimal(s[0] as nat) + seq![':'] + hex_groups(s.skip(1))
    }
}

/// The longest run of zero groups from position `i` on, given the run under
/// way and the longest so far; a later run replaces the longest only when it
/// is longer. The result is `(start, length)`.
pub open spec fn zero_run_from(s: Seq<u16>, i: nat, cur: (int, int), best: (int, int)) -> (int, int)
    decreases s.len() - i,
{
    if i >= s.len() {
        best
    } else if s[i as int] == 0 {
        let next = if cur.1 == 0 {
            (i as int, 1int)
        } else {
            (cur.0, cur.1 + 1)
        };
        let b = if next.1 > best.1 {
            next
        } else {
            best
        };
        zero_run_from(s, i + 1, next, b)
    } else {
        zero_run_from(s, i + 1, (0, 0), best)
    }
}

/// The first longest run of zero groups, as `(start, length)`.
pub open spec fn zero_run(s: Seq<u16>) -> (int, int) {
    zero_run_from(s, 0, (0, 0), (0, 0))
}

/// An IPv6 address in its shortest text: an IPv4-mapped address as
/// `::ffff:a.b.c.d`; else the groups in hexadecimal, with the first longest
/// run of two or more zero groups written `::`.
pub open spec fn ipv6_text(b: Seq<u8>) -> Seq<char> {
    let g = ipv6_groups(b);
    if g[0] == 0 && g[1] == 0 && g[2] == 0 && g[3] == 0 && g[4] == 0 && g[5] == 0xffff {
        seq![':', ':', 'f', 'f', 'f', 'f', ':'] + ipv4_text(b.subrange(12, 16))
    } else {
        let (start, len) = zero_run(g);
        if len > 1 {
            hex_groups(g.take(start)) + seq![':', ':'] + hex_groups(g.skip(start + len))
        } else {
            hex_groups(g)
        }
    }
}

/// The text of a destination whose name, if any, is valid UTF-8.
pub open spec fn addr_text(a: crate::msgs::socks5::SpecSocksAddr) -> Seq<char> {
    match a.addr {
        SpecAddr::V4(b) => ipv4_text(b) + seq![':'] + decimal(a.port as nat),
        SpecAddr::V6(b) => seq!['['] + ipv6_text(b) + seq![']', ':'] + decimal(a.port as nat),
        SpecAddr::Domain(v) => vstd::utf8::decode_utf8(v.contents) + seq![':'] + decimal(a.port as nat),
    }
}

/// Whether a destination has a text: a name must be valid UTF-8.
pub open spec fn has_text(a: crate::msgs::socks5::SpecSocksAddr) -> bool {
    match a.addr {
        SpecAddr::Domain(v) => vstd::utf8::valid_utf8(v.contents),
        _ => true,
    }
}

/// Appends the digit of value `d`.
fn push_digit(s: &mut String, d: u8)
    requires
        d < 16,
    ensures
        final(s)@ == old(s)@.push(digit_char(d as nat)),
{
    proof {
        reveal_strlit("0");
        reveal_strlit("1");
        reveal_strlit("2");
        reveal_strlit("3");
        reveal_strlit("4");
        reveal_strlit("5");
        reveal_strlit("6");
        reveal_strlit("7");
        reveal_strlit("8");
        reveal_strlit("9");
        reveal_strlit("a");
        reveal_strlit("b");
        reveal_strlit("c");
        reveal_strlit("d");
        reveal_strlit("e");
        reveal_strlit("f");
    }
    let t = match d {
        0 => "0",
        1 => "1",
        2 => "2",
        3 => "3",
        4 => "4",
        5 => "5",
        6 => "6",
        7 => "7",
        8 => "8",
        9 => "9",
        10 => "a",
        11 => "b",
        12 => "c",
        13 => "d",
        14 => "e",
        _ => "f",
    };
    s.append(t);
    proof {
        assert(t@ =~= seq![digit_char(d as nat)]);
    }
}

/// Appends `n` in decimal.
pub(crate) fn push_decimal(s: &mut String, n: u16)
    ensures
        final(s)@ == old(s)@ + decimal(n as nat),
    decreases n,
{
    if n >= 10 {
        push_decimal(s, n / 10);
    }
    push_digit(s, (n % 10) as u8);
    proof {
        if n >= 10 {
            assert(decimal(n as nat) == decimal((n / 10) as nat).push(digit_char((n % 10) as nat)));
        } else {
            assert(decimal(n as nat) == seq![digit_char(n as nat)]);
        }
    }
    assert(final(s)@ =~= old(s)@ + decimal(n as nat));
}

/// Appends `n` in hexadecimal.
fn push_hex(s: &mut String, n: u16)
    ensures
        final(s)@ == old(s)@ + hexadecimal(n as nat),
    decreases n,
{
    if n >= 16 {
        push_hex(s, n / 16);
    }
    push_digit(s, (n % 16) as u8);
    proof {
        if n >= 16 {
            assert(hexadecimal(n as nat) == hexadecimal((n / 16) as nat).push(digit_char((n % 16) as nat)));
        }
    }
    assert(final(s)@ =~= old(s)@ + hexadecimal(n as nat));
}

/// Appends a literal.
pub(crate) fn push_text(s: &mut String, t: &str)
    ensures
        final(s)@ == old(s)@ + t@,
{
    s.append(t);
}

/// Appends four bytes as a dotted IPv4 address.
fn push_ipv4(s: &mut String, b: &[u8])
    requires
        b@.len() == 4,
    ensures
        final(s)@ == old(s)@ + ipv4_text(b@),
{
    proof {
        reveal_strlit(".");
    }
    push_decimal(s, b[0] as u16);
    push_text(s, ".");
    push_decimal(s, b[1] as u16);
    push_text(s, ".");
    push_decimal(s, b[2] as u16);
    push_text(s, ".");
    push_decimal(s, b[3] as u16);
    assert(final(s)@ =~= old(s)@ + ipv4_text(b@));
}

/// The text of the groups from position `i` on, with the colon before them
/// when they follow others.
pub open spec fn rest_text(g: Seq<u16>, i: int) -> Seq<char> {
    if i >= g.len() {
        Seq::empty()
    } else if i == 0 {
        hex_groups(g)
    } else {
        seq![':'] + hex_groups(g.skip(i))
    }
}

/// Appends groups in hexadecimal, separated by colons.
fn push_hex_groups(s: &mut String, g: &[u16])
    ensures
        final(s)@ == old(s)@ + hex_groups(g@),
{
    proof {
        reveal_strlit(":");
    }
    let ghost start = s@;
    let mut i: usize = 0;
    while i < g.len()
        invariant
            i <= g@.len(),
            s@ + rest_text(g@, i as int) == start + hex_groups(g@),
        decreases g@.len() - i,
    {
        let ghost before = s@;
        proof {
            reveal_strlit(":");
        }
        if i > 0 {
            push_text(s, ":");
        }
        push_hex(s, g[i]);
        proof {
            lemma_rest_text_step(g@, i as int);
            if i > 0 {
                assert(s@ =~= before + seq![':'] + hexadecimal(g@[i as int] as nat));
            } else {
                assert(s@ =~= before + hexadecimal(g@[i as int] as nat));
            }
            assert(s@ + rest_text(g@, i + 1) =~= before + rest_text(g@, i as int));
        }
        i = i + 1;
    }
    proof {
        assert(rest_text(g@, i as int) =~= Seq::<char>::empty());
        assert(s@ =~= start + hex_groups(g@));
    }
}

/// The text from position `i` is the text of group `i` (after a colon when
/// it follows others), then the text from position `i + 1`.
proof fn lemma_rest_text_step(g: Seq<u16>, i: int)
    requires
        0 <= i < g.len(),
    ensures
        rest_text(g, i) == (if i > 0 {
            seq![':']
        } else {
            Seq::<char>::empty()
        }) + hexadecimal(g[i] as nat) + rest_text(g, i + 1),
{
    assert(g.skip(i)[0] == g[i]);
    assert(g.skip(i).skip(1) =~= g.skip(i + 1));
    assert(g.skip(0) =~= g);
    if g.skip(i).len() == 1 {
        assert(hex_groups(g.skip(i)) == hexadecimal(g[i] as nat));
        assert(rest_text(g, i + 1) == Seq::<char>::empty());
    } else {
        assert(hex_groups(g.skip(i)) == hexadecimal(g[i] as nat) + seq![':'] + hex_groups(g.skip(i + 1)));
    }
    if i > 0 {
        assert(rest_text(g, i) =~= seq![':'] + hexadecimal(g[i] as nat) + rest_text(g, i + 1));
    } else {
        assert(rest_text(g, i) =~= Seq::<char>::empty() + hexadecimal(g[i] as nat) + rest_text(g, i + 1));
    }
}

/// Appends an IPv6 address in its shortest text.
fn push_ipv6(s: &mut String, b: &[u8; 16])
    ensures
        final(s)@ == old(s)@ + ipv6_text(b@),
{
    proof {
        reveal_strlit("::ffff:");
        reveal_strlit("::");
    }
    let mut g: Vec<u16> = Vec::new();
    let mut k: usize = 0;
    while k < 8
        invariant
            k <= 8,
            g@.len() == k,
            forall|j: int| 0 <= j < k ==> #[trigger] g@[j] == ipv6_groups(b@)[j],
        decreases 8 - k,
    {
        let v = (b[2 * k] as u16) * 256 + (b[2 * k + 1] as u16);
        g.push(v);
        k = k + 1;
    }
    assert(g@ =~= ipv6_groups(b@));
    if g[0] == 0 && g[1] == 0 && g[2] == 0 && g[3] == 0 && g[4] == 0 && g[5] == 0xffff {
        push_text(s, "::ffff:");
        let v4 = [b[12], b[13], b[14], b[15]];
        assert(v4@ =~= b@.subrange(12, 16));
        push_ipv4(s, &v4);
        assert(final(s)@ =~= old(s)@ + ipv6_text(b@));
        return;
    }
    let (start, len) = longest_zero_run(&g);
    if len > 1 {
        let head = vstd::slice::slice_subrange(g.as_slice(), 0, start);
        let tail = vstd::slice::slice_subrange(g.as_slice(), start + len, 8);
        assert(head@ =~= g@.take(start as int));
        assert(tail@ =~= g@.skip(start + len));
        push_hex_groups(s, head);
        push_text(s, "::");
        push_hex_groups(s, tail);
    } else {
        push_hex_groups(s, g.as_slice());
    }
    assert(final(s)@ =~= old(s)@ + ipv6_text(b@));
}

/// The first longest run of zero groups of eight groups.
fn longest_zero_run(g: &Vec<u16>) -> (r: (usize, usize))
    requires
        g@.len() == 8,
    ensures
        r.0 as int == zero_run(g@).0,
        r.1 as int == zero_run(g@).1,
        r.0 + r.1 <= 8,
{
    let mut cur: (usize, usize) = (0, 0);
    let mut best: (usize, usize) = (0, 0);
    let mut i: usize = 0;
    while i < 8
        invariant
            i <= 8,
            g@.len() == 8,
            zero_run(g@) == zero_run_from(g@, i as nat, (cur.0 as int, cur.1 as int), (best.0 as int, best.1 as int)),
            cur.0 + cur.1 == i || cur.1 == 0,
            cur.1 <= i,
            best.0 + best.1 <= i,
        decreases 8 - i,
    {
        if g[i] == 0 {
            if cur.1 == 0 {
                cur = (i, 1);
            } else {
                cur = (cur.0, cur.1 + 1);
            }
            if cur.1 > best.1 {
                best = cur;
            }
        } else {
            cur = (0, 0);
        }
        i = i + 1;
    }
    best
}

impl SocksAddr {
    /// The text of the destination: `a.b.c.d:port`, `[v6]:port` or
    /// `name:port`. A name must be valid UTF-8.
    pub fn to_string(&self) -> (t: String)
        requires
            has_text(self.model()),
        ensures
            t@ == addr_text(self.model()),
    {
        proof {
            reveal_strlit(":");
            reveal_strlit("[");
            reveal_strlit("]:");
        }
        let mut s = String::new();
        match &self.addr {
            AddrOrDomain::V4(b) => {
                push_ipv4(&mut s, b);
                push_text(&mut s, ":");
            },
            AddrOrDomain::V6(b) => {
                push_text(&mut s, "[");
                push_ipv6(&mut s, b);
                push_text(&mut s, "]:");
            },
            AddrOrDomain::Domain(v) => {
                let name = match string_from_utf8(v.contents.as_slice()) {
                    Some(name) => name,
                    None => {
                        assert(false);
                        String::new()
                    },
                };
                push_text(&mut s, name.as_str());
                push_text(&mut s, ":");
            },
        }
        push_decimal(&mut s, self.port);
        assert(s@ =~= addr_text(self.model()));
        s
    }
}

/// `String::from_utf8`: the text of the bytes when they are valid UTF-8.
#[verifier::external_body]
fn string_from_utf8(bytes: &[u8]) -> (s: Option<String>)
    ensures
        s is Some <==> vstd::utf8::valid_utf8(bytes@),
        s matches Some(t) ==> t@ == vstd::utf8::decode_utf8(bytes@),
{
    String::from_utf8(bytes.to_vec()).ok()
}

} // verus!
