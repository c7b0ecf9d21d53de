//! Configuration values the transceiver core consumes: local addresses to
//! bind and an optional fixed destination. How a configuration is acquired
//! (a TOML file, environment variables) is a front end's concern; the traits
//! below name those front ends, and the unverified shell supplies the ones
//! that must touch the outside world.

use vstd::prelude::*;

verus! {

/// An IP address: IPv4 as its four dotted-quad octets, IPv6 as its 128-bit
/// value.
#[derive(Clone, Copy, Debug, PartialEq, Eq, Structural)]
pub enum IpAddr {
    V4(u8, u8, u8, u8),
    V6(u128),
}

/// Address holds an IP address and a port. It is used to configure the local
/// and remote addresses for UDP; a port of 0 asks the operating system for an
/// ephemeral port at bind time.
#[derive(Clone, Copy, Debug, PartialEq, Eq, Structural)]
pub struct Address {
    pub ip: IpAddr,
    pub port: u16,
}

/// Config holds the local and remote UDP addresses.
#[derive(Clone, Debug)]
pub struct Config {
    pub bind_addresses: Vec<Address>,
    pub destination_address: Option<Address>,
}

impl Default for Config {
    /// Bind 0.0.0.0:5060, send to 127.0.0.1:5061.
    fn default() -> (r: Self)
        ensures
            r.bind_addresses@.len() == 1,
            r.bind_addresses@[0] == (Address { ip: IpAddr::V4(0, 0, 0, 0), port: 5060 }),
            r.destination_address == Some(Address { ip: IpAddr::V4(127, 0, 0, 1), port: 5061 }),
    {
        let mut bind_addresses: Vec<Address> = Vec::new();
        bind_addresses.push(Address { ip: IpAddr::V4(0, 0, 0, 0), port: 5060 });
        Config {
            bind_addresses,
            destination_address: Some(Address { ip: IpAddr::V4(127, 0, 0, 1), port: 5061 }),
        }
    }
}

/// Configuration through a TOML file. Reading the file is outside work, so
/// the implementation belongs to the unverified shell.
pub trait FromToml: Sized {
    fn from_toml(filename: String) -> Self;
}

/// Configuration through arguments.
pub trait FromArguments: Sized {
    fn from_arguments(local: Vec<Address>, remote: Option<Address>) -> Self;
}

/// Default configuration.
pub trait FromDefault: Sized {
    fn from_default() -> Self;
}

/// Configuration through environment variables. Reading the environment is
/// outside work, so the implementation belongs to the unverified shell.
pub trait FromEnv: Sized {
    fn from_env() -> Self;
}

impl FromArguments for Config {
    fn from_arguments(local: Vec<Address>, remote: Option<Address>) -> (r: Self)
        ensures
            r.bind_addresses == local,
            r.destination_address == remote,
    {
        Config { bind_addresses: local, destination_address: remote }
    }
}

/// Whether `c` is an ASCII decimal digit.
pub open spec fn is_digit(c: u8) -> bool {
    48 <= c <= 57
}

/// The numeric value of the digit `c`.
pub open spec fn digit_val(c: u8) -> nat {
    (c - 48) as nat
}

/// The number a sequence of decimal digits denotes, most significant first.
pub open spec fn decimal_value(s: Seq<u8>) -> nat
    decreases s.len(),
{
    if s.len() == 0 {
        0
    } else {
        decimal_value(s.drop_last()) * 10 + digit_val(s.last())
    }
}

/// Whether `s` is a non-empty run of decimal digits.
pub open spec fn is_decimal(s: Seq<u8>) -> bool {
    s.len() >= 1 && forall|i: int| 0 <= i < s.len() ==> is_digit(s[i])
}

/// A longer digit prefix never denotes a smaller number.
proof fn lemma_decimal_value_monotone(s: Seq<u8>, i: int, j: int)
    requires
        0 <= i <= j <= s.len(),
    ensures
        decimal_value(s.take(i)) <= decimal_value(s.take(j)),
    decreases j - i,
{
    if i < j {
        lemma_decimal_value_monotone(s, i, j - 1);
        assert(s.take(j).drop_last() =~= s.take(j - 1));
    }
}

/// Parse a port number: the text is accepted exactly when it is a non-empty
/// run of decimal digits whose value fits a 16-bit port, and the value
/// returned is the number the digits denote.
pub fn parse_port(s: &[u8]) -> (r: Option<u16>)
    ensures
        r is Some <==> is_decimal(s@) && decimal_value(s@) <= u16::MAX,
        r matches Some(p) ==> p == decimal_value(s@),
{
    if s.len() == 0 {
        return None;
    }
    let mut acc: u32 = 0;
    let mut i: usize = 0;
    while i < s.len()
        invariant
            0 < s@.len(),
            i <= s@.len(),
            forall|k: int| 0 <= k < i ==> is_digit(s@[k]),
            acc == decimal_value(s@.take(i as int)),
            acc <= 65535,
        decreases s@.len() - i,
    {
        let c = s[i];
        if c < 48 || c > 57 {
            return None;
        }
        proof {
            assert(s@.take(i as int + 1).drop_last() =~= s@.take(i as int));
        }
        let next: u32 = acc * 10 + (c - 48) as u32;
        if next > 65535 {
            proof {
                lemma_decimal_value_monotone(s@, i as int + 1, s@.len() as int);
                assert(s@.take(s@.len() as int) =~= s@);
            }
            return None;
        }
        acc = next;
        i = i + 1;
    }
    proof {
        assert(s@.take(s@.len() as int) =~= s@);
    }
    Some(acc as u16)
}

/// Whether `s` is the text of one dotted-quad octet: one to three digits, no
/// leading zero, value at most 255.
pub open spec fn is_octet_text(s: Seq<u8>) -> bool {
    &&& 1 <= s.len() <= 3
    &&& (forall|i: int| 0 <= i < s.len() ==> is_digit(s[i]))
    &&& (s.len() > 1 ==> s[0] != 48)
    &&& decimal_value(s) <= 255
}

/// Whether the dots at `p1 < p2 < p3` split `s` into four octet texts:
/// `s` reads `A.B.C.D`.
pub open spec fn is_dotted_quad(s: Seq<u8>, p1: int, p2: int, p3: int) -> bool {
    &&& 0 < p1 < p2 < p3 < s.len()
    &&& s[p1] == 46 && s[p2] == 46 && s[p3] == 46
    &&& is_octet_text(s.subrange(0, p1))
    &&& is_octet_text(s.subrange(p1 + 1, p2))
    &&& is_octet_text(s.subrange(p2 + 1, p3))
    &&& is_octet_text(s.subrange(p3 + 1, s.len() as int))
}

/// Whether `s` is the dotted-quad text of an IPv4 address.
pub open spec fn is_ipv4_text(s: Seq<u8>) -> bool {
    exists|p1: int, p2: int, p3: int| is_dotted_quad(s, p1, p2, p3)
}

/// Octet texts hold digits only, so the three dots of a dotted quad are the
/// only dots in it.
proof fn lemma_quad_dots_determined(s: Seq<u8>, p1: int, p2: int, p3: int)
    requires
        is_dotted_quad(s, p1, p2, p3),
    ensures
        forall|k: int| 0 <= k < s.len() && s[k] == 46 ==> k == p1 || k == p2 || k == p3,
{
    assert forall|k: int| 0 <= k < s.len() && s[k] == 46 implies k == p1 || k == p2 || k == p3 by {
        if k < p1 {
            assert(s.subrange(0, p1)[k] == s[k]);
        } else if p1 < k < p2 {
            assert(s.subrange(p1 + 1, p2)[k - (p1 + 1)] == s[k]);
        } else if p2 < k < p3 {
            assert(s.subrange(p2 + 1, p3)[k - (p2 + 1)] == s[k]);
        } else if p3 < k {
            assert(s.subrange(p3 + 1, s.len() as int)[k - (p3 + 1)] == s[k]);
        }
    }
}

/// Find the first dot at or after `from`.
fn find_dot(s: &[u8], from: usize) -> (r: Option<usize>)
    requires
        from <= s.len(),
    ensures
        r matches Some(j) ==> from <= j < s@.len() && s@[j as int] == 46
            && (forall|k: int| from <= k < j ==> s@[k] != 46),
        r is None ==> forall|k: int| from <= k < s@.len() ==> s@[k] != 46,
{
    let mut i: usize = from;
    while i < s.len()
        invariant
            from <= i <= s@.len(),
            forall|k: int| from <= k < i ==> s@[k] != 46,
        decreases s@.len() - i,
    {
        if s[i] == 46 {
            return Some(i);
        }
        i = i + 1;
    }
    None
}

/// The value of a one-, two- or three-digit run, spelt out.
proof fn lemma_decimal_value_small(s: Seq<u8>)
    requires
        1 <= s.len() <= 3,
    ensures
        s.len() == 1 ==> decimal_value(s) == digit_val(s[0]),
        s.len() == 2 ==> decimal_value(s) == digit_val(s[0]) * 10 + digit_val(s[1]),
        s.len() == 3 ==> decimal_value(s) == (digit_val(s[0]) * 10 + digit_val(s[1])) * 10
            + digit_val(s[2]),
{
    reveal_with_fuel(decimal_value, 4);
    if s.len() == 1 {
        assert(s.drop_last() =~= Seq::<u8>::empty());
    } else if s.len() == 2 {
        assert(s.drop_last().drop_last() =~= Seq::<u8>::empty());
    } else {
        assert(s.drop_last().drop_last().drop_last() =~= Seq::<u8>::empty());
    }
}

/// Check that `s[lo..hi]` is an octet text and return its value.
fn check_octet(s: &[u8], lo: usize, hi: usize) -> (r: Option<u8>)
    requires
        lo <= hi <= s.len(),
    ensures
        r is Some <==> is_octet_text(s@.subrange(lo as int, hi as int)),
        r matches Some(v) ==> v == decimal_value(s@.subrange(lo as int, hi as int)),
{
    let n = hi - lo;
    if n == 0 || n > 3 {
        return None;
    }
    let mut i: usize = lo;
    while i < hi
        invariant
            lo <= i <= hi <= s@.len(),
            forall|k: int| lo <= k < i ==> is_digit(s@[k]),
        decreases hi - i,
    {
        if s[i] < 48 || s[i] > 57 {
            proof {
                assert(s@.subrange(lo as int, hi as int)[i - lo] == s@[i as int]);
            }
            return None;
        }
        i = i + 1;
    }
    let ghost seg = s@.subrange(lo as int, hi as int);
    proof {
        assert(forall|k: int| 0 <= k < seg.len() ==> seg[k] == s@[lo + k] && is_digit(#[trigger] seg[k]));
        lemma_decimal_value_small(seg);
    }
    if n > 1 && s[lo] == 48 {
        return None;
    }
    let value: u32 = if n == 1 {
        (s[lo] - 48) as u32
    } else if n == 2 {
        (s[lo] - 48) as u32 * 10 + (s[lo + 1] - 48) as u32
    } else {
        ((s[lo] - 48) as u32 * 10 + (s[lo + 1] - 48) as u32) * 10 + (s[lo + 2] - 48) as u32
    };
    if value > 255 {
        None
    } else {
        Some(value as u8)
    }
}

/// The first dot of `s` is the first dot of any dotted-quad reading of `s`.
proof fn lemma_first_dot_is_q1(s: Seq<u8>, p1: int, q1: int, q2: int, q3: int)
    requires
        is_dotted_quad(s, q1, q2, q3),
        0 <= p1 < s.len(),
        s[p1] == 46,
        forall|k: int| 0 <= k < p1 ==> s[k] != 46,
    ensures
        q1 == p1,
{
    lemma_quad_dots_determined(s, q1, q2, q3);
}

/// ... and the first dot after it is the second.
proof fn lemma_second_dot_is_q2(s: Seq<u8>, p1: int, p2: int, q1: int, q2: int, q3: int)
    requires
        is_dotted_quad(s, q1, q2, q3),
        0 <= p1 < p2 < s.len(),
        s[p1] == 46,
        forall|k: int| 0 <= k < p1 ==> s[k] != 46,
        s[p2] == 46,
        forall|k: int| p1 < k < p2 ==> s[k] != 46,
    ensures
        q1 == p1 && q2 == p2,
{
    lemma_first_dot_is_q1(s, p1, q1, q2, q3);
    lemma_quad_dots_determined(s, q1, q2, q3);
}

/// ... and the first dot after that one is the third: the split of a dotted
/// quad into its octets is unique.
proof fn lemma_third_dot_is_q3(s: Seq<u8>, p1: int, p2: int, p3: int, q1: int, q2: int, q3: int)
    requires
        is_dotted_quad(s, q1, q2, q3),
        0 <= p1 < p2 < p3 < s.len(),
        s[p1] == 46,
        forall|k: int| 0 <= k < p1 ==> s[k] != 46,
        s[p2] == 46,
        forall|k: int| p1 < k < p2 ==> s[k] != 46,
        s[p3] == 46,
        forall|k: int| p2 < k < p3 ==> s[k] != 46,
    ensures
        q1 == p1 && q2 == p2 && q3 == p3,
{
    lemma_second_dot_is_q2(s, p1, p2, q1, q2, q3);
    lemma_quad_dots_determined(s, q1, q2, q3);
}

/// Parse the dotted-quad text of an IPv4 address: the text is accepted
/// exactly when it reads `A.B.C.D` with four octet texts, and the result
/// carries the four octet values. The split into octets is unique, so any
/// dotted-quad reading of the text agrees with the result.
pub fn parse_ipv4(s: &[u8]) -> (r: Option<IpAddr>)
    ensures
        r is Some <==> is_ipv4_text(s@),
        forall|p1: int, p2: int, p3: int| is_dotted_quad(s@, p1, p2, p3) ==> r == Some(
            IpAddr::V4(
                decimal_value(s@.subrange(0, p1)) as u8,
                decimal_value(s@.subrange(p1 + 1, p2)) as u8,
                decimal_value(s@.subrange(p2 + 1, p3)) as u8,
                decimal_value(s@.subrange(p3 + 1, s@.len() as int)) as u8,
            ),
        ),
{
    let p1 = match find_dot(s, 0) {
        Some(j) => j,
        None => {
            proof {
                if is_ipv4_text(s@) {
                    let (q1, q2, q3) = choose|q1: int, q2: int, q3: int| is_dotted_quad(s@, q1, q2, q3);
                    assert(false);
                }
            }
            return None;
        }
    };
    let a = match check_octet(s, 0, p1) {
        Some(v) => v,
        None => {
            proof {
                if is_ipv4_text(s@) {
                    let (q1, q2, q3) = choose|q1: int, q2: int, q3: int| is_dotted_quad(s@, q1, q2, q3);
                    lemma_first_dot_is_q1(s@, p1 as int, q1, q2, q3);
                    assert(false);
                }
            }
            return None;
        }
    };
    let p2 = match find_dot(s, p1 + 1) {
        Some(j) => j,
        None => {
            proof {
                if is_ipv4_text(s@) {
                    let (q1, q2, q3) = choose|q1: int, q2: int, q3: int| is_dotted_quad(s@, q1, q2, q3);
                    lemma_first_dot_is_q1(s@, p1 as int, q1, q2, q3);
                    assert(false);
                }
            }
            return None;
        }
    };
    let b = match check_octet(s, p1 + 1, p2) {
        Some(v) => v,
        None => {
            proof {
                if is_ipv4_text(s@) {
                    let (q1, q2, q3) = choose|q1: int, q2: int, q3: int| is_dotted_quad(s@, q1, q2, q3);
                    lemma_second_dot_is_q2(s@, p1 as int, p2 as int, q1, q2, q3);
                    assert(false);
                }
            }
            return None;
        }
    };
    let p3 = match find_dot(s, p2 + 1) {
        Some(j) => j,
        None => {
            proof {
                if is_ipv4_text(s@) {
                    let (q1, q2, q3) = choose|q1: int, q2: int, q3: int| is_dotted_quad(s@, q1, q2, q3);
                    lemma_second_dot_is_q2(s@, p1 as int, p2 as int, q1, q2, q3);
                    assert(false);
                }
            }
            return None;
        }
    };
    let c = match check_octet(s, p2 + 1, p3) {
        Some(v) => v,
        None => {
            proof {
                if is_ipv4_text(s@) {
                    let (q1, q2, q3) = choose|q1: int, q2: int, q3: int| is_dotted_quad(s@, q1, q2, q3);
                    lemma_third_dot_is_q3(s@, p1 as int, p2 as int, p3 as int, q1, q2, q3);
                    assert(false);
                }
            }
            return None;
        }
    };
    match find_dot(s, p3 + 1) {
        Some(_) => {
            proof {
                if is_ipv4_text(s@) {
                    let (q1, q2, q3) = choose|q1: int, q2: int, q3: int| is_dotted_quad(s@, q1, q2, q3);
                    lemma_third_dot_is_q3(s@, p1 as int, p2 as int, p3 as int, q1, q2, q3);
                    lemma_quad_dots_determined(s@, q1, q2, q3);
                    assert(false);
                }
            }
            return None;
        }
        None => {}
    };
    let d = match check_octet(s, p3 + 1, s.len()) {
        Some(v) => v,
        None => {
            proof {
                if is_ipv4_text(s@) {
                    let (q1, q2, q3) = choose|q1: int, q2: int, q3: int| is_dotted_quad(s@, q1, q2, q3);
                    lemma_third_dot_is_q3(s@, p1 as int, p2 as int, p3 as int, q1, q2, q3);
                    assert(false);
                }
            }
            return None;
        }
    };
    proof {
        assert(is_dotted_quad(s@, p1 as int, p2 as int, p3 as int));
        assert forall|q1: int, q2: int, q3: int|
            is_dotted_quad(s@, q1, q2, q3) implies q1 == p1 && q2 == p2 && q3 == p3 by {
            lemma_third_dot_is_q3(s@, p1 as int, p2 as int, p3 as int, q1, q2, q3);
        }
    }
    Some(IpAddr::V4(a, b, c, d))
}

impl FromDefault for Config {
    fn from_default() -> (r: Self)
        ensures
            r.bind_addresses@.len() == 1,
            r.bind_addresses@[0] == (Address { ip: IpAddr::V4(0, 0, 0, 0), port: 5060 }),
            r.destination_address == Some(Address { ip: IpAddr::V4(127, 0, 0, 1), port: 5061 }),
    {
        Config::default()
    }
}

} // verus!
