//! Text forms of addresses and NAT classes.
use vstd::prelude::*;
use vstd::string::StringExecFns;
use crate::model::{Ipv4Inet, StunInfo};

verus! {

/// The character of a decimal digit.
pub open spec fn digit_char(d: nat) -> char {
    if d == 0 { '0' }
    else if d == 1 { '1' }
    else if d == 2 { '2' }
    else if d == 3 { '3' }
    else if d == 4 { '4' }
    else if d == 5 { '5' }
    else if d == 6 { '6' }
    else if d == 7 { '7' }
    else if d == 8 { '8' }
    else { '9' }
}

/// Decimal digits of `n`, without leading zeros.
pub open spec fn decimal(n: nat) -> Seq<char>
    decreases n,
{
    if n < 10 {
        seq![digit_char(n)]
    } else {
        decimal(n / 10).push(digit_char(n % 10))
    }
}

/// Dotted-quad text of an address, most significant byte first.
pub open spec fn dotted_quad(addr: u32) -> Seq<char> {
    decimal(((addr >> 24u32) & 0xFFu32) as nat) + seq!['.']
        + decimal(((addr >> 16u32) & 0xFFu32) as nat) + seq!['.']
        + decimal(((addr >> 8u32) & 0xFFu32) as nat) + seq!['.']
        + decimal((addr & 0xFFu32) as nat)
}

/// Text of an optional address, or `fallback` when there is none.
pub open spec fn ip_text_or(ip: Option<Ipv4Inet>, fallback: Seq<char>) -> Seq<char> {
    match ip {
        Some(a) => dotted_quad(a.addr),
        None => fallback,
    }
}

/// Name of the NAT class that a STUN code stands for; `Unknown` for any other code.
pub open spec fn nat_type_name(code: i32) -> Seq<char> {
    if code == 1 { "OpenInternet"@ }
    else if code == 2 { "NoPat"@ }
    else if code == 3 { "FullCone"@ }
    else if code == 4 { "Restricted"@ }
    else if code == 5 { "PortRestricted"@ }
    else if code == 6 { "Symmetric"@ }
    else if code == 7 { "SymUdpFirewall"@ }
    else if code == 8 { "SymmetricEasyInc"@ }
    else if code == 9 { "SymmetricEasyDec"@ }
    else { "Unknown"@ }
}

/// NAT class of a route: `Unknown` without STUN data.
pub open spec fn nat_text(stun: Option<StunInfo>) -> Seq<char> {
    match stun {
        Some(s) => nat_type_name(s.udp_nat_type),
        None => "Unknown"@,
    }
}

/// Without STUN data, or with a code outside the known classes, the NAT class is
/// `Unknown`.
pub proof fn lemma_nat_unknown(stun: Option<StunInfo>)
    requires
        stun is None || !(1 <= stun->0.udp_nat_type <= 9),
    ensures
        nat_text(stun) == "Unknown"@,
{
}

fn digit_str(d: u32) -> (r: &'static str)
    requires
        d < 10,
    ensures
        r@ == seq![digit_char(d as nat)],
{
    proof {
        reveal_strlit("0");
        reveal_strlit("1");
        reveal_strlit("2");
        reveal_strlit("3");
        reveal_strlit("4");
        reveal_strlit("5");
        reveal_strlit("6");
        reveal_strlit("7");
        reveal_strlit("8");
        reveal_strlit("9");
    }
    if d == 0 { "0" }
    else if d == 1 { "1" }
    else if d == 2 { "2" }
    else if d == 3 { "3" }
    else if d == 4 { "4" }
    else if d == 5 { "5" }
    else if d == 6 { "6" }
    else if d == 7 { "7" }
    else if d == 8 { "8" }
    else { "9" }
}

/// Appends the decimal digits of `n` to `s`.
pub fn push_decimal(s: &mut String, n: u32)
    ensures
        final(s)@ == old(s)@ + decimal(n as nat),
    decreases n,
{
    if n >= 10 {
        push_decimal(s, n / 10);
    }
    s.append(digit_str(n % 10));
    assert(final(s)@ =~= old(s)@ + decimal(n as nat));
}

/// Dotted-quad text of an IPv4 address.
pub fn ipv4_to_string(addr: u32) -> (r: String)
    ensures
        r@ == dotted_quad(addr),
{
    proof {
        reveal_strlit(".");
    }
    let b0 = (addr >> 24u32) & 0xFFu32;
    let b1 = (addr >> 16u32) & 0xFFu32;
    let b2 = (addr >> 8u32) & 0xFFu32;
    let b3 = addr & 0xFFu32;
    let mut s = String::new();
    push_decimal(&mut s, b0);
    s.append(".");
    push_decimal(&mut s, b1);
    s.append(".");
    push_decimal(&mut s, b2);
    s.append(".");
    push_decimal(&mut s, b3);
    assert(s@ =~= dotted_quad(addr));
    s
}

/// Text of an address with its prefix length, as `a.b.c.d/len`.
pub open spec fn prefix_text(a: Ipv4Inet) -> Seq<char> {
    dotted_quad(a.addr) + seq!['/'] + decimal(a.network_length as nat)
}

/// `a.b.c.d/len` text of an address with its prefix length.
pub fn prefix_to_string(a: &Ipv4Inet) -> (r: String)
    ensures
        r@ == prefix_text(*a),
{
    proof {
        reveal_strlit("/");
    }
    let mut s = ipv4_to_string(a.addr);
    s.append("/");
    push_decimal(&mut s, a.network_length);
    assert(s@ =~= prefix_text(*a));
    s
}

/// Text of an optional address, or a copy of `fallback` when there is none.
pub fn ip_text(ip: &Option<Ipv4Inet>, fallback: &str) -> (r: String)
    ensures
        r@ == ip_text_or(*ip, fallback@),
{
    match ip {
        Some(a) => ipv4_to_string(a.addr),
        None => String::from_str(fallback),
    }
}

/// Name of the NAT class of a STUN code, `Unknown` when the code is not a known class.
pub fn nat_type_to_string(code: i32) -> (r: String)
    ensures
        r@ == nat_type_name(code),
{
    let name: &str = if code == 1 { "OpenInternet" }
        else if code == 2 { "NoPat" }
        else if code == 3 { "FullCone" }
        else if code == 4 { "Restricted" }
        else if code == 5 { "PortRestricted" }
        else if code == 6 { "Symmetric" }
        else if code == 7 { "SymUdpFirewall" }
        else if code == 8 { "SymmetricEasyInc" }
        else if code == 9 { "SymmetricEasyDec" }
        else { "Unknown" };
    String::from_str(name)
}

/// NAT class of a route's STUN data; `Unknown` when there is none.
pub fn nat_to_string(stun: &Option<StunInfo>) -> (r: String)
    ensures
        r@ == nat_text(*stun),
{
    match stun {
        Some(s) => nat_type_to_string(s.udp_nat_type),
        None => String::from_str("Unknown"),
    }
}

} // verus!
