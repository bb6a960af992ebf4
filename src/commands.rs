//! The textual commands sent to the firewall program.
use vstd::prelude::*;
use crate::text::{dec_int, dec_nat, push_int, push_nat};
use crate::types::{Address, FamilyType, HookType, IpFamily, PolicyType};

verus! {

pub open spec fn family_text(f: FamilyType) -> Seq<char> {
    match f {
        FamilyType::Ip => "ip"@,
        FamilyType::Ip6 => "ip6"@,
        FamilyType::Inet => "inet"@,
    }
}

pub open spec fn hook_text(h: HookType) -> Seq<char> {
    match h {
        HookType::Input => "input"@,
        HookType::Output => "output"@,
    }
}

pub open spec fn policy_text(p: PolicyType) -> Seq<char> {
    match p {
        PolicyType::Accept => "accept"@,
        PolicyType::Drop => "drop"@,
    }
}

/// The address selector: source address on input, destination address on output.
pub open spec fn direction_text(h: HookType) -> Seq<char> {
    match h {
        HookType::Input => "saddr"@,
        HookType::Output => "daddr"@,
    }
}

/// The match prefix that the address's own family selects.
pub open spec fn ip_version_text(f: IpFamily) -> Seq<char> {
    match f {
        IpFamily::V4 => "ip"@,
        IpFamily::V6 => "ip6"@,
    }
}

pub fn family_str(f: FamilyType) -> (r: &'static str)
    ensures
        r@ == family_text(f),
{
    match f {
        FamilyType::Ip => "ip",
        FamilyType::Ip6 => "ip6",
        FamilyType::Inet => "inet",
    }
}

pub fn hook_str(h: HookType) -> (r: &'static str)
    ensures
        r@ == hook_text(h),
{
    match h {
        HookType::Input => "input",
        HookType::Output => "output",
    }
}

pub fn policy_str(p: PolicyType) -> (r: &'static str)
    ensures
        r@ == policy_text(p),
{
    match p {
        PolicyType::Accept => "accept",
        PolicyType::Drop => "drop",
    }
}

pub fn direction_str(h: HookType) -> (r: &'static str)
    ensures
        r@ == direction_text(h),
{
    match h {
        HookType::Input => "saddr",
        HookType::Output => "daddr",
    }
}

pub fn ip_version_str(f: IpFamily) -> (r: &'static str)
    ensures
        r@ == ip_version_text(f),
{
    match f {
        IpFamily::V4 => "ip",
        IpFamily::V6 => "ip6",
    }
}

/// `<family> <table> <chain>`: the chain that the commands address.
pub open spec fn chain_ref(f: FamilyType, table: Seq<char>, chain: Seq<char>) -> Seq<char> {
    family_text(f) + " "@ + table + " "@ + chain
}

/// `<family> <table> <chain> <ipv> <dir> <ip>`: the chain and the address match.
pub open spec fn match_ref(f: FamilyType, table: Seq<char>, chain: Seq<char>, h: HookType, ip: Address) -> Seq<char> {
    chain_ref(f, table, chain) + " "@ + ip_version_text(ip.family) + " "@ + direction_text(h) + " "@ + ip.text@
}

pub open spec fn ban_command(f: FamilyType, table: Seq<char>, chain: Seq<char>, h: HookType, ip: Address) -> Seq<char> {
    "add rule "@ + match_ref(f, table, chain, h, ip) + " drop"@
}

pub open spec fn limit_command(
    f: FamilyType,
    table: Seq<char>,
    chain: Seq<char>,
    h: HookType,
    ip: Address,
    kbps: u64,
    burst: u64,
) -> Seq<char> {
    "add rule "@ + match_ref(f, table, chain, h, ip) + " limit rate "@ + dec_nat(kbps as nat)
        + " kbytes/second burst "@ + dec_nat(burst as nat) + " kbytes drop"@
}

pub open spec fn delete_rule_command(f: FamilyType, table: Seq<char>, chain: Seq<char>, handle: Seq<char>) -> Seq<char> {
    "delete rule "@ + chain_ref(f, table, chain) + " handle "@ + handle
}

pub open spec fn flush_chain_command(f: FamilyType, table: Seq<char>, chain: Seq<char>) -> Seq<char> {
    "flush chain "@ + chain_ref(f, table, chain)
}

pub open spec fn list_chain_command(f: FamilyType, table: Seq<char>, chain: Seq<char>) -> Seq<char> {
    "list chain "@ + chain_ref(f, table, chain)
}

pub open spec fn add_table_command(f: FamilyType, table: Seq<char>) -> Seq<char> {
    "add table "@ + family_text(f) + " "@ + table
}

pub open spec fn delete_table_command(f: FamilyType, table: Seq<char>) -> Seq<char> {
    "delete table "@ + family_text(f) + " "@ + table
}

pub open spec fn add_chain_command(
    f: FamilyType,
    table: Seq<char>,
    chain: Seq<char>,
    h: HookType,
    priority: i64,
    p: PolicyType,
) -> Seq<char> {
    "add chain "@ + chain_ref(f, table, chain) + " { type filter hook "@ + hook_text(h) + " priority "@
        + dec_int(priority as int) + "  ; policy "@ + policy_text(p) + " ; }"@
}

fn push_chain_ref(s: &mut String, f: FamilyType, table: &String, chain: &String)
    ensures
        final(s)@ == old(s)@ + chain_ref(f, table@, chain@),
{
    let ghost s0 = s@;
    s.append(family_str(f));
    s.append(" ");
    s.append(table.as_str());
    s.append(" ");
    s.append(chain.as_str());
    assert(final(s)@ =~= s0 + chain_ref(f, table@, chain@));
}

fn push_match_ref(s: &mut String, f: FamilyType, table: &String, chain: &String, h: HookType, ip: &Address)
    ensures
        final(s)@ == old(s)@ + match_ref(f, table@, chain@, h, *ip),
{
    let ghost s0 = s@;
    push_chain_ref(s, f, table, chain);
    s.append(" ");
    s.append(ip_version_str(ip.family));
    s.append(" ");
    s.append(direction_str(h));
    s.append(" ");
    s.append(ip.text.as_str());
    assert(final(s)@ =~= s0 + match_ref(f, table@, chain@, h, *ip));
}

pub fn make_ban_command(f: FamilyType, table: &String, chain: &String, h: HookType, ip: &Address) -> (r: String)
    ensures
        r@ == ban_command(f, table@, chain@, h, *ip),
{
    let mut s = String::new();
    s.append("add rule ");
    push_match_ref(&mut s, f, table, chain, h, ip);
    s.append(" drop");
    assert(s@ =~= ban_command(f, table@, chain@, h, *ip));
    s
}

pub fn make_limit_command(
    f: FamilyType,
    table: &String,
    chain: &String,
    h: HookType,
    ip: &Address,
    kbps: u64,
    burst: u64,
) -> (r: String)
    ensures
        r@ == limit_command(f, table@, chain@, h, *ip, kbps, burst),
{
    let mut s = String::new();
    s.append("add rule ");
    push_match_ref(&mut s, f, table, chain, h, ip);
    s.append(" limit rate ");
    push_nat(&mut s, kbps as u128);
    s.append(" kbytes/second burst ");
    push_nat(&mut s, burst as u128);
    s.append(" kbytes drop");
    assert(s@ =~= limit_command(f, table@, chain@, h, *ip, kbps, burst));
    s
}

pub fn make_delete_rule_command(f: FamilyType, table: &String, chain: &String, handle: &String) -> (r: String)
    ensures
        r@ == delete_rule_command(f, table@, chain@, handle@),
{
    let mut s = String::new();
    s.append("delete rule ");
    push_chain_ref(&mut s, f, table, chain);
    s.append(" handle ");
    s.append(handle.as_str());
    assert(s@ =~= delete_rule_command(f, table@, chain@, handle@));
    s
}

pub fn make_flush_chain_command(f: FamilyType, table: &String, chain: &String) -> (r: String)
    ensures
        r@ == flush_chain_command(f, table@, chain@),
{
    let mut s = String::new();
    s.append("flush chain ");
    push_chain_ref(&mut s, f, table, chain);
    assert(s@ =~= flush_chain_command(f, table@, chain@));
    s
}

pub fn make_list_chain_command(f: FamilyType, table: &String, chain: &String) -> (r: String)
    ensures
        r@ == list_chain_command(f, table@, chain@),
{
    let mut s = String::new();
    s.append("list chain ");
    push_chain_ref(&mut s, f, table, chain);
    assert(s@ =~= list_chain_command(f, table@, chain@));
    s
}

pub fn make_add_table_command(f: FamilyType, table: &String) -> (r: String)
    ensures
        r@ == add_table_command(f, table@),
{
    let mut s = String::new();
    s.append("add table ");
    s.append(family_str(f));
    s.append(" ");
    s.append(table.as_str());
    assert(s@ =~= add_table_command(f, table@));
    s
}

pub fn make_delete_table_command(f: FamilyType, table: &String) -> (r: String)
    ensures
        r@ == delete_table_command(f, table@),
{
    let mut s = String::new();
    s.append("delete table ");
    s.append(family_str(f));
    s.append(" ");
    s.append(table.as_str());
    assert(s@ =~= delete_table_command(f, table@));
    s
}

pub fn make_add_chain_command(
    f: FamilyType,
    table: &String,
    chain: &String,
    h: HookType,
    priority: i64,
    p: PolicyType,
) -> (r: String)
    ensures
        r@ == add_chain_command(f, table@, chain@, h, priority, p),
{
    let mut s = String::new();
    s.append("add chain ");
    push_chain_ref(&mut s, f, table, chain);
    s.append(" { type filter hook ");
    s.append(hook_str(h));
    s.append(" priority ");
    push_int(&mut s, priority as i128);
    s.append("  ; policy ");
    s.append(policy_str(p));
    s.append(" ; }");
    assert(s@ =~= add_chain_command(f, table@, chain@, h, priority, p));
    s
}

} // verus!
