use vstd::prelude::*;

verus! {

broadcast use vstd::string::group_string_axioms;

/// Families in nftables.
#[derive(Clone, Copy, Debug, PartialEq, Eq, Structural)]
pub enum NfFamily {
    IP,
    IP6,
    INet,
    ARP,
    Bridge,
    NetDev,
}

/// The wire token of a family.
pub open spec fn family_tok(v: NfFamily) -> Seq<char> {
    match v {
        NfFamily::IP => "ip"@,
        NfFamily::IP6 => "ip6"@,
        NfFamily::INet => "inet"@,
        NfFamily::ARP => "arp"@,
        NfFamily::Bridge => "bridge"@,
        NfFamily::NetDev => "netdev"@,
    }
}

/// The family a wire token stands for, if any.
pub open spec fn family_inv(s: Seq<char>) -> Option<NfFamily> {
    if s == "ip"@ {
        Some(NfFamily::IP)
    } else if s == "ip6"@ {
        Some(NfFamily::IP6)
    } else if s == "inet"@ {
        Some(NfFamily::INet)
    } else if s == "arp"@ {
        Some(NfFamily::ARP)
    } else if s == "bridge"@ {
        Some(NfFamily::Bridge)
    } else if s == "netdev"@ {
        Some(NfFamily::NetDev)
    } else {
        None
    }
}

/// Decoding a family's token gives the family back.
pub proof fn lemma_family_inv_tok(v: NfFamily)
    ensures
        family_inv(family_tok(v)) == Some(v),
{
    reveal_strlit("ip");
    reveal_strlit("ip6");
    reveal_strlit("inet");
    reveal_strlit("arp");
    reveal_strlit("bridge");
    reveal_strlit("netdev");
    assert("ip"@.len() >= 1 && "ip"@[0] == 'i');
    assert("ip6"@.len() >= 1 && "ip6"@[0] == 'i');
    assert("inet"@.len() >= 1 && "inet"@[0] == 'i');
    assert("arp"@.len() >= 1 && "arp"@[0] == 'a');
    assert("bridge"@.len() >= 1 && "bridge"@[0] == 'b');
    assert("netdev"@.len() >= 1 && "netdev"@[0] == 'n');
}

pub fn family_to_wire(v: NfFamily) -> (r: &'static str)
    ensures
        r@ == family_tok(v),
{
    match v {
        NfFamily::IP => "ip",
        NfFamily::IP6 => "ip6",
        NfFamily::INet => "inet",
        NfFamily::ARP => "arp",
        NfFamily::Bridge => "bridge",
        NfFamily::NetDev => "netdev",
    }
}

pub fn family_from_wire(s: &str) -> (r: Option<NfFamily>)
    ensures
        r == family_inv(s@),
{
    if crate::json::str_eq(s, "ip") {
        Some(NfFamily::IP)
    } else if crate::json::str_eq(s, "ip6") {
        Some(NfFamily::IP6)
    } else if crate::json::str_eq(s, "inet") {
        Some(NfFamily::INet)
    } else if crate::json::str_eq(s, "arp") {
        Some(NfFamily::ARP)
    } else if crate::json::str_eq(s, "bridge") {
        Some(NfFamily::Bridge)
    } else if crate::json::str_eq(s, "netdev") {
        Some(NfFamily::NetDev)
    } else {
        None
    }
}

/// Represents the type of a Chain.
#[derive(Clone, Copy, Debug, PartialEq, Eq, Structural)]
pub enum NfChainType {
    Filter,
    Route,
    NAT,
}

pub open spec fn chain_type_tok(v: NfChainType) -> Seq<char> {
    match v {
        NfChainType::Filter => "filter"@,
        NfChainType::Route => "route"@,
        NfChainType::NAT => "nat"@,
    }
}

pub open spec fn chain_type_inv(s: Seq<char>) -> Option<NfChainType> {
    if s == "filter"@ {
        Some(NfChainType::Filter)
    } else if s == "route"@ {
        Some(NfChainType::Route)
    } else if s == "nat"@ {
        Some(NfChainType::NAT)
    } else {
        None
    }
}

pub proof fn lemma_chain_type_inv_tok(v: NfChainType)
    ensures
        chain_type_inv(chain_type_tok(v)) == Some(v),
{
    reveal_strlit("filter");
    reveal_strlit("route");
    reveal_strlit("nat");
    assert("filter"@.len() >= 1 && "filter"@[0] == 'f');
    assert("route"@.len() >= 1 && "route"@[0] == 'r');
    assert("nat"@.len() >= 1 && "nat"@[0] == 'n');
}

pub fn chain_type_to_wire(v: NfChainType) -> (r: &'static str)
    ensures
        r@ == chain_type_tok(v),
{
    match v {
        NfChainType::Filter => "filter",
        NfChainType::Route => "route",
        NfChainType::NAT => "nat",
    }
}

pub fn chain_type_from_wire(s: &str) -> (r: Option<NfChainType>)
    ensures
        r == chain_type_inv(s@),
{
    if crate::json::str_eq(s, "filter") {
        Some(NfChainType::Filter)
    } else if crate::json::str_eq(s, "route") {
        Some(NfChainType::Route)
    } else if crate::json::str_eq(s, "nat") {
        Some(NfChainType::NAT)
    } else {
        None
    }
}

/// Represents the policy of a Chain.
#[derive(Clone, Copy, Debug, PartialEq, Eq, Structural)]
pub enum NfChainPolicy {
    Accept,
    Drop,
}

pub open spec fn chain_policy_tok(v: NfChainPolicy) -> Seq<char> {
    match v {
        NfChainPolicy::Accept => "accept"@,
        NfChainPolicy::Drop => "drop"@,
    }
}

pub open spec fn chain_policy_inv(s: Seq<char>) -> Option<NfChainPolicy> {
    if s == "accept"@ {
        Some(NfChainPolicy::Accept)
    } else if s == "drop"@ {
        Some(NfChainPolicy::Drop)
    } else {
        None
    }
}

pub proof fn lemma_chain_policy_inv_tok(v: NfChainPolicy)
    ensures
        chain_policy_inv(chain_policy_tok(v)) == Some(v),
{
    reveal_strlit("accept");
    reveal_strlit("drop");
    assert("accept"@.len() >= 1 && "accept"@[0] == 'a');
    assert("drop"@.len() >= 1 && "drop"@[0] == 'd');
}

pub fn chain_policy_to_wire(v: NfChainPolicy) -> (r: &'static str)
    ensures
        r@ == chain_policy_tok(v),
{
    match v {
        NfChainPolicy::Accept => "accept",
        NfChainPolicy::Drop => "drop",
    }
}

pub fn chain_policy_from_wire(s: &str) -> (r: Option<NfChainPolicy>)
    ensures
        r == chain_policy_inv(s@),
{
    if crate::json::str_eq(s, "accept") {
        Some(NfChainPolicy::Accept)
    } else if crate::json::str_eq(s, "drop") {
        Some(NfChainPolicy::Drop)
    } else {
        None
    }
}

/// Represents a netfilter hook.
#[derive(Clone, Copy, Debug, PartialEq, Eq, Structural)]
pub enum NfHook {
    Ingress,
    Prerouting,
    Forward,
    Input,
    Output,
    Postrouting,
    Egress,
}

pub open spec fn hook_tok(v: NfHook) -> Seq<char> {
    match v {
        NfHook::Ingress => "ingress"@,
        NfHook::Prerouting => "prerouting"@,
        NfHook::Forward => "forward"@,
        NfHook::Input => "input"@,
        NfHook::Output => "output"@,
        NfHook::Postrouting => "postrouting"@,
        NfHook::Egress => "egress"@,
    }
}

pub open spec fn hook_inv(s: Seq<char>) -> Option<NfHook> {
    if s == "ingress"@ {
        Some(NfHook::Ingress)
    } else if s == "prerouting"@ {
        Some(NfHook::Prerouting)
    } else if s == "forward"@ {
        Some(NfHook::Forward)
    } else if s == "input"@ {
        Some(NfHook::Input)
    } else if s == "output"@ {
        Some(NfHook::Output)
    } else if s == "postrouting"@ {
        Some(NfHook::Postrouting)
    } else if s == "egress"@ {
        Some(NfHook::Egress)
    } else {
        None
    }
}

pub proof fn lemma_hook_inv_tok(v: NfHook)
    ensures
        hook_inv(hook_tok(v)) == Some(v),
{
    reveal_strlit("ingress");
    reveal_strlit("prerouting");
    reveal_strlit("forward");
    reveal_strlit("input");
    reveal_strlit("output");
    reveal_strlit("postrouting");
    reveal_strlit("egress");
    assert("ingress"@.len() >= 2 && "ingress"@[0] == 'i' && "ingress"@[1] == 'n');
    assert("prerouting"@.len() >= 2 && "prerouting"@[0] == 'p' && "prerouting"@[1] == 'r');
    assert("forward"@.len() >= 2 && "forward"@[0] == 'f' && "forward"@[1] == 'o');
    assert("input"@.len() >= 2 && "input"@[0] == 'i' && "input"@[1] == 'n');
    assert("output"@.len() >= 2 && "output"@[0] == 'o' && "output"@[1] == 'u');
    assert("postrouting"@.len() >= 2 && "postrouting"@[0] == 'p' && "postrouting"@[1] == 'o');
    assert("egress"@.len() >= 2 && "egress"@[0] == 'e' && "egress"@[1] == 'g');
    assert("ingress"@.len() == 7 && "input"@.len() == 5);
}

pub fn hook_to_wire(v: NfHook) -> (r: &'static str)
    ensures
        r@ == hook_tok(v),
{
    match v {
        NfHook::Ingress => "ingress",
        NfHook::Prerouting => "prerouting",
        NfHook::Forward => "forward",
        NfHook::Input => "input",
        NfHook::Output => "output",
        NfHook::Postrouting => "postrouting",
        NfHook::Egress => "egress",
    }
}

pub fn hook_from_wire(s: &str) -> (r: Option<NfHook>)
    ensures
        r == hook_inv(s@),
{
    if crate::json::str_eq(s, "ingress") {
        Some(NfHook::Ingress)
    } else if crate::json::str_eq(s, "prerouting") {
        Some(NfHook::Prerouting)
    } else if crate::json::str_eq(s, "forward") {
        Some(NfHook::Forward)
    } else if crate::json::str_eq(s, "input") {
        Some(NfHook::Input)
    } else if crate::json::str_eq(s, "output") {
        Some(NfHook::Output)
    } else if crate::json::str_eq(s, "postrouting") {
        Some(NfHook::Postrouting)
    } else if crate::json::str_eq(s, "egress") {
        Some(NfHook::Egress)
    } else {
        None
    }
}

/// Represents a conntrack helper protocol.
#[derive(Clone, Copy, Debug, PartialEq, Eq, Structural)]
pub enum CTHProto {
    TCP,
    UDP,
    DCCP,
    SCTP,
    GRE,
    ICMPv6,
    ICMP,
    Generic,
}

pub open spec fn cth_proto_tok(v: CTHProto) -> Seq<char> {
    match v {
        CTHProto::TCP => "tcp"@,
        CTHProto::UDP => "udp"@,
        CTHProto::DCCP => "dccp"@,
        CTHProto::SCTP => "sctp"@,
        CTHProto::GRE => "gre"@,
        CTHProto::ICMPv6 => "icmpv6"@,
        CTHProto::ICMP => "icmp"@,
        CTHProto::Generic => "generic"@,
    }
}

pub open spec fn cth_proto_inv(s: Seq<char>) -> Option<CTHProto> {
    if s == "tcp"@ {
        Some(CTHProto::TCP)
    } else if s == "udp"@ {
        Some(CTHProto::UDP)
    } else if s == "dccp"@ {
        Some(CTHProto::DCCP)
    } else if s == "sctp"@ {
        Some(CTHProto::SCTP)
    } else if s == "gre"@ {
        Some(CTHProto::GRE)
    } else if s == "icmpv6"@ {
        Some(CTHProto::ICMPv6)
    } else if s == "icmp"@ {
        Some(CTHProto::ICMP)
    } else if s == "generic"@ {
        Some(CTHProto::Generic)
    } else {
        None
    }
}

pub proof fn lemma_cth_proto_inv_tok(v: CTHProto)
    ensures
        cth_proto_inv(cth_proto_tok(v)) == Some(v),
{
    reveal_strlit("tcp");
    reveal_strlit("udp");
    reveal_strlit("dccp");
    reveal_strlit("sctp");
    reveal_strlit("gre");
    reveal_strlit("icmpv6");
    reveal_strlit("icmp");
    reveal_strlit("generic");
    assert("tcp"@.len() >= 1 && "tcp"@[0] == 't');
    assert("udp"@.len() >= 1 && "udp"@[0] == 'u');
    assert("dccp"@.len() >= 1 && "dccp"@[0] == 'd');
    assert("sctp"@.len() >= 1 && "sctp"@[0] == 's');
    assert("gre"@.len() >= 1 && "gre"@[0] == 'g');
    assert("icmpv6"@.len() >= 1 && "icmpv6"@[0] == 'i');
    assert("icmp"@.len() >= 1 && "icmp"@[0] == 'i');
    assert("generic"@.len() >= 1 && "generic"@[0] == 'g');
    assert("icmpv6"@.len() == 6 && "icmp"@.len() == 4 && "gre"@.len() == 3 && "generic"@.len() == 7);
}

pub fn cth_proto_to_wire(v: CTHProto) -> (r: &'static str)
    ensures
        r@ == cth_proto_tok(v),
{
    match v {
        CTHProto::TCP => "tcp",
        CTHProto::UDP => "udp",
        CTHProto::DCCP => "dccp",
        CTHProto::SCTP => "sctp",
        CTHProto::GRE => "gre",
        CTHProto::ICMPv6 => "icmpv6",
        CTHProto::ICMP => "icmp",
        CTHProto::Generic => "generic",
    }
}

pub fn cth_proto_from_wire(s: &str) -> (r: Option<CTHProto>)
    ensures
        r == cth_proto_inv(s@),
{
    if crate::json::str_eq(s, "tcp") {
        Some(CTHProto::TCP)
    } else if crate::json::str_eq(s, "udp") {
        Some(CTHProto::UDP)
    } else if crate::json::str_eq(s, "dccp") {
        Some(CTHProto::DCCP)
    } else if crate::json::str_eq(s, "sctp") {
        Some(CTHProto::SCTP)
    } else if crate::json::str_eq(s, "gre") {
        Some(CTHProto::GRE)
    } else if crate::json::str_eq(s, "icmpv6") {
        Some(CTHProto::ICMPv6)
    } else if crate::json::str_eq(s, "icmp") {
        Some(CTHProto::ICMP)
    } else if crate::json::str_eq(s, "generic") {
        Some(CTHProto::Generic)
    } else {
        None
    }
}

/// An ICMP-style code used by the reject statement.
#[derive(Clone, Copy, Debug, PartialEq, Eq, Structural)]
pub enum RejectCode {
    /// Host administratively prohibited (ICMPX, ICMP, ICMPv6)
    AdminProhibited,
    /// Destination port unreachable (ICMPX, ICMP, ICMPv6)
    PortUnreach,
    /// No route to destination (ICMPX, ICMP, ICMPv6)
    NoRoute,
    /// Destination host unreachable (ICMPX, ICMP, ICMPv6)
    HostUnreach,
    /// Destination network unreachable (ICMP)
    NetUnreach,
    /// Destination protocol unreachable (ICMP)
    ProtUnreach,
    /// Network administratively prohibited (ICMP)
    NetProhibited,
    /// Host administratively prohibited (ICMP)
    HostProhibited,
    /// Address unreachable (ICMPv6)
    AddrUnreach,
}

pub open spec fn reject_code_tok(v: RejectCode) -> Seq<char> {
    match v {
        RejectCode::AdminProhibited => "admin-prohibited"@,
        RejectCode::PortUnreach => "port-unreachable"@,
        RejectCode::NoRoute => "no-route"@,
        RejectCode::HostUnreach => "host-unreachable"@,
        RejectCode::NetUnreach => "net-unreachable"@,
        RejectCode::ProtUnreach => "prot-unreachable"@,
        RejectCode::NetProhibited => "net-prohibited"@,
        RejectCode::HostProhibited => "host-prohibited"@,
        RejectCode::AddrUnreach => "addr-unreachable"@,
    }
}

pub open spec fn reject_code_inv(s: Seq<char>) -> Option<RejectCode> {
    if s == "admin-prohibited"@ {
        Some(RejectCode::AdminProhibited)
    } else if s == "port-unreachable"@ {
        Some(RejectCode::PortUnreach)
    } else if s == "no-route"@ {
        Some(RejectCode::NoRoute)
    } else if s == "host-unreachable"@ {
        Some(RejectCode::HostUnreach)
    } else if s == "net-unreachable"@ {
        Some(RejectCode::NetUnreach)
    } else if s == "prot-unreachable"@ {
        Some(RejectCode::ProtUnreach)
    } else if s == "net-prohibited"@ {
        Some(RejectCode::NetProhibited)
    } else if s == "host-prohibited"@ {
        Some(RejectCode::HostProhibited)
    } else if s == "addr-unreachable"@ {
        Some(RejectCode::AddrUnreach)
    } else {
        None
    }
}

pub proof fn lemma_reject_code_inv_tok(v: RejectCode)
    ensures
        reject_code_inv(reject_code_tok(v)) == Some(v),
{
    reveal_strlit("admin-prohibited");
    reveal_strlit("port-unreachable");
    reveal_strlit("no-route");
    reveal_strlit("host-unreachable");
    reveal_strlit("net-unreachable");
    reveal_strlit("prot-unreachable");
    reveal_strlit("net-prohibited");
    reveal_strlit("host-prohibited");
    reveal_strlit("addr-unreachable");
    assert("admin-prohibited"@.len() >= 3 && "admin-prohibited"@[0] == 'a'
        && "admin-prohibited"@[1] == 'd' && "admin-prohibited"@[2] == 'm');
    assert("port-unreachable"@.len() >= 3 && "port-unreachable"@[0] == 'p'
        && "port-unreachable"@[1] == 'o' && "port-unreachable"@[2] == 'r');
    assert("no-route"@.len() >= 3 && "no-route"@[0] == 'n' && "no-route"@[1] == 'o'
        && "no-route"@[2] == '-');
    assert("host-unreachable"@.len() >= 3 && "host-unreachable"@[0] == 'h'
        && "host-unreachable"@[1] == 'o' && "host-unreachable"@[2] == 's');
    assert("net-unreachable"@.len() >= 3 && "net-unreachable"@[0] == 'n'
        && "net-unreachable"@[1] == 'e' && "net-unreachable"@[2] == 't');
    assert("prot-unreachable"@.len() >= 3 && "prot-unreachable"@[0] == 'p'
        && "prot-unreachable"@[1] == 'r' && "prot-unreachable"@[2] == 'o');
    assert("net-prohibited"@.len() >= 3 && "net-prohibited"@[0] == 'n' && "net-prohibited"@[1] == 'e'
        && "net-prohibited"@[2] == 't');
    assert("host-prohibited"@.len() >= 3 && "host-prohibited"@[0] == 'h'
        && "host-prohibited"@[1] == 'o' && "host-prohibited"@[2] == 's');
    assert("addr-unreachable"@.len() >= 3 && "addr-unreachable"@[0] == 'a'
        && "addr-unreachable"@[1] == 'd' && "addr-unreachable"@[2] == 'd');
    assert("net-unreachable"@.len() == 15 && "net-prohibited"@.len() == 14);
    assert("host-unreachable"@.len() == 16 && "host-prohibited"@.len() == 15);
}

pub fn reject_code_to_wire(v: RejectCode) -> (r: &'static str)
    ensures
        r@ == reject_code_tok(v),
{
    match v {
        RejectCode::AdminProhibited => "admin-prohibited",
        RejectCode::PortUnreach => "port-unreachable",
        RejectCode::NoRoute => "no-route",
        RejectCode::HostUnreach => "host-unreachable",
        RejectCode::NetUnreach => "net-unreachable",
        RejectCode::ProtUnreach => "prot-unreachable",
        RejectCode::NetProhibited => "net-prohibited",
        RejectCode::HostProhibited => "host-prohibited",
        RejectCode::AddrUnreach => "addr-unreachable",
    }
}

pub fn reject_code_from_wire(s: &str) -> (r: Option<RejectCode>)
    ensures
        r == reject_code_inv(s@),
{
    if crate::json::str_eq(s, "admin-prohibited") {
        Some(RejectCode::AdminProhibited)
    } else if crate::json::str_eq(s, "port-unreachable") {
        Some(RejectCode::PortUnreach)
    } else if crate::json::str_eq(s, "no-route") {
        Some(RejectCode::NoRoute)
    } else if crate::json::str_eq(s, "host-unreachable") {
        Some(RejectCode::HostUnreach)
    } else if crate::json::str_eq(s, "net-unreachable") {
        Some(RejectCode::NetUnreach)
    } else if crate::json::str_eq(s, "prot-unreachable") {
        Some(RejectCode::ProtUnreach)
    } else if crate::json::str_eq(s, "net-prohibited") {
        Some(RejectCode::NetProhibited)
    } else if crate::json::str_eq(s, "host-prohibited") {
        Some(RejectCode::HostProhibited)
    } else if crate::json::str_eq(s, "addr-unreachable") {
        Some(RejectCode::AddrUnreach)
    } else {
        None
    }
}

/// Describes a synproxy's flags.
#[derive(Clone, Copy, Debug, PartialEq, Eq, Structural)]
pub enum SynProxyFlag {
    /// Pass client timestamp option to backend.
    Timestamp,
    /// Pass client selective acknowledgement option to backend.
    SackPerm,
}

pub open spec fn synproxy_flag_tok(v: SynProxyFlag) -> Seq<char> {
    match v {
        SynProxyFlag::Timestamp => "timestamp"@,
        SynProxyFlag::SackPerm => "sack-perm"@,
    }
}

pub open spec fn synproxy_flag_inv(s: Seq<char>) -> Option<SynProxyFlag> {
    if s == "timestamp"@ {
        Some(SynProxyFlag::Timestamp)
    } else if s == "sack-perm"@ {
        Some(SynProxyFlag::SackPerm)
    } else {
        None
    }
}

pub proof fn lemma_synproxy_flag_inv_tok(v: SynProxyFlag)
    ensures
        synproxy_flag_inv(synproxy_flag_tok(v)) == Some(v),
{
    reveal_strlit("timestamp");
    reveal_strlit("sack-perm");
    assert("timestamp"@.len() >= 1 && "timestamp"@[0] == 't');
    assert("sack-perm"@.len() >= 1 && "sack-perm"@[0] == 's');
}

pub fn synproxy_flag_to_wire(v: SynProxyFlag) -> (r: &'static str)
    ensures
        r@ == synproxy_flag_tok(v),
{
    match v {
        SynProxyFlag::Timestamp => "timestamp",
        SynProxyFlag::SackPerm => "sack-perm",
    }
}

pub fn synproxy_flag_from_wire(s: &str) -> (r: Option<SynProxyFlag>)
    ensures
        r == synproxy_flag_inv(s@),
{
    if crate::json::str_eq(s, "timestamp") {
        Some(SynProxyFlag::Timestamp)
    } else if crate::json::str_eq(s, "sack-perm") {
        Some(SynProxyFlag::SackPerm)
    } else {
        None
    }
}

/// A time unit used by limits.
#[derive(Clone, Copy, Debug, PartialEq, Eq, Structural)]
pub enum NfTimeUnit {
    Second,
    Minute,
    Hour,
    Day,
    Week,
}

pub open spec fn time_unit_tok(v: NfTimeUnit) -> Seq<char> {
    match v {
        NfTimeUnit::Second => "second"@,
        NfTimeUnit::Minute => "minute"@,
        NfTimeUnit::Hour => "hour"@,
        NfTimeUnit::Day => "day"@,
        NfTimeUnit::Week => "week"@,
    }
}

pub open spec fn time_unit_inv(s: Seq<char>) -> Option<NfTimeUnit> {
    if s == "second"@ {
        Some(NfTimeUnit::Second)
    } else if s == "minute"@ {
        Some(NfTimeUnit::Minute)
    } else if s == "hour"@ {
        Some(NfTimeUnit::Hour)
    } else if s == "day"@ {
        Some(NfTimeUnit::Day)
    } else if s == "week"@ {
        Some(NfTimeUnit::Week)
    } else {
        None
    }
}

pub proof fn lemma_time_unit_inv_tok(v: NfTimeUnit)
    ensures
        time_unit_inv(time_unit_tok(v)) == Some(v),
{
    reveal_strlit("second");
    reveal_strlit("minute");
    reveal_strlit("hour");
    reveal_strlit("day");
    reveal_strlit("week");
    assert("second"@.len() >= 1 && "second"@[0] == 's');
    assert("minute"@.len() >= 1 && "minute"@[0] == 'm');
    assert("hour"@.len() >= 1 && "hour"@[0] == 'h');
    assert("day"@.len() >= 1 && "day"@[0] == 'd');
    assert("week"@.len() >= 1 && "week"@[0] == 'w');
}

pub fn time_unit_to_wire(v: NfTimeUnit) -> (r: &'static str)
    ensures
        r@ == time_unit_tok(v),
{
    match v {
        NfTimeUnit::Second => "second",
        NfTimeUnit::Minute => "minute",
        NfTimeUnit::Hour => "hour",
        NfTimeUnit::Day => "day",
        NfTimeUnit::Week => "week",
    }
}

pub fn time_unit_from_wire(s: &str) -> (r: Option<NfTimeUnit>)
    ensures
        r == time_unit_inv(s@),
{
    if crate::json::str_eq(s, "second") {
        Some(NfTimeUnit::Second)
    } else if crate::json::str_eq(s, "minute") {
        Some(NfTimeUnit::Minute)
    } else if crate::json::str_eq(s, "hour") {
        Some(NfTimeUnit::Hour)
    } else if crate::json::str_eq(s, "day") {
        Some(NfTimeUnit::Day)
    } else if crate::json::str_eq(s, "week") {
        Some(NfTimeUnit::Week)
    } else {
        None
    }
}

} // verus!
