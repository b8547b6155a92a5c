use vstd::prelude::*;

use crate::stmt::{Counter, CounterM, JumpTarget, JumpTargetM, Statement, StatementM};

verus! {

broadcast use vstd::string::group_string_axioms;

/// Expressions are the building blocks of (most) statements.
/// In their most basic form, they are just immediate values represented
/// as a JSON string, integer or boolean type.
#[derive(Debug)]
pub enum Expression {
    // immediates
    String(String),
    Number(u32),
    Boolean(bool),
    /// List expressions are constructed by plain arrays containing an
    /// arbitrary number of expressions.
    List(Vec<Expression>),
    BinaryOperation(Box<BinaryOperation>),
    Range(Box<Range>),
    Named(NamedExpression),
    Verdict(Verdict),
}

/// Mathematical mirror of `Expression`.
pub enum ExpressionM {
    String(Seq<char>),
    Number(u32),
    Boolean(bool),
    List(Seq<ExpressionM>),
    BinaryOperation(Box<BinaryOperationM>),
    Range(Box<RangeM>),
    Named(NamedExpressionM),
    Verdict(VerdictM),
}

/// Wrapper for non-immediate `Expression`s.
#[derive(Debug)]
pub enum NamedExpression {
    /// Concatenate several expressions.
    Concat(Vec<Expression>),
    /// This object constructs an anonymous set.
    /// For mappings, an array of arrays with exactly two elements is expected.
    SetExpr(Vec<SetItem>),
    MapExpr(Box<MapExpr>),
    Prefix(Prefix),
    Payload(Payload),
    Exthdr(Exthdr),
    TcpOption(TcpOption),
    SctpChunk(SctpChunk),
    Meta(Meta),
    RT(RT),
    CT(CT),
    Numgen(Numgen),
    JHash(JHash),
    SymHash(SymHash),
    Fib(Fib),
    Elem(Elem),
    Socket(Socket),
    Osf(Osf),
}

/// Mathematical mirror of `NamedExpression`.
pub enum NamedExpressionM {
    Concat(Seq<ExpressionM>),
    SetExpr(Seq<SetItemM>),
    MapExpr(Box<MapExprM>),
    Prefix(PrefixM),
    Payload(PayloadM),
    Exthdr(ExthdrM),
    TcpOption(TcpOptionM),
    SctpChunk(SctpChunkM),
    Meta(Meta),
    RT(RT),
    CT(CTM),
    Numgen(Numgen),
    JHash(JHashM),
    SymHash(SymHash),
    Fib(FibM),
    Elem(ElemM),
    Socket(SocketM),
    Osf(OsfM),
}

/// Map a key to a value.
#[derive(Debug)]
pub struct MapExpr {
    /// Map key.
    pub key: Expression,
    /// Mapping expression consisting of value/target pairs.
    pub data: Expression,
}

/// Mathematical mirror of `MapExpr`.
pub struct MapExprM {
    pub key: ExpressionM,
    pub data: ExpressionM,
}

/// Item in an anonymous set.
#[derive(Debug)]
pub enum SetItem {
    /// A set item containing a single expression.
    Element(Expression),
    /// A set item mapping two expressions.
    Mapping(Expression, Expression),
    /// A set item mapping an expression to a statement.
    MappingStatement(Expression, Box<Statement>),
}

/// Mathematical mirror of `SetItem`.
pub enum SetItemM {
    Element(ExpressionM),
    Mapping(ExpressionM, ExpressionM),
    MappingStatement(ExpressionM, Box<StatementM>),
}

/// Construct an IPv4 or IPv6 prefix consisting of address part in `addr`
/// and prefix length in `len`.
#[derive(Debug)]
pub struct Prefix {
    pub addr: Box<Expression>,
    pub len: u32,
}

/// Mathematical mirror of `Prefix`.
pub struct PrefixM {
    pub addr: Box<ExpressionM>,
    pub len: u32,
}

/// Construct a range of values.
/// `low` denotes the lower boundary, `high` the upper boundary; on the
/// wire both travel in a two-element array under the `range` property.
#[derive(Debug)]
pub struct Range {
    pub low: Box<Expression>,
    pub high: Box<Expression>,
}

/// Mathematical mirror of `Range`.
pub struct RangeM {
    pub low: Box<ExpressionM>,
    pub high: Box<ExpressionM>,
}

/// A reference to a certain part of packet data, either by field name or
/// as a raw window.
#[derive(Debug)]
pub enum Payload {
    PayloadField(PayloadField),
    PayloadRaw(PayloadRaw),
}

/// Mathematical mirror of `Payload`.
pub enum PayloadM {
    PayloadField(PayloadFieldM),
    PayloadRaw(PayloadRaw),
}

/// Creates a raw payload expression to point at a number (`len`) of bits
/// at a certain offset (`offset`) from a given reference point (`base`).
#[derive(Debug, Clone, Copy, PartialEq, Eq, Structural)]
pub struct PayloadRaw {
    pub base: PayloadBase,
    pub offset: u32,
    pub len: u32,
}

/// Construct a payload expression, i.e. a reference to a certain part of
/// packet data.  References a field by name (`field`) in a named packet
/// header (`protocol`).
#[derive(Debug)]
pub struct PayloadField {
    pub protocol: String,
    pub field: String,
}

/// Mathematical mirror of `PayloadField`.
pub struct PayloadFieldM {
    pub protocol: Seq<char>,
    pub field: Seq<char>,
}

/// Represents a protocol layer for `payload` references.
#[derive(Debug, Clone, Copy, PartialEq, Eq, Structural)]
pub enum PayloadBase {
    /// Link layer, for example the Ethernet header
    LL,
    /// Network header, for example IPv4 or IPv6
    NH,
    /// Transport Header, for example TCP
    TH,
    /// Inner Header / Payload, i.e. after the L4 transport level header
    IH,
}

pub open spec fn payload_base_tok(v: PayloadBase) -> Seq<char> {
    match v {
        PayloadBase::LL => "ll"@,
        PayloadBase::NH => "nh"@,
        PayloadBase::TH => "th"@,
        PayloadBase::IH => "ih"@,
    }
}

pub open spec fn payload_base_inv(s: Seq<char>) -> Option<PayloadBase> {
    if s == "ll"@ {
        Some(PayloadBase::LL)
    } else if s == "nh"@ {
        Some(PayloadBase::NH)
    } else if s == "th"@ {
        Some(PayloadBase::TH)
    } else if s == "ih"@ {
        Some(PayloadBase::IH)
    } else {
        None
    }
}

pub proof fn lemma_payload_base_inv_tok(v: PayloadBase)
    ensures
        payload_base_inv(payload_base_tok(v)) == Some(v),
{
    reveal_strlit("ll");
    reveal_strlit("nh");
    reveal_strlit("th");
    reveal_strlit("ih");
    assert("ll"@.len() >= 1 && "ll"@[0] == 'l');
    assert("nh"@.len() >= 1 && "nh"@[0] == 'n');
    assert("th"@.len() >= 1 && "th"@[0] == 't');
    assert("ih"@.len() >= 1 && "ih"@[0] == 'i');
}

pub fn payload_base_to_wire(v: PayloadBase) -> (r: &'static str)
    ensures
        r@ == payload_base_tok(v),
{
    match v {
        PayloadBase::LL => "ll",
        PayloadBase::NH => "nh",
        PayloadBase::TH => "th",
        PayloadBase::IH => "ih",
    }
}

pub fn payload_base_from_wire(s: &str) -> (r: Option<PayloadBase>)
    ensures
        r == payload_base_inv(s@),
{
    if crate::json::str_eq(s, "ll") {
        Some(PayloadBase::LL)
    } else if crate::json::str_eq(s, "nh") {
        Some(PayloadBase::NH)
    } else if crate::json::str_eq(s, "th") {
        Some(PayloadBase::TH)
    } else if crate::json::str_eq(s, "ih") {
        Some(PayloadBase::IH)
    } else {
        None
    }
}

/// Create a reference to a field (`field`) in an IPv6 extension header
/// (`name`).  `offset` is used only for `rt0`.
#[derive(Debug)]
pub struct Exthdr {
    pub name: String,
    pub field: String,
    pub offset: u32,
}

/// Mathematical mirror of `Exthdr`.
pub struct ExthdrM {
    pub name: Seq<char>,
    pub field: Seq<char>,
    pub offset: u32,
}

/// Create a reference to a field (`field`) of a TCP option header (`name`).
#[derive(Debug)]
pub struct TcpOption {
    pub name: String,
    pub field: String,
}

/// Mathematical mirror of `TcpOption`.
pub struct TcpOptionM {
    pub name: Seq<char>,
    pub field: Seq<char>,
}

/// Create a reference to a field (`field`) of an SCTP chunk (`name`).
#[derive(Debug)]
pub struct SctpChunk {
    pub name: String,
    pub field: String,
}

/// Mathematical mirror of `SctpChunk`.
pub struct SctpChunkM {
    pub name: Seq<char>,
    pub field: Seq<char>,
}

/// Create a reference to packet meta data.
#[derive(Debug, Clone, Copy, PartialEq, Eq, Structural)]
pub struct Meta {
    pub key: MetaKey,
}

/// Represents a `meta` key for packet meta data.
#[derive(Debug, Clone, Copy, PartialEq, Eq, Structural)]
pub enum MetaKey {
    Length,
    Protocol,
    Priority,
    Random,
    Mark,
    Iif,
    Iifname,
    Iiftype,
    Oif,
    Oifname,
    Oiftype,
    Skuid,
    Skgid,
    Nftrace,
    Rtclassid,
    Ibriport,
    Obriport,
    Ibridgename,
    Obridgename,
    Pkttype,
    Cpu,
    Iifgroup,
    Oifgroup,
    Cgroup,
    Nfproto,
    L4proto,
    Secpath,
}

pub open spec fn meta_key_tok(v: MetaKey) -> Seq<char> {
    match v {
        MetaKey::Length => "length"@,
        MetaKey::Protocol => "protocol"@,
        MetaKey::Priority => "priority"@,
        MetaKey::Random => "random"@,
        MetaKey::Mark => "mark"@,
        MetaKey::Iif => "iif"@,
        MetaKey::Iifname => "iifname"@,
        MetaKey::Iiftype => "iiftype"@,
        MetaKey::Oif => "oif"@,
        MetaKey::Oifname => "oifname"@,
        MetaKey::Oiftype => "oiftype"@,
        MetaKey::Skuid => "skuid"@,
        MetaKey::Skgid => "skgid"@,
        MetaKey::Nftrace => "nftrace"@,
        MetaKey::Rtclassid => "rtclassid"@,
        MetaKey::Ibriport => "ibriport"@,
        MetaKey::Obriport => "obriport"@,
        MetaKey::Ibridgename => "ibridgename"@,
        MetaKey::Obridgename => "obridgename"@,
        MetaKey::Pkttype => "pkttype"@,
        MetaKey::Cpu => "cpu"@,
        MetaKey::Iifgroup => "iifgroup"@,
        MetaKey::Oifgroup => "oifgroup"@,
        MetaKey::Cgroup => "cgroup"@,
        MetaKey::Nfproto => "nfproto"@,
        MetaKey::L4proto => "l4proto"@,
        MetaKey::Secpath => "secpath"@,
    }
}

pub open spec fn meta_key_inv(s: Seq<char>) -> Option<MetaKey> {
    if s == "length"@ {
        Some(MetaKey::Length)
    } else if s == "protocol"@ {
        Some(MetaKey::Protocol)
    } else if s == "priority"@ {
        Some(MetaKey::Priority)
    } else if s == "random"@ {
        Some(MetaKey::Random)
    } else if s == "mark"@ {
        Some(MetaKey::Mark)
    } else if s == "iif"@ {
        Some(MetaKey::Iif)
    } else if s == "iifname"@ {
        Some(MetaKey::Iifname)
    } else if s == "iiftype"@ {
        Some(MetaKey::Iiftype)
    } else if s == "oif"@ {
        Some(MetaKey::Oif)
    } else if s == "oifname"@ {
        Some(MetaKey::Oifname)
    } else if s == "oiftype"@ {
        Some(MetaKey::Oiftype)
    } else if s == "skuid"@ {
        Some(MetaKey::Skuid)
    } else if s == "skgid"@ {
        Some(MetaKey::Skgid)
    } else if s == "nftrace"@ {
        Some(MetaKey::Nftrace)
    } else if s == "rtclassid"@ {
        Some(MetaKey::Rtclassid)
    } else if s == "ibriport"@ {
        Some(MetaKey::Ibriport)
    } else if s == "obriport"@ {
        Some(MetaKey::Obriport)
    } else if s == "ibridgename"@ {
        Some(MetaKey::Ibridgename)
    } else if s == "obridgename"@ {
        Some(MetaKey::Obridgename)
    } else if s == "pkttype"@ {
        Some(MetaKey::Pkttype)
    } else if s == "cpu"@ {
        Some(MetaKey::Cpu)
    } else if s == "iifgroup"@ {
        Some(MetaKey::Iifgroup)
    } else if s == "oifgroup"@ {
        Some(MetaKey::Oifgroup)
    } else if s == "cgroup"@ {
        Some(MetaKey::Cgroup)
    } else if s == "nfproto"@ {
        Some(MetaKey::Nfproto)
    } else if s == "l4proto"@ {
        Some(MetaKey::L4proto)
    } else if s == "secpath"@ {
        Some(MetaKey::Secpath)
    } else {
        None
    }
}

pub proof fn lemma_meta_key_inv_tok(v: MetaKey)
    ensures
        meta_key_inv(meta_key_tok(v)) == Some(v),
{
    reveal_strlit("length");
    reveal_strlit("protocol");
    reveal_strlit("priority");
    reveal_strlit("random");
    reveal_strlit("mark");
    reveal_strlit("iif");
    reveal_strlit("iifname");
    reveal_strlit("iiftype");
    reveal_strlit("oif");
    reveal_strlit("oifname");
    reveal_strlit("oiftype");
    reveal_strlit("skuid");
    reveal_strlit("skgid");
    reveal_strlit("nftrace");
    reveal_strlit("rtclassid");
    reveal_strlit("ibriport");
    reveal_strlit("obriport");
    reveal_strlit("ibridgename");
    reveal_strlit("obridgename");
    reveal_strlit("pkttype");
    reveal_strlit("cpu");
    reveal_strlit("iifgroup");
    reveal_strlit("oifgroup");
    reveal_strlit("cgroup");
    reveal_strlit("nfproto");
    reveal_strlit("l4proto");
    reveal_strlit("secpath");
    assert("length"@.len() >= 2 && "length"@[0] == 'l' && "length"@[1] == 'e');
    assert("protocol"@.len() >= 3 && "protocol"@[0] == 'p' && "protocol"@[1] == 'r'
        && "protocol"@[2] == 'o');
    assert("priority"@.len() >= 3 && "priority"@[0] == 'p' && "priority"@[1] == 'r'
        && "priority"@[2] == 'i');
    assert("random"@.len() >= 2 && "random"@[0] == 'r' && "random"@[1] == 'a');
    assert("mark"@.len() >= 2 && "mark"@[0] == 'm' && "mark"@[1] == 'a');
    assert("iif"@.len() == 3 && "iif"@[0] == 'i' && "iif"@[1] == 'i');
    assert("iifname"@.len() == 7 && "iifname"@[0] == 'i' && "iifname"@[1] == 'i'
        && "iifname"@[3] == 'n');
    assert("iiftype"@.len() == 7 && "iiftype"@[0] == 'i' && "iiftype"@[1] == 'i'
        && "iiftype"@[3] == 't');
    assert("oif"@.len() == 3 && "oif"@[0] == 'o' && "oif"@[1] == 'i');
    assert("oifname"@.len() == 7 && "oifname"@[0] == 'o' && "oifname"@[1] == 'i'
        && "oifname"@[3] == 'n');
    assert("oiftype"@.len() == 7 && "oiftype"@[0] == 'o' && "oiftype"@[1] == 'i'
        && "oiftype"@[3] == 't');
    assert("skuid"@.len() == 5 && "skuid"@[0] == 's' && "skuid"@[1] == 'k' && "skuid"@[2] == 'u');
    assert("skgid"@.len() == 5 && "skgid"@[0] == 's' && "skgid"@[1] == 'k' && "skgid"@[2] == 'g');
    assert("nftrace"@.len() == 7 && "nftrace"@[0] == 'n' && "nftrace"@[1] == 'f');
    assert("rtclassid"@.len() == 9 && "rtclassid"@[0] == 'r' && "rtclassid"@[1] == 't');
    assert("ibriport"@.len() == 8 && "ibriport"@[0] == 'i' && "ibriport"@[1] == 'b');
    assert("obriport"@.len() == 8 && "obriport"@[0] == 'o' && "obriport"@[1] == 'b');
    assert("ibridgename"@.len() == 11 && "ibridgename"@[0] == 'i' && "ibridgename"@[1] == 'b');
    assert("obridgename"@.len() == 11 && "obridgename"@[0] == 'o' && "obridgename"@[1] == 'b');
    assert("pkttype"@.len() == 7 && "pkttype"@[0] == 'p' && "pkttype"@[1] == 'k');
    assert("cpu"@.len() == 3 && "cpu"@[0] == 'c' && "cpu"@[1] == 'p');
    assert("iifgroup"@.len() == 8 && "iifgroup"@[0] == 'i' && "iifgroup"@[1] == 'i');
    assert("oifgroup"@.len() == 8 && "oifgroup"@[0] == 'o' && "oifgroup"@[1] == 'i');
    assert("cgroup"@.len() == 6 && "cgroup"@[0] == 'c' && "cgroup"@[1] == 'g');
    assert("nfproto"@.len() == 7 && "nfproto"@[0] == 'n' && "nfproto"@[1] == 'f'
        && "nfproto"@[2] == 'p');
    assert("nftrace"@[2] == 't');
    assert("l4proto"@.len() == 7 && "l4proto"@[0] == 'l' && "l4proto"@[1] == '4');
    assert("secpath"@.len() == 7 && "secpath"@[0] == 's' && "secpath"@[1] == 'e');
}

pub fn meta_key_to_wire(v: MetaKey) -> (r: &'static str)
    ensures
        r@ == meta_key_tok(v),
{
    match v {
        MetaKey::Length => "length",
        MetaKey::Protocol => "protocol",
        MetaKey::Priority => "priority",
        MetaKey::Random => "random",
        MetaKey::Mark => "mark",
        MetaKey::Iif => "iif",
        MetaKey::Iifname => "iifname",
        MetaKey::Iiftype => "iiftype",
        MetaKey::Oif => "oif",
        MetaKey::Oifname => "oifname",
        MetaKey::Oiftype => "oiftype",
        MetaKey::Skuid => "skuid",
        MetaKey::Skgid => "skgid",
        MetaKey::Nftrace => "nftrace",
        MetaKey::Rtclassid => "rtclassid",
        MetaKey::Ibriport => "ibriport",
        MetaKey::Obriport => "obriport",
        MetaKey::Ibridgename => "ibridgename",
        MetaKey::Obridgename => "obridgename",
        MetaKey::Pkttype => "pkttype",
        MetaKey::Cpu => "cpu",
        MetaKey::Iifgroup => "iifgroup",
        MetaKey::Oifgroup => "oifgroup",
        MetaKey::Cgroup => "cgroup",
        MetaKey::Nfproto => "nfproto",
        MetaKey::L4proto => "l4proto",
        MetaKey::Secpath => "secpath",
    }
}

pub fn meta_key_from_wire(s: &str) -> (r: Option<MetaKey>)
    ensures
        r == meta_key_inv(s@),
{
    if crate::json::str_eq(s, "length") {
        Some(MetaKey::Length)
    } else if crate::json::str_eq(s, "protocol") {
        Some(MetaKey::Protocol)
    } else if crate::json::str_eq(s, "priority") {
        Some(MetaKey::Priority)
    } else if crate::json::str_eq(s, "random") {
        Some(MetaKey::Random)
    } else if crate::json::str_eq(s, "mark") {
        Some(MetaKey::Mark)
    } else if crate::json::str_eq(s, "iif") {
        Some(MetaKey::Iif)
    } else if crate::json::str_eq(s, "iifname") {
        Some(MetaKey::Iifname)
    } else if crate::json::str_eq(s, "iiftype") {
        Some(MetaKey::Iiftype)
    } else if crate::json::str_eq(s, "oif") {
        Some(MetaKey::Oif)
    } else if crate::json::str_eq(s, "oifname") {
        Some(MetaKey::Oifname)
    } else if crate::json::str_eq(s, "oiftype") {
        Some(MetaKey::Oiftype)
    } else if crate::json::str_eq(s, "skuid") {
        Some(MetaKey::Skuid)
    } else if crate::json::str_eq(s, "skgid") {
        Some(MetaKey::Skgid)
    } else if crate::json::str_eq(s, "nftrace") {
        Some(MetaKey::Nftrace)
    } else if crate::json::str_eq(s, "rtclassid") {
        Some(MetaKey::Rtclassid)
    } else if crate::json::str_eq(s, "ibriport") {
        Some(MetaKey::Ibriport)
    } else if crate::json::str_eq(s, "obriport") {
        Some(MetaKey::Obriport)
    } else if crate::json::str_eq(s, "ibridgename") {
        Some(MetaKey::Ibridgename)
    } else if crate::json::str_eq(s, "obridgename") {
        Some(MetaKey::Obridgename)
    } else if crate::json::str_eq(s, "pkttype") {
        Some(MetaKey::Pkttype)
    } else if crate::json::str_eq(s, "cpu") {
        Some(MetaKey::Cpu)
    } else if crate::json::str_eq(s, "iifgroup") {
        Some(MetaKey::Iifgroup)
    } else if crate::json::str_eq(s, "oifgroup") {
        Some(MetaKey::Oifgroup)
    } else if crate::json::str_eq(s, "cgroup") {
        Some(MetaKey::Cgroup)
    } else if crate::json::str_eq(s, "nfproto") {
        Some(MetaKey::Nfproto)
    } else if crate::json::str_eq(s, "l4proto") {
        Some(MetaKey::L4proto)
    } else if crate::json::str_eq(s, "secpath") {
        Some(MetaKey::Secpath)
    } else {
        None
    }
}

/// Create a reference to packet routing data.
#[derive(Debug, Clone, Copy, PartialEq, Eq, Structural)]
pub struct RT {
    pub key: RTKey,
    pub family: Option<RTFamily>,
}

/// Represents a key to reference to packet routing data.
#[derive(Debug, Clone, Copy, PartialEq, Eq, Structural)]
pub enum RTKey {
    ClassId,
    NextHop,
    MTU,
}

pub open spec fn rt_key_tok(v: RTKey) -> Seq<char> {
    match v {
        RTKey::ClassId => "classid"@,
        RTKey::NextHop => "nexthop"@,
        RTKey::MTU => "mtu"@,
    }
}

pub open spec fn rt_key_inv(s: Seq<char>) -> Option<RTKey> {
    if s == "classid"@ {
        Some(RTKey::ClassId)
    } else if s == "nexthop"@ {
        Some(RTKey::NextHop)
    } else if s == "mtu"@ {
        Some(RTKey::MTU)
    } else {
        None
    }
}

pub proof fn lemma_rt_key_inv_tok(v: RTKey)
    ensures
        rt_key_inv(rt_key_tok(v)) == Some(v),
{
    reveal_strlit("classid");
    reveal_strlit("nexthop");
    reveal_strlit("mtu");
    assert("classid"@.len() >= 1 && "classid"@[0] == 'c');
    assert("nexthop"@.len() >= 1 && "nexthop"@[0] == 'n');
    assert("mtu"@.len() >= 1 && "mtu"@[0] == 'm');
}

pub fn rt_key_to_wire(v: RTKey) -> (r: &'static str)
    ensures
        r@ == rt_key_tok(v),
{
    match v {
        RTKey::ClassId => "classid",
        RTKey::NextHop => "nexthop",
        RTKey::MTU => "mtu",
    }
}

pub fn rt_key_from_wire(s: &str) -> (r: Option<RTKey>)
    ensures
        r == rt_key_inv(s@),
{
    if crate::json::str_eq(s, "classid") {
        Some(RTKey::ClassId)
    } else if crate::json::str_eq(s, "nexthop") {
        Some(RTKey::NextHop)
    } else if crate::json::str_eq(s, "mtu") {
        Some(RTKey::MTU)
    } else {
        None
    }
}

/// Represents a protocol family for use by the `rt` expression.
#[derive(Debug, Clone, Copy, PartialEq, Eq, Structural)]
pub enum RTFamily {
    IP,
    IP6,
}

pub open spec fn rt_family_tok(v: RTFamily) -> Seq<char> {
    match v {
        RTFamily::IP => "ip"@,
        RTFamily::IP6 => "ip6"@,
    }
}

pub open spec fn rt_family_inv(s: Seq<char>) -> Option<RTFamily> {
    if s == "ip"@ {
        Some(RTFamily::IP)
    } else if s == "ip6"@ {
        Some(RTFamily::IP6)
    } else {
        None
    }
}

pub proof fn lemma_rt_family_inv_tok(v: RTFamily)
    ensures
        rt_family_inv(rt_family_tok(v)) == Some(v),
{
    reveal_strlit("ip");
    reveal_strlit("ip6");
    assert("ip"@.len() == 2 && "ip6"@.len() == 3);
}

pub fn rt_family_to_wire(v: RTFamily) -> (r: &'static str)
    ensures
        r@ == rt_family_tok(v),
{
    match v {
        RTFamily::IP => "ip",
        RTFamily::IP6 => "ip6",
    }
}

pub fn rt_family_from_wire(s: &str) -> (r: Option<RTFamily>)
    ensures
        r == rt_family_inv(s@),
{
    if crate::json::str_eq(s, "ip") {
        Some(RTFamily::IP)
    } else if crate::json::str_eq(s, "ip6") {
        Some(RTFamily::IP6)
    } else {
        None
    }
}

/// Create a reference to packet conntrack data.
#[derive(Debug)]
pub struct CT {
    pub key: String,
    pub family: Option<CTFamily>,
    pub dir: Option<CTDir>,
}

/// Mathematical mirror of `CT`.
pub struct CTM {
    pub key: Seq<char>,
    pub family: Option<CTFamily>,
    pub dir: Option<CTDir>,
}

/// Represents a protocol family for use by the `ct` expression.
#[derive(Debug, Clone, Copy, PartialEq, Eq, Structural)]
pub enum CTFamily {
    IP,
    IP6,
}

pub open spec fn ct_family_tok(v: CTFamily) -> Seq<char> {
    match v {
        CTFamily::IP => "ip"@,
        CTFamily::IP6 => "ip6"@,
    }
}

pub open spec fn ct_family_inv(s: Seq<char>) -> Option<CTFamily> {
    if s == "ip"@ {
        Some(CTFamily::IP)
    } else if s == "ip6"@ {
        Some(CTFamily::IP6)
    } else {
        None
    }
}

pub proof fn lemma_ct_family_inv_tok(v: CTFamily)
    ensures
        ct_family_inv(ct_family_tok(v)) == Some(v),
{
    reveal_strlit("ip");
    reveal_strlit("ip6");
    assert("ip"@.len() == 2 && "ip6"@.len() == 3);
}

pub fn ct_family_to_wire(v: CTFamily) -> (r: &'static str)
    ensures
        r@ == ct_family_tok(v),
{
    match v {
        CTFamily::IP => "ip",
        CTFamily::IP6 => "ip6",
    }
}

pub fn ct_family_from_wire(s: &str) -> (r: Option<CTFamily>)
    ensures
        r == ct_family_inv(s@),
{
    if crate::json::str_eq(s, "ip") {
        Some(CTFamily::IP)
    } else if crate::json::str_eq(s, "ip6") {
        Some(CTFamily::IP6)
    } else {
        None
    }
}

/// Represents a direction for use by the `ct` expression.
#[derive(Debug, Clone, Copy, PartialEq, Eq, Structural)]
pub enum CTDir {
    Original,
    Reply,
}

pub open spec fn ct_dir_tok(v: CTDir) -> Seq<char> {
    match v {
        CTDir::Original => "original"@,
        CTDir::Reply => "reply"@,
    }
}

pub open spec fn ct_dir_inv(s: Seq<char>) -> Option<CTDir> {
    if s == "original"@ {
        Some(CTDir::Original)
    } else if s == "reply"@ {
        Some(CTDir::Reply)
    } else {
        None
    }
}

pub proof fn lemma_ct_dir_inv_tok(v: CTDir)
    ensures
        ct_dir_inv(ct_dir_tok(v)) == Some(v),
{
    reveal_strlit("original");
    reveal_strlit("reply");
    assert("original"@.len() >= 1 && "original"@[0] == 'o');
    assert("reply"@.len() >= 1 && "reply"@[0] == 'r');
}

pub fn ct_dir_to_wire(v: CTDir) -> (r: &'static str)
    ensures
        r@ == ct_dir_tok(v),
{
    match v {
        CTDir::Original => "original",
        CTDir::Reply => "reply",
    }
}

pub fn ct_dir_from_wire(s: &str) -> (r: Option<CTDir>)
    ensures
        r == ct_dir_inv(s@),
{
    if crate::json::str_eq(s, "original") {
        Some(CTDir::Original)
    } else if crate::json::str_eq(s, "reply") {
        Some(CTDir::Reply)
    } else {
        None
    }
}

/// Create a number generator.
#[derive(Debug, Clone, Copy, PartialEq, Eq, Structural)]
pub struct Numgen {
    pub mode: NgMode,
    /// The wire property is named `mod`.
    pub ng_mod: u32,
    pub offset: Option<u32>,
}

/// Represents a number generator mode.
#[derive(Debug, Clone, Copy, PartialEq, Eq, Structural)]
pub enum NgMode {
    Inc,
    Random,
}

pub open spec fn ng_mode_tok(v: NgMode) -> Seq<char> {
    match v {
        NgMode::Inc => "inc"@,
        NgMode::Random => "random"@,
    }
}

pub open spec fn ng_mode_inv(s: Seq<char>) -> Option<NgMode> {
    if s == "inc"@ {
        Some(NgMode::Inc)
    } else if s == "random"@ {
        Some(NgMode::Random)
    } else {
        None
    }
}

pub proof fn lemma_ng_mode_inv_tok(v: NgMode)
    ensures
        ng_mode_inv(ng_mode_tok(v)) == Some(v),
{
    reveal_strlit("inc");
    reveal_strlit("random");
    assert("inc"@.len() >= 1 && "inc"@[0] == 'i');
    assert("random"@.len() >= 1 && "random"@[0] == 'r');
}

pub fn ng_mode_to_wire(v: NgMode) -> (r: &'static str)
    ensures
        r@ == ng_mode_tok(v),
{
    match v {
        NgMode::Inc => "inc",
        NgMode::Random => "random",
    }
}

pub fn ng_mode_from_wire(s: &str) -> (r: Option<NgMode>)
    ensures
        r == ng_mode_inv(s@),
{
    if crate::json::str_eq(s, "inc") {
        Some(NgMode::Inc)
    } else if crate::json::str_eq(s, "random") {
        Some(NgMode::Random)
    } else {
        None
    }
}

/// Hash packet data.
#[derive(Debug)]
pub struct JHash {
    /// The wire property is named `mod`.
    pub hash_mod: u32,
    pub offset: Option<u32>,
    pub expr: Box<Expression>,
    pub seed: Option<u32>,
}

/// Mathematical mirror of `JHash`.
pub struct JHashM {
    pub hash_mod: u32,
    pub offset: Option<u32>,
    pub expr: Box<ExpressionM>,
    pub seed: Option<u32>,
}

/// Hash packet data.
#[derive(Debug, Clone, Copy, PartialEq, Eq, Structural)]
pub struct SymHash {
    /// The wire property is named `mod`.
    pub hash_mod: u32,
    pub offset: u32,
}

/// Perform kernel Forwarding Information Base lookups.
#[derive(Debug)]
pub struct Fib {
    pub result: FibResult,
    pub flags: Vec<FibFlag>,
}

/// Mathematical mirror of `Fib`.
pub struct FibM {
    pub result: FibResult,
    pub flags: Seq<FibFlag>,
}

/// Represents which data is queried by `fib` lookup.
#[derive(Debug, Clone, Copy, PartialEq, Eq, Structural)]
pub enum FibResult {
    Oif,
    Oifname,
    Type,
}

pub open spec fn fib_result_tok(v: FibResult) -> Seq<char> {
    match v {
        FibResult::Oif => "oif"@,
        FibResult::Oifname => "oifname"@,
        FibResult::Type => "type"@,
    }
}

pub open spec fn fib_result_inv(s: Seq<char>) -> Option<FibResult> {
    if s == "oif"@ {
        Some(FibResult::Oif)
    } else if s == "oifname"@ {
        Some(FibResult::Oifname)
    } else if s == "type"@ {
        Some(FibResult::Type)
    } else {
        None
    }
}

pub proof fn lemma_fib_result_inv_tok(v: FibResult)
    ensures
        fib_result_inv(fib_result_tok(v)) == Some(v),
{
    reveal_strlit("oif");
    reveal_strlit("oifname");
    reveal_strlit("type");
    assert("oif"@.len() == 3 && "oif"@[0] == 'o');
    assert("oifname"@.len() == 7 && "oifname"@[0] == 'o');
    assert("type"@.len() == 4 && "type"@[0] == 't');
}

pub fn fib_result_to_wire(v: FibResult) -> (r: &'static str)
    ensures
        r@ == fib_result_tok(v),
{
    match v {
        FibResult::Oif => "oif",
        FibResult::Oifname => "oifname",
        FibResult::Type => "type",
    }
}

pub fn fib_result_from_wire(s: &str) -> (r: Option<FibResult>)
    ensures
        r == fib_result_inv(s@),
{
    if crate::json::str_eq(s, "oif") {
        Some(FibResult::Oif)
    } else if crate::json::str_eq(s, "oifname") {
        Some(FibResult::Oifname)
    } else if crate::json::str_eq(s, "type") {
        Some(FibResult::Type)
    } else {
        None
    }
}

/// Represents flags for `fib` lookup.
#[derive(Debug, Clone, Copy, PartialEq, Eq, Structural)]
pub enum FibFlag {
    /// Consider the source address of a packet.
    Saddr,
    /// Consider the destination address of a packet.
    Daddr,
    /// Consider the packet mark.
    Mark,
    /// Consider the packet's input interface.
    Iif,
    /// Consider the packet's output interface.
    Oif,
}

pub open spec fn fib_flag_tok(v: FibFlag) -> Seq<char> {
    match v {
        FibFlag::Saddr => "saddr"@,
        FibFlag::Daddr => "daddr"@,
        FibFlag::Mark => "mark"@,
        FibFlag::Iif => "iif"@,
        FibFlag::Oif => "oif"@,
    }
}

pub open spec fn fib_flag_inv(s: Seq<char>) -> Option<FibFlag> {
    if s == "saddr"@ {
        Some(FibFlag::Saddr)
    } else if s == "daddr"@ {
        Some(FibFlag::Daddr)
    } else if s == "mark"@ {
        Some(FibFlag::Mark)
    } else if s == "iif"@ {
        Some(FibFlag::Iif)
    } else if s == "oif"@ {
        Some(FibFlag::Oif)
    } else {
        None
    }
}

pub proof fn lemma_fib_flag_inv_tok(v: FibFlag)
    ensures
        fib_flag_inv(fib_flag_tok(v)) == Some(v),
{
    reveal_strlit("saddr");
    reveal_strlit("daddr");
    reveal_strlit("mark");
    reveal_strlit("iif");
    reveal_strlit("oif");
    assert("saddr"@.len() >= 1 && "saddr"@[0] == 's');
    assert("daddr"@.len() >= 1 && "daddr"@[0] == 'd');
    assert("mark"@.len() >= 1 && "mark"@[0] == 'm');
    assert("iif"@.len() >= 1 && "iif"@[0] == 'i');
    assert("oif"@.len() >= 1 && "oif"@[0] == 'o');
}

pub fn fib_flag_to_wire(v: FibFlag) -> (r: &'static str)
    ensures
        r@ == fib_flag_tok(v),
{
    match v {
        FibFlag::Saddr => "saddr",
        FibFlag::Daddr => "daddr",
        FibFlag::Mark => "mark",
        FibFlag::Iif => "iif",
        FibFlag::Oif => "oif",
    }
}

pub fn fib_flag_from_wire(s: &str) -> (r: Option<FibFlag>)
    ensures
        r == fib_flag_inv(s@),
{
    if crate::json::str_eq(s, "saddr") {
        Some(FibFlag::Saddr)
    } else if crate::json::str_eq(s, "daddr") {
        Some(FibFlag::Daddr)
    } else if crate::json::str_eq(s, "mark") {
        Some(FibFlag::Mark)
    } else if crate::json::str_eq(s, "iif") {
        Some(FibFlag::Iif)
    } else if crate::json::str_eq(s, "oif") {
        Some(FibFlag::Oif)
    } else {
        None
    }
}

/// Represents a binary operation to be used in an `Expression`.
#[derive(Debug)]
pub enum BinaryOperation {
    /// Binary AND (`&`)
    AND(Expression, Expression),
    /// Binary OR (`|`)
    OR(Expression, Expression),
    /// Binary XOR (`^`)
    XOR(Expression, Expression),
    /// Left shift (`<<`)
    LSHIFT(Expression, Expression),
    /// Right shift (`>>`)
    RSHIFT(Expression, Expression),
}

/// Mathematical mirror of `BinaryOperation`.
pub enum BinaryOperationM {
    AND(ExpressionM, ExpressionM),
    OR(ExpressionM, ExpressionM),
    XOR(ExpressionM, ExpressionM),
    LSHIFT(ExpressionM, ExpressionM),
    RSHIFT(ExpressionM, ExpressionM),
}

/// Verdict expression.
#[derive(Debug)]
pub enum Verdict {
    Accept,
    Drop,
    Continue,
    Return,
    Jump(JumpTarget),
    Goto(JumpTarget),
}

/// Mathematical mirror of `Verdict`.
pub enum VerdictM {
    Accept,
    Drop,
    Continue,
    Return,
    Jump(JumpTargetM),
    Goto(JumpTargetM),
}

/// Explicitly set element object.
#[derive(Debug)]
pub struct Elem {
    pub val: Box<Expression>,
    pub timeout: Option<u32>,
    pub expires: Option<u32>,
    pub comment: Option<String>,
    pub counter: Option<Counter>,
}

/// Mathematical mirror of `Elem`.
pub struct ElemM {
    pub val: Box<ExpressionM>,
    pub timeout: Option<u32>,
    pub expires: Option<u32>,
    pub comment: Option<Seq<char>>,
    pub counter: Option<CounterM>,
}

/// Construct a reference to packet's socket.
#[derive(Debug)]
pub struct Socket {
    pub key: String,
}

/// Mathematical mirror of `Socket`.
pub struct SocketM {
    pub key: Seq<char>,
}

/// Perform OS fingerprinting.
/// This expression is typically used in the LHS of a `match` statement.
#[derive(Debug)]
pub struct Osf {
    /// Name of the OS signature to match.
    /// Use "unknown" for OS signatures that the expression could not detect.
    pub key: String,
    /// Do TTL checks on the packet to determine the operating system.
    pub ttl: OsfTtl,
}

/// Mathematical mirror of `Osf`.
pub struct OsfM {
    pub key: Seq<char>,
    pub ttl: OsfTtl,
}

/// TTL check mode for `osf`.
#[derive(Debug, Clone, Copy, PartialEq, Eq, Structural)]
pub enum OsfTtl {
    /// Check if the IP header's TTL is less than the fingerprint one.
    Loose,
    /// Do not compare the TTL at all.
    Skip,
}

pub open spec fn osf_ttl_tok(v: OsfTtl) -> Seq<char> {
    match v {
        OsfTtl::Loose => "loose"@,
        OsfTtl::Skip => "skip"@,
    }
}

pub open spec fn osf_ttl_inv(s: Seq<char>) -> Option<OsfTtl> {
    if s == "loose"@ {
        Some(OsfTtl::Loose)
    } else if s == "skip"@ {
        Some(OsfTtl::Skip)
    } else {
        None
    }
}

pub proof fn lemma_osf_ttl_inv_tok(v: OsfTtl)
    ensures
        osf_ttl_inv(osf_ttl_tok(v)) == Some(v),
{
    reveal_strlit("loose");
    reveal_strlit("skip");
    assert("loose"@.len() >= 1 && "loose"@[0] == 'l');
    assert("skip"@.len() >= 1 && "skip"@[0] == 's');
}

pub fn osf_ttl_to_wire(v: OsfTtl) -> (r: &'static str)
    ensures
        r@ == osf_ttl_tok(v),
{
    match v {
        OsfTtl::Loose => "loose",
        OsfTtl::Skip => "skip",
    }
}

pub fn osf_ttl_from_wire(s: &str) -> (r: Option<OsfTtl>)
    ensures
        r == osf_ttl_inv(s@),
{
    if crate::json::str_eq(s, "loose") {
        Some(OsfTtl::Loose)
    } else if crate::json::str_eq(s, "skip") {
        Some(OsfTtl::Skip)
    } else {
        None
    }
}

} // verus!
