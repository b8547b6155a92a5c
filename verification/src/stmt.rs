use vstd::prelude::*;

use crate::expr::{Expression, ExpressionM};
use crate::json::{Json, JsonM};
use crate::types::{RejectCode, SynProxyFlag};

verus! {

broadcast use vstd::string::group_string_axioms;

/// Statements are the building blocks for rules.  Each rule consists of
/// at least one.
#[derive(Debug)]
pub enum Statement {
    /// `accept` verdict.
    Accept(Option<Accept>),
    /// `drop` verdict.
    Drop(Option<Drop>),
    /// `continue` verdict.
    Continue(Option<Continue>),
    /// `return` verdict.
    Return(Option<Return>),
    /// `jump` verdict.  Expects a target chain name.
    Jump(JumpTarget),
    /// `goto` verdict.  Expects a target chain name.
    Goto(JumpTarget),
    Match(Match),
    /// Anonymous or named counter.
    Counter(Counter),
    Mangle(Mangle),
    /// Anonymous or named quota.
    Quota(QuotaOrQuotaRef),
    Limit(Limit),
    /// The Flow statement offloads matching network traffic to flowtables.
    Flow(Flow),
    FWD(Option<FWD>),
    /// Disable connection tracking for the packet.
    Notrack,
    Dup(Dup),
    SNAT(Option<NAT>),
    DNAT(Option<NAT>),
    /// Masquerade is a subset of the NAT options.
    Masquerade(Option<NAT>),
    /// Redirect is a subset of the NAT options.
    Redirect(Option<NAT>),
    Reject(Option<Reject>),
    SetStmt(SetStmt),
    Log(Option<Log>),
    /// Enable the specified conntrack helper for this packet.
    CTHelper(String),
    Meter(Meter),
    Queue(Queue),
    VerdictMap(VerdictMap),
    CTCount(CTCount),
    /// Assign connection tracking timeout policy.
    CTTimeout(Expression),
    /// Assign connection tracking expectation.
    CTExpectation(Expression),
    /// An opaque xt statement from the xtables compat interface.
    XT(Option<Json>),
    /// Intercept new TCP connections and handle the initial 3-way
    /// handshake using syncookies instead of conntrack.
    SynProxy(SynProxy),
    /// Redirect the packet to a local socket without changing the packet
    /// header in any way.
    TProxy(TProxy),
}

/// Mathematical mirror of `Statement`.
pub enum StatementM {
    Accept(Option<Accept>),
    Drop(Option<Drop>),
    Continue(Option<Continue>),
    Return(Option<Return>),
    Jump(JumpTargetM),
    Goto(JumpTargetM),
    Match(MatchM),
    Counter(CounterM),
    Mangle(MangleM),
    Quota(QuotaOrQuotaRefM),
    Limit(LimitM),
    Flow(FlowM),
    FWD(Option<FWDM>),
    Notrack,
    Dup(DupM),
    SNAT(Option<NATM>),
    DNAT(Option<NATM>),
    Masquerade(Option<NATM>),
    Redirect(Option<NATM>),
    Reject(Option<Reject>),
    SetStmt(SetStmtM),
    Log(Option<LogM>),
    CTHelper(Seq<char>),
    Meter(MeterM),
    Queue(QueueM),
    VerdictMap(VerdictMapM),
    CTCount(CTCountM),
    CTTimeout(ExpressionM),
    CTExpectation(ExpressionM),
    XT(Option<JsonM>),
    SynProxy(SynProxyM),
    TProxy(TProxyM),
}

/// `accept` verdict.
#[derive(Debug, Clone, Copy, PartialEq, Eq, Structural)]
pub struct Accept {}

/// `drop` verdict.
#[derive(Debug, Clone, Copy, PartialEq, Eq, Structural)]
pub struct Drop {}

/// `continue` verdict.
#[derive(Debug, Clone, Copy, PartialEq, Eq, Structural)]
pub struct Continue {}

/// `return` verdict.
#[derive(Debug, Clone, Copy, PartialEq, Eq, Structural)]
pub struct Return {}

/// Target of a `jump` or `goto` verdict.
#[derive(Debug)]
pub struct JumpTarget {
    pub target: String,
}

/// Mathematical mirror of `JumpTarget`.
pub struct JumpTargetM {
    pub target: Seq<char>,
}

/// This matches the expression on left hand side (typically a packet
/// header or packet meta info) with the expression on right hand side
/// (typically a constant value).
#[derive(Debug)]
pub struct Match {
    /// Left hand side of this match.
    pub left: Expression,
    /// Right hand side of this match.
    pub right: Expression,
    /// Operator indicating the type of comparison.
    pub op: Operator,
}

/// Mathematical mirror of `Match`.
pub struct MatchM {
    pub left: ExpressionM,
    pub right: ExpressionM,
    pub op: Operator,
}

/// Anonymous or named Counter.
#[derive(Debug)]
pub enum Counter {
    /// A counter referenced by name.
    Named(String),
    /// An anonymous counter.
    Anonymous(Option<AnonymousCounter>),
}

/// Mathematical mirror of `Counter`.
pub enum CounterM {
    Named(Seq<char>),
    Anonymous(Option<AnonymousCounter>),
}

/// This object represents a byte/packet counter.
/// In input, no properties are required.  If given, they act as initial
/// values for the counter.
#[derive(Debug, Clone, Copy, PartialEq, Eq, Structural)]
pub struct AnonymousCounter {
    /// Packets counted.
    pub packets: Option<u32>,
    /// Bytes counted.
    pub bytes: Option<u32>,
}

impl Default for AnonymousCounter {
    /// A counter with no initial values.
    fn default() -> (r: Self)
        ensures
            r.packets is None,
            r.bytes is None,
    {
        AnonymousCounter { packets: None, bytes: None }
    }
}

/// This changes the packet data or meta info.
#[derive(Debug)]
pub struct Mangle {
    /// The packet data to be changed, given as an `exthdr`, `payload`,
    /// `meta`, `ct` or `ct helper` expression.
    pub key: Expression,
    /// Value to change data to.
    pub value: Expression,
}

/// Mathematical mirror of `Mangle`.
pub struct MangleM {
    pub key: ExpressionM,
    pub value: ExpressionM,
}

/// Represents an anonymous or named quota object.
#[derive(Debug)]
pub enum QuotaOrQuotaRef {
    /// Anonymous quota object.
    Quota(Quota),
    /// Reference to a named quota object.
    QuotaRef(String),
}

/// Mathematical mirror of `QuotaOrQuotaRef`.
pub enum QuotaOrQuotaRefM {
    Quota(QuotaM),
    QuotaRef(Seq<char>),
}

/// Creates an anonymous quota which lives in the rule it appears in.
#[derive(Debug)]
pub struct Quota {
    /// Quota value.
    pub val: u32,
    /// Unit of `val`, e.g. `"kbytes"` or `"mbytes"`.
    pub val_unit: String,
    /// Quota used so far.  Optional on input.
    pub used: Option<u32>,
    /// Unit of `used`.  Defaults to `"bytes"`.
    pub used_unit: Option<String>,
    /// If `true`, will match if quota was exceeded.
    pub inv: Option<bool>,
}

/// Mathematical mirror of `Quota`.
pub struct QuotaM {
    pub val: u32,
    pub val_unit: Seq<char>,
    pub used: Option<u32>,
    pub used_unit: Option<Seq<char>>,
    pub inv: Option<bool>,
}

/// Creates an anonymous limit which lives in the rule it appears in.
#[derive(Debug)]
pub struct Limit {
    /// Rate value to limit to.
    pub rate: u32,
    /// Unit of `rate`, e.g. `"packets"` or `"mbytes"`.
    pub rate_unit: Option<String>,
    /// Denominator of rate, e.g. `"week"` or `"minutes"`.
    pub per: Option<String>,
    /// Burst value.  Defaults to `0`.
    pub burst: Option<u32>,
    /// Unit of `burst`, ignored if `rate_unit` is `"packets"`.
    pub burst_unit: Option<String>,
    /// If `true`, will match if the limit was exceeded.
    pub inv: Option<bool>,
}

/// Mathematical mirror of `Limit`.
pub struct LimitM {
    pub rate: u32,
    pub rate_unit: Option<Seq<char>>,
    pub per: Option<Seq<char>>,
    pub burst: Option<u32>,
    pub burst_unit: Option<Seq<char>>,
    pub inv: Option<bool>,
}

/// Offload matching traffic to a flow table.
#[derive(Debug)]
pub struct Flow {
    /// Operator on flow/set.
    pub op: SetOp,
    /// The flow table's name.
    pub flowtable: String,
}

/// Mathematical mirror of `Flow`.
pub struct FlowM {
    pub op: SetOp,
    pub flowtable: Seq<char>,
}

/// Forward a packet to a different destination.
#[derive(Debug)]
pub struct FWD {
    /// Interface to forward the packet on.
    pub dev: Option<Expression>,
    /// Family of `addr`.
    pub family: Option<FWDFamily>,
    /// IP(v6) address to forward the packet to.
    pub addr: Option<Expression>,
}

/// Mathematical mirror of `FWD`.
pub struct FWDM {
    pub dev: Option<ExpressionM>,
    pub family: Option<FWDFamily>,
    pub addr: Option<ExpressionM>,
}

/// Protocol family for `FWD`.
#[derive(Debug, Clone, Copy, PartialEq, Eq, Structural)]
pub enum FWDFamily {
    IP,
    IP6,
}

pub open spec fn fwd_family_tok(v: FWDFamily) -> Seq<char> {
    match v {
        FWDFamily::IP => "ip"@,
        FWDFamily::IP6 => "ip6"@,
    }
}

pub open spec fn fwd_family_inv(s: Seq<char>) -> Option<FWDFamily> {
    if s == "ip"@ {
        Some(FWDFamily::IP)
    } else if s == "ip6"@ {
        Some(FWDFamily::IP6)
    } else {
        None
    }
}

pub proof fn lemma_fwd_family_inv_tok(v: FWDFamily)
    ensures
        fwd_family_inv(fwd_family_tok(v)) == Some(v),
{
    reveal_strlit("ip");
    reveal_strlit("ip6");
    assert("ip"@.len() == 2 && "ip6"@.len() == 3);
}

pub fn fwd_family_to_wire(v: FWDFamily) -> (r: &'static str)
    ensures
        r@ == fwd_family_tok(v),
{
    match v {
        FWDFamily::IP => "ip",
        FWDFamily::IP6 => "ip6",
    }
}

pub fn fwd_family_from_wire(s: &str) -> (r: Option<FWDFamily>)
    ensures
        r == fwd_family_inv(s@),
{
    if crate::json::str_eq(s, "ip") {
        Some(FWDFamily::IP)
    } else if crate::json::str_eq(s, "ip6") {
        Some(FWDFamily::IP6)
    } else {
        None
    }
}

/// Duplicate a packet to a different destination.
#[derive(Debug)]
pub struct Dup {
    /// Address to duplicate packet to.
    pub addr: Expression,
    /// Interface to duplicate packet on.  May be omitted.
    pub dev: Option<Expression>,
}

/// Mathematical mirror of `Dup`.
pub struct DupM {
    pub addr: ExpressionM,
    pub dev: Option<ExpressionM>,
}

/// Perform Network Address Translation.
/// Referenced by `SNAT` and `DNAT` statements.
#[derive(Debug)]
pub struct NAT {
    /// Address to translate to.
    pub addr: Option<Expression>,
    /// Family of `addr`, either ip or ip6.  Required in inet table family.
    pub family: Option<NATFamily>,
    /// Port to translate to.
    pub port: Option<u32>,
    /// Flag(s).
    pub flags: Option<Vec<NATFlag>>,
}

/// Mathematical mirror of `NAT`.
pub struct NATM {
    pub addr: Option<ExpressionM>,
    pub family: Option<NATFamily>,
    pub port: Option<u32>,
    pub flags: Option<Seq<NATFlag>>,
}

/// Protocol family for `NAT`.
#[derive(Debug, Clone, Copy, PartialEq, Eq, Structural)]
pub enum NATFamily {
    IP,
    IP6,
}

pub open spec fn nat_family_tok(v: NATFamily) -> Seq<char> {
    match v {
        NATFamily::IP => "ip"@,
        NATFamily::IP6 => "ip6"@,
    }
}

pub open spec fn nat_family_inv(s: Seq<char>) -> Option<NATFamily> {
    if s == "ip"@ {
        Some(NATFamily::IP)
    } else if s == "ip6"@ {
        Some(NATFamily::IP6)
    } else {
        None
    }
}

pub proof fn lemma_nat_family_inv_tok(v: NATFamily)
    ensures
        nat_family_inv(nat_family_tok(v)) == Some(v),
{
    reveal_strlit("ip");
    reveal_strlit("ip6");
    assert("ip"@.len() == 2 && "ip6"@.len() == 3);
}

pub fn nat_family_to_wire(v: NATFamily) -> (r: &'static str)
    ensures
        r@ == nat_family_tok(v),
{
    match v {
        NATFamily::IP => "ip",
        NATFamily::IP6 => "ip6",
    }
}

pub fn nat_family_from_wire(s: &str) -> (r: Option<NATFamily>)
    ensures
        r == nat_family_inv(s@),
{
    if crate::json::str_eq(s, "ip") {
        Some(NATFamily::IP)
    } else if crate::json::str_eq(s, "ip6") {
        Some(NATFamily::IP6)
    } else {
        None
    }
}

/// Flags for `NAT`.
#[derive(Debug, Clone, Copy, PartialEq, Eq, Structural)]
pub enum NATFlag {
    Random,
    FullyRandom,
    Persistent,
}

pub open spec fn nat_flag_tok(v: NATFlag) -> Seq<char> {
    match v {
        NATFlag::Random => "random"@,
        NATFlag::FullyRandom => "fully-random"@,
        NATFlag::Persistent => "persistent"@,
    }
}

pub open spec fn nat_flag_inv(s: Seq<char>) -> Option<NATFlag> {
    if s == "random"@ {
        Some(NATFlag::Random)
    } else if s == "fully-random"@ {
        Some(NATFlag::FullyRandom)
    } else if s == "persistent"@ {
        Some(NATFlag::Persistent)
    } else {
        None
    }
}

pub proof fn lemma_nat_flag_inv_tok(v: NATFlag)
    ensures
        nat_flag_inv(nat_flag_tok(v)) == Some(v),
{
    reveal_strlit("random");
    reveal_strlit("fully-random");
    reveal_strlit("persistent");
    assert("random"@.len() >= 1 && "random"@[0] == 'r');
    assert("fully-random"@.len() >= 1 && "fully-random"@[0] == 'f');
    assert("persistent"@.len() >= 1 && "persistent"@[0] == 'p');
}

pub fn nat_flag_to_wire(v: NATFlag) -> (r: &'static str)
    ensures
        r@ == nat_flag_tok(v),
{
    match v {
        NATFlag::Random => "random",
        NATFlag::FullyRandom => "fully-random",
        NATFlag::Persistent => "persistent",
    }
}

pub fn nat_flag_from_wire(s: &str) -> (r: Option<NATFlag>)
    ensures
        r == nat_flag_inv(s@),
{
    if crate::json::str_eq(s, "random") {
        Some(NATFlag::Random)
    } else if crate::json::str_eq(s, "fully-random") {
        Some(NATFlag::FullyRandom)
    } else if crate::json::str_eq(s, "persistent") {
        Some(NATFlag::Persistent)
    } else {
        None
    }
}

/// Reject the packet and send the given error reply.
#[derive(Debug, Clone, Copy, PartialEq, Eq, Structural)]
pub struct Reject {
    /// Type of reject; the wire property is named `type`.
    pub _type: Option<RejectType>,
    /// ICMP code to reject with.
    pub expr: Option<RejectCode>,
}

impl Reject {
    pub fn new(_type: Option<RejectType>, code: Option<RejectCode>) -> (r: Reject)
        ensures
            r._type == _type,
            r.expr == code,
    {
        Reject { _type, expr: code }
    }
}

/// Types of `Reject`.
#[derive(Debug, Clone, Copy, PartialEq, Eq, Structural)]
pub enum RejectType {
    TCPReset,
    ICMPX,
    ICMP,
    ICMPv6,
}

pub open spec fn reject_type_tok(v: RejectType) -> Seq<char> {
    match v {
        RejectType::TCPReset => "tcp reset"@,
        RejectType::ICMPX => "icmpx"@,
        RejectType::ICMP => "icmp"@,
        RejectType::ICMPv6 => "icmpv6"@,
    }
}

pub open spec fn reject_type_inv(s: Seq<char>) -> Option<RejectType> {
    if s == "tcp reset"@ {
        Some(RejectType::TCPReset)
    } else if s == "icmpx"@ {
        Some(RejectType::ICMPX)
    } else if s == "icmp"@ {
        Some(RejectType::ICMP)
    } else if s == "icmpv6"@ {
        Some(RejectType::ICMPv6)
    } else {
        None
    }
}

pub proof fn lemma_reject_type_inv_tok(v: RejectType)
    ensures
        reject_type_inv(reject_type_tok(v)) == Some(v),
{
    reveal_strlit("tcp reset");
    reveal_strlit("icmpx");
    reveal_strlit("icmp");
    reveal_strlit("icmpv6");
    assert("tcp reset"@.len() == 9 && "tcp reset"@[0] == 't');
    assert("icmpx"@.len() == 5 && "icmpx"@[0] == 'i');
    assert("icmp"@.len() == 4 && "icmp"@[0] == 'i');
    assert("icmpv6"@.len() == 6 && "icmpv6"@[0] == 'i');
}

pub fn reject_type_to_wire(v: RejectType) -> (r: &'static str)
    ensures
        r@ == reject_type_tok(v),
{
    match v {
        RejectType::TCPReset => "tcp reset",
        RejectType::ICMPX => "icmpx",
        RejectType::ICMP => "icmp",
        RejectType::ICMPv6 => "icmpv6",
    }
}

pub fn reject_type_from_wire(s: &str) -> (r: Option<RejectType>)
    ensures
        r == reject_type_inv(s@),
{
    if crate::json::str_eq(s, "tcp reset") {
        Some(RejectType::TCPReset)
    } else if crate::json::str_eq(s, "icmpx") {
        Some(RejectType::ICMPX)
    } else if crate::json::str_eq(s, "icmp") {
        Some(RejectType::ICMP)
    } else if crate::json::str_eq(s, "icmpv6") {
        Some(RejectType::ICMPv6)
    } else {
        None
    }
}

/// Dynamically add/update elements to a set.
#[derive(Debug)]
pub struct SetStmt {
    /// Operator on set.
    pub op: SetOp,
    /// Set element to add or update.
    pub elem: Expression,
    /// Set reference.
    pub set: String,
}

/// Mathematical mirror of `SetStmt`.
pub struct SetStmtM {
    pub op: SetOp,
    pub elem: ExpressionM,
    pub set: Seq<char>,
}

/// Operators on `SetStmt`.
#[derive(Debug, Clone, Copy, PartialEq, Eq, Structural)]
pub enum SetOp {
    Add,
    Update,
}

pub open spec fn set_op_tok(v: SetOp) -> Seq<char> {
    match v {
        SetOp::Add => "add"@,
        SetOp::Update => "update"@,
    }
}

pub open spec fn set_op_inv(s: Seq<char>) -> Option<SetOp> {
    if s == "add"@ {
        Some(SetOp::Add)
    } else if s == "update"@ {
        Some(SetOp::Update)
    } else {
        None
    }
}

pub proof fn lemma_set_op_inv_tok(v: SetOp)
    ensures
        set_op_inv(set_op_tok(v)) == Some(v),
{
    reveal_strlit("add");
    reveal_strlit("update");
    assert("add"@.len() >= 1 && "add"@[0] == 'a');
    assert("update"@.len() >= 1 && "update"@[0] == 'u');
}

pub fn set_op_to_wire(v: SetOp) -> (r: &'static str)
    ensures
        r@ == set_op_tok(v),
{
    match v {
        SetOp::Add => "add",
        SetOp::Update => "update",
    }
}

pub fn set_op_from_wire(s: &str) -> (r: Option<SetOp>)
    ensures
        r == set_op_inv(s@),
{
    if crate::json::str_eq(s, "add") {
        Some(SetOp::Add)
    } else if crate::json::str_eq(s, "update") {
        Some(SetOp::Update)
    } else {
        None
    }
}

/// Log the packet.
/// All properties are optional.
#[derive(Debug)]
pub struct Log {
    /// Prefix for log entries.
    pub prefix: Option<String>,
    /// Log group.
    pub group: Option<u32>,
    /// Snaplen for logging.
    pub snaplen: Option<u32>,
    /// Queue threshold; the wire property is named `queue-threshold`.
    pub queue_threshold: Option<u32>,
    /// Log level.  Defaults to `"warn"`.
    pub level: Option<LogLevel>,
    /// Log flags.
    pub flags: Option<Vec<LogFlag>>,
}

/// Mathematical mirror of `Log`.
pub struct LogM {
    pub prefix: Option<Seq<char>>,
    pub group: Option<u32>,
    pub snaplen: Option<u32>,
    pub queue_threshold: Option<u32>,
    pub level: Option<LogLevel>,
    pub flags: Option<Seq<LogFlag>>,
}

impl Log {
    pub fn new(group: Option<u32>) -> (r: Self)
        ensures
            r.prefix is None,
            r.group == group,
            r.snaplen is None,
            r.queue_threshold is None,
            r.level is None,
            r.flags is None,
    {
        Log { prefix: None, group, snaplen: None, queue_threshold: None, level: None, flags: None }
    }
}

/// Levels of `Log`.
#[derive(Debug, Clone, Copy, PartialEq, Eq, Structural)]
pub enum LogLevel {
    Emerg,
    Alert,
    Crit,
    Error,
    Warn,
    Notice,
    Info,
    Debug,
    Audit,
}

pub open spec fn log_level_tok(v: LogLevel) -> Seq<char> {
    match v {
        LogLevel::Emerg => "emerg"@,
        LogLevel::Alert => "alert"@,
        LogLevel::Crit => "crit"@,
        LogLevel::Error => "err"@,
        LogLevel::Warn => "warn"@,
        LogLevel::Notice => "notice"@,
        LogLevel::Info => "info"@,
        LogLevel::Debug => "debug"@,
        LogLevel::Audit => "audit"@,
    }
}

pub open spec fn log_level_inv(s: Seq<char>) -> Option<LogLevel> {
    if s == "emerg"@ {
        Some(LogLevel::Emerg)
    } else if s == "alert"@ {
        Some(LogLevel::Alert)
    } else if s == "crit"@ {
        Some(LogLevel::Crit)
    } else if s == "err"@ {
        Some(LogLevel::Error)
    } else if s == "warn"@ {
        Some(LogLevel::Warn)
    } else if s == "notice"@ {
        Some(LogLevel::Notice)
    } else if s == "info"@ {
        Some(LogLevel::Info)
    } else if s == "debug"@ {
        Some(LogLevel::Debug)
    } else if s == "audit"@ {
        Some(LogLevel::Audit)
    } else {
        None
    }
}

pub proof fn lemma_log_level_inv_tok(v: LogLevel)
    ensures
        log_level_inv(log_level_tok(v)) == Some(v),
{
    reveal_strlit("emerg");
    reveal_strlit("alert");
    reveal_strlit("crit");
    reveal_strlit("err");
    reveal_strlit("warn");
    reveal_strlit("notice");
    reveal_strlit("info");
    reveal_strlit("debug");
    reveal_strlit("audit");
    assert("emerg"@.len() >= 2 && "emerg"@[0] == 'e' && "emerg"@[1] == 'm');
    assert("alert"@.len() >= 2 && "alert"@[0] == 'a' && "alert"@[1] == 'l');
    assert("crit"@.len() >= 2 && "crit"@[0] == 'c' && "crit"@[1] == 'r');
    assert("err"@.len() >= 2 && "err"@[0] == 'e' && "err"@[1] == 'r');
    assert("warn"@.len() >= 2 && "warn"@[0] == 'w' && "warn"@[1] == 'a');
    assert("notice"@.len() >= 2 && "notice"@[0] == 'n' && "notice"@[1] == 'o');
    assert("info"@.len() >= 2 && "info"@[0] == 'i' && "info"@[1] == 'n');
    assert("debug"@.len() >= 2 && "debug"@[0] == 'd' && "debug"@[1] == 'e');
    assert("audit"@.len() >= 2 && "audit"@[0] == 'a' && "audit"@[1] == 'u');
    assert("emerg"@.len() == 5 && "err"@.len() == 3);
}

pub fn log_level_to_wire(v: LogLevel) -> (r: &'static str)
    ensures
        r@ == log_level_tok(v),
{
    match v {
        LogLevel::Emerg => "emerg",
        LogLevel::Alert => "alert",
        LogLevel::Crit => "crit",
        LogLevel::Error => "err",
        LogLevel::Warn => "warn",
        LogLevel::Notice => "notice",
        LogLevel::Info => "info",
        LogLevel::Debug => "debug",
        LogLevel::Audit => "audit",
    }
}

pub fn log_level_from_wire(s: &str) -> (r: Option<LogLevel>)
    ensures
        r == log_level_inv(s@),
{
    if crate::json::str_eq(s, "emerg") {
        Some(LogLevel::Emerg)
    } else if crate::json::str_eq(s, "alert") {
        Some(LogLevel::Alert)
    } else if crate::json::str_eq(s, "crit") {
        Some(LogLevel::Crit)
    } else if crate::json::str_eq(s, "err") {
        Some(LogLevel::Error)
    } else if crate::json::str_eq(s, "warn") {
        Some(LogLevel::Warn)
    } else if crate::json::str_eq(s, "notice") {
        Some(LogLevel::Notice)
    } else if crate::json::str_eq(s, "info") {
        Some(LogLevel::Info)
    } else if crate::json::str_eq(s, "debug") {
        Some(LogLevel::Debug)
    } else if crate::json::str_eq(s, "audit") {
        Some(LogLevel::Audit)
    } else {
        None
    }
}

/// Flags of `Log`.
#[derive(Debug, Clone, Copy, PartialEq, Eq, Structural)]
pub enum LogFlag {
    TCPSequence,
    TCPOptions,
    IPOptions,
    Skuid,
    Ether,
    All,
}

pub open spec fn log_flag_tok(v: LogFlag) -> Seq<char> {
    match v {
        LogFlag::TCPSequence => "tcp sequence"@,
        LogFlag::TCPOptions => "tcp options"@,
        LogFlag::IPOptions => "ip options"@,
        LogFlag::Skuid => "skuid"@,
        LogFlag::Ether => "ether"@,
        LogFlag::All => "all"@,
    }
}

pub open spec fn log_flag_inv(s: Seq<char>) -> Option<LogFlag> {
    if s == "tcp sequence"@ {
        Some(LogFlag::TCPSequence)
    } else if s == "tcp options"@ {
        Some(LogFlag::TCPOptions)
    } else if s == "ip options"@ {
        Some(LogFlag::IPOptions)
    } else if s == "skuid"@ {
        Some(LogFlag::Skuid)
    } else if s == "ether"@ {
        Some(LogFlag::Ether)
    } else if s == "all"@ {
        Some(LogFlag::All)
    } else {
        None
    }
}

pub proof fn lemma_log_flag_inv_tok(v: LogFlag)
    ensures
        log_flag_inv(log_flag_tok(v)) == Some(v),
{
    reveal_strlit("tcp sequence");
    reveal_strlit("tcp options");
    reveal_strlit("ip options");
    reveal_strlit("skuid");
    reveal_strlit("ether");
    reveal_strlit("all");
    assert("tcp sequence"@.len() == 12 && "tcp sequence"@[0] == 't');
    assert("tcp options"@.len() == 11 && "tcp options"@[0] == 't');
    assert("ip options"@.len() == 10 && "ip options"@[0] == 'i');
    assert("skuid"@.len() == 5 && "skuid"@[0] == 's');
    assert("ether"@.len() == 5 && "ether"@[0] == 'e');
    assert("all"@.len() == 3 && "all"@[0] == 'a');
}

pub fn log_flag_to_wire(v: LogFlag) -> (r: &'static str)
    ensures
        r@ == log_flag_tok(v),
{
    match v {
        LogFlag::TCPSequence => "tcp sequence",
        LogFlag::TCPOptions => "tcp options",
        LogFlag::IPOptions => "ip options",
        LogFlag::Skuid => "skuid",
        LogFlag::Ether => "ether",
        LogFlag::All => "all",
    }
}

pub fn log_flag_from_wire(s: &str) -> (r: Option<LogFlag>)
    ensures
        r == log_flag_inv(s@),
{
    if crate::json::str_eq(s, "tcp sequence") {
        Some(LogFlag::TCPSequence)
    } else if crate::json::str_eq(s, "tcp options") {
        Some(LogFlag::TCPOptions)
    } else if crate::json::str_eq(s, "ip options") {
        Some(LogFlag::IPOptions)
    } else if crate::json::str_eq(s, "skuid") {
        Some(LogFlag::Skuid)
    } else if crate::json::str_eq(s, "ether") {
        Some(LogFlag::Ether)
    } else if crate::json::str_eq(s, "all") {
        Some(LogFlag::All)
    } else {
        None
    }
}


/// Apply a given statement using a meter.
#[derive(Debug)]
pub struct Meter {
    /// Meter name.
    pub name: String,
    /// Meter key.
    pub key: Expression,
    /// Meter statement.
    pub stmt: Box<Statement>,
}

/// Mathematical mirror of `Meter`.
pub struct MeterM {
    pub name: Seq<char>,
    pub key: ExpressionM,
    pub stmt: Box<StatementM>,
}

/// Queue the packet to userspace.
#[derive(Debug)]
pub struct Queue {
    /// Queue number.
    pub num: Expression,
    /// Queue flags.
    pub flags: Option<Vec<QueueFlag>>,
}

/// Mathematical mirror of `Queue`.
pub struct QueueM {
    pub num: ExpressionM,
    pub flags: Option<Seq<QueueFlag>>,
}

/// Flags of `Queue`.
#[derive(Debug, Clone, Copy, PartialEq, Eq, Structural)]
pub enum QueueFlag {
    Bypass,
    Fanout,
}

pub open spec fn queue_flag_tok(v: QueueFlag) -> Seq<char> {
    match v {
        QueueFlag::Bypass => "bypass"@,
        QueueFlag::Fanout => "fanout"@,
    }
}

pub open spec fn queue_flag_inv(s: Seq<char>) -> Option<QueueFlag> {
    if s == "bypass"@ {
        Some(QueueFlag::Bypass)
    } else if s == "fanout"@ {
        Some(QueueFlag::Fanout)
    } else {
        None
    }
}

pub proof fn lemma_queue_flag_inv_tok(v: QueueFlag)
    ensures
        queue_flag_inv(queue_flag_tok(v)) == Some(v),
{
    reveal_strlit("bypass");
    reveal_strlit("fanout");
    assert("bypass"@.len() >= 1 && "bypass"@[0] == 'b');
    assert("fanout"@.len() >= 1 && "fanout"@[0] == 'f');
}

pub fn queue_flag_to_wire(v: QueueFlag) -> (r: &'static str)
    ensures
        r@ == queue_flag_tok(v),
{
    match v {
        QueueFlag::Bypass => "bypass",
        QueueFlag::Fanout => "fanout",
    }
}

pub fn queue_flag_from_wire(s: &str) -> (r: Option<QueueFlag>)
    ensures
        r == queue_flag_inv(s@),
{
    if crate::json::str_eq(s, "bypass") {
        Some(QueueFlag::Bypass)
    } else if crate::json::str_eq(s, "fanout") {
        Some(QueueFlag::Fanout)
    } else {
        None
    }
}

/// Apply a verdict conditionally.
#[derive(Debug)]
pub struct VerdictMap {
    /// Map key.
    pub key: Expression,
    /// Mapping expression consisting of value/verdict pairs.
    pub data: Expression,
}

/// Mathematical mirror of `VerdictMap`.
pub struct VerdictMapM {
    pub key: ExpressionM,
    pub data: ExpressionM,
}

/// Limit the number of connections using conntrack.
#[derive(Debug)]
pub struct CTCount {
    /// Connection count threshold.
    pub val: Expression,
    /// If `true`, match if `val` was exceeded.
    pub inv: Option<bool>,
}

/// Mathematical mirror of `CTCount`.
pub struct CTCountM {
    pub val: ExpressionM,
    pub inv: Option<bool>,
}

/// Intercept new TCP connections and handle the initial 3-way handshake
/// using syncookies instead of conntrack.
#[derive(Debug)]
pub struct SynProxy {
    /// Maximum segment size (must match the backend server).
    pub mss: Option<u32>,
    /// Window scale (must match the backend server).
    pub wscale: Option<u32>,
    /// The synproxy's flags.
    pub flags: Option<Vec<SynProxyFlag>>,
}

/// Mathematical mirror of `SynProxy`.
pub struct SynProxyM {
    pub mss: Option<u32>,
    pub wscale: Option<u32>,
    pub flags: Option<Seq<SynProxyFlag>>,
}

/// Redirects the packet to a local socket without changing the packet
/// header in any way.
#[derive(Debug)]
pub struct TProxy {
    pub family: Option<String>,
    pub port: u16,
    pub addr: Option<String>,
}

/// Mathematical mirror of `TProxy`.
pub struct TProxyM {
    pub family: Option<Seq<char>>,
    pub port: u16,
    pub addr: Option<Seq<char>>,
}

/// Represents an operator for `Match`.
#[derive(Debug, Clone, Copy, PartialEq, Eq, Structural)]
pub enum Operator {
    /// Binary AND (`&`)
    AND,
    /// Binary OR (`|`)
    OR,
    /// Binary XOR (`^`)
    XOR,
    /// Left shift (`<<`)
    LSHIFT,
    /// Right shift (`>>`)
    RSHIFT,
    /// Equal (`==`)
    EQ,
    /// Not equal (`!=`)
    NEQ,
    LT,
    GT,
    /// Less than or equal to (`<=`)
    LEQ,
    /// Greater than or equal to (`>=`)
    GEQ,
    /// Perform a lookup, i.e. test if bits on RHS are contained in LHS
    /// value (`in`)
    IN,
}

pub open spec fn operator_tok(v: Operator) -> Seq<char> {
    match v {
        Operator::AND => "&"@,
        Operator::OR => "|"@,
        Operator::XOR => "^"@,
        Operator::LSHIFT => "<<"@,
        Operator::RSHIFT => ">>"@,
        Operator::EQ => "=="@,
        Operator::NEQ => "!="@,
        Operator::LT => ">"@,
        Operator::GT => "<"@,
        Operator::LEQ => "<="@,
        Operator::GEQ => ">="@,
        Operator::IN => "in"@,
    }
}

pub open spec fn operator_inv(s: Seq<char>) -> Option<Operator> {
    if s == "&"@ {
        Some(Operator::AND)
    } else if s == "|"@ {
        Some(Operator::OR)
    } else if s == "^"@ {
        Some(Operator::XOR)
    } else if s == "<<"@ {
        Some(Operator::LSHIFT)
    } else if s == ">>"@ {
        Some(Operator::RSHIFT)
    } else if s == "=="@ {
        Some(Operator::EQ)
    } else if s == "!="@ {
        Some(Operator::NEQ)
    } else if s == ">"@ {
        Some(Operator::LT)
    } else if s == "<"@ {
        Some(Operator::GT)
    } else if s == "<="@ {
        Some(Operator::LEQ)
    } else if s == ">="@ {
        Some(Operator::GEQ)
    } else if s == "in"@ {
        Some(Operator::IN)
    } else {
        None
    }
}

pub proof fn lemma_operator_inv_tok(v: Operator)
    ensures
        operator_inv(operator_tok(v)) == Some(v),
{
    reveal_strlit("&");
    reveal_strlit("|");
    reveal_strlit("^");
    reveal_strlit("<<");
    reveal_strlit(">>");
    reveal_strlit("==");
    reveal_strlit("!=");
    reveal_strlit(">");
    reveal_strlit("<");
    reveal_strlit("<=");
    reveal_strlit(">=");
    reveal_strlit("in");
    assert("&"@.len() == 1 && "&"@[0] == '&');
    assert("|"@.len() == 1 && "|"@[0] == '|');
    assert("^"@.len() == 1 && "^"@[0] == '^');
    assert("<<"@.len() == 2 && "<<"@[0] == '<' && "<<"@[1] == '<');
    assert(">>"@.len() == 2 && ">>"@[0] == '>' && ">>"@[1] == '>');
    assert("=="@.len() == 2 && "=="@[0] == '=' && "=="@[1] == '=');
    assert("!="@.len() == 2 && "!="@[0] == '!' && "!="@[1] == '=');
    assert(">"@.len() == 1 && ">"@[0] == '>');
    assert("<"@.len() == 1 && "<"@[0] == '<');
    assert("<="@.len() == 2 && "<="@[0] == '<' && "<="@[1] == '=');
    assert(">="@.len() == 2 && ">="@[0] == '>' && ">="@[1] == '=');
    assert("in"@.len() == 2 && "in"@[0] == 'i' && "in"@[1] == 'n');
}

pub fn operator_to_wire(v: Operator) -> (r: &'static str)
    ensures
        r@ == operator_tok(v),
{
    match v {
        Operator::AND => "&",
        Operator::OR => "|",
        Operator::XOR => "^",
        Operator::LSHIFT => "<<",
        Operator::RSHIFT => ">>",
        Operator::EQ => "==",
        Operator::NEQ => "!=",
        Operator::LT => ">",
        Operator::GT => "<",
        Operator::LEQ => "<=",
        Operator::GEQ => ">=",
        Operator::IN => "in",
    }
}

pub fn operator_from_wire(s: &str) -> (r: Option<Operator>)
    ensures
        r == operator_inv(s@),
{
    if crate::json::str_eq(s, "&") {
        Some(Operator::AND)
    } else if crate::json::str_eq(s, "|") {
        Some(Operator::OR)
    } else if crate::json::str_eq(s, "^") {
        Some(Operator::XOR)
    } else if crate::json::str_eq(s, "<<") {
        Some(Operator::LSHIFT)
    } else if crate::json::str_eq(s, ">>") {
        Some(Operator::RSHIFT)
    } else if crate::json::str_eq(s, "==") {
        Some(Operator::EQ)
    } else if crate::json::str_eq(s, "!=") {
        Some(Operator::NEQ)
    } else if crate::json::str_eq(s, ">") {
        Some(Operator::LT)
    } else if crate::json::str_eq(s, "<") {
        Some(Operator::GT)
    } else if crate::json::str_eq(s, "<=") {
        Some(Operator::LEQ)
    } else if crate::json::str_eq(s, ">=") {
        Some(Operator::GEQ)
    } else if crate::json::str_eq(s, "in") {
        Some(Operator::IN)
    } else {
        None
    }
}

} // verus!
