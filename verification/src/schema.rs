use vstd::prelude::*;

use crate::expr::{Expression, ExpressionM};
use crate::stmt::{Statement, StatementM};
use crate::types::{CTHProto, NfChainPolicy, NfChainType, NfFamily, NfHook, NfTimeUnit, SynProxyFlag};

verus! {

broadcast use vstd::string::group_string_axioms;

/// Default family used by the `Default` constructors.
pub const DEFAULT_FAMILY: NfFamily = NfFamily::INet;

/// Default table name used by the `Default` constructors.
pub const DEFAULT_TABLE: &'static str = "filter";

/// Default chain name used by the `Default` constructors.
pub const DEFAULT_CHAIN: &'static str = "forward";

/// In general, any JSON input or output is enclosed in an object with a
/// single property named `nftables`.
#[derive(Debug)]
pub struct Nftables {
    /// An array containing commands (for input) or ruleset elements
    /// (for output).
    pub objects: Vec<NfObject>,
}

/// Mathematical mirror of `Nftables`.
pub struct NftablesM {
    pub objects: Seq<NfObjectM>,
}

/// A ruleset element or command in an nftables document.
#[derive(Debug)]
pub enum NfObject {
    /// A command.
    CmdObject(NfCmd),
    /// A ruleset element.
    ListObject(NfListObject),
}

/// Mathematical mirror of `NfObject`.
pub enum NfObjectM {
    CmdObject(NfCmdM),
    ListObject(NfListObjectM),
}

/// A ruleset element in an nftables document.
#[derive(Debug)]
pub enum NfListObject {
    /// A table element.
    Table(Table),
    /// A chain element.
    Chain(Chain),
    /// A rule element.
    Rule(Rule),
    /// A set element.
    SetObj(Box<SetObject>),
    /// A map element.
    MapObj(Box<MapObject>),
    /// An element manipulation.
    Element(Element),
    /// A flow table.
    FlowTable(FlowTable),
    /// A counter.
    Counter(Counter),
    /// A quota.
    Quota(Quota),
    /// A conntrack helper (ct helper).
    CTHelper(CTHelper),
    /// A limit.
    Limit(Limit),
    /// The metainfo object.
    MetainfoObject(MetainfoObject),
    /// A conntrack timeout (ct timeout).
    CTTimeout(CTTimeout),
    /// A conntrack expectation (ct expectation).
    CTExpectation(CTExpectation),
    /// A synproxy object.
    SynProxy(SynProxy),
}

/// Mathematical mirror of `NfListObject`.
pub enum NfListObjectM {
    Table(TableM),
    Chain(ChainM),
    Rule(RuleM),
    SetObj(Box<SetObjectM>),
    MapObj(Box<MapObjectM>),
    Element(ElementM),
    FlowTable(FlowTableM),
    Counter(CounterM),
    Quota(QuotaM),
    CTHelper(CTHelperM),
    Limit(LimitM),
    MetainfoObject(MetainfoObjectM),
    CTTimeout(CTTimeoutM),
    CTExpectation(CTExpectationM),
    SynProxy(SynProxyM),
}

/// A command is an object with a single property whose name identifies
/// the command.  Its value is a ruleset element.
#[derive(Debug)]
pub enum NfCmd {
    /// Add a new ruleset element to the kernel.
    Add(NfListObject),
    /// Replace a rule.  The `handle` property is mandatory and
    /// identifies the rule to be replaced.
    Replace(Rule),
    /// Identical to add, but returns an error if the object exists.
    Create(NfListObject),
    /// Insert an object; for rules this prepends instead of appending.
    Insert(NfListObject),
    /// Delete an object from the ruleset.
    Delete(NfListObject),
    /// List ruleset elements.
    List(NfListObject),
    /// Reset state in suitable objects, i.e. zero their internal counter.
    Reset(ResetObject),
    /// Empty contents in given object.
    Flush(FlushObject),
    /// Rename a chain.  The new name travels in the `newname` property.
    Rename(Chain),
}

/// Mathematical mirror of `NfCmd`.
pub enum NfCmdM {
    Add(NfListObjectM),
    Replace(RuleM),
    Create(NfListObjectM),
    Insert(NfListObjectM),
    Delete(NfListObjectM),
    List(NfListObjectM),
    Reset(ResetObjectM),
    Flush(FlushObjectM),
    Rename(ChainM),
}

/// Reset state in suitable objects, i.e. zero their internal counter.
#[derive(Debug)]
pub enum ResetObject {
    /// A counter to reset.
    Counter(Counter),
    /// A list of counters to reset.
    Counters(Vec<Counter>),
    /// A quota to reset.
    Quota(Quota),
    /// A list of quotas to reset.
    Quotas(Vec<Quota>),
}

/// Mathematical mirror of `ResetObject`.
pub enum ResetObjectM {
    Counter(CounterM),
    Counters(Seq<CounterM>),
    Quota(QuotaM),
    Quotas(Seq<QuotaM>),
}

/// Empty contents in given object, e.g. remove all chains from given
/// table or remove all elements from given set.
#[derive(Debug)]
pub enum FlushObject {
    /// A table to flush (i.e., remove all chains from table).
    Table(Table),
    /// A chain to flush (i.e., remove all rules from chain).
    Chain(Chain),
    /// A set to flush (i.e., remove all elements from set).
    SetObj(Box<SetObject>),
    /// A map to flush (i.e., remove all elements from map).
    MapObj(Box<MapObject>),
    /// A meter to flush.
    Meter(Meter),
    /// Flush the live ruleset.
    Ruleset(Option<Ruleset>),
}

/// Mathematical mirror of `FlushObject`.
pub enum FlushObjectM {
    Table(TableM),
    Chain(ChainM),
    SetObj(Box<SetObjectM>),
    MapObj(Box<MapObjectM>),
    Meter(MeterM),
    Ruleset(Option<Ruleset>),
}

// Ruleset Elements

/// This object describes a table.
#[derive(Debug)]
pub struct Table {
    /// The table's family, e.g. "ip" or "ip6".
    pub family: NfFamily,
    /// The table's name.
    pub name: String,
    /// The table's handle.  In input, it is used only in the delete
    /// command as an alternative to `name`.
    pub handle: Option<u32>,
}

/// Mathematical mirror of `Table`.
pub struct TableM {
    pub family: NfFamily,
    pub name: Seq<char>,
    pub handle: Option<u32>,
}

impl Default for Table {
    /// Default table on the default family, named after `DEFAULT_TABLE`.
    fn default() -> (r: Self)
        ensures
            r.family == DEFAULT_FAMILY,
            r.name@ == DEFAULT_TABLE@,
            r.handle is None,
    {
        Table { family: DEFAULT_FAMILY, name: DEFAULT_TABLE.to_owned(), handle: None }
    }
}

/// This object describes a chain.
#[derive(Debug)]
pub struct Chain {
    /// The table's family.
    pub family: NfFamily,
    /// The table's name.
    pub table: String,
    /// The chain's name.
    pub name: String,
    /// New name of the chain when supplied to the rename command.
    pub newname: Option<String>,
    /// The chain's handle.
    pub handle: Option<u32>,
    /// The chain's type; the wire property is named `type`.
    pub _type: Option<NfChainType>,
    /// The chain's hook.  Required for base chains.
    pub hook: Option<NfHook>,
    /// The chain's priority.  Required for base chains.
    pub prio: Option<i32>,
    /// The chain's bound interface (if in the netdev family).
    pub dev: Option<String>,
    /// The chain's policy.
    pub policy: Option<NfChainPolicy>,
}

/// Mathematical mirror of `Chain`.
pub struct ChainM {
    pub family: NfFamily,
    pub table: Seq<char>,
    pub name: Seq<char>,
    pub newname: Option<Seq<char>>,
    pub handle: Option<u32>,
    pub _type: Option<NfChainType>,
    pub hook: Option<NfHook>,
    pub prio: Option<i32>,
    pub dev: Option<Seq<char>>,
    pub policy: Option<NfChainPolicy>,
}

impl Default for Chain {
    /// Default chain in the default table, named after `DEFAULT_CHAIN`.
    fn default() -> (r: Self)
        ensures
            r.family == DEFAULT_FAMILY,
            r.table@ == DEFAULT_TABLE@,
            r.name@ == DEFAULT_CHAIN@,
            r.newname is None,
            r.handle is None,
            r._type is None,
            r.hook is None,
            r.prio is None,
            r.dev is None,
            r.policy is None,
    {
        Chain {
            family: DEFAULT_FAMILY,
            table: DEFAULT_TABLE.to_owned(),
            name: DEFAULT_CHAIN.to_owned(),
            newname: None,
            handle: None,
            _type: None,
            hook: None,
            prio: None,
            dev: None,
            policy: None,
        }
    }
}

/// This object describes a rule.
///
/// Basic building blocks of rules are statements.
/// Each rule consists of at least one.
#[derive(Debug)]
pub struct Rule {
    /// The table's family.
    pub family: NfFamily,
    /// The table's name.
    pub table: String,
    /// The chain's name.
    pub chain: String,
    /// An array of statements this rule consists of.
    pub expr: Vec<Statement>,
    /// The rule's handle.
    pub handle: Option<u32>,
    /// The rule's position for add/insert commands.
    pub index: Option<u32>,
    /// Optional rule comment.
    pub comment: Option<String>,
}

/// Mathematical mirror of `Rule`.
pub struct RuleM {
    pub family: NfFamily,
    pub table: Seq<char>,
    pub chain: Seq<char>,
    pub expr: Seq<StatementM>,
    pub handle: Option<u32>,
    pub index: Option<u32>,
    pub comment: Option<Seq<char>>,
}

impl Default for Rule {
    /// Default rule with no statements, on the default table and chain.
    fn default() -> (r: Self)
        ensures
            r.family == DEFAULT_FAMILY,
            r.table@ == DEFAULT_TABLE@,
            r.chain@ == DEFAULT_CHAIN@,
            r.expr@.len() == 0,
            r.handle is None,
            r.index is None,
            r.comment is None,
    {
        Rule {
            family: DEFAULT_FAMILY,
            table: DEFAULT_TABLE.to_owned(),
            chain: DEFAULT_CHAIN.to_owned(),
            expr: Vec::new(),
            handle: None,
            index: None,
            comment: None,
        }
    }
}

/// Named set that holds expression elements.
#[derive(Debug)]
pub struct SetObject {
    /// The table's family.
    pub family: NfFamily,
    /// The table's name.
    pub table: String,
    /// The set's name.
    pub name: String,
    /// The set's handle.  For input, used by the delete command only.
    pub handle: Option<u32>,
    /// The set's datatype; the wire property is named `type`.
    pub set_type: SetTypeValue,
    /// The set's policy.
    pub policy: Option<SetPolicy>,
    /// The set's flags.
    pub flags: Option<Vec<SetFlag>>,
    /// Initial set element(s).
    pub elem: Option<Vec<Expression>>,
    /// Element timeout in seconds.
    pub timeout: Option<u32>,
    /// Garbage collector interval in seconds; the wire property is named
    /// `gc-interval`.
    pub gc_interval: Option<u32>,
    /// Maximum number of elements supported.
    pub size: Option<u32>,
    /// Optional set comment.
    pub comment: Option<String>,
}

/// Mathematical mirror of `SetObject`.
pub struct SetObjectM {
    pub family: NfFamily,
    pub table: Seq<char>,
    pub name: Seq<char>,
    pub handle: Option<u32>,
    pub set_type: SetTypeValueM,
    pub policy: Option<SetPolicy>,
    pub flags: Option<Seq<SetFlag>>,
    pub elem: Option<Seq<ExpressionM>>,
    pub timeout: Option<u32>,
    pub gc_interval: Option<u32>,
    pub size: Option<u32>,
    pub comment: Option<Seq<char>>,
}

impl Default for SetObject {
    /// Default set `"myset"` with type `ipv4_addr`.
    fn default() -> (r: Self)
        ensures
            r.family == DEFAULT_FAMILY,
            r.table@ == DEFAULT_TABLE@,
            r.name@ == "myset"@,
            r.handle is None,
            r.set_type == SetTypeValue::Single(SetType::Ipv4Addr),
            r.policy is None,
            r.flags is None,
            r.elem is None,
            r.timeout is None,
            r.gc_interval is None,
            r.size is None,
            r.comment is None,
    {
        SetObject {
            family: DEFAULT_FAMILY,
            table: DEFAULT_TABLE.to_owned(),
            name: "myset".to_owned(),
            handle: None,
            set_type: SetTypeValue::Single(SetType::Ipv4Addr),
            policy: None,
            flags: None,
            elem: None,
            timeout: None,
            gc_interval: None,
            size: None,
            comment: None,
        }
    }
}

/// Named map that holds expression elements.
/// Maps are a special form of sets in that they translate a unique key
/// to a value.
#[derive(Debug)]
pub struct MapObject {
    /// The table's family.
    pub family: NfFamily,
    /// The table's name.
    pub table: String,
    /// The map's name.
    pub name: String,
    /// The map's handle.  For input, used by the delete command only.
    pub handle: Option<u32>,
    /// The map set's datatype; the wire property is named `type`.
    pub set_type: SetTypeValue,
    /// Type of values this set maps to (i.e. this set is a map).
    pub map: SetTypeValue,
    /// The map's policy.
    pub policy: Option<SetPolicy>,
    /// The map's flags.
    pub flags: Option<Vec<SetFlag>>,
    /// Initial map set element(s).
    pub elem: Option<Vec<Expression>>,
    /// Element timeout in seconds.
    pub timeout: Option<u32>,
    /// Garbage collector interval in seconds; the wire property is named
    /// `gc-interval`.
    pub gc_interval: Option<u32>,
    /// Maximum number of elements supported.
    pub size: Option<u32>,
    /// Optional map comment.
    pub comment: Option<String>,
}

/// Mathematical mirror of `MapObject`.
pub struct MapObjectM {
    pub family: NfFamily,
    pub table: Seq<char>,
    pub name: Seq<char>,
    pub handle: Option<u32>,
    pub set_type: SetTypeValueM,
    pub map: SetTypeValueM,
    pub policy: Option<SetPolicy>,
    pub flags: Option<Seq<SetFlag>>,
    pub elem: Option<Seq<ExpressionM>>,
    pub timeout: Option<u32>,
    pub gc_interval: Option<u32>,
    pub size: Option<u32>,
    pub comment: Option<Seq<char>>,
}

impl Default for MapObject {
    /// Default map `"mymap"` that maps ipv4 addresses.
    fn default() -> (r: Self)
        ensures
            r.family == DEFAULT_FAMILY,
            r.table@ == DEFAULT_TABLE@,
            r.name@ == "mymap"@,
            r.handle is None,
            r.set_type == SetTypeValue::Single(SetType::Ipv4Addr),
            r.map == SetTypeValue::Single(SetType::Ipv4Addr),
            r.policy is None,
            r.flags is None,
            r.elem is None,
            r.timeout is None,
            r.gc_interval is None,
            r.size is None,
            r.comment is None,
    {
        MapObject {
            family: DEFAULT_FAMILY,
            table: DEFAULT_TABLE.to_owned(),
            name: "mymap".to_owned(),
            handle: None,
            set_type: SetTypeValue::Single(SetType::Ipv4Addr),
            map: SetTypeValue::Single(SetType::Ipv4Addr),
            policy: None,
            flags: None,
            elem: None,
            timeout: None,
            gc_interval: None,
            size: None,
            comment: None,
        }
    }
}

/// Wrapper for single or concatenated set types.
/// The set type might be a string, such as `"ipv4_addr"`, or an array
/// consisting of strings (for concatenated types).
#[derive(Debug)]
pub enum SetTypeValue {
    /// Single set type.
    Single(SetType),
    /// Concatenated set types.
    Concatenated(Vec<SetType>),
}

/// Mathematical mirror of `SetTypeValue`.
pub enum SetTypeValueM {
    Single(SetType),
    Concatenated(Seq<SetType>),
}

impl PartialEq for SetTypeValue {
    fn eq(&self, other: &SetTypeValue) -> (r: bool) {
        match self {
            SetTypeValue::Single(a) => match other {
                SetTypeValue::Single(b) => a == b,
                _ => false,
            },
            SetTypeValue::Concatenated(a) => match other {
                SetTypeValue::Single(_) => false,
                SetTypeValue::Concatenated(b) => {
                if a.len() != b.len() {
                    return false;
                }
                let mut i: usize = 0;
                while i < a.len()
                    invariant
                        0 <= i <= a@.len(),
                        a@.len() == b@.len(),
                        forall|k: int| 0 <= k < i ==> a@[k] == b@[k],
                        set_type_value_m(*self) == SetTypeValueM::Concatenated(a@),
                        set_type_value_m(*other) == SetTypeValueM::Concatenated(b@),
                    decreases a@.len() - i,
                {
                    if !(a[i] == b[i]) {
                        proof {
                            assert(a@[i as int] != b@[i as int]);
                            assert(a@ != b@);
                            assert(set_type_value_m(*self) == SetTypeValueM::Concatenated(a@));
                            assert(set_type_value_m(*other) == SetTypeValueM::Concatenated(b@));
                            assert(set_type_value_m(*self) != set_type_value_m(*other));
                        }
                        return false;
                    }
                    i += 1;
                }
                    proof {
                        assert(a@ =~= b@);
                    }
                    true
                },
            },
        }
    }
}

impl vstd::std_specs::cmp::PartialEqSpecImpl for SetTypeValue {
    open spec fn obeys_eq_spec() -> bool {
        true
    }

    open spec fn eq_spec(&self, other: &SetTypeValue) -> bool {
        set_type_value_m(*self) == set_type_value_m(*other)
    }
}

impl Eq for SetTypeValue {}

/// Abstraction of a `SetTypeValue`.
pub open spec fn set_type_value_m(v: SetTypeValue) -> SetTypeValueM {
    match v {
        SetTypeValue::Single(t) => SetTypeValueM::Single(t),
        SetTypeValue::Concatenated(ts) => SetTypeValueM::Concatenated(ts@),
    }
}

/// Describes a set's datatype.
#[derive(Debug, Clone, Copy, PartialEq, Eq, Structural)]
pub enum SetType {
    /// IPv4 address.
    Ipv4Addr,
    /// IPv6 address.
    Ipv6Addr,
    /// Ethernet address.
    EtherAddr,
    /// Internet protocol type.
    InetProto,
    /// Internet service.
    InetService,
    /// Mark type.
    Mark,
    /// Network interface name (eth0, eth1..).
    Ifname,
}

pub open spec fn set_type_tok(v: SetType) -> Seq<char> {
    match v {
        SetType::Ipv4Addr => "ipv4_addr"@,
        SetType::Ipv6Addr => "ipv6_addr"@,
        SetType::EtherAddr => "ether_addr"@,
        SetType::InetProto => "inet_proto"@,
        SetType::InetService => "inet_service"@,
        SetType::Mark => "mark"@,
        SetType::Ifname => "ifname"@,
    }
}

pub open spec fn set_type_inv(s: Seq<char>) -> Option<SetType> {
    if s == "ipv4_addr"@ {
        Some(SetType::Ipv4Addr)
    } else if s == "ipv6_addr"@ {
        Some(SetType::Ipv6Addr)
    } else if s == "ether_addr"@ {
        Some(SetType::EtherAddr)
    } else if s == "inet_proto"@ {
        Some(SetType::InetProto)
    } else if s == "inet_service"@ {
        Some(SetType::InetService)
    } else if s == "mark"@ {
        Some(SetType::Mark)
    } else if s == "ifname"@ {
        Some(SetType::Ifname)
    } else {
        None
    }
}

pub proof fn lemma_set_type_inv_tok(v: SetType)
    ensures
        set_type_inv(set_type_tok(v)) == Some(v),
{
    reveal_strlit("ipv4_addr");
    reveal_strlit("ipv6_addr");
    reveal_strlit("ether_addr");
    reveal_strlit("inet_proto");
    reveal_strlit("inet_service");
    reveal_strlit("mark");
    reveal_strlit("ifname");
    assert("ipv4_addr"@.len() == 9 && "ipv4_addr"@[0] == 'i' && "ipv4_addr"@[3] == '4');
    assert("ipv6_addr"@.len() == 9 && "ipv6_addr"@[0] == 'i' && "ipv6_addr"@[3] == '6');
    assert("ether_addr"@.len() == 10 && "ether_addr"@[0] == 'e');
    assert("inet_proto"@.len() == 10 && "inet_proto"@[0] == 'i');
    assert("inet_service"@.len() == 12 && "inet_service"@[0] == 'i');
    assert("mark"@.len() == 4 && "mark"@[0] == 'm');
    assert("ifname"@.len() == 6 && "ifname"@[0] == 'i');
}

pub fn set_type_to_wire(v: SetType) -> (r: &'static str)
    ensures
        r@ == set_type_tok(v),
{
    match v {
        SetType::Ipv4Addr => "ipv4_addr",
        SetType::Ipv6Addr => "ipv6_addr",
        SetType::EtherAddr => "ether_addr",
        SetType::InetProto => "inet_proto",
        SetType::InetService => "inet_service",
        SetType::Mark => "mark",
        SetType::Ifname => "ifname",
    }
}

pub fn set_type_from_wire(s: &str) -> (r: Option<SetType>)
    ensures
        r == set_type_inv(s@),
{
    if crate::json::str_eq(s, "ipv4_addr") {
        Some(SetType::Ipv4Addr)
    } else if crate::json::str_eq(s, "ipv6_addr") {
        Some(SetType::Ipv6Addr)
    } else if crate::json::str_eq(s, "ether_addr") {
        Some(SetType::EtherAddr)
    } else if crate::json::str_eq(s, "inet_proto") {
        Some(SetType::InetProto)
    } else if crate::json::str_eq(s, "inet_service") {
        Some(SetType::InetService)
    } else if crate::json::str_eq(s, "mark") {
        Some(SetType::Mark)
    } else if crate::json::str_eq(s, "ifname") {
        Some(SetType::Ifname)
    } else {
        None
    }
}

/// Describes a set's policy.
#[derive(Debug, Clone, Copy, PartialEq, Eq, Structural)]
pub enum SetPolicy {
    /// Performance policy (default).
    Performance,
    /// Memory policy.
    Memory,
}

pub open spec fn set_policy_tok(v: SetPolicy) -> Seq<char> {
    match v {
        SetPolicy::Performance => "performance"@,
        SetPolicy::Memory => "memory"@,
    }
}

pub open spec fn set_policy_inv(s: Seq<char>) -> Option<SetPolicy> {
    if s == "performance"@ {
        Some(SetPolicy::Performance)
    } else if s == "memory"@ {
        Some(SetPolicy::Memory)
    } else {
        None
    }
}

pub proof fn lemma_set_policy_inv_tok(v: SetPolicy)
    ensures
        set_policy_inv(set_policy_tok(v)) == Some(v),
{
    reveal_strlit("performance");
    reveal_strlit("memory");
    assert("performance"@.len() >= 1 && "performance"@[0] == 'p');
    assert("memory"@.len() >= 1 && "memory"@[0] == 'm');
}

pub fn set_policy_to_wire(v: SetPolicy) -> (r: &'static str)
    ensures
        r@ == set_policy_tok(v),
{
    match v {
        SetPolicy::Performance => "performance",
        SetPolicy::Memory => "memory",
    }
}

pub fn set_policy_from_wire(s: &str) -> (r: Option<SetPolicy>)
    ensures
        r == set_policy_inv(s@),
{
    if crate::json::str_eq(s, "performance") {
        Some(SetPolicy::Performance)
    } else if crate::json::str_eq(s, "memory") {
        Some(SetPolicy::Memory)
    } else {
        None
    }
}

/// Describes a set's flags.
#[derive(Debug, Clone, Copy, PartialEq, Eq, Structural)]
pub enum SetFlag {
    /// Set content may not change while bound.
    Constant,
    /// Set contains intervals.
    Interval,
    /// Elements can be added with a timeout.
    Timeout,
    /// Undocumented upstream.
    Dynamic,
}

pub open spec fn set_flag_tok(v: SetFlag) -> Seq<char> {
    match v {
        SetFlag::Constant => "constant"@,
        SetFlag::Interval => "interval"@,
        SetFlag::Timeout => "timeout"@,
        SetFlag::Dynamic => "dynamic"@,
    }
}

pub open spec fn set_flag_inv(s: Seq<char>) -> Option<SetFlag> {
    if s == "constant"@ {
        Some(SetFlag::Constant)
    } else if s == "interval"@ {
        Some(SetFlag::Interval)
    } else if s == "timeout"@ {
        Some(SetFlag::Timeout)
    } else if s == "dynamic"@ {
        Some(SetFlag::Dynamic)
    } else {
        None
    }
}

pub proof fn lemma_set_flag_inv_tok(v: SetFlag)
    ensures
        set_flag_inv(set_flag_tok(v)) == Some(v),
{
    reveal_strlit("constant");
    reveal_strlit("interval");
    reveal_strlit("timeout");
    reveal_strlit("dynamic");
    assert("constant"@.len() >= 1 && "constant"@[0] == 'c');
    assert("interval"@.len() >= 1 && "interval"@[0] == 'i');
    assert("timeout"@.len() >= 1 && "timeout"@[0] == 't');
    assert("dynamic"@.len() >= 1 && "dynamic"@[0] == 'd');
}

pub fn set_flag_to_wire(v: SetFlag) -> (r: &'static str)
    ensures
        r@ == set_flag_tok(v),
{
    match v {
        SetFlag::Constant => "constant",
        SetFlag::Interval => "interval",
        SetFlag::Timeout => "timeout",
        SetFlag::Dynamic => "dynamic",
    }
}

pub fn set_flag_from_wire(s: &str) -> (r: Option<SetFlag>)
    ensures
        r == set_flag_inv(s@),
{
    if crate::json::str_eq(s, "constant") {
        Some(SetFlag::Constant)
    } else if crate::json::str_eq(s, "interval") {
        Some(SetFlag::Interval)
    } else if crate::json::str_eq(s, "timeout") {
        Some(SetFlag::Timeout)
    } else if crate::json::str_eq(s, "dynamic") {
        Some(SetFlag::Dynamic)
    } else {
        None
    }
}

/// Describes an operator on set.
#[derive(Debug, Clone, Copy, PartialEq, Eq, Structural)]
pub enum SetOp {
    /// Operator for adding elements.
    Add,
    /// Operator for updating elements.
    Update,
}

/// Manipulate element(s) in a named set.
#[derive(Debug)]
pub struct Element {
    /// The table's family.
    pub family: NfFamily,
    /// The table's name.
    pub table: String,
    /// The set's name.
    pub name: String,
    /// A single set element might be given as string, integer or boolean
    /// value for simple cases.  If additional properties are required, a
    /// formal `elem` object may be used.
    pub elem: Vec<Expression>,
}

/// Mathematical mirror of `Element`.
pub struct ElementM {
    pub family: NfFamily,
    pub table: Seq<char>,
    pub name: Seq<char>,
    pub elem: Seq<ExpressionM>,
}

impl Default for Element {
    /// Default manipulation element for set `"myset"`.
    fn default() -> (r: Self)
        ensures
            r.family == DEFAULT_FAMILY,
            r.table@ == DEFAULT_TABLE@,
            r.name@ == "myset"@,
            r.elem@.len() == 0,
    {
        Element {
            family: DEFAULT_FAMILY,
            table: DEFAULT_TABLE.to_owned(),
            name: "myset".to_owned(),
            elem: Vec::new(),
        }
    }
}

/// Flowtables allow you to accelerate packet forwarding in software (and
/// in hardware if your NIC supports it) by using a conntrack-based
/// network stack bypass.
#[derive(Debug)]
pub struct FlowTable {
    /// The table's family.
    pub family: NfFamily,
    /// The table's name.
    pub table: String,
    /// The flow table's name.
    pub name: String,
    /// The flow table's handle.  In input, used by the delete command only.
    pub handle: Option<u32>,
    /// The flow table's hook.
    pub hook: Option<NfHook>,
    /// The flow table's priority.
    pub prio: Option<u32>,
    /// The devices are specified as iifnames of the input interfaces of
    /// the traffic that should be offloaded.
    pub dev: Option<Vec<String>>,
}

/// Mathematical mirror of `FlowTable`.
pub struct FlowTableM {
    pub family: NfFamily,
    pub table: Seq<char>,
    pub name: Seq<char>,
    pub handle: Option<u32>,
    pub hook: Option<NfHook>,
    pub prio: Option<u32>,
    pub dev: Option<Seq<Seq<char>>>,
}

impl Default for FlowTable {
    /// Default flowtable named "myflowtable".
    fn default() -> (r: Self)
        ensures
            r.family == DEFAULT_FAMILY,
            r.table@ == DEFAULT_TABLE@,
            r.name@ == "myflowtable"@,
            r.handle is None,
            r.hook is None,
            r.prio is None,
            r.dev is None,
    {
        FlowTable {
            family: DEFAULT_FAMILY,
            table: DEFAULT_TABLE.to_owned(),
            name: "myflowtable".to_owned(),
            handle: None,
            hook: None,
            prio: None,
            dev: None,
        }
    }
}

/// This object represents a named counter.
///
/// A counter counts both the total number of packets and the total bytes
/// it has seen since it was last reset.
#[derive(Debug)]
pub struct Counter {
    /// The table's family.
    pub family: NfFamily,
    /// The table's name.
    pub table: String,
    /// The counter's name.
    pub name: String,
    /// The counter's handle.  In input, used by the delete command only.
    pub handle: Option<u32>,
    /// Packet counter value.
    pub packets: Option<u32>,
    /// Byte counter value.
    pub bytes: Option<u32>,
}

/// Mathematical mirror of `Counter`.
pub struct CounterM {
    pub family: NfFamily,
    pub table: Seq<char>,
    pub name: Seq<char>,
    pub handle: Option<u32>,
    pub packets: Option<u32>,
    pub bytes: Option<u32>,
}

impl Default for Counter {
    /// Default counter named "mycounter".
    fn default() -> (r: Self)
        ensures
            r.family == DEFAULT_FAMILY,
            r.table@ == DEFAULT_TABLE@,
            r.name@ == "mycounter"@,
            r.handle is None,
            r.packets is None,
            r.bytes is None,
    {
        Counter {
            family: DEFAULT_FAMILY,
            table: DEFAULT_TABLE.to_owned(),
            name: "mycounter".to_owned(),
            handle: None,
            packets: None,
            bytes: None,
        }
    }
}

/// This object represents a named quota.
///
/// A quota defines a threshold number of bytes, counts the total number
/// of bytes starting from an initial count, and matches either only
/// until or only after the byte count exceeds the threshold.
#[derive(Debug)]
pub struct Quota {
    /// The table's family.
    pub family: NfFamily,
    /// The table's name.
    pub table: String,
    /// The quota's name.
    pub name: String,
    /// The quota's handle.  In input, used by the delete command only.
    pub handle: Option<u32>,
    /// Quota threshold.
    pub bytes: Option<u32>,
    /// Quota used so far.
    pub used: Option<u32>,
    /// If `true`, match if the quota has been exceeded.
    pub inv: Option<bool>,
}

/// Mathematical mirror of `Quota`.
pub struct QuotaM {
    pub family: NfFamily,
    pub table: Seq<char>,
    pub name: Seq<char>,
    pub handle: Option<u32>,
    pub bytes: Option<u32>,
    pub used: Option<u32>,
    pub inv: Option<bool>,
}

impl Default for Quota {
    /// Default quota named "myquota".
    fn default() -> (r: Self)
        ensures
            r.family == DEFAULT_FAMILY,
            r.table@ == DEFAULT_TABLE@,
            r.name@ == "myquota"@,
            r.handle is None,
            r.bytes is None,
            r.used is None,
            r.inv is None,
    {
        Quota {
            family: DEFAULT_FAMILY,
            table: DEFAULT_TABLE.to_owned(),
            name: "myquota".to_owned(),
            handle: None,
            bytes: None,
            used: None,
            inv: None,
        }
    }
}

/// Enable the specified conntrack helper for this packet.
#[derive(Debug)]
pub struct CTHelper {
    /// The table's family.
    pub family: NfFamily,
    /// The table's name.
    pub table: String,
    /// The ct helper's name.
    pub name: String,
    /// The ct helper's handle.  In input, used by the delete command only.
    pub handle: Option<u32>,
    /// The ct helper type name, e.g. "ftp" or "tftp"; the wire property
    /// is named `type`.
    pub _type: String,
    /// The ct helper's layer 4 protocol.
    pub protocol: Option<String>,
    /// The ct helper's layer 3 protocol, e.g. "ip" or "ip6".
    pub l3proto: Option<String>,
}

/// Mathematical mirror of `CTHelper`.
pub struct CTHelperM {
    pub family: NfFamily,
    pub table: Seq<char>,
    pub name: Seq<char>,
    pub handle: Option<u32>,
    pub _type: Seq<char>,
    pub protocol: Option<Seq<char>>,
    pub l3proto: Option<Seq<char>>,
}

impl Default for CTHelper {
    /// Default ftp ct helper named "mycthelper".
    fn default() -> (r: Self)
        ensures
            r.family == DEFAULT_FAMILY,
            r.table@ == DEFAULT_TABLE@,
            r.name@ == "mycthelper"@,
            r.handle is None,
            r._type@ == "ftp"@,
            r.protocol is None,
            r.l3proto is None,
    {
        CTHelper {
            family: DEFAULT_FAMILY,
            table: DEFAULT_TABLE.to_owned(),
            name: "mycthelper".to_owned(),
            handle: None,
            _type: "ftp".to_owned(),
            protocol: None,
            l3proto: None,
        }
    }
}

/// This object represents a named limit.
///
/// A limit uses a token bucket filter to match packets only until its
/// rate is exceeded, or only after, if defined as an over limit.
#[derive(Debug)]
pub struct Limit {
    /// The table's family.
    pub family: NfFamily,
    /// The table's name.
    pub table: String,
    /// The limit's name.
    pub name: String,
    /// The limit's handle.  In input, used by the delete command only.
    pub handle: Option<u32>,
    /// The limit's rate value.
    pub rate: Option<u32>,
    /// Time unit to apply the limit to, e.g. "week", "day" or "hour".
    pub per: Option<NfTimeUnit>,
    /// The limit's burst value.  If omitted, defaults to 0.
    pub burst: Option<u32>,
    /// Unit of rate and burst values.  If omitted, defaults to "packets".
    pub unit: Option<LimitUnit>,
    /// If `true`, match if limit was exceeded.
    pub inv: Option<bool>,
}

/// Mathematical mirror of `Limit`.
pub struct LimitM {
    pub family: NfFamily,
    pub table: Seq<char>,
    pub name: Seq<char>,
    pub handle: Option<u32>,
    pub rate: Option<u32>,
    pub per: Option<NfTimeUnit>,
    pub burst: Option<u32>,
    pub unit: Option<LimitUnit>,
    pub inv: Option<bool>,
}

impl Default for Limit {
    /// Default limit named "mylimit".
    fn default() -> (r: Self)
        ensures
            r.family == DEFAULT_FAMILY,
            r.table@ == DEFAULT_TABLE@,
            r.name@ == "mylimit"@,
            r.handle is None,
            r.rate is None,
            r.per is None,
            r.burst is None,
            r.unit is None,
            r.inv is None,
    {
        Limit {
            family: DEFAULT_FAMILY,
            table: DEFAULT_TABLE.to_owned(),
            name: "mylimit".to_owned(),
            handle: None,
            rate: None,
            per: None,
            burst: None,
            unit: None,
            inv: None,
        }
    }
}

/// A unit used in limits.
#[derive(Debug, Clone, Copy, PartialEq, Eq, Structural)]
pub enum LimitUnit {
    /// Limit by number of packets.
    Packets,
    /// Limit by number of bytes.
    Bytes,
}

pub open spec fn limit_unit_tok(v: LimitUnit) -> Seq<char> {
    match v {
        LimitUnit::Packets => "packets"@,
        LimitUnit::Bytes => "bytes"@,
    }
}

pub open spec fn limit_unit_inv(s: Seq<char>) -> Option<LimitUnit> {
    if s == "packets"@ {
        Some(LimitUnit::Packets)
    } else if s == "bytes"@ {
        Some(LimitUnit::Bytes)
    } else {
        None
    }
}

pub proof fn lemma_limit_unit_inv_tok(v: LimitUnit)
    ensures
        limit_unit_inv(limit_unit_tok(v)) == Some(v),
{
    reveal_strlit("packets");
    reveal_strlit("bytes");
    assert("packets"@.len() >= 1 && "packets"@[0] == 'p');
    assert("bytes"@.len() >= 1 && "bytes"@[0] == 'b');
}

pub fn limit_unit_to_wire(v: LimitUnit) -> (r: &'static str)
    ensures
        r@ == limit_unit_tok(v),
{
    match v {
        LimitUnit::Packets => "packets",
        LimitUnit::Bytes => "bytes",
    }
}

pub fn limit_unit_from_wire(s: &str) -> (r: Option<LimitUnit>)
    ensures
        r == limit_unit_inv(s@),
{
    if crate::json::str_eq(s, "packets") {
        Some(LimitUnit::Packets)
    } else if crate::json::str_eq(s, "bytes") {
        Some(LimitUnit::Bytes)
    } else {
        None
    }
}

/// A named meter.
#[derive(Debug)]
pub struct Meter {
    pub name: String,
    pub key: Expression,
    pub stmt: Box<Statement>,
}

/// Mathematical mirror of `Meter`.
pub struct MeterM {
    pub name: Seq<char>,
    pub key: ExpressionM,
    pub stmt: Box<StatementM>,
}

/// Represents the live ruleset (to be flushed).
#[derive(Debug, Clone, Copy, PartialEq, Eq, Structural)]
pub struct Ruleset {}

impl Default for Ruleset {
    /// Default ruleset.
    fn default() -> (r: Self)
        ensures
            r == (Ruleset {  }),
    {
        Ruleset {  }
    }
}

/// Library information in output.
///
/// In output, the first object in an nftables array is a special one
/// containing library information.
#[derive(Debug)]
pub struct MetainfoObject {
    /// The value of the version property is equal to the package version
    /// as printed by `nft -v`.
    pub version: Option<String>,
    /// The value of the release_name property is equal to the release
    /// name as printed by `nft -v`.
    pub release_name: Option<String>,
    /// The JSON Schema version.
    pub json_schema_version: Option<u32>,
}

/// Mathematical mirror of `MetainfoObject`.
pub struct MetainfoObjectM {
    pub version: Option<Seq<char>>,
    pub release_name: Option<Seq<char>>,
    pub json_schema_version: Option<u32>,
}

impl Default for MetainfoObject {
    /// Default (empty) metainfo object.
    fn default() -> (r: Self)
        ensures
            r.version is None,
            r.release_name is None,
            r.json_schema_version is None,
    {
        MetainfoObject { version: None, release_name: None, json_schema_version: None }
    }
}

/// This object represents a named conntrack timeout policy.
#[derive(Debug)]
pub struct CTTimeout {
    /// The table's family.
    pub family: NfFamily,
    /// The table's name.
    pub table: String,
    /// The ct timeout object's name.
    pub name: String,
    /// The ct timeout object's handle.  In input, used by the delete
    /// command only.
    pub handle: Option<u32>,
    /// The ct timeout object's layer 4 protocol.
    pub protocol: Option<CTHProto>,
    /// The connection state name, e.g. "established", for which the
    /// timeout value has to be updated.
    pub state: Option<String>,
    /// The updated timeout value for the specified connection state.
    pub value: Option<u32>,
    /// The ct timeout object's layer 3 protocol, e.g. "ip" or "ip6".
    pub l3proto: Option<String>,
}

/// Mathematical mirror of `CTTimeout`.
pub struct CTTimeoutM {
    pub family: NfFamily,
    pub table: Seq<char>,
    pub name: Seq<char>,
    pub handle: Option<u32>,
    pub protocol: Option<CTHProto>,
    pub state: Option<Seq<char>>,
    pub value: Option<u32>,
    pub l3proto: Option<Seq<char>>,
}

impl Default for CTTimeout {
    /// Default ct timeout named "mycttimeout".
    fn default() -> (r: Self)
        ensures
            r.family == DEFAULT_FAMILY,
            r.table@ == DEFAULT_TABLE@,
            r.name@ == "mycttimeout"@,
            r.handle is None,
            r.protocol is None,
            r.state is None,
            r.value is None,
            r.l3proto is None,
    {
        CTTimeout {
            family: DEFAULT_FAMILY,
            table: DEFAULT_TABLE.to_owned(),
            name: "mycttimeout".to_owned(),
            handle: None,
            protocol: None,
            state: None,
            value: None,
            l3proto: None,
        }
    }
}

/// This object represents a named conntrack expectation.
#[derive(Debug)]
pub struct CTExpectation {
    /// The table's family.
    pub family: NfFamily,
    /// The table's name.
    pub table: String,
    /// The ct expectation object's name.
    pub name: String,
    /// The ct expectation object's handle.  In input, used by the delete
    /// command only.
    pub handle: Option<u32>,
    /// The ct expectation object's layer 3 protocol, e.g. "ip" or "ip6".
    pub l3proto: Option<String>,
    /// The ct expectation object's layer 4 protocol.
    pub protocol: Option<CTHProto>,
    /// The destination port of the expected connection.
    pub dport: Option<u32>,
    /// The time in millisecond that this expectation will live.
    pub timeout: Option<u32>,
    /// The maximum count of expectations to be living in the same time.
    pub size: Option<u32>,
}

/// Mathematical mirror of `CTExpectation`.
pub struct CTExpectationM {
    pub family: NfFamily,
    pub table: Seq<char>,
    pub name: Seq<char>,
    pub handle: Option<u32>,
    pub l3proto: Option<Seq<char>>,
    pub protocol: Option<CTHProto>,
    pub dport: Option<u32>,
    pub timeout: Option<u32>,
    pub size: Option<u32>,
}

/// SynProxy intercepts new TCP connections and handles the initial 3-way
/// handshake using syncookies instead of conntrack to establish the
/// connection.
#[derive(Debug)]
pub struct SynProxy {
    /// The table's family.
    pub family: NfFamily,
    /// The table's name.
    pub table: String,
    /// The synproxy's name.
    pub name: String,
    /// The synproxy's handle.  For input, used by the delete command only.
    pub handle: Option<u32>,
    /// The maximum segment size (must match the backend server).
    pub mss: Option<u16>,
    /// The window scale (must match the backend server).
    pub wscale: Option<u8>,
    /// The synproxy's flags.
    pub flags: Option<Vec<SynProxyFlag>>,
}

/// Mathematical mirror of `SynProxy`.
pub struct SynProxyM {
    pub family: NfFamily,
    pub table: Seq<char>,
    pub name: Seq<char>,
    pub handle: Option<u32>,
    pub mss: Option<u16>,
    pub wscale: Option<u8>,
    pub flags: Option<Seq<SynProxyFlag>>,
}

} // verus!
