use vstd::prelude::*;

use crate::expr::{
    BinaryOperation, BinaryOperationM, CT, CTM, Elem, ElemM, Expression, ExpressionM, Exthdr,
    ExthdrM, Fib, FibM, JHash, JHashM, MapExpr, MapExprM, NamedExpression, NamedExpressionM, Osf,
    OsfM, Payload, PayloadField, PayloadFieldM, PayloadM, Prefix, PrefixM, Range, RangeM,
    SctpChunk, SctpChunkM, SetItem, SetItemM, Socket, SocketM, TcpOption, TcpOptionM, Verdict,
    VerdictM,
};
use crate::json::{json_m, Json, JsonM};
use crate::stmt::{
    CTCount, CTCountM, Counter, CounterM, Dup, DupM, Flow, FlowM, JumpTarget, JumpTargetM, Limit,
    LimitM, Log, LogM, Mangle, MangleM, Match, MatchM, Meter, MeterM, Queue, QueueM,
    QuotaOrQuotaRef, QuotaOrQuotaRefM, Quota, QuotaM, SetStmt, SetStmtM, Statement, StatementM,
    SynProxy, SynProxyM, TProxy, TProxyM, VerdictMap, VerdictMapM, FWD, FWDM, NAT, NATM,
};

verus! {

broadcast use vstd::string::group_string_axioms, vstd::std_specs::vec::group_vec_axioms, crate::json::lemma_height_lookup, crate::json::lemma_height_entry, crate::json::lemma_height_index;

// ---------------------------------------------------------------------
// Abstraction functions from the executable model to its mirror
// ---------------------------------------------------------------------

/// Abstraction of an expression.
pub open spec fn expr_m(e: Expression) -> ExpressionM
    decreases e,
{
    match e {
        Expression::String(s) => ExpressionM::String(s@),
        Expression::Number(n) => ExpressionM::Number(n),
        Expression::Boolean(b) => ExpressionM::Boolean(b),
        Expression::List(items) => ExpressionM::List(exprs_m_at(items, 0)),
        Expression::BinaryOperation(b) => ExpressionM::BinaryOperation(Box::new(binop_m(*b))),
        Expression::Range(r) => ExpressionM::Range(Box::new(range_m(*r))),
        Expression::Named(n) => ExpressionM::Named(named_m(n)),
        Expression::Verdict(v) => ExpressionM::Verdict(verdict_m(v)),
    }
}

/// Abstraction of the expressions of a vector, from index `i` on.
pub open spec fn exprs_m_at(items: Vec<Expression>, i: int) -> Seq<ExpressionM>
    decreases items, items@.len() - i,
{
    if 0 <= i < items@.len() {
        seq![expr_m(items[i])] + exprs_m_at(items, i + 1)
    } else {
        Seq::empty()
    }
}

/// Abstraction of a binary operation.
pub open spec fn binop_m(b: BinaryOperation) -> BinaryOperationM
    decreases b,
{
    match b {
        BinaryOperation::AND(l, r) => BinaryOperationM::AND(expr_m(l), expr_m(r)),
        BinaryOperation::OR(l, r) => BinaryOperationM::OR(expr_m(l), expr_m(r)),
        BinaryOperation::XOR(l, r) => BinaryOperationM::XOR(expr_m(l), expr_m(r)),
        BinaryOperation::LSHIFT(l, r) => BinaryOperationM::LSHIFT(expr_m(l), expr_m(r)),
        BinaryOperation::RSHIFT(l, r) => BinaryOperationM::RSHIFT(expr_m(l), expr_m(r)),
    }
}

/// Abstraction of a range.
pub open spec fn range_m(r: Range) -> RangeM
    decreases r,
{
    RangeM { low: Box::new(expr_m(*r.low)), high: Box::new(expr_m(*r.high)) }
}

/// Abstraction of a named expression.
pub open spec fn named_m(n: NamedExpression) -> NamedExpressionM
    decreases n,
{
    match n {
        NamedExpression::Concat(items) => NamedExpressionM::Concat(exprs_m_at(items, 0)),
        NamedExpression::SetExpr(items) => NamedExpressionM::SetExpr(set_items_m_at(items, 0)),
        NamedExpression::MapExpr(m) => NamedExpressionM::MapExpr(Box::new(map_expr_m(*m))),
        NamedExpression::Prefix(p) => NamedExpressionM::Prefix(prefix_m(p)),
        NamedExpression::Payload(p) => NamedExpressionM::Payload(payload_m(p)),
        NamedExpression::Exthdr(x) => NamedExpressionM::Exthdr(exthdr_m(x)),
        NamedExpression::TcpOption(x) => NamedExpressionM::TcpOption(tcp_option_m(x)),
        NamedExpression::SctpChunk(x) => NamedExpressionM::SctpChunk(sctp_chunk_m(x)),
        NamedExpression::Meta(m) => NamedExpressionM::Meta(m),
        NamedExpression::RT(r) => NamedExpressionM::RT(r),
        NamedExpression::CT(c) => NamedExpressionM::CT(ct_m(c)),
        NamedExpression::Numgen(g) => NamedExpressionM::Numgen(g),
        NamedExpression::JHash(h) => NamedExpressionM::JHash(jhash_m(h)),
        NamedExpression::SymHash(h) => NamedExpressionM::SymHash(h),
        NamedExpression::Fib(f) => NamedExpressionM::Fib(fib_m(f)),
        NamedExpression::Elem(e) => NamedExpressionM::Elem(elem_m(e)),
        NamedExpression::Socket(s) => NamedExpressionM::Socket(socket_m(s)),
        NamedExpression::Osf(o) => NamedExpressionM::Osf(osf_m(o)),
    }
}

/// Abstraction of the items of an anonymous set, from index `i` on.
pub open spec fn set_items_m_at(items: Vec<SetItem>, i: int) -> Seq<SetItemM>
    decreases items, items@.len() - i,
{
    if 0 <= i < items@.len() {
        seq![set_item_m(items[i])] + set_items_m_at(items, i + 1)
    } else {
        Seq::empty()
    }
}

/// Abstraction of a set item.
pub open spec fn set_item_m(it: SetItem) -> SetItemM
    decreases it,
{
    match it {
        SetItem::Element(e) => SetItemM::Element(expr_m(e)),
        SetItem::Mapping(k, v) => SetItemM::Mapping(expr_m(k), expr_m(v)),
        SetItem::MappingStatement(k, s) => SetItemM::MappingStatement(
            expr_m(k),
            Box::new(stmt_m(*s)),
        ),
    }
}

/// Abstraction of an expression map.
pub open spec fn map_expr_m(m: MapExpr) -> MapExprM
    decreases m,
{
    MapExprM { key: expr_m(m.key), data: expr_m(m.data) }
}

/// Abstraction of a prefix.
pub open spec fn prefix_m(p: Prefix) -> PrefixM
    decreases p,
{
    PrefixM { addr: Box::new(expr_m(*p.addr)), len: p.len }
}

/// Abstraction of a payload reference.
pub open spec fn payload_m(p: Payload) -> PayloadM {
    match p {
        Payload::PayloadField(f) => PayloadM::PayloadField(
            PayloadFieldM { protocol: f.protocol@, field: f.field@ },
        ),
        Payload::PayloadRaw(r) => PayloadM::PayloadRaw(r),
    }
}

/// Abstraction of an extension header reference.
pub open spec fn exthdr_m(x: Exthdr) -> ExthdrM {
    ExthdrM { name: x.name@, field: x.field@, offset: x.offset }
}

/// Abstraction of a TCP option reference.
pub open spec fn tcp_option_m(x: TcpOption) -> TcpOptionM {
    TcpOptionM { name: x.name@, field: x.field@ }
}

/// Abstraction of an SCTP chunk reference.
pub open spec fn sctp_chunk_m(x: SctpChunk) -> SctpChunkM {
    SctpChunkM { name: x.name@, field: x.field@ }
}

/// Abstraction of a conntrack reference.
pub open spec fn ct_m(c: CT) -> CTM {
    CTM { key: c.key@, family: c.family, dir: c.dir }
}

/// Abstraction of a jhash.
pub open spec fn jhash_m(h: JHash) -> JHashM
    decreases h,
{
    JHashM {
        hash_mod: h.hash_mod,
        offset: h.offset,
        expr: Box::new(expr_m(*h.expr)),
        seed: h.seed,
    }
}

/// Abstraction of a fib lookup.
pub open spec fn fib_m(f: Fib) -> FibM {
    FibM { result: f.result, flags: f.flags@ }
}

/// Abstraction of an elem expression.
pub open spec fn elem_m(e: Elem) -> ElemM
    decreases e,
{
    ElemM {
        val: Box::new(expr_m(*e.val)),
        timeout: e.timeout,
        expires: e.expires,
        comment: opt_str_m(e.comment),
        counter: match e.counter {
            Some(c) => Some(counter_m(c)),
            None => None,
        },
    }
}

/// Abstraction of a socket reference.
pub open spec fn socket_m(s: Socket) -> SocketM {
    SocketM { key: s.key@ }
}

/// Abstraction of an OS fingerprint reference.
pub open spec fn osf_m(o: Osf) -> OsfM {
    OsfM { key: o.key@, ttl: o.ttl }
}

/// Abstraction of a verdict.
pub open spec fn verdict_m(v: Verdict) -> VerdictM {
    match v {
        Verdict::Accept => VerdictM::Accept,
        Verdict::Drop => VerdictM::Drop,
        Verdict::Continue => VerdictM::Continue,
        Verdict::Return => VerdictM::Return,
        Verdict::Jump(t) => VerdictM::Jump(JumpTargetM { target: t.target@ }),
        Verdict::Goto(t) => VerdictM::Goto(JumpTargetM { target: t.target@ }),
    }
}

/// Abstraction of an optional string.
pub open spec fn opt_str_m(o: Option<String>) -> Option<Seq<char>> {
    match o {
        Some(s) => Some(s@),
        None => None,
    }
}

/// Abstraction of a statement.
pub open spec fn stmt_m(s: Statement) -> StatementM
    decreases s,
{
    match s {
        Statement::Accept(o) => StatementM::Accept(o),
        Statement::Drop(o) => StatementM::Drop(o),
        Statement::Continue(o) => StatementM::Continue(o),
        Statement::Return(o) => StatementM::Return(o),
        Statement::Jump(t) => StatementM::Jump(JumpTargetM { target: t.target@ }),
        Statement::Goto(t) => StatementM::Goto(JumpTargetM { target: t.target@ }),
        Statement::Match(m) => StatementM::Match(
            MatchM { left: expr_m(m.left), right: expr_m(m.right), op: m.op },
        ),
        Statement::Counter(c) => StatementM::Counter(counter_m(c)),
        Statement::Mangle(m) => StatementM::Mangle(
            MangleM { key: expr_m(m.key), value: expr_m(m.value) },
        ),
        Statement::Quota(q) => StatementM::Quota(quota_ref_m(q)),
        Statement::Limit(l) => StatementM::Limit(limit_m(l)),
        Statement::Flow(f) => StatementM::Flow(flow_m(f)),
        Statement::FWD(o) => StatementM::FWD(
            match o {
                Some(f) => Some(fwd_m(f)),
                None => None,
            },
        ),
        Statement::Notrack => StatementM::Notrack,
        Statement::Dup(d) => StatementM::Dup(
            DupM {
                addr: expr_m(d.addr),
                dev: match d.dev {
                    Some(e) => Some(expr_m(e)),
                    None => None,
                },
            },
        ),
        Statement::SNAT(o) => StatementM::SNAT(opt_nat_m(o)),
        Statement::DNAT(o) => StatementM::DNAT(opt_nat_m(o)),
        Statement::Masquerade(o) => StatementM::Masquerade(opt_nat_m(o)),
        Statement::Redirect(o) => StatementM::Redirect(opt_nat_m(o)),
        Statement::Reject(o) => StatementM::Reject(o),
        Statement::SetStmt(st) => StatementM::SetStmt(
            SetStmtM { op: st.op, elem: expr_m(st.elem), set: st.set@ },
        ),
        Statement::Log(o) => StatementM::Log(
            match o {
                Some(l) => Some(log_m(l)),
                None => None,
            },
        ),
        Statement::CTHelper(h) => StatementM::CTHelper(h@),
        Statement::Meter(m) => StatementM::Meter(
            MeterM { name: m.name@, key: expr_m(m.key), stmt: Box::new(stmt_m(*m.stmt)) },
        ),
        Statement::Queue(q) => StatementM::Queue(
            QueueM {
                num: expr_m(q.num),
                flags: match q.flags {
                    Some(f) => Some(f@),
                    None => None,
                },
            },
        ),
        Statement::VerdictMap(v) => StatementM::VerdictMap(
            VerdictMapM { key: expr_m(v.key), data: expr_m(v.data) },
        ),
        Statement::CTCount(c) => StatementM::CTCount(
            CTCountM { val: expr_m(c.val), inv: c.inv },
        ),
        Statement::CTTimeout(e) => StatementM::CTTimeout(expr_m(e)),
        Statement::CTExpectation(e) => StatementM::CTExpectation(expr_m(e)),
        Statement::XT(o) => StatementM::XT(
            match o {
                Some(j) => Some(json_m(j)),
                None => None,
            },
        ),
        Statement::SynProxy(p) => StatementM::SynProxy(synproxy_stmt_m(p)),
        Statement::TProxy(t) => StatementM::TProxy(tproxy_m(t)),
    }
}

/// Abstraction of the statements of a vector, from index `i` on.
pub open spec fn stmts_m_at(items: Vec<Statement>, i: int) -> Seq<StatementM>
    decreases items, items@.len() - i,
{
    if 0 <= i < items@.len() {
        seq![stmt_m(items[i])] + stmts_m_at(items, i + 1)
    } else {
        Seq::empty()
    }
}

/// Abstraction of an anonymous or named counter.
pub open spec fn counter_m(c: Counter) -> CounterM {
    match c {
        Counter::Named(s) => CounterM::Named(s@),
        Counter::Anonymous(o) => CounterM::Anonymous(o),
    }
}

/// Abstraction of an anonymous or referenced quota.
pub open spec fn quota_ref_m(q: QuotaOrQuotaRef) -> QuotaOrQuotaRefM {
    match q {
        QuotaOrQuotaRef::Quota(a) => QuotaOrQuotaRefM::Quota(quota_stmt_m(a)),
        QuotaOrQuotaRef::QuotaRef(s) => QuotaOrQuotaRefM::QuotaRef(s@),
    }
}

/// Abstraction of a limit statement.
pub open spec fn limit_m(l: Limit) -> LimitM {
    LimitM {
        rate: l.rate,
        rate_unit: opt_str_m(l.rate_unit),
        per: opt_str_m(l.per),
        burst: l.burst,
        burst_unit: opt_str_m(l.burst_unit),
        inv: l.inv,
    }
}

/// Abstraction of a forward statement.
pub open spec fn fwd_m(f: FWD) -> FWDM
    decreases f,
{
    FWDM {
        dev: match f.dev {
            Some(e) => Some(expr_m(e)),
            None => None,
        },
        family: f.family,
        addr: match f.addr {
            Some(e) => Some(expr_m(e)),
            None => None,
        },
    }
}

/// Abstraction of a NAT statement.
pub open spec fn nat_m(n: NAT) -> NATM
    decreases n,
{
    NATM {
        addr: match n.addr {
            Some(e) => Some(expr_m(e)),
            None => None,
        },
        family: n.family,
        port: n.port,
        flags: match n.flags {
            Some(f) => Some(f@),
            None => None,
        },
    }
}

/// Abstraction of an optional NAT statement.
pub open spec fn opt_nat_m(o: Option<NAT>) -> Option<NATM>
    decreases o,
{
    match o {
        Some(n) => Some(nat_m(n)),
        None => None,
    }
}

/// Abstraction of a log statement.
pub open spec fn log_m(l: Log) -> LogM {
    LogM {
        prefix: opt_str_m(l.prefix),
        group: l.group,
        snaplen: l.snaplen,
        queue_threshold: l.queue_threshold,
        level: l.level,
        flags: match l.flags {
            Some(f) => Some(f@),
            None => None,
        },
    }
}

// ---------------------------------------------------------------------
// Decode errors
// ---------------------------------------------------------------------

/// One step of a JSON path: a property name or an array index.
#[derive(Debug)]
pub enum PathSeg {
    Key(String),
    Index(usize),
}

/// A structural decode error, carrying the JSON path from the root of
/// the decoded value down to the offending node.
#[derive(Debug)]
pub struct DecodeError {
    /// Path to the node that failed to decode, outermost segment first.
    pub path: Vec<PathSeg>,
    /// What was wrong at that node.
    pub what: String,
}

impl DecodeError {
    /// An error at the current node.
    pub fn here(what: &str) -> (r: DecodeError)
        ensures
            r.path@.len() == 0,
            r.what@ == what@,
    {
        DecodeError { path: Vec::new(), what: what.to_owned() }
    }

    /// An error below the property `k` of the current node.
    pub fn at_key(k: &str, what: &str) -> (r: DecodeError)
        ensures
            r.path@.len() == 1,
            r.path@[0] matches PathSeg::Key(s) && s@ == k@,
            r.what@ == what@,
    {
        let mut path: Vec<PathSeg> = Vec::new();
        path.push(PathSeg::Key(k.to_owned()));
        DecodeError { path, what: what.to_owned() }
    }

    /// The same error, seen from one property further out: the
    /// property name is prefixed to the path and the rest is kept.
    pub fn in_key(self, k: &str) -> (r: DecodeError)
        ensures
            r.path@.len() == self.path@.len() + 1,
            r.path@[0] matches PathSeg::Key(s) && s@ == k@,
            forall|i: int| 1 <= i < r.path@.len() ==> r.path@[i] == self.path@[i - 1],
            r.what == self.what,
    {
        let mut path: Vec<PathSeg> = Vec::new();
        path.push(PathSeg::Key(k.to_owned()));
        let mut rest = self.path;
        let mut i: usize = 0;
        while i < rest.len()
            invariant
                0 <= i <= rest@.len(),
                path@.len() == i + 1,
                path@[0] matches PathSeg::Key(s) && s@ == k@,
                forall|j: int| 1 <= j < path@.len() ==> path@[j] == rest@[j - 1],
            decreases rest@.len() - i,
        {
            let seg = match &rest[i] {
                PathSeg::Key(s) => PathSeg::Key(s.clone()),
                PathSeg::Index(n) => PathSeg::Index(*n),
            };
            path.push(seg);
            i += 1;
        }
        DecodeError { path, what: self.what }
    }

    /// The same error, seen from one array index further out: the
    /// index is prefixed to the path and the rest is kept.
    pub fn in_index(self, idx: usize) -> (r: DecodeError)
        ensures
            r.path@.len() == self.path@.len() + 1,
            r.path@[0] == PathSeg::Index(idx),
            forall|i: int| 1 <= i < r.path@.len() ==> r.path@[i] == self.path@[i - 1],
            r.what == self.what,
    {
        let mut path: Vec<PathSeg> = Vec::new();
        path.push(PathSeg::Index(idx));
        let mut rest = self.path;
        let mut i: usize = 0;
        while i < rest.len()
            invariant
                0 <= i <= rest@.len(),
                path@.len() == i + 1,
                path@[0] == PathSeg::Index(idx),
                forall|j: int| 1 <= j < path@.len() ==> path@[j] == rest@[j - 1],
            decreases rest@.len() - i,
        {
            let seg = match &rest[i] {
                PathSeg::Key(s) => PathSeg::Key(s.clone()),
                PathSeg::Index(n) => PathSeg::Index(*n),
            };
            path.push(seg);
            i += 1;
        }
        DecodeError { path, what: self.what }
    }
}

// ---------------------------------------------------------------------
// Spec-side field helpers over an object's properties
// ---------------------------------------------------------------------

/// A required string property.
pub open spec fn dec_req_str(s: Seq<(Seq<char>, JsonM)>, k: Seq<char>) -> Option<Seq<char>> {
    match crate::json::lookup_entries(s, k) {
        Some(JsonM::Str(t)) => Some(t),
        _ => None,
    }
}

/// An optional string property: absent and null mean none.
pub open spec fn dec_opt_str(s: Seq<(Seq<char>, JsonM)>, k: Seq<char>) -> Option<
    Option<Seq<char>>,
> {
    match crate::json::lookup_entries(s, k) {
        None => Some(None),
        Some(JsonM::Null) => Some(None),
        Some(JsonM::Str(t)) => Some(Some(t)),
        Some(_) => None,
    }
}

/// A required unsigned 32-bit number property.
pub open spec fn dec_req_u32(s: Seq<(Seq<char>, JsonM)>, k: Seq<char>) -> Option<u32> {
    match crate::json::lookup_entries(s, k) {
        Some(JsonM::Num(n)) => if 0 <= n <= u32::MAX {
            Some(n as u32)
        } else {
            None
        },
        _ => None,
    }
}

/// An optional unsigned 32-bit number property.
pub open spec fn dec_opt_u32(s: Seq<(Seq<char>, JsonM)>, k: Seq<char>) -> Option<Option<u32>> {
    match crate::json::lookup_entries(s, k) {
        None => Some(None),
        Some(JsonM::Null) => Some(None),
        Some(JsonM::Num(n)) => if 0 <= n <= u32::MAX {
            Some(Some(n as u32))
        } else {
            None
        },
        Some(_) => None,
    }
}

/// An optional signed 32-bit number property.
pub open spec fn dec_opt_i32(s: Seq<(Seq<char>, JsonM)>, k: Seq<char>) -> Option<Option<i32>> {
    match crate::json::lookup_entries(s, k) {
        None => Some(None),
        Some(JsonM::Null) => Some(None),
        Some(JsonM::Num(n)) => if i32::MIN <= n <= i32::MAX {
            Some(Some(n as i32))
        } else {
            None
        },
        Some(_) => None,
    }
}

/// A required unsigned 16-bit number property.
pub open spec fn dec_req_u16(s: Seq<(Seq<char>, JsonM)>, k: Seq<char>) -> Option<u16> {
    match crate::json::lookup_entries(s, k) {
        Some(JsonM::Num(n)) => if 0 <= n <= u16::MAX {
            Some(n as u16)
        } else {
            None
        },
        _ => None,
    }
}

/// An optional unsigned 16-bit number property.
pub open spec fn dec_opt_u16(s: Seq<(Seq<char>, JsonM)>, k: Seq<char>) -> Option<Option<u16>> {
    match crate::json::lookup_entries(s, k) {
        None => Some(None),
        Some(JsonM::Null) => Some(None),
        Some(JsonM::Num(n)) => if 0 <= n <= u16::MAX {
            Some(Some(n as u16))
        } else {
            None
        },
        Some(_) => None,
    }
}

/// An optional unsigned 8-bit number property.
pub open spec fn dec_opt_u8(s: Seq<(Seq<char>, JsonM)>, k: Seq<char>) -> Option<Option<u8>> {
    match crate::json::lookup_entries(s, k) {
        None => Some(None),
        Some(JsonM::Null) => Some(None),
        Some(JsonM::Num(n)) => if 0 <= n <= u8::MAX {
            Some(Some(n as u8))
        } else {
            None
        },
        Some(_) => None,
    }
}

/// An optional boolean property.
pub open spec fn dec_opt_bool(s: Seq<(Seq<char>, JsonM)>, k: Seq<char>) -> Option<Option<bool>> {
    match crate::json::lookup_entries(s, k) {
        None => Some(None),
        Some(JsonM::Null) => Some(None),
        Some(JsonM::Bool(b)) => Some(Some(b)),
        Some(_) => None,
    }
}

// ---------------------------------------------------------------------
// Spec-side field builders
// ---------------------------------------------------------------------

/// A single property.
pub open spec fn fone(k: Seq<char>, v: JsonM) -> Seq<(Seq<char>, JsonM)> {
    seq![(k, v)]
}

/// An optional number property, omitted when absent.
pub open spec fn fopt_u32(k: Seq<char>, o: Option<u32>) -> Seq<(Seq<char>, JsonM)> {
    match o {
        Some(n) => seq![(k, JsonM::Num(n as int))],
        None => Seq::empty(),
    }
}


/// An optional signed number property, omitted when absent.
pub open spec fn fopt_i32(k: Seq<char>, o: Option<i32>) -> Seq<(Seq<char>, JsonM)> {
    match o {
        Some(n) => seq![(k, JsonM::Num(n as int))],
        None => Seq::empty(),
    }
}

/// An optional 16-bit number property, omitted when absent.
pub open spec fn fopt_u16(k: Seq<char>, o: Option<u16>) -> Seq<(Seq<char>, JsonM)> {
    match o {
        Some(n) => seq![(k, JsonM::Num(n as int))],
        None => Seq::empty(),
    }
}

/// An optional 8-bit number property, omitted when absent.
pub open spec fn fopt_u8(k: Seq<char>, o: Option<u8>) -> Seq<(Seq<char>, JsonM)> {
    match o {
        Some(n) => seq![(k, JsonM::Num(n as int))],
        None => Seq::empty(),
    }
}

/// An optional string property, omitted when absent.
pub open spec fn fopt_str(k: Seq<char>, o: Option<Seq<char>>) -> Seq<(Seq<char>, JsonM)> {
    match o {
        Some(s) => seq![(k, JsonM::Str(s))],
        None => Seq::empty(),
    }
}

/// An optional boolean property, omitted when absent.
pub open spec fn fopt_bool(k: Seq<char>, o: Option<bool>) -> Seq<(Seq<char>, JsonM)> {
    match o {
        Some(b) => seq![(k, JsonM::Bool(b))],
        None => Seq::empty(),
    }
}


// ---------------------------------------------------------------------
// Executable helpers
// ---------------------------------------------------------------------

/// Appends a property to an object under construction.
pub fn push_field(es: &mut Vec<(String, Json)>, k: &str, v: Json)
    ensures
        crate::json::entries_m(final(es)@) == crate::json::entries_m(old(es)@) + seq![
            (k@, v@),
        ],
{
    let ghost before = es@;
    es.push((k.to_owned(), v));
    proof {
        assert(crate::json::entries_m(es@) =~= crate::json::entries_m(before) + seq![
            (k@, json_m(v)),
        ]);
    }
}

/// Finishes an object under construction.
pub fn finish_obj(es: Vec<(String, Json)>) -> (r: Json)
    ensures
        r@ == JsonM::Obj(crate::json::entries_m(es@)),
{
    let ghost ges = es;
    let r = Json::Obj(es);
    proof {
        crate::json::lemma_obj_m_at(ges, 0);
        assert(crate::json::obj_m_at(ges, 0) =~= crate::json::entries_m(ges@));
    }
    r
}

/// The properties of an object value; an error on any other value.
pub fn get_entries<'a>(j: &'a Json) -> (r: Result<&'a Vec<(String, Json)>, DecodeError>)
    ensures
        r matches Ok(es) ==> j@ == JsonM::Obj(crate::json::entries_m(es@)),
        r is Err ==> !(j@ is Obj),
{
    match j {
        Json::Obj(entries) => {
            proof {
                crate::json::lemma_obj_m_at(*entries, 0);
                assert(crate::json::obj_m_at(*entries, 0) =~= crate::json::entries_m(entries@));
            }
            Ok(entries)
        },
        _ => Err(DecodeError::here("expected an object")),
    }
}

/// A required string property, returned as an owned string.
pub fn get_req_str(entries: &Vec<(String, Json)>, k: &str) -> (r: Result<String, DecodeError>)
    ensures
        r matches Ok(v) ==> dec_req_str(crate::json::entries_m(entries@), k@) == Some(v@),
        r is Err ==> dec_req_str(crate::json::entries_m(entries@), k@) is None,
{
    match crate::json::obj_lookup(entries, k) {
        Some(Json::Str(s)) => Ok(s.clone()),
        Some(_) => Err(DecodeError::at_key(k, "expected a string")),
        None => Err(DecodeError::at_key(k, "missing required property")),
    }
}

/// An optional string property, returned as an owned string.
pub fn get_opt_str(entries: &Vec<(String, Json)>, k: &str) -> (r: Result<
    Option<String>,
    DecodeError,
>)
    ensures
        r matches Ok(v) ==> dec_opt_str(crate::json::entries_m(entries@), k@) == Some(
            opt_str_m(v),
        ),
        r is Err ==> dec_opt_str(crate::json::entries_m(entries@), k@) is None,
{
    match crate::json::obj_lookup(entries, k) {
        None => Ok(None),
        Some(Json::Null) => Ok(None),
        Some(Json::Str(s)) => Ok(Some(s.clone())),
        Some(_) => Err(DecodeError::at_key(k, "expected a string")),
    }
}

/// A required unsigned 32-bit number property.
pub fn get_req_u32(entries: &Vec<(String, Json)>, k: &str) -> (r: Result<u32, DecodeError>)
    ensures
        r matches Ok(v) ==> dec_req_u32(crate::json::entries_m(entries@), k@) == Some(v),
        r is Err ==> dec_req_u32(crate::json::entries_m(entries@), k@) is None,
{
    match crate::json::obj_lookup(entries, k) {
        Some(Json::Num(n)) => {
            let n = *n;
            if 0 <= n && n <= u32::MAX as i64 {
                Ok(n as u32)
            } else {
                Err(DecodeError::at_key(k, "number out of range"))
            }
        },
        Some(_) => Err(DecodeError::at_key(k, "expected a number")),
        None => Err(DecodeError::at_key(k, "missing required property")),
    }
}

/// An optional unsigned 32-bit number property.
pub fn get_opt_u32(entries: &Vec<(String, Json)>, k: &str) -> (r: Result<
    Option<u32>,
    DecodeError,
>)
    ensures
        r matches Ok(v) ==> dec_opt_u32(crate::json::entries_m(entries@), k@) == Some(v),
        r is Err ==> dec_opt_u32(crate::json::entries_m(entries@), k@) is None,
{
    match crate::json::obj_lookup(entries, k) {
        None => Ok(None),
        Some(Json::Null) => Ok(None),
        Some(Json::Num(n)) => {
            let n = *n;
            if 0 <= n && n <= u32::MAX as i64 {
                Ok(Some(n as u32))
            } else {
                Err(DecodeError::at_key(k, "number out of range"))
            }
        },
        Some(_) => Err(DecodeError::at_key(k, "expected a number")),
    }
}

/// An optional signed 32-bit number property.
pub fn get_opt_i32(entries: &Vec<(String, Json)>, k: &str) -> (r: Result<
    Option<i32>,
    DecodeError,
>)
    ensures
        r matches Ok(v) ==> dec_opt_i32(crate::json::entries_m(entries@), k@) == Some(v),
        r is Err ==> dec_opt_i32(crate::json::entries_m(entries@), k@) is None,
{
    match crate::json::obj_lookup(entries, k) {
        None => Ok(None),
        Some(Json::Null) => Ok(None),
        Some(Json::Num(n)) => {
            let n = *n;
            if i32::MIN as i64 <= n && n <= i32::MAX as i64 {
                Ok(Some(n as i32))
            } else {
                Err(DecodeError::at_key(k, "number out of range"))
            }
        },
        Some(_) => Err(DecodeError::at_key(k, "expected a number")),
    }
}

/// A required unsigned 16-bit number property.
pub fn get_req_u16(entries: &Vec<(String, Json)>, k: &str) -> (r: Result<u16, DecodeError>)
    ensures
        r matches Ok(v) ==> dec_req_u16(crate::json::entries_m(entries@), k@) == Some(v),
        r is Err ==> dec_req_u16(crate::json::entries_m(entries@), k@) is None,
{
    match crate::json::obj_lookup(entries, k) {
        Some(Json::Num(n)) => {
            let n = *n;
            if 0 <= n && n <= u16::MAX as i64 {
                Ok(n as u16)
            } else {
                Err(DecodeError::at_key(k, "number out of range"))
            }
        },
        Some(_) => Err(DecodeError::at_key(k, "expected a number")),
        None => Err(DecodeError::at_key(k, "missing required property")),
    }
}

/// An optional unsigned 16-bit number property.
pub fn get_opt_u16(entries: &Vec<(String, Json)>, k: &str) -> (r: Result<
    Option<u16>,
    DecodeError,
>)
    ensures
        r matches Ok(v) ==> dec_opt_u16(crate::json::entries_m(entries@), k@) == Some(v),
        r is Err ==> dec_opt_u16(crate::json::entries_m(entries@), k@) is None,
{
    match crate::json::obj_lookup(entries, k) {
        None => Ok(None),
        Some(Json::Null) => Ok(None),
        Some(Json::Num(n)) => {
            let n = *n;
            if 0 <= n && n <= u16::MAX as i64 {
                Ok(Some(n as u16))
            } else {
                Err(DecodeError::at_key(k, "number out of range"))
            }
        },
        Some(_) => Err(DecodeError::at_key(k, "expected a number")),
    }
}

/// An optional unsigned 8-bit number property.
pub fn get_opt_u8(entries: &Vec<(String, Json)>, k: &str) -> (r: Result<Option<u8>, DecodeError>)
    ensures
        r matches Ok(v) ==> dec_opt_u8(crate::json::entries_m(entries@), k@) == Some(v),
        r is Err ==> dec_opt_u8(crate::json::entries_m(entries@), k@) is None,
{
    match crate::json::obj_lookup(entries, k) {
        None => Ok(None),
        Some(Json::Null) => Ok(None),
        Some(Json::Num(n)) => {
            let n = *n;
            if 0 <= n && n <= u8::MAX as i64 {
                Ok(Some(n as u8))
            } else {
                Err(DecodeError::at_key(k, "number out of range"))
            }
        },
        Some(_) => Err(DecodeError::at_key(k, "expected a number")),
    }
}

/// An optional boolean property.
pub fn get_opt_bool(entries: &Vec<(String, Json)>, k: &str) -> (r: Result<
    Option<bool>,
    DecodeError,
>)
    ensures
        r matches Ok(v) ==> dec_opt_bool(crate::json::entries_m(entries@), k@) == Some(v),
        r is Err ==> dec_opt_bool(crate::json::entries_m(entries@), k@) is None,
{
    match crate::json::obj_lookup(entries, k) {
        None => Ok(None),
        Some(Json::Null) => Ok(None),
        Some(Json::Bool(b)) => Ok(Some(*b)),
        Some(_) => Err(DecodeError::at_key(k, "expected a boolean")),
    }
}

// ---------------------------------------------------------------------
// Enum-valued fields
// ---------------------------------------------------------------------

/// The required `family` property of most ruleset elements.
pub open spec fn dec_field_family(s: Seq<(Seq<char>, JsonM)>) -> Option<crate::types::NfFamily> {
    match dec_req_str(s, "family"@) {
        Some(t) => crate::types::family_inv(t),
        None => None,
    }
}

/// Reads and checks the `family` property.
pub fn get_family(entries: &Vec<(String, Json)>) -> (r: Result<crate::types::NfFamily, DecodeError>)
    ensures
        r matches Ok(v) ==> dec_field_family(crate::json::entries_m(entries@)) == Some(v),
        r is Err ==> dec_field_family(crate::json::entries_m(entries@)) is None,
{
    let t = get_req_str(entries, "family")?;
    match crate::types::family_from_wire(t.as_str()) {
        Some(f) => Ok(f),
        None => Err(DecodeError::at_key("family", "unknown enum value")),
    }
}

// ---------------------------------------------------------------------
// Table
// ---------------------------------------------------------------------

/// The wire form of a table.
pub open spec fn enc_table(t: crate::schema::TableM) -> JsonM {
    JsonM::Obj(
        fone("family"@, JsonM::Str(crate::types::family_tok(t.family))) + (fone(
            "name"@,
            JsonM::Str(t.name),
        ) + fopt_u32("handle"@, t.handle)),
    )
}

/// The table a wire value stands for, if any.
pub open spec fn dec_table(j: JsonM) -> Option<crate::schema::TableM> {
    if !(j is Obj) {
        None
    } else {
        let s = j->Obj_0;
        let family = dec_field_family(s);
        let name = dec_req_str(s, "name"@);
        let handle = dec_opt_u32(s, "handle"@);
        if family is Some && name is Some && handle is Some {
            Some(
                crate::schema::TableM {
                    family: family->0,
                    name: name->0,
                    handle: handle->0,
                },
            )
        } else {
            None
        }
    }
}

/// Abstraction of a table.
pub open spec fn table_m(t: crate::schema::Table) -> crate::schema::TableM {
    crate::schema::TableM { family: t.family, name: t.name@, handle: t.handle }
}

/// Encodes a table.
pub fn encode_table(t: &crate::schema::Table) -> (r: Json)
    ensures
        r@ == enc_table(table_m(*t)),
{
    let mut es: Vec<(String, Json)> = Vec::new();
    push_field(&mut es, "family", Json::Str(crate::types::family_to_wire(t.family).to_owned()));
    push_field(&mut es, "name", Json::Str(t.name.clone()));
    if let Some(h) = t.handle {
        push_field(&mut es, "handle", Json::Num(h as i64));
    }
    let r = finish_obj(es);
    proof {
        assert(r@->Obj_0 =~= enc_table(table_m(*t))->Obj_0);
    }
    r
}

/// Decodes a table.
pub fn decode_table(j: &Json) -> (r: Result<crate::schema::Table, DecodeError>)
    ensures
        r matches Ok(v) ==> dec_table(j@) == Some(table_m(v)),
        r is Err ==> dec_table(j@) is None,
{
    let entries = get_entries(j)?;
    let family = get_family(entries)?;
    let name = get_req_str(entries, "name")?;
    let handle = get_opt_u32(entries, "handle")?;
    Ok(crate::schema::Table { family, name, handle })
}

/// Decoding an encoded table gives the table back.
pub proof fn lemma_rt_table(t: crate::schema::TableM)
    ensures
        dec_table(enc_table(t)) == Some(t),
{
    let f1 = fone("family"@, JsonM::Str(crate::types::family_tok(t.family)));
    let f2 = fone("name"@, JsonM::Str(t.name));
    let f3 = fopt_u32("handle"@, t.handle);
    crate::json::lemma_lookup_prepend_all(f1, f2 + f3);
    crate::json::lemma_lookup_prepend_all(f2, f3);
    crate::json::lemma_lookup_single_all("family"@, JsonM::Str(crate::types::family_tok(t.family)));
    crate::json::lemma_lookup_single_all("name"@, JsonM::Str(t.name));
    if let Some(h) = t.handle {
        crate::json::lemma_lookup_single_all("handle"@, JsonM::Num(h as int));
    }
    reveal_strlit("family");
    reveal_strlit("name");
    reveal_strlit("handle");
    assert("family"@.len() >= 1 && "family"@[0] == 'f');
    assert("name"@.len() >= 1 && "name"@[0] == 'n');
    assert("handle"@.len() >= 1 && "handle"@[0] == 'h');
    crate::types::lemma_family_inv_tok(t.family);
}

/// A required enum-valued property, read through the token inverse `inv`.
pub open spec fn dec_req_enum<T>(
    s: Seq<(Seq<char>, JsonM)>,
    k: Seq<char>,
    inv: spec_fn(Seq<char>) -> Option<T>,
) -> Option<T> {
    match dec_req_str(s, k) {
        Some(t) => inv(t),
        None => None,
    }
}

/// An optional enum-valued property, read through the token inverse `inv`.
pub open spec fn dec_opt_enum<T>(
    s: Seq<(Seq<char>, JsonM)>,
    k: Seq<char>,
    inv: spec_fn(Seq<char>) -> Option<T>,
) -> Option<Option<T>> {
    match dec_opt_str(s, k) {
        None => None,
        Some(None) => Some(None),
        Some(Some(t)) => match inv(t) {
            Some(v) => Some(Some(v)),
            None => None,
        },
    }
}

// ---------------------------------------------------------------------
// Payload
// ---------------------------------------------------------------------

/// The wire form of a payload reference.
pub open spec fn enc_payload(p: PayloadM) -> JsonM {
    match p {
        PayloadM::PayloadField(f) => JsonM::Obj(
            fone("protocol"@, JsonM::Str(f.protocol)) + fone("field"@, JsonM::Str(f.field)),
        ),
        PayloadM::PayloadRaw(r) => JsonM::Obj(
            fone("base"@, JsonM::Str(crate::expr::payload_base_tok(r.base))) + (fone(
                "offset"@,
                JsonM::Num(r.offset as int),
            ) + fone("len"@, JsonM::Num(r.len as int))),
        ),
    }
}

/// The payload reference a wire value stands for, if any.  The two
/// alternatives are told apart by probing field names: if either
/// `protocol` or `field` is present, the value must be a complete
/// field reference; otherwise it must be a complete raw window.
pub open spec fn dec_payload(j: JsonM) -> Option<PayloadM> {
    if !(j is Obj) {
        None
    } else {
        let s = j->Obj_0;
        if crate::json::lookup_entries(s, "protocol"@) is Some || crate::json::lookup_entries(
            s,
            "field"@,
        ) is Some {
            let protocol = dec_req_str(s, "protocol"@);
            let field = dec_req_str(s, "field"@);
            if protocol is Some && field is Some {
                Some(
                    PayloadM::PayloadField(
                        PayloadFieldM { protocol: protocol->0, field: field->0 },
                    ),
                )
            } else {
                None
            }
        } else {
            let base = dec_req_enum(s, "base"@, |t| crate::expr::payload_base_inv(t));
            let offset = dec_req_u32(s, "offset"@);
            let len = dec_req_u32(s, "len"@);
            if base is Some && offset is Some && len is Some {
                Some(
                    PayloadM::PayloadRaw(
                        crate::expr::PayloadRaw {
                            base: base->0,
                            offset: offset->0,
                            len: len->0,
                        },
                    ),
                )
            } else {
                None
            }
        }
    }
}

/// Encodes a payload reference.
pub fn encode_payload(p: &Payload) -> (r: Json)
    ensures
        r@ == enc_payload(payload_m(*p)),
{
    match p {
        Payload::PayloadField(f) => {
            let mut es: Vec<(String, Json)> = Vec::new();
            push_field(&mut es, "protocol", Json::Str(f.protocol.clone()));
            push_field(&mut es, "field", Json::Str(f.field.clone()));
            let r = finish_obj(es);
            proof {
                assert(r@->Obj_0 =~= enc_payload(payload_m(*p))->Obj_0);
            }
            r
        },
        Payload::PayloadRaw(w) => {
            let mut es: Vec<(String, Json)> = Vec::new();
            push_field(
                &mut es,
                "base",
                Json::Str(crate::expr::payload_base_to_wire(w.base).to_owned()),
            );
            push_field(&mut es, "offset", Json::Num(w.offset as i64));
            push_field(&mut es, "len", Json::Num(w.len as i64));
            let r = finish_obj(es);
            proof {
                assert(r@->Obj_0 =~= enc_payload(payload_m(*p))->Obj_0);
            }
            r
        },
    }
}

/// Decodes a payload reference.
pub fn decode_payload(j: &Json) -> (r: Result<Payload, DecodeError>)
    ensures
        r matches Ok(v) ==> dec_payload(j@) == Some(payload_m(v)),
        r is Err ==> dec_payload(j@) is None,
{
    let entries = get_entries(j)?;
    let has_protocol = crate::json::obj_lookup(entries, "protocol").is_some();
    let has_field = crate::json::obj_lookup(entries, "field").is_some();
    if has_protocol || has_field {
        let protocol = get_req_str(entries, "protocol")?;
        let field = get_req_str(entries, "field")?;
        Ok(Payload::PayloadField(PayloadField { protocol, field }))
    } else {
        let base_s = get_req_str(entries, "base")?;
        let base = match crate::expr::payload_base_from_wire(base_s.as_str()) {
            Some(b) => b,
            None => {
                return Err(DecodeError::at_key("base", "unknown enum value"));
            },
        };
        let offset = get_req_u32(entries, "offset")?;
        let len = get_req_u32(entries, "len")?;
        Ok(Payload::PayloadRaw(crate::expr::PayloadRaw { base, offset, len }))
    }
}

/// Decoding an encoded payload reference gives it back.
pub proof fn lemma_rt_payload(p: PayloadM)
    ensures
        dec_payload(enc_payload(p)) == Some(p),
{
    reveal_strlit("protocol");
    reveal_strlit("field");
    reveal_strlit("base");
    reveal_strlit("offset");
    reveal_strlit("len");
    assert("protocol"@.len() >= 1 && "protocol"@[0] == 'p');
    assert("field"@.len() >= 1 && "field"@[0] == 'f');
    assert("base"@.len() >= 1 && "base"@[0] == 'b');
    assert("offset"@.len() >= 1 && "offset"@[0] == 'o');
    assert("len"@.len() >= 1 && "len"@[0] == 'l');
    match p {
        PayloadM::PayloadField(f) => {
            let f1 = fone("protocol"@, JsonM::Str(f.protocol));
            let f2 = fone("field"@, JsonM::Str(f.field));
            crate::json::lemma_lookup_prepend_all(f1, f2);
            crate::json::lemma_lookup_single_all("protocol"@, JsonM::Str(f.protocol));
            crate::json::lemma_lookup_single_all("field"@, JsonM::Str(f.field));
        },
        PayloadM::PayloadRaw(w) => {
            let f1 = fone("base"@, JsonM::Str(crate::expr::payload_base_tok(w.base)));
            let f2 = fone("offset"@, JsonM::Num(w.offset as int));
            let f3 = fone("len"@, JsonM::Num(w.len as int));
            crate::json::lemma_lookup_prepend_all(f1, f2 + f3);
            crate::json::lemma_lookup_prepend_all(f2, f3);
            crate::json::lemma_lookup_single_all(
                "base"@,
                JsonM::Str(crate::expr::payload_base_tok(w.base)),
            );
            crate::json::lemma_lookup_single_all("offset"@, JsonM::Num(w.offset as int));
            crate::json::lemma_lookup_single_all("len"@, JsonM::Num(w.len as int));
            crate::expr::lemma_payload_base_inv_tok(w.base);
        },
    }
}

/// The wire form of this object.
pub open spec fn enc_exthdr(t: crate::expr::ExthdrM) -> JsonM {
    JsonM::Obj(fone("name"@, JsonM::Str(t.name)) + (fone("field"@, JsonM::Str(t.field)) + (fone("offset"@, JsonM::Num(t.offset as int)))))
}

/// The object a wire value stands for, if any.
pub open spec fn dec_exthdr(j: JsonM) -> Option<crate::expr::ExthdrM> {
    if !(j is Obj) {
        None
    } else {
        let s = j->Obj_0;
        let name = dec_req_str(s, "name"@);
        let field = dec_req_str(s, "field"@);
        let offset = dec_req_u32(s, "offset"@);
        if name is Some && field is Some && offset is Some {
            Some(crate::expr::ExthdrM { name: name->0, field: field->0, offset: offset->0 })
        } else {
            None
        }
    }
}

/// Encodes this object.
pub fn encode_exthdr(t: &crate::expr::Exthdr) -> (r: Json)
    ensures
        r@ == enc_exthdr(exthdr_m(*t)),
{
    let mut es: Vec<(String, Json)> = Vec::new();
    push_field(&mut es, "name", Json::Str(t.name.clone()));
    push_field(&mut es, "field", Json::Str(t.field.clone()));
    push_field(&mut es, "offset", Json::Num(t.offset as i64));
    let r = finish_obj(es);
    proof {
        assert(r@->Obj_0 =~= enc_exthdr(exthdr_m(*t))->Obj_0);
    }
    r
}

/// Decodes this object.
pub fn decode_exthdr(j: &Json) -> (r: Result<crate::expr::Exthdr, DecodeError>)
    ensures
        r matches Ok(v) ==> dec_exthdr(j@) == Some(exthdr_m(v)),
        r is Err ==> dec_exthdr(j@) is None,
{
    let entries = get_entries(j)?;
    let name = get_req_str(entries, "name")?;
    let field = get_req_str(entries, "field")?;
    let offset = get_req_u32(entries, "offset")?;
    Ok(crate::expr::Exthdr { name, field, offset })
}

/// Decoding an encoded object gives it back.
pub proof fn lemma_rt_exthdr(t: crate::expr::ExthdrM)
    ensures
        dec_exthdr(enc_exthdr(t)) == Some(t),
{
    reveal_strlit("name");
    reveal_strlit("field");
    reveal_strlit("offset");
    assert("name"@.len() >= 1 && "name"@[0] == 'n');
    assert("field"@.len() >= 1 && "field"@[0] == 'f');
    assert("offset"@.len() >= 1 && "offset"@[0] == 'o');

    let f0 = fone("name"@, JsonM::Str(t.name));
    let f1 = fone("field"@, JsonM::Str(t.field));
    let f2 = fone("offset"@, JsonM::Num(t.offset as int));
    crate::json::lemma_lookup_prepend_all(f0, f1 + (f2));
    crate::json::lemma_lookup_prepend_all(f1, f2);
    crate::json::lemma_lookup_single_all("name"@, JsonM::Str(t.name));
    crate::json::lemma_lookup_single_all("field"@, JsonM::Str(t.field));
    crate::json::lemma_lookup_single_all("offset"@, JsonM::Num(t.offset as int));
}

/// The wire form of this object.
pub open spec fn enc_tcp_option(t: crate::expr::TcpOptionM) -> JsonM {
    JsonM::Obj(fone("name"@, JsonM::Str(t.name)) + (fone("field"@, JsonM::Str(t.field))))
}

/// The object a wire value stands for, if any.
pub open spec fn dec_tcp_option(j: JsonM) -> Option<crate::expr::TcpOptionM> {
    if !(j is Obj) {
        None
    } else {
        let s = j->Obj_0;
        let name = dec_req_str(s, "name"@);
        let field = dec_req_str(s, "field"@);
        if name is Some && field is Some {
            Some(crate::expr::TcpOptionM { name: name->0, field: field->0 })
        } else {
            None
        }
    }
}

/// Encodes this object.
pub fn encode_tcp_option(t: &crate::expr::TcpOption) -> (r: Json)
    ensures
        r@ == enc_tcp_option(tcp_option_m(*t)),
{
    let mut es: Vec<(String, Json)> = Vec::new();
    push_field(&mut es, "name", Json::Str(t.name.clone()));
    push_field(&mut es, "field", Json::Str(t.field.clone()));
    let r = finish_obj(es);
    proof {
        assert(r@->Obj_0 =~= enc_tcp_option(tcp_option_m(*t))->Obj_0);
    }
    r
}

/// Decodes this object.
pub fn decode_tcp_option(j: &Json) -> (r: Result<crate::expr::TcpOption, DecodeError>)
    ensures
        r matches Ok(v) ==> dec_tcp_option(j@) == Some(tcp_option_m(v)),
        r is Err ==> dec_tcp_option(j@) is None,
{
    let entries = get_entries(j)?;
    let name = get_req_str(entries, "name")?;
    let field = get_req_str(entries, "field")?;
    Ok(crate::expr::TcpOption { name, field })
}

/// Decoding an encoded object gives it back.
pub proof fn lemma_rt_tcp_option(t: crate::expr::TcpOptionM)
    ensures
        dec_tcp_option(enc_tcp_option(t)) == Some(t),
{
    reveal_strlit("name");
    reveal_strlit("field");
    assert("name"@.len() >= 1 && "name"@[0] == 'n');
    assert("field"@.len() >= 1 && "field"@[0] == 'f');

    let f0 = fone("name"@, JsonM::Str(t.name));
    let f1 = fone("field"@, JsonM::Str(t.field));
    crate::json::lemma_lookup_prepend_all(f0, f1);
    crate::json::lemma_lookup_single_all("name"@, JsonM::Str(t.name));
    crate::json::lemma_lookup_single_all("field"@, JsonM::Str(t.field));
}

/// The wire form of this object.
pub open spec fn enc_sctp_chunk(t: crate::expr::SctpChunkM) -> JsonM {
    JsonM::Obj(fone("name"@, JsonM::Str(t.name)) + (fone("field"@, JsonM::Str(t.field))))
}

/// The object a wire value stands for, if any.
pub open spec fn dec_sctp_chunk(j: JsonM) -> Option<crate::expr::SctpChunkM> {
    if !(j is Obj) {
        None
    } else {
        let s = j->Obj_0;
        let name = dec_req_str(s, "name"@);
        let field = dec_req_str(s, "field"@);
        if name is Some && field is Some {
            Some(crate::expr::SctpChunkM { name: name->0, field: field->0 })
        } else {
            None
        }
    }
}

/// Encodes this object.
pub fn encode_sctp_chunk(t: &crate::expr::SctpChunk) -> (r: Json)
    ensures
        r@ == enc_sctp_chunk(sctp_chunk_m(*t)),
{
    let mut es: Vec<(String, Json)> = Vec::new();
    push_field(&mut es, "name", Json::Str(t.name.clone()));
    push_field(&mut es, "field", Json::Str(t.field.clone()));
    let r = finish_obj(es);
    proof {
        assert(r@->Obj_0 =~= enc_sctp_chunk(sctp_chunk_m(*t))->Obj_0);
    }
    r
}

/// Decodes this object.
pub fn decode_sctp_chunk(j: &Json) -> (r: Result<crate::expr::SctpChunk, DecodeError>)
    ensures
        r matches Ok(v) ==> dec_sctp_chunk(j@) == Some(sctp_chunk_m(v)),
        r is Err ==> dec_sctp_chunk(j@) is None,
{
    let entries = get_entries(j)?;
    let name = get_req_str(entries, "name")?;
    let field = get_req_str(entries, "field")?;
    Ok(crate::expr::SctpChunk { name, field })
}

/// Decoding an encoded object gives it back.
pub proof fn lemma_rt_sctp_chunk(t: crate::expr::SctpChunkM)
    ensures
        dec_sctp_chunk(enc_sctp_chunk(t)) == Some(t),
{
    reveal_strlit("name");
    reveal_strlit("field");
    assert("name"@.len() >= 1 && "name"@[0] == 'n');
    assert("field"@.len() >= 1 && "field"@[0] == 'f');

    let f0 = fone("name"@, JsonM::Str(t.name));
    let f1 = fone("field"@, JsonM::Str(t.field));
    crate::json::lemma_lookup_prepend_all(f0, f1);
    crate::json::lemma_lookup_single_all("name"@, JsonM::Str(t.name));
    crate::json::lemma_lookup_single_all("field"@, JsonM::Str(t.field));
}

/// The wire form of this object.
pub open spec fn enc_meta(t: crate::expr::Meta) -> JsonM {
    JsonM::Obj(fone("key"@, JsonM::Str(crate::expr::meta_key_tok(t.key))))
}

/// The object a wire value stands for, if any.
pub open spec fn dec_meta(j: JsonM) -> Option<crate::expr::Meta> {
    if !(j is Obj) {
        None
    } else {
        let s = j->Obj_0;
        let key = dec_req_enum(s, "key"@, |t| crate::expr::meta_key_inv(t));
        if key is Some {
            Some(crate::expr::Meta { key: key->0 })
        } else {
            None
        }
    }
}

/// Encodes this object.
pub fn encode_meta(t: &crate::expr::Meta) -> (r: Json)
    ensures
        r@ == enc_meta(*t),
{
    let mut es: Vec<(String, Json)> = Vec::new();
    push_field(&mut es, "key", Json::Str(crate::expr::meta_key_to_wire(t.key).to_owned()));
    let r = finish_obj(es);
    proof {
        assert(r@->Obj_0 =~= enc_meta(*t)->Obj_0);
    }
    r
}

/// Decodes this object.
pub fn decode_meta(j: &Json) -> (r: Result<crate::expr::Meta, DecodeError>)
    ensures
        r matches Ok(v) ==> dec_meta(j@) == Some(v),
        r is Err ==> dec_meta(j@) is None,
{
    let entries = get_entries(j)?;
    let key_s = get_req_str(entries, "key")?;
    let key = match crate::expr::meta_key_from_wire(key_s.as_str()) {
        Some(v) => v,
        None => {
            return Err(DecodeError::at_key("key", "unknown enum value"));
        },
    };
    Ok(crate::expr::Meta { key })
}

/// Decoding an encoded object gives it back.
pub proof fn lemma_rt_meta(t: crate::expr::Meta)
    ensures
        dec_meta(enc_meta(t)) == Some(t),
{
    reveal_strlit("key");
    assert("key"@.len() >= 1 && "key"@[0] == 'k');

    let f0 = fone("key"@, JsonM::Str(crate::expr::meta_key_tok(t.key)));

    crate::json::lemma_lookup_single_all("key"@, JsonM::Str(crate::expr::meta_key_tok(t.key)));
    crate::expr::lemma_meta_key_inv_tok(t.key);
}

/// The wire form of this object.
pub open spec fn enc_rt(t: crate::expr::RT) -> JsonM {
    JsonM::Obj(fone("key"@, JsonM::Str(crate::expr::rt_key_tok(t.key))) + (fopt_str("family"@, (match t.family {
            Some(x) => Some(crate::expr::rt_family_tok(x)),
            None => None,
        }))))
}

/// The object a wire value stands for, if any.
pub open spec fn dec_rt(j: JsonM) -> Option<crate::expr::RT> {
    if !(j is Obj) {
        None
    } else {
        let s = j->Obj_0;
        let key = dec_req_enum(s, "key"@, |t| crate::expr::rt_key_inv(t));
        let family = dec_opt_enum(s, "family"@, |t| crate::expr::rt_family_inv(t));
        if key is Some && family is Some {
            Some(crate::expr::RT { key: key->0, family: family->0 })
        } else {
            None
        }
    }
}

/// Encodes this object.
pub fn encode_rt(t: &crate::expr::RT) -> (r: Json)
    ensures
        r@ == enc_rt(*t),
{
    let mut es: Vec<(String, Json)> = Vec::new();
    push_field(&mut es, "key", Json::Str(crate::expr::rt_key_to_wire(t.key).to_owned()));
    if let Some(x) = t.family {
        push_field(&mut es, "family", Json::Str(crate::expr::rt_family_to_wire(x).to_owned()));
    }
    let r = finish_obj(es);
    proof {
        assert(r@->Obj_0 =~= enc_rt(*t)->Obj_0);
    }
    r
}

/// Decodes this object.
pub fn decode_rt(j: &Json) -> (r: Result<crate::expr::RT, DecodeError>)
    ensures
        r matches Ok(v) ==> dec_rt(j@) == Some(v),
        r is Err ==> dec_rt(j@) is None,
{
    let entries = get_entries(j)?;
    let key_s = get_req_str(entries, "key")?;
    let key = match crate::expr::rt_key_from_wire(key_s.as_str()) {
        Some(v) => v,
        None => {
            return Err(DecodeError::at_key("key", "unknown enum value"));
        },
    };
    let family = match get_opt_str(entries, "family")? {
        Some(tk) => match crate::expr::rt_family_from_wire(tk.as_str()) {
            Some(v) => Some(v),
            None => {
                return Err(DecodeError::at_key("family", "unknown enum value"));
            },
        },
        None => None,
    };
    Ok(crate::expr::RT { key, family })
}

/// Decoding an encoded object gives it back.
pub proof fn lemma_rt_rt(t: crate::expr::RT)
    ensures
        dec_rt(enc_rt(t)) == Some(t),
{
    reveal_strlit("key");
    reveal_strlit("family");
    assert("key"@.len() >= 1 && "key"@[0] == 'k');
    assert("family"@.len() >= 1 && "family"@[0] == 'f');

    let f0 = fone("key"@, JsonM::Str(crate::expr::rt_key_tok(t.key)));
    let f1 = fopt_str("family"@, (match t.family {
            Some(x) => Some(crate::expr::rt_family_tok(x)),
            None => None,
        }));
    crate::json::lemma_lookup_prepend_all(f0, f1);
    crate::json::lemma_lookup_single_all("key"@, JsonM::Str(crate::expr::rt_key_tok(t.key)));
    crate::expr::lemma_rt_key_inv_tok(t.key);
    if let Some(x) = t.family {
        crate::json::lemma_lookup_single_all("family"@, JsonM::Str(crate::expr::rt_family_tok(x)));
        crate::expr::lemma_rt_family_inv_tok(x);
    }
}

/// The wire form of this object.
pub open spec fn enc_ct(t: crate::expr::CTM) -> JsonM {
    JsonM::Obj(fone("key"@, JsonM::Str(t.key)) + (fopt_str("family"@, (match t.family {
            Some(x) => Some(crate::expr::ct_family_tok(x)),
            None => None,
        })) + (fopt_str("dir"@, (match t.dir {
            Some(x) => Some(crate::expr::ct_dir_tok(x)),
            None => None,
        })))))
}

/// The object a wire value stands for, if any.
pub open spec fn dec_ct(j: JsonM) -> Option<crate::expr::CTM> {
    if !(j is Obj) {
        None
    } else {
        let s = j->Obj_0;
        let key = dec_req_str(s, "key"@);
        let family = dec_opt_enum(s, "family"@, |t| crate::expr::ct_family_inv(t));
        let dir = dec_opt_enum(s, "dir"@, |t| crate::expr::ct_dir_inv(t));
        if key is Some && family is Some && dir is Some {
            Some(crate::expr::CTM { key: key->0, family: family->0, dir: dir->0 })
        } else {
            None
        }
    }
}

/// Encodes this object.
pub fn encode_ct(t: &crate::expr::CT) -> (r: Json)
    ensures
        r@ == enc_ct(ct_m(*t)),
{
    let mut es: Vec<(String, Json)> = Vec::new();
    push_field(&mut es, "key", Json::Str(t.key.clone()));
    if let Some(x) = t.family {
        push_field(&mut es, "family", Json::Str(crate::expr::ct_family_to_wire(x).to_owned()));
    }
    if let Some(x) = t.dir {
        push_field(&mut es, "dir", Json::Str(crate::expr::ct_dir_to_wire(x).to_owned()));
    }
    let r = finish_obj(es);
    proof {
        assert(r@->Obj_0 =~= enc_ct(ct_m(*t))->Obj_0);
    }
    r
}

/// Decodes this object.
pub fn decode_ct(j: &Json) -> (r: Result<crate::expr::CT, DecodeError>)
    ensures
        r matches Ok(v) ==> dec_ct(j@) == Some(ct_m(v)),
        r is Err ==> dec_ct(j@) is None,
{
    let entries = get_entries(j)?;
    let key = get_req_str(entries, "key")?;
    let family = match get_opt_str(entries, "family")? {
        Some(tk) => match crate::expr::ct_family_from_wire(tk.as_str()) {
            Some(v) => Some(v),
            None => {
                return Err(DecodeError::at_key("family", "unknown enum value"));
            },
        },
        None => None,
    };
    let dir = match get_opt_str(entries, "dir")? {
        Some(tk) => match crate::expr::ct_dir_from_wire(tk.as_str()) {
            Some(v) => Some(v),
            None => {
                return Err(DecodeError::at_key("dir", "unknown enum value"));
            },
        },
        None => None,
    };
    Ok(crate::expr::CT { key, family, dir })
}

/// Decoding an encoded object gives it back.
pub proof fn lemma_rt_ct(t: crate::expr::CTM)
    ensures
        dec_ct(enc_ct(t)) == Some(t),
{
    reveal_strlit("key");
    reveal_strlit("family");
    reveal_strlit("dir");
    assert("key"@.len() >= 1 && "key"@[0] == 'k');
    assert("family"@.len() >= 1 && "family"@[0] == 'f');
    assert("dir"@.len() >= 1 && "dir"@[0] == 'd');

    let f0 = fone("key"@, JsonM::Str(t.key));
    let f1 = fopt_str("family"@, (match t.family {
            Some(x) => Some(crate::expr::ct_family_tok(x)),
            None => None,
        }));
    let f2 = fopt_str("dir"@, (match t.dir {
            Some(x) => Some(crate::expr::ct_dir_tok(x)),
            None => None,
        }));
    crate::json::lemma_lookup_prepend_all(f0, f1 + (f2));
    crate::json::lemma_lookup_prepend_all(f1, f2);
    crate::json::lemma_lookup_single_all("key"@, JsonM::Str(t.key));
    if let Some(x) = t.family {
        crate::json::lemma_lookup_single_all("family"@, JsonM::Str(crate::expr::ct_family_tok(x)));
        crate::expr::lemma_ct_family_inv_tok(x);
    }
    if let Some(x) = t.dir {
        crate::json::lemma_lookup_single_all("dir"@, JsonM::Str(crate::expr::ct_dir_tok(x)));
        crate::expr::lemma_ct_dir_inv_tok(x);
    }
}

/// The wire form of this object.
pub open spec fn enc_numgen(t: crate::expr::Numgen) -> JsonM {
    JsonM::Obj(fone("mode"@, JsonM::Str(crate::expr::ng_mode_tok(t.mode))) + (fone("mod"@, JsonM::Num(t.ng_mod as int)) + (fopt_u32("offset"@, t.offset))))
}

/// The object a wire value stands for, if any.
pub open spec fn dec_numgen(j: JsonM) -> Option<crate::expr::Numgen> {
    if !(j is Obj) {
        None
    } else {
        let s = j->Obj_0;
        let mode = dec_req_enum(s, "mode"@, |t| crate::expr::ng_mode_inv(t));
        let ng_mod = dec_req_u32(s, "mod"@);
        let offset = dec_opt_u32(s, "offset"@);
        if mode is Some && ng_mod is Some && offset is Some {
            Some(crate::expr::Numgen { mode: mode->0, ng_mod: ng_mod->0, offset: offset->0 })
        } else {
            None
        }
    }
}

/// Encodes this object.
pub fn encode_numgen(t: &crate::expr::Numgen) -> (r: Json)
    ensures
        r@ == enc_numgen(*t),
{
    let mut es: Vec<(String, Json)> = Vec::new();
    push_field(&mut es, "mode", Json::Str(crate::expr::ng_mode_to_wire(t.mode).to_owned()));
    push_field(&mut es, "mod", Json::Num(t.ng_mod as i64));
    if let Some(x) = t.offset {
        push_field(&mut es, "offset", Json::Num(x as i64));
    }
    let r = finish_obj(es);
    proof {
        assert(r@->Obj_0 =~= enc_numgen(*t)->Obj_0);
    }
    r
}

/// Decodes this object.
pub fn decode_numgen(j: &Json) -> (r: Result<crate::expr::Numgen, DecodeError>)
    ensures
        r matches Ok(v) ==> dec_numgen(j@) == Some(v),
        r is Err ==> dec_numgen(j@) is None,
{
    let entries = get_entries(j)?;
    let mode_s = get_req_str(entries, "mode")?;
    let mode = match crate::expr::ng_mode_from_wire(mode_s.as_str()) {
        Some(v) => v,
        None => {
            return Err(DecodeError::at_key("mode", "unknown enum value"));
        },
    };
    let ng_mod = get_req_u32(entries, "mod")?;
    let offset = get_opt_u32(entries, "offset")?;
    Ok(crate::expr::Numgen { mode, ng_mod, offset })
}

/// Decoding an encoded object gives it back.
pub proof fn lemma_rt_numgen(t: crate::expr::Numgen)
    ensures
        dec_numgen(enc_numgen(t)) == Some(t),
{
    reveal_strlit("mode");
    reveal_strlit("mod");
    reveal_strlit("offset");
    assert("mode"@.len() >= 1 && "mode"@[0] == 'm');
    assert("mod"@.len() >= 1 && "mod"@[0] == 'm');
    assert("offset"@.len() >= 1 && "offset"@[0] == 'o');

    let f0 = fone("mode"@, JsonM::Str(crate::expr::ng_mode_tok(t.mode)));
    let f1 = fone("mod"@, JsonM::Num(t.ng_mod as int));
    let f2 = fopt_u32("offset"@, t.offset);
    crate::json::lemma_lookup_prepend_all(f0, f1 + (f2));
    crate::json::lemma_lookup_prepend_all(f1, f2);
    crate::json::lemma_lookup_single_all("mode"@, JsonM::Str(crate::expr::ng_mode_tok(t.mode)));
    crate::expr::lemma_ng_mode_inv_tok(t.mode);
    crate::json::lemma_lookup_single_all("mod"@, JsonM::Num(t.ng_mod as int));
    if let Some(x) = t.offset {
        crate::json::lemma_lookup_single_all("offset"@, JsonM::Num(x as int));
    }
}

/// The wire form of this object.
pub open spec fn enc_symhash(t: crate::expr::SymHash) -> JsonM {
    JsonM::Obj(fone("mod"@, JsonM::Num(t.hash_mod as int)) + (fone("offset"@, JsonM::Num(t.offset as int))))
}

/// The object a wire value stands for, if any.
pub open spec fn dec_symhash(j: JsonM) -> Option<crate::expr::SymHash> {
    if !(j is Obj) {
        None
    } else {
        let s = j->Obj_0;
        let hash_mod = dec_req_u32(s, "mod"@);
        let offset = dec_req_u32(s, "offset"@);
        if hash_mod is Some && offset is Some {
            Some(crate::expr::SymHash { hash_mod: hash_mod->0, offset: offset->0 })
        } else {
            None
        }
    }
}

/// Encodes this object.
pub fn encode_symhash(t: &crate::expr::SymHash) -> (r: Json)
    ensures
        r@ == enc_symhash(*t),
{
    let mut es: Vec<(String, Json)> = Vec::new();
    push_field(&mut es, "mod", Json::Num(t.hash_mod as i64));
    push_field(&mut es, "offset", Json::Num(t.offset as i64));
    let r = finish_obj(es);
    proof {
        assert(r@->Obj_0 =~= enc_symhash(*t)->Obj_0);
    }
    r
}

/// Decodes this object.
pub fn decode_symhash(j: &Json) -> (r: Result<crate::expr::SymHash, DecodeError>)
    ensures
        r matches Ok(v) ==> dec_symhash(j@) == Some(v),
        r is Err ==> dec_symhash(j@) is None,
{
    let entries = get_entries(j)?;
    let hash_mod = get_req_u32(entries, "mod")?;
    let offset = get_req_u32(entries, "offset")?;
    Ok(crate::expr::SymHash { hash_mod, offset })
}

/// Decoding an encoded object gives it back.
pub proof fn lemma_rt_symhash(t: crate::expr::SymHash)
    ensures
        dec_symhash(enc_symhash(t)) == Some(t),
{
    reveal_strlit("mod");
    reveal_strlit("offset");
    assert("mod"@.len() >= 1 && "mod"@[0] == 'm');
    assert("offset"@.len() >= 1 && "offset"@[0] == 'o');

    let f0 = fone("mod"@, JsonM::Num(t.hash_mod as int));
    let f1 = fone("offset"@, JsonM::Num(t.offset as int));
    crate::json::lemma_lookup_prepend_all(f0, f1);
    crate::json::lemma_lookup_single_all("mod"@, JsonM::Num(t.hash_mod as int));
    crate::json::lemma_lookup_single_all("offset"@, JsonM::Num(t.offset as int));
}

/// The wire form of this object.
pub open spec fn enc_socket(t: crate::expr::SocketM) -> JsonM {
    JsonM::Obj(fone("key"@, JsonM::Str(t.key)))
}

/// The object a wire value stands for, if any.
pub open spec fn dec_socket(j: JsonM) -> Option<crate::expr::SocketM> {
    if !(j is Obj) {
        None
    } else {
        let s = j->Obj_0;
        let key = dec_req_str(s, "key"@);
        if key is Some {
            Some(crate::expr::SocketM { key: key->0 })
        } else {
            None
        }
    }
}

/// Encodes this object.
pub fn encode_socket(t: &crate::expr::Socket) -> (r: Json)
    ensures
        r@ == enc_socket(socket_m(*t)),
{
    let mut es: Vec<(String, Json)> = Vec::new();
    push_field(&mut es, "key", Json::Str(t.key.clone()));
    let r = finish_obj(es);
    proof {
        assert(r@->Obj_0 =~= enc_socket(socket_m(*t))->Obj_0);
    }
    r
}

/// Decodes this object.
pub fn decode_socket(j: &Json) -> (r: Result<crate::expr::Socket, DecodeError>)
    ensures
        r matches Ok(v) ==> dec_socket(j@) == Some(socket_m(v)),
        r is Err ==> dec_socket(j@) is None,
{
    let entries = get_entries(j)?;
    let key = get_req_str(entries, "key")?;
    Ok(crate::expr::Socket { key })
}

/// Decoding an encoded object gives it back.
pub proof fn lemma_rt_socket(t: crate::expr::SocketM)
    ensures
        dec_socket(enc_socket(t)) == Some(t),
{
    reveal_strlit("key");
    assert("key"@.len() >= 1 && "key"@[0] == 'k');

    let f0 = fone("key"@, JsonM::Str(t.key));

    crate::json::lemma_lookup_single_all("key"@, JsonM::Str(t.key));
}

/// The wire form of this object.
pub open spec fn enc_osf(t: crate::expr::OsfM) -> JsonM {
    JsonM::Obj(fone("key"@, JsonM::Str(t.key)) + (fone("ttl"@, JsonM::Str(crate::expr::osf_ttl_tok(t.ttl)))))
}

/// The object a wire value stands for, if any.
pub open spec fn dec_osf(j: JsonM) -> Option<crate::expr::OsfM> {
    if !(j is Obj) {
        None
    } else {
        let s = j->Obj_0;
        let key = dec_req_str(s, "key"@);
        let ttl = dec_req_enum(s, "ttl"@, |t| crate::expr::osf_ttl_inv(t));
        if key is Some && ttl is Some {
            Some(crate::expr::OsfM { key: key->0, ttl: ttl->0 })
        } else {
            None
        }
    }
}

/// Encodes this object.
pub fn encode_osf(t: &crate::expr::Osf) -> (r: Json)
    ensures
        r@ == enc_osf(osf_m(*t)),
{
    let mut es: Vec<(String, Json)> = Vec::new();
    push_field(&mut es, "key", Json::Str(t.key.clone()));
    push_field(&mut es, "ttl", Json::Str(crate::expr::osf_ttl_to_wire(t.ttl).to_owned()));
    let r = finish_obj(es);
    proof {
        assert(r@->Obj_0 =~= enc_osf(osf_m(*t))->Obj_0);
    }
    r
}

/// Decodes this object.
pub fn decode_osf(j: &Json) -> (r: Result<crate::expr::Osf, DecodeError>)
    ensures
        r matches Ok(v) ==> dec_osf(j@) == Some(osf_m(v)),
        r is Err ==> dec_osf(j@) is None,
{
    let entries = get_entries(j)?;
    let key = get_req_str(entries, "key")?;
    let ttl_s = get_req_str(entries, "ttl")?;
    let ttl = match crate::expr::osf_ttl_from_wire(ttl_s.as_str()) {
        Some(v) => v,
        None => {
            return Err(DecodeError::at_key("ttl", "unknown enum value"));
        },
    };
    Ok(crate::expr::Osf { key, ttl })
}

/// Decoding an encoded object gives it back.
pub proof fn lemma_rt_osf(t: crate::expr::OsfM)
    ensures
        dec_osf(enc_osf(t)) == Some(t),
{
    reveal_strlit("key");
    reveal_strlit("ttl");
    assert("key"@.len() >= 1 && "key"@[0] == 'k');
    assert("ttl"@.len() >= 1 && "ttl"@[0] == 't');

    let f0 = fone("key"@, JsonM::Str(t.key));
    let f1 = fone("ttl"@, JsonM::Str(crate::expr::osf_ttl_tok(t.ttl)));
    crate::json::lemma_lookup_prepend_all(f0, f1);
    crate::json::lemma_lookup_single_all("key"@, JsonM::Str(t.key));
    crate::json::lemma_lookup_single_all("ttl"@, JsonM::Str(crate::expr::osf_ttl_tok(t.ttl)));
    crate::expr::lemma_osf_ttl_inv_tok(t.ttl);
}


/// Abstraction of a JSON array's element vector.
pub open spec fn jsons_m(s: Seq<Json>) -> Seq<JsonM> {
    Seq::new(s.len(), |i: int| json_m(s[i]))
}

/// Finishes an array under construction.
pub fn finish_arr(items: Vec<Json>) -> (r: Json)
    ensures
        r@ == JsonM::Arr(jsons_m(items@)),
{
    let ghost gi = items;
    let r = Json::Arr(items);
    proof {
        crate::json::lemma_arr_m_at(gi, 0);
        assert(crate::json::arr_m_at(gi, 0) =~= jsons_m(gi@));
    }
    r
}

/// An optional property holding an already-encoded value, omitted when
/// absent.
pub open spec fn fopt_val(k: Seq<char>, o: Option<JsonM>) -> Seq<(Seq<char>, JsonM)> {
    match o {
        Some(v) => seq![(k, v)],
        None => Seq::empty(),
    }
}

// ---------------------------------------------------------------------
// Fib lookups and their flag lists
// ---------------------------------------------------------------------

/// The wire form of a list of fib flags.
pub open spec fn enc_fib_flags(s: Seq<crate::expr::FibFlag>) -> JsonM {
    JsonM::Arr(Seq::new(s.len(), |i: int| JsonM::Str(crate::expr::fib_flag_tok(s[i]))))
}

/// The fib flag list a wire value stands for, if any.
pub open spec fn dec_fib_flags(j: JsonM) -> Option<Seq<crate::expr::FibFlag>> {
    if !(j is Arr) {
        None
    } else {
        let s = j->Arr_0;
        if forall|i: int|
            0 <= i < s.len() ==> (#[trigger] s[i]) is Str && crate::expr::fib_flag_inv(
                s[i]->Str_0,
            ) is Some {
            Some(Seq::new(s.len(), |i: int| crate::expr::fib_flag_inv(s[i]->Str_0)->0))
        } else {
            None
        }
    }
}

/// Encodes a list of fib flags.
pub fn encode_fib_flags(flags: &Vec<crate::expr::FibFlag>) -> (r: Json)
    ensures
        r@ == enc_fib_flags(flags@),
{
    let mut items: Vec<Json> = Vec::new();
    let mut i: usize = 0;
    while i < flags.len()
        invariant
            0 <= i <= flags@.len(),
            items@.len() == i,
            forall|k: int|
                0 <= k < i ==> json_m(items@[k]) == JsonM::Str(
                    crate::expr::fib_flag_tok(flags@[k]),
                ),
        decreases flags@.len() - i,
    {
        items.push(Json::Str(crate::expr::fib_flag_to_wire(flags[i]).to_owned()));
        i += 1;
    }
    let r = finish_arr(items);
    proof {
        assert(r@->Arr_0 =~= enc_fib_flags(flags@)->Arr_0);
    }
    r
}

/// Decodes a list of fib flags.
pub fn decode_fib_flags(j: &Json) -> (r: Result<Vec<crate::expr::FibFlag>, DecodeError>)
    ensures
        r matches Ok(v) ==> dec_fib_flags(j@) == Some(v@),
        r is Err ==> dec_fib_flags(j@) is None,
{
    let items = match j {
        Json::Arr(items) => items,
        _ => {
            return Err(DecodeError::here("expected an array"));
        },
    };
    proof {
        crate::json::lemma_arr_m_at(*items, 0);
        assert(crate::json::arr_m_at(*items, 0) =~= jsons_m(items@));
    }
    let ghost s = jsons_m(items@);
    let mut out: Vec<crate::expr::FibFlag> = Vec::new();
    let mut i: usize = 0;
    while i < items.len()
        invariant
            0 <= i <= items@.len(),
            s == jsons_m(items@),
            s.len() == items@.len(),
            j@ == JsonM::Arr(s),
            out@.len() == i,
            forall|k: int|
                0 <= k < i ==> (#[trigger] s[k]) is Str && crate::expr::fib_flag_inv(
                    s[k]->Str_0,
                ) == Some(out@[k]),
        decreases items@.len() - i,
    {
        match &items[i] {
            Json::Str(t) => {
                match crate::expr::fib_flag_from_wire(t.as_str()) {
                    Some(f) => {
                        out.push(f);
                    },
                    None => {
                        proof {
                            assert(s[i as int] is Str && crate::expr::fib_flag_inv(
                                s[i as int]->Str_0,
                            ) is None);
                        }
                        return Err(
                            DecodeError::here("unknown enum value").in_index(i),
                        );
                    },
                }
            },
            _ => {
                proof {
                    assert(!(s[i as int] is Str));
                }
                return Err(DecodeError::here("expected a string").in_index(i));
            },
        }
        i += 1;
    }
    proof {
        assert(dec_fib_flags(json_m(*j)) == Some(out@)) by {
            assert(out@ =~= Seq::new(
                s.len(),
                |k: int| crate::expr::fib_flag_inv(s[k]->Str_0)->0,
            ));
        }
    }
    Ok(out)
}

/// Decoding an encoded fib flag list gives it back.
pub proof fn lemma_rt_fib_flags(s: Seq<crate::expr::FibFlag>)
    ensures
        dec_fib_flags(enc_fib_flags(s)) == Some(s),
{
    let w = enc_fib_flags(s)->Arr_0;
    assert forall|i: int| 0 <= i < w.len() implies (#[trigger] w[i]) is Str
        && crate::expr::fib_flag_inv(w[i]->Str_0) is Some by {
        crate::expr::lemma_fib_flag_inv_tok(s[i]);
    }
    assert(Seq::new(w.len(), |i: int| crate::expr::fib_flag_inv(w[i]->Str_0)->0) =~= s) by {
        assert forall|i: int| 0 <= i < w.len() implies crate::expr::fib_flag_inv(w[i]->Str_0)->0
            == s[i] by {
            crate::expr::lemma_fib_flag_inv_tok(s[i]);
        }
    }
}

// ---------------------------------------------------------------------
// Fib
// ---------------------------------------------------------------------

/// The wire form of a fib lookup.
pub open spec fn enc_fib(t: FibM) -> JsonM {
    JsonM::Obj(
        fone("result"@, JsonM::Str(crate::expr::fib_result_tok(t.result))) + fone(
            "flags"@,
            enc_fib_flags(t.flags),
        ),
    )
}

/// The fib lookup a wire value stands for, if any.
pub open spec fn dec_fib(j: JsonM) -> Option<FibM> {
    if !(j is Obj) {
        None
    } else {
        let s = j->Obj_0;
        let result = dec_req_enum(s, "result"@, |t| crate::expr::fib_result_inv(t));
        let flags = match crate::json::lookup_entries(s, "flags"@) {
            Some(v) => dec_fib_flags(v),
            None => None,
        };
        if result is Some && flags is Some {
            Some(FibM { result: result->0, flags: flags->0 })
        } else {
            None
        }
    }
}

/// Encodes a fib lookup.
pub fn encode_fib(t: &Fib) -> (r: Json)
    ensures
        r@ == enc_fib(fib_m(*t)),
{
    let mut es: Vec<(String, Json)> = Vec::new();
    push_field(&mut es, "result", Json::Str(crate::expr::fib_result_to_wire(t.result).to_owned()));
    push_field(&mut es, "flags", encode_fib_flags(&t.flags));
    let r = finish_obj(es);
    proof {
        assert(r@->Obj_0 =~= enc_fib(fib_m(*t))->Obj_0);
    }
    r
}

/// Decodes a fib lookup.
pub fn decode_fib(j: &Json) -> (r: Result<Fib, DecodeError>)
    ensures
        r matches Ok(v) ==> dec_fib(j@) == Some(fib_m(v)),
        r is Err ==> dec_fib(j@) is None,
{
    let entries = get_entries(j)?;
    let result_s = get_req_str(entries, "result")?;
    let result = match crate::expr::fib_result_from_wire(result_s.as_str()) {
        Some(v) => v,
        None => {
            return Err(DecodeError::at_key("result", "unknown enum value"));
        },
    };
    let flags = match crate::json::obj_lookup(entries, "flags") {
        Some(v) => match decode_fib_flags(v) {
            Ok(fs) => fs,
            Err(e) => {
                return Err(e.in_key("flags"));
            },
        },
        None => {
            return Err(DecodeError::at_key("flags", "missing required property"));
        },
    };
    Ok(Fib { result, flags })
}

/// Decoding an encoded fib lookup gives it back.
pub proof fn lemma_rt_fib(t: FibM)
    ensures
        dec_fib(enc_fib(t)) == Some(t),
{
    reveal_strlit("result");
    reveal_strlit("flags");
    assert("result"@.len() >= 1 && "result"@[0] == 'r');
    assert("flags"@.len() >= 1 && "flags"@[0] == 'f');
    let f1 = fone("result"@, JsonM::Str(crate::expr::fib_result_tok(t.result)));
    let f2 = fone("flags"@, enc_fib_flags(t.flags));
    crate::json::lemma_lookup_prepend_all(f1, f2);
    crate::json::lemma_lookup_single_all(
        "result"@,
        JsonM::Str(crate::expr::fib_result_tok(t.result)),
    );
    crate::json::lemma_lookup_single_all("flags"@, enc_fib_flags(t.flags));
    crate::expr::lemma_fib_result_inv_tok(t.result);
    lemma_rt_fib_flags(t.flags);
}

/// The wire form of a list of set flags.
pub open spec fn enc_set_flags(s: Seq<crate::schema::SetFlag>) -> JsonM {
    JsonM::Arr(Seq::new(s.len(), |i: int| JsonM::Str(crate::schema::set_flag_tok(s[i]))))
}

/// The fib flag list a wire value stands for, if any.
pub open spec fn dec_set_flags(j: JsonM) -> Option<Seq<crate::schema::SetFlag>> {
    if !(j is Arr) {
        None
    } else {
        let s = j->Arr_0;
        if forall|i: int|
            0 <= i < s.len() ==> (#[trigger] s[i]) is Str && crate::schema::set_flag_inv(
                s[i]->Str_0,
            ) is Some {
            Some(Seq::new(s.len(), |i: int| crate::schema::set_flag_inv(s[i]->Str_0)->0))
        } else {
            None
        }
    }
}

/// Encodes a list of set flags.
pub fn encode_set_flags(flags: &Vec<crate::schema::SetFlag>) -> (r: Json)
    ensures
        r@ == enc_set_flags(flags@),
{
    let mut items: Vec<Json> = Vec::new();
    let mut i: usize = 0;
    while i < flags.len()
        invariant
            0 <= i <= flags@.len(),
            items@.len() == i,
            forall|k: int|
                0 <= k < i ==> json_m(items@[k]) == JsonM::Str(
                    crate::schema::set_flag_tok(flags@[k]),
                ),
        decreases flags@.len() - i,
    {
        items.push(Json::Str(crate::schema::set_flag_to_wire(flags[i]).to_owned()));
        i += 1;
    }
    let r = finish_arr(items);
    proof {
        assert(r@->Arr_0 =~= enc_set_flags(flags@)->Arr_0);
    }
    r
}

/// Decodes a list of set flags.
pub fn decode_set_flags(j: &Json) -> (r: Result<Vec<crate::schema::SetFlag>, DecodeError>)
    ensures
        r matches Ok(v) ==> dec_set_flags(j@) == Some(v@),
        r is Err ==> dec_set_flags(j@) is None,
{
    let items = match j {
        Json::Arr(items) => items,
        _ => {
            return Err(DecodeError::here("expected an array"));
        },
    };
    proof {
        crate::json::lemma_arr_m_at(*items, 0);
        assert(crate::json::arr_m_at(*items, 0) =~= jsons_m(items@));
    }
    let ghost s = jsons_m(items@);
    let mut out: Vec<crate::schema::SetFlag> = Vec::new();
    let mut i: usize = 0;
    while i < items.len()
        invariant
            0 <= i <= items@.len(),
            s == jsons_m(items@),
            s.len() == items@.len(),
            j@ == JsonM::Arr(s),
            out@.len() == i,
            forall|k: int|
                0 <= k < i ==> (#[trigger] s[k]) is Str && crate::schema::set_flag_inv(
                    s[k]->Str_0,
                ) == Some(out@[k]),
        decreases items@.len() - i,
    {
        match &items[i] {
            Json::Str(t) => {
                match crate::schema::set_flag_from_wire(t.as_str()) {
                    Some(f) => {
                        out.push(f);
                    },
                    None => {
                        proof {
                            assert(s[i as int] is Str && crate::schema::set_flag_inv(
                                s[i as int]->Str_0,
                            ) is None);
                        }
                        return Err(
                            DecodeError::here("unknown enum value").in_index(i),
                        );
                    },
                }
            },
            _ => {
                proof {
                    assert(!(s[i as int] is Str));
                }
                return Err(DecodeError::here("expected a string").in_index(i));
            },
        }
        i += 1;
    }
    proof {
        assert(dec_set_flags(json_m(*j)) == Some(out@)) by {
            assert(out@ =~= Seq::new(
                s.len(),
                |k: int| crate::schema::set_flag_inv(s[k]->Str_0)->0,
            ));
        }
    }
    Ok(out)
}

/// Decoding an encoded fib flag list gives it back.
pub proof fn lemma_rt_set_flags(s: Seq<crate::schema::SetFlag>)
    ensures
        dec_set_flags(enc_set_flags(s)) == Some(s),
{
    let w = enc_set_flags(s)->Arr_0;
    assert forall|i: int| 0 <= i < w.len() implies (#[trigger] w[i]) is Str
        && crate::schema::set_flag_inv(w[i]->Str_0) is Some by {
        crate::schema::lemma_set_flag_inv_tok(s[i]);
    }
    assert(Seq::new(w.len(), |i: int| crate::schema::set_flag_inv(w[i]->Str_0)->0) =~= s) by {
        assert forall|i: int| 0 <= i < w.len() implies crate::schema::set_flag_inv(w[i]->Str_0)->0
            == s[i] by {
            crate::schema::lemma_set_flag_inv_tok(s[i]);
        }
    }
}


/// The wire form of a list of NAT flags.
pub open spec fn enc_nat_flags(s: Seq<crate::stmt::NATFlag>) -> JsonM {
    JsonM::Arr(Seq::new(s.len(), |i: int| JsonM::Str(crate::stmt::nat_flag_tok(s[i]))))
}

/// The fib flag list a wire value stands for, if any.
pub open spec fn dec_nat_flags(j: JsonM) -> Option<Seq<crate::stmt::NATFlag>> {
    if !(j is Arr) {
        None
    } else {
        let s = j->Arr_0;
        if forall|i: int|
            0 <= i < s.len() ==> (#[trigger] s[i]) is Str && crate::stmt::nat_flag_inv(
                s[i]->Str_0,
            ) is Some {
            Some(Seq::new(s.len(), |i: int| crate::stmt::nat_flag_inv(s[i]->Str_0)->0))
        } else {
            None
        }
    }
}

/// Encodes a list of NAT flags.
pub fn encode_nat_flags(flags: &Vec<crate::stmt::NATFlag>) -> (r: Json)
    ensures
        r@ == enc_nat_flags(flags@),
{
    let mut items: Vec<Json> = Vec::new();
    let mut i: usize = 0;
    while i < flags.len()
        invariant
            0 <= i <= flags@.len(),
            items@.len() == i,
            forall|k: int|
                0 <= k < i ==> json_m(items@[k]) == JsonM::Str(
                    crate::stmt::nat_flag_tok(flags@[k]),
                ),
        decreases flags@.len() - i,
    {
        items.push(Json::Str(crate::stmt::nat_flag_to_wire(flags[i]).to_owned()));
        i += 1;
    }
    let r = finish_arr(items);
    proof {
        assert(r@->Arr_0 =~= enc_nat_flags(flags@)->Arr_0);
    }
    r
}

/// Decodes a list of NAT flags.
pub fn decode_nat_flags(j: &Json) -> (r: Result<Vec<crate::stmt::NATFlag>, DecodeError>)
    ensures
        r matches Ok(v) ==> dec_nat_flags(j@) == Some(v@),
        r is Err ==> dec_nat_flags(j@) is None,
{
    let items = match j {
        Json::Arr(items) => items,
        _ => {
            return Err(DecodeError::here("expected an array"));
        },
    };
    proof {
        crate::json::lemma_arr_m_at(*items, 0);
        assert(crate::json::arr_m_at(*items, 0) =~= jsons_m(items@));
    }
    let ghost s = jsons_m(items@);
    let mut out: Vec<crate::stmt::NATFlag> = Vec::new();
    let mut i: usize = 0;
    while i < items.len()
        invariant
            0 <= i <= items@.len(),
            s == jsons_m(items@),
            s.len() == items@.len(),
            j@ == JsonM::Arr(s),
            out@.len() == i,
            forall|k: int|
                0 <= k < i ==> (#[trigger] s[k]) is Str && crate::stmt::nat_flag_inv(
                    s[k]->Str_0,
                ) == Some(out@[k]),
        decreases items@.len() - i,
    {
        match &items[i] {
            Json::Str(t) => {
                match crate::stmt::nat_flag_from_wire(t.as_str()) {
                    Some(f) => {
                        out.push(f);
                    },
                    None => {
                        proof {
                            assert(s[i as int] is Str && crate::stmt::nat_flag_inv(
                                s[i as int]->Str_0,
                            ) is None);
                        }
                        return Err(
                            DecodeError::here("unknown enum value").in_index(i),
                        );
                    },
                }
            },
            _ => {
                proof {
                    assert(!(s[i as int] is Str));
                }
                return Err(DecodeError::here("expected a string").in_index(i));
            },
        }
        i += 1;
    }
    proof {
        assert(dec_nat_flags(json_m(*j)) == Some(out@)) by {
            assert(out@ =~= Seq::new(
                s.len(),
                |k: int| crate::stmt::nat_flag_inv(s[k]->Str_0)->0,
            ));
        }
    }
    Ok(out)
}

/// Decoding an encoded fib flag list gives it back.
pub proof fn lemma_rt_nat_flags(s: Seq<crate::stmt::NATFlag>)
    ensures
        dec_nat_flags(enc_nat_flags(s)) == Some(s),
{
    let w = enc_nat_flags(s)->Arr_0;
    assert forall|i: int| 0 <= i < w.len() implies (#[trigger] w[i]) is Str
        && crate::stmt::nat_flag_inv(w[i]->Str_0) is Some by {
        crate::stmt::lemma_nat_flag_inv_tok(s[i]);
    }
    assert(Seq::new(w.len(), |i: int| crate::stmt::nat_flag_inv(w[i]->Str_0)->0) =~= s) by {
        assert forall|i: int| 0 <= i < w.len() implies crate::stmt::nat_flag_inv(w[i]->Str_0)->0
            == s[i] by {
            crate::stmt::lemma_nat_flag_inv_tok(s[i]);
        }
    }
}


/// The wire form of a list of queue flags.
pub open spec fn enc_queue_flags(s: Seq<crate::stmt::QueueFlag>) -> JsonM {
    JsonM::Arr(Seq::new(s.len(), |i: int| JsonM::Str(crate::stmt::queue_flag_tok(s[i]))))
}

/// The fib flag list a wire value stands for, if any.
pub open spec fn dec_queue_flags(j: JsonM) -> Option<Seq<crate::stmt::QueueFlag>> {
    if !(j is Arr) {
        None
    } else {
        let s = j->Arr_0;
        if forall|i: int|
            0 <= i < s.len() ==> (#[trigger] s[i]) is Str && crate::stmt::queue_flag_inv(
                s[i]->Str_0,
            ) is Some {
            Some(Seq::new(s.len(), |i: int| crate::stmt::queue_flag_inv(s[i]->Str_0)->0))
        } else {
            None
        }
    }
}

/// Encodes a list of queue flags.
pub fn encode_queue_flags(flags: &Vec<crate::stmt::QueueFlag>) -> (r: Json)
    ensures
        r@ == enc_queue_flags(flags@),
{
    let mut items: Vec<Json> = Vec::new();
    let mut i: usize = 0;
    while i < flags.len()
        invariant
            0 <= i <= flags@.len(),
            items@.len() == i,
            forall|k: int|
                0 <= k < i ==> json_m(items@[k]) == JsonM::Str(
                    crate::stmt::queue_flag_tok(flags@[k]),
                ),
        decreases flags@.len() - i,
    {
        items.push(Json::Str(crate::stmt::queue_flag_to_wire(flags[i]).to_owned()));
        i += 1;
    }
    let r = finish_arr(items);
    proof {
        assert(r@->Arr_0 =~= enc_queue_flags(flags@)->Arr_0);
    }
    r
}

/// Decodes a list of queue flags.
pub fn decode_queue_flags(j: &Json) -> (r: Result<Vec<crate::stmt::QueueFlag>, DecodeError>)
    ensures
        r matches Ok(v) ==> dec_queue_flags(j@) == Some(v@),
        r is Err ==> dec_queue_flags(j@) is None,
{
    let items = match j {
        Json::Arr(items) => items,
        _ => {
            return Err(DecodeError::here("expected an array"));
        },
    };
    proof {
        crate::json::lemma_arr_m_at(*items, 0);
        assert(crate::json::arr_m_at(*items, 0) =~= jsons_m(items@));
    }
    let ghost s = jsons_m(items@);
    let mut out: Vec<crate::stmt::QueueFlag> = Vec::new();
    let mut i: usize = 0;
    while i < items.len()
        invariant
            0 <= i <= items@.len(),
            s == jsons_m(items@),
            s.len() == items@.len(),
            j@ == JsonM::Arr(s),
            out@.len() == i,
            forall|k: int|
                0 <= k < i ==> (#[trigger] s[k]) is Str && crate::stmt::queue_flag_inv(
                    s[k]->Str_0,
                ) == Some(out@[k]),
        decreases items@.len() - i,
    {
        match &items[i] {
            Json::Str(t) => {
                match crate::stmt::queue_flag_from_wire(t.as_str()) {
                    Some(f) => {
                        out.push(f);
                    },
                    None => {
                        proof {
                            assert(s[i as int] is Str && crate::stmt::queue_flag_inv(
                                s[i as int]->Str_0,
                            ) is None);
                        }
                        return Err(
                            DecodeError::here("unknown enum value").in_index(i),
                        );
                    },
                }
            },
            _ => {
                proof {
                    assert(!(s[i as int] is Str));
                }
                return Err(DecodeError::here("expected a string").in_index(i));
            },
        }
        i += 1;
    }
    proof {
        assert(dec_queue_flags(json_m(*j)) == Some(out@)) by {
            assert(out@ =~= Seq::new(
                s.len(),
                |k: int| crate::stmt::queue_flag_inv(s[k]->Str_0)->0,
            ));
        }
    }
    Ok(out)
}

/// Decoding an encoded fib flag list gives it back.
pub proof fn lemma_rt_queue_flags(s: Seq<crate::stmt::QueueFlag>)
    ensures
        dec_queue_flags(enc_queue_flags(s)) == Some(s),
{
    let w = enc_queue_flags(s)->Arr_0;
    assert forall|i: int| 0 <= i < w.len() implies (#[trigger] w[i]) is Str
        && crate::stmt::queue_flag_inv(w[i]->Str_0) is Some by {
        crate::stmt::lemma_queue_flag_inv_tok(s[i]);
    }
    assert(Seq::new(w.len(), |i: int| crate::stmt::queue_flag_inv(w[i]->Str_0)->0) =~= s) by {
        assert forall|i: int| 0 <= i < w.len() implies crate::stmt::queue_flag_inv(w[i]->Str_0)->0
            == s[i] by {
            crate::stmt::lemma_queue_flag_inv_tok(s[i]);
        }
    }
}


/// The wire form of a list of synproxy flags.
pub open spec fn enc_synproxy_flags(s: Seq<crate::types::SynProxyFlag>) -> JsonM {
    JsonM::Arr(Seq::new(s.len(), |i: int| JsonM::Str(crate::types::synproxy_flag_tok(s[i]))))
}

/// The fib flag list a wire value stands for, if any.
pub open spec fn dec_synproxy_flags(j: JsonM) -> Option<Seq<crate::types::SynProxyFlag>> {
    if !(j is Arr) {
        None
    } else {
        let s = j->Arr_0;
        if forall|i: int|
            0 <= i < s.len() ==> (#[trigger] s[i]) is Str && crate::types::synproxy_flag_inv(
                s[i]->Str_0,
            ) is Some {
            Some(Seq::new(s.len(), |i: int| crate::types::synproxy_flag_inv(s[i]->Str_0)->0))
        } else {
            None
        }
    }
}

/// Encodes a list of synproxy flags.
pub fn encode_synproxy_flags(flags: &Vec<crate::types::SynProxyFlag>) -> (r: Json)
    ensures
        r@ == enc_synproxy_flags(flags@),
{
    let mut items: Vec<Json> = Vec::new();
    let mut i: usize = 0;
    while i < flags.len()
        invariant
            0 <= i <= flags@.len(),
            items@.len() == i,
            forall|k: int|
                0 <= k < i ==> json_m(items@[k]) == JsonM::Str(
                    crate::types::synproxy_flag_tok(flags@[k]),
                ),
        decreases flags@.len() - i,
    {
        items.push(Json::Str(crate::types::synproxy_flag_to_wire(flags[i]).to_owned()));
        i += 1;
    }
    let r = finish_arr(items);
    proof {
        assert(r@->Arr_0 =~= enc_synproxy_flags(flags@)->Arr_0);
    }
    r
}

/// Decodes a list of synproxy flags.
pub fn decode_synproxy_flags(j: &Json) -> (r: Result<Vec<crate::types::SynProxyFlag>, DecodeError>)
    ensures
        r matches Ok(v) ==> dec_synproxy_flags(j@) == Some(v@),
        r is Err ==> dec_synproxy_flags(j@) is None,
{
    let items = match j {
        Json::Arr(items) => items,
        _ => {
            return Err(DecodeError::here("expected an array"));
        },
    };
    proof {
        crate::json::lemma_arr_m_at(*items, 0);
        assert(crate::json::arr_m_at(*items, 0) =~= jsons_m(items@));
    }
    let ghost s = jsons_m(items@);
    let mut out: Vec<crate::types::SynProxyFlag> = Vec::new();
    let mut i: usize = 0;
    while i < items.len()
        invariant
            0 <= i <= items@.len(),
            s == jsons_m(items@),
            s.len() == items@.len(),
            j@ == JsonM::Arr(s),
            out@.len() == i,
            forall|k: int|
                0 <= k < i ==> (#[trigger] s[k]) is Str && crate::types::synproxy_flag_inv(
                    s[k]->Str_0,
                ) == Some(out@[k]),
        decreases items@.len() - i,
    {
        match &items[i] {
            Json::Str(t) => {
                match crate::types::synproxy_flag_from_wire(t.as_str()) {
                    Some(f) => {
                        out.push(f);
                    },
                    None => {
                        proof {
                            assert(s[i as int] is Str && crate::types::synproxy_flag_inv(
                                s[i as int]->Str_0,
                            ) is None);
                        }
                        return Err(
                            DecodeError::here("unknown enum value").in_index(i),
                        );
                    },
                }
            },
            _ => {
                proof {
                    assert(!(s[i as int] is Str));
                }
                return Err(DecodeError::here("expected a string").in_index(i));
            },
        }
        i += 1;
    }
    proof {
        assert(dec_synproxy_flags(json_m(*j)) == Some(out@)) by {
            assert(out@ =~= Seq::new(
                s.len(),
                |k: int| crate::types::synproxy_flag_inv(s[k]->Str_0)->0,
            ));
        }
    }
    Ok(out)
}

/// Decoding an encoded fib flag list gives it back.
pub proof fn lemma_rt_synproxy_flags(s: Seq<crate::types::SynProxyFlag>)
    ensures
        dec_synproxy_flags(enc_synproxy_flags(s)) == Some(s),
{
    let w = enc_synproxy_flags(s)->Arr_0;
    assert forall|i: int| 0 <= i < w.len() implies (#[trigger] w[i]) is Str
        && crate::types::synproxy_flag_inv(w[i]->Str_0) is Some by {
        crate::types::lemma_synproxy_flag_inv_tok(s[i]);
    }
    assert(Seq::new(w.len(), |i: int| crate::types::synproxy_flag_inv(w[i]->Str_0)->0) =~= s) by {
        assert forall|i: int| 0 <= i < w.len() implies crate::types::synproxy_flag_inv(w[i]->Str_0)->0
            == s[i] by {
            crate::types::lemma_synproxy_flag_inv_tok(s[i]);
        }
    }
}


/// The wire form of a list of log flags.
pub open spec fn enc_log_flags(s: Seq<crate::stmt::LogFlag>) -> JsonM {
    JsonM::Arr(Seq::new(s.len(), |i: int| JsonM::Str(crate::stmt::log_flag_tok(s[i]))))
}

/// The fib flag list a wire value stands for, if any.
pub open spec fn dec_log_flags(j: JsonM) -> Option<Seq<crate::stmt::LogFlag>> {
    if !(j is Arr) {
        None
    } else {
        let s = j->Arr_0;
        if forall|i: int|
            0 <= i < s.len() ==> (#[trigger] s[i]) is Str && crate::stmt::log_flag_inv(
                s[i]->Str_0,
            ) is Some {
            Some(Seq::new(s.len(), |i: int| crate::stmt::log_flag_inv(s[i]->Str_0)->0))
        } else {
            None
        }
    }
}

/// Encodes a list of log flags.
pub fn encode_log_flags(flags: &Vec<crate::stmt::LogFlag>) -> (r: Json)
    ensures
        r@ == enc_log_flags(flags@),
{
    let mut items: Vec<Json> = Vec::new();
    let mut i: usize = 0;
    while i < flags.len()
        invariant
            0 <= i <= flags@.len(),
            items@.len() == i,
            forall|k: int|
                0 <= k < i ==> json_m(items@[k]) == JsonM::Str(
                    crate::stmt::log_flag_tok(flags@[k]),
                ),
        decreases flags@.len() - i,
    {
        items.push(Json::Str(crate::stmt::log_flag_to_wire(flags[i]).to_owned()));
        i += 1;
    }
    let r = finish_arr(items);
    proof {
        assert(r@->Arr_0 =~= enc_log_flags(flags@)->Arr_0);
    }
    r
}

/// Decodes a list of log flags.
pub fn decode_log_flags(j: &Json) -> (r: Result<Vec<crate::stmt::LogFlag>, DecodeError>)
    ensures
        r matches Ok(v) ==> dec_log_flags(j@) == Some(v@),
        r is Err ==> dec_log_flags(j@) is None,
{
    let items = match j {
        Json::Arr(items) => items,
        _ => {
            return Err(DecodeError::here("expected an array"));
        },
    };
    proof {
        crate::json::lemma_arr_m_at(*items, 0);
        assert(crate::json::arr_m_at(*items, 0) =~= jsons_m(items@));
    }
    let ghost s = jsons_m(items@);
    let mut out: Vec<crate::stmt::LogFlag> = Vec::new();
    let mut i: usize = 0;
    while i < items.len()
        invariant
            0 <= i <= items@.len(),
            s == jsons_m(items@),
            s.len() == items@.len(),
            j@ == JsonM::Arr(s),
            out@.len() == i,
            forall|k: int|
                0 <= k < i ==> (#[trigger] s[k]) is Str && crate::stmt::log_flag_inv(
                    s[k]->Str_0,
                ) == Some(out@[k]),
        decreases items@.len() - i,
    {
        match &items[i] {
            Json::Str(t) => {
                match crate::stmt::log_flag_from_wire(t.as_str()) {
                    Some(f) => {
                        out.push(f);
                    },
                    None => {
                        proof {
                            assert(s[i as int] is Str && crate::stmt::log_flag_inv(
                                s[i as int]->Str_0,
                            ) is None);
                        }
                        return Err(
                            DecodeError::here("unknown enum value").in_index(i),
                        );
                    },
                }
            },
            _ => {
                proof {
                    assert(!(s[i as int] is Str));
                }
                return Err(DecodeError::here("expected a string").in_index(i));
            },
        }
        i += 1;
    }
    proof {
        assert(dec_log_flags(json_m(*j)) == Some(out@)) by {
            assert(out@ =~= Seq::new(
                s.len(),
                |k: int| crate::stmt::log_flag_inv(s[k]->Str_0)->0,
            ));
        }
    }
    Ok(out)
}

/// Decoding an encoded fib flag list gives it back.
pub proof fn lemma_rt_log_flags(s: Seq<crate::stmt::LogFlag>)
    ensures
        dec_log_flags(enc_log_flags(s)) == Some(s),
{
    let w = enc_log_flags(s)->Arr_0;
    assert forall|i: int| 0 <= i < w.len() implies (#[trigger] w[i]) is Str
        && crate::stmt::log_flag_inv(w[i]->Str_0) is Some by {
        crate::stmt::lemma_log_flag_inv_tok(s[i]);
    }
    assert(Seq::new(w.len(), |i: int| crate::stmt::log_flag_inv(w[i]->Str_0)->0) =~= s) by {
        assert forall|i: int| 0 <= i < w.len() implies crate::stmt::log_flag_inv(w[i]->Str_0)->0
            == s[i] by {
            crate::stmt::lemma_log_flag_inv_tok(s[i]);
        }
    }
}


/// The wire form of a list of concatenated set types.
pub open spec fn enc_set_types(s: Seq<crate::schema::SetType>) -> JsonM {
    JsonM::Arr(Seq::new(s.len(), |i: int| JsonM::Str(crate::schema::set_type_tok(s[i]))))
}

/// The fib flag list a wire value stands for, if any.
pub open spec fn dec_set_types(j: JsonM) -> Option<Seq<crate::schema::SetType>> {
    if !(j is Arr) {
        None
    } else {
        let s = j->Arr_0;
        if forall|i: int|
            0 <= i < s.len() ==> (#[trigger] s[i]) is Str && crate::schema::set_type_inv(
                s[i]->Str_0,
            ) is Some {
            Some(Seq::new(s.len(), |i: int| crate::schema::set_type_inv(s[i]->Str_0)->0))
        } else {
            None
        }
    }
}

/// Encodes a list of concatenated set types.
pub fn encode_set_types(flags: &Vec<crate::schema::SetType>) -> (r: Json)
    ensures
        r@ == enc_set_types(flags@),
{
    let mut items: Vec<Json> = Vec::new();
    let mut i: usize = 0;
    while i < flags.len()
        invariant
            0 <= i <= flags@.len(),
            items@.len() == i,
            forall|k: int|
                0 <= k < i ==> json_m(items@[k]) == JsonM::Str(
                    crate::schema::set_type_tok(flags@[k]),
                ),
        decreases flags@.len() - i,
    {
        items.push(Json::Str(crate::schema::set_type_to_wire(flags[i]).to_owned()));
        i += 1;
    }
    let r = finish_arr(items);
    proof {
        assert(r@->Arr_0 =~= enc_set_types(flags@)->Arr_0);
    }
    r
}

/// Decodes a list of concatenated set types.
pub fn decode_set_types(j: &Json) -> (r: Result<Vec<crate::schema::SetType>, DecodeError>)
    ensures
        r matches Ok(v) ==> dec_set_types(j@) == Some(v@),
        r is Err ==> dec_set_types(j@) is None,
{
    let items = match j {
        Json::Arr(items) => items,
        _ => {
            return Err(DecodeError::here("expected an array"));
        },
    };
    proof {
        crate::json::lemma_arr_m_at(*items, 0);
        assert(crate::json::arr_m_at(*items, 0) =~= jsons_m(items@));
    }
    let ghost s = jsons_m(items@);
    let mut out: Vec<crate::schema::SetType> = Vec::new();
    let mut i: usize = 0;
    while i < items.len()
        invariant
            0 <= i <= items@.len(),
            s == jsons_m(items@),
            s.len() == items@.len(),
            j@ == JsonM::Arr(s),
            out@.len() == i,
            forall|k: int|
                0 <= k < i ==> (#[trigger] s[k]) is Str && crate::schema::set_type_inv(
                    s[k]->Str_0,
                ) == Some(out@[k]),
        decreases items@.len() - i,
    {
        match &items[i] {
            Json::Str(t) => {
                match crate::schema::set_type_from_wire(t.as_str()) {
                    Some(f) => {
                        out.push(f);
                    },
                    None => {
                        proof {
                            assert(s[i as int] is Str && crate::schema::set_type_inv(
                                s[i as int]->Str_0,
                            ) is None);
                        }
                        return Err(
                            DecodeError::here("unknown enum value").in_index(i),
                        );
                    },
                }
            },
            _ => {
                proof {
                    assert(!(s[i as int] is Str));
                }
                return Err(DecodeError::here("expected a string").in_index(i));
            },
        }
        i += 1;
    }
    proof {
        assert(dec_set_types(json_m(*j)) == Some(out@)) by {
            assert(out@ =~= Seq::new(
                s.len(),
                |k: int| crate::schema::set_type_inv(s[k]->Str_0)->0,
            ));
        }
    }
    Ok(out)
}

/// Decoding an encoded fib flag list gives it back.
pub proof fn lemma_rt_set_types(s: Seq<crate::schema::SetType>)
    ensures
        dec_set_types(enc_set_types(s)) == Some(s),
{
    let w = enc_set_types(s)->Arr_0;
    assert forall|i: int| 0 <= i < w.len() implies (#[trigger] w[i]) is Str
        && crate::schema::set_type_inv(w[i]->Str_0) is Some by {
        crate::schema::lemma_set_type_inv_tok(s[i]);
    }
    assert(Seq::new(w.len(), |i: int| crate::schema::set_type_inv(w[i]->Str_0)->0) =~= s) by {
        assert forall|i: int| 0 <= i < w.len() implies crate::schema::set_type_inv(w[i]->Str_0)->0
            == s[i] by {
            crate::schema::lemma_set_type_inv_tok(s[i]);
        }
    }
}



/// An optional property holding a nested value decoded by `f`; absent
/// and null mean none.
pub open spec fn dec_opt_val<T>(
    s: Seq<(Seq<char>, JsonM)>,
    k: Seq<char>,
    f: spec_fn(JsonM) -> Option<T>,
) -> Option<Option<T>> {
    match crate::json::lookup_entries(s, k) {
        None => Some(None),
        Some(JsonM::Null) => Some(None),
        Some(v) => match f(v) {
            Some(x) => Some(Some(x)),
            None => None,
        },
    }
}

/// Abstraction of an anonymous quota statement.
pub open spec fn quota_stmt_m(a: Quota) -> QuotaM {
    QuotaM {
        val: a.val,
        val_unit: a.val_unit@,
        used: a.used,
        used_unit: opt_str_m(a.used_unit),
        inv: a.inv,
    }
}

/// Abstraction of a flow statement.
pub open spec fn flow_m(f: Flow) -> FlowM {
    FlowM { op: f.op, flowtable: f.flowtable@ }
}

/// Abstraction of a synproxy statement.
pub open spec fn synproxy_stmt_m(p: SynProxy) -> SynProxyM {
    SynProxyM {
        mss: p.mss,
        wscale: p.wscale,
        flags: match p.flags {
            Some(f) => Some(f@),
            None => None,
        },
    }
}

/// Abstraction of a tproxy statement.
pub open spec fn tproxy_m(t: TProxy) -> TProxyM {
    TProxyM { family: opt_str_m(t.family), port: t.port, addr: opt_str_m(t.addr) }
}

/// Abstraction of a chain.
pub open spec fn chain_m(c: crate::schema::Chain) -> crate::schema::ChainM {
    crate::schema::ChainM {
        family: c.family,
        table: c.table@,
        name: c.name@,
        newname: opt_str_m(c.newname),
        handle: c.handle,
        _type: c._type,
        hook: c.hook,
        prio: c.prio,
        dev: opt_str_m(c.dev),
        policy: c.policy,
    }
}

/// Abstraction of a named counter object.
pub open spec fn counter_obj_m(c: crate::schema::Counter) -> crate::schema::CounterM {
    crate::schema::CounterM {
        family: c.family,
        table: c.table@,
        name: c.name@,
        handle: c.handle,
        packets: c.packets,
        bytes: c.bytes,
    }
}

/// Abstraction of a named quota object.
pub open spec fn quota_obj_m(q: crate::schema::Quota) -> crate::schema::QuotaM {
    crate::schema::QuotaM {
        family: q.family,
        table: q.table@,
        name: q.name@,
        handle: q.handle,
        bytes: q.bytes,
        used: q.used,
        inv: q.inv,
    }
}

/// Abstraction of a conntrack helper object.
pub open spec fn cthelper_m(h: crate::schema::CTHelper) -> crate::schema::CTHelperM {
    crate::schema::CTHelperM {
        family: h.family,
        table: h.table@,
        name: h.name@,
        handle: h.handle,
        _type: h._type@,
        protocol: opt_str_m(h.protocol),
        l3proto: opt_str_m(h.l3proto),
    }
}

/// Abstraction of a named limit object.
pub open spec fn limit_obj_m(l: crate::schema::Limit) -> crate::schema::LimitM {
    crate::schema::LimitM {
        family: l.family,
        table: l.table@,
        name: l.name@,
        handle: l.handle,
        rate: l.rate,
        per: l.per,
        burst: l.burst,
        unit: l.unit,
        inv: l.inv,
    }
}

/// Abstraction of a metainfo object.
pub open spec fn metainfo_m(m: crate::schema::MetainfoObject) -> crate::schema::MetainfoObjectM {
    crate::schema::MetainfoObjectM {
        version: opt_str_m(m.version),
        release_name: opt_str_m(m.release_name),
        json_schema_version: m.json_schema_version,
    }
}

/// Abstraction of a conntrack timeout object.
pub open spec fn cttimeout_m(c: crate::schema::CTTimeout) -> crate::schema::CTTimeoutM {
    crate::schema::CTTimeoutM {
        family: c.family,
        table: c.table@,
        name: c.name@,
        handle: c.handle,
        protocol: c.protocol,
        state: opt_str_m(c.state),
        value: c.value,
        l3proto: opt_str_m(c.l3proto),
    }
}

/// Abstraction of a conntrack expectation object.
pub open spec fn ctexpectation_m(c: crate::schema::CTExpectation) -> crate::schema::CTExpectationM {
    crate::schema::CTExpectationM {
        family: c.family,
        table: c.table@,
        name: c.name@,
        handle: c.handle,
        l3proto: opt_str_m(c.l3proto),
        protocol: c.protocol,
        dport: c.dport,
        timeout: c.timeout,
        size: c.size,
    }
}

/// Abstraction of a synproxy object.
pub open spec fn synproxy_obj_m(p: crate::schema::SynProxy) -> crate::schema::SynProxyM {
    crate::schema::SynProxyM {
        family: p.family,
        table: p.table@,
        name: p.name@,
        handle: p.handle,
        mss: p.mss,
        wscale: p.wscale,
        flags: match p.flags {
            Some(f) => Some(f@),
            None => None,
        },
    }
}

/// The wire form of this object.
pub open spec fn enc_anon_counter(t: crate::stmt::AnonymousCounter) -> JsonM {
    JsonM::Obj(fopt_u32("packets"@, t.packets) + (fopt_u32("bytes"@, t.bytes)))
}

/// The object a wire value stands for, if any.
pub open spec fn dec_anon_counter(j: JsonM) -> Option<crate::stmt::AnonymousCounter> {
    if !(j is Obj) {
        None
    } else {
        let s = j->Obj_0;
        let packets = dec_opt_u32(s, "packets"@);
        let bytes = dec_opt_u32(s, "bytes"@);
        if packets is Some && bytes is Some {
            Some(crate::stmt::AnonymousCounter { packets: packets->0, bytes: bytes->0 })
        } else {
            None
        }
    }
}

/// Encodes this object.
pub fn encode_anon_counter(t: &crate::stmt::AnonymousCounter) -> (r: Json)
    ensures
        r@ == enc_anon_counter(*t),
{
    let mut es: Vec<(String, Json)> = Vec::new();
    if let Some(x) = t.packets {
        push_field(&mut es, "packets", Json::Num(x as i64));
    }
    if let Some(x) = t.bytes {
        push_field(&mut es, "bytes", Json::Num(x as i64));
    }
    let r = finish_obj(es);
    proof {
        assert(r@->Obj_0 =~= enc_anon_counter(*t)->Obj_0);
    }
    r
}

/// Decodes this object.
pub fn decode_anon_counter(j: &Json) -> (r: Result<crate::stmt::AnonymousCounter, DecodeError>)
    ensures
        r matches Ok(v) ==> dec_anon_counter(j@) == Some(v),
        r is Err ==> dec_anon_counter(j@) is None,
{
    let entries = get_entries(j)?;
    let packets = get_opt_u32(entries, "packets")?;
    let bytes = get_opt_u32(entries, "bytes")?;
    Ok(crate::stmt::AnonymousCounter { packets, bytes })
}

/// Decoding an encoded object gives it back.
pub proof fn lemma_rt_anon_counter(t: crate::stmt::AnonymousCounter)
    ensures
        dec_anon_counter(enc_anon_counter(t)) == Some(t),
{
    reveal_strlit("packets");
    reveal_strlit("bytes");
    assert("packets"@.len() >= 1 && "packets"@[0] == 'p');
    assert("bytes"@.len() >= 1 && "bytes"@[0] == 'b');

    let f0 = fopt_u32("packets"@, t.packets);
    let f1 = fopt_u32("bytes"@, t.bytes);
    crate::json::lemma_lookup_prepend_all(f0, f1);
    if let Some(x) = t.packets {
        crate::json::lemma_lookup_single_all("packets"@, JsonM::Num(x as int));
    }
    if let Some(x) = t.bytes {
        crate::json::lemma_lookup_single_all("bytes"@, JsonM::Num(x as int));
    }
}

/// The wire form of this object.
pub open spec fn enc_quota_stmt(t: crate::stmt::QuotaM) -> JsonM {
    JsonM::Obj(fone("val"@, JsonM::Num(t.val as int)) + (fone("val_unit"@, JsonM::Str(t.val_unit)) + (fopt_u32("used"@, t.used) + (fopt_str("used_unit"@, t.used_unit) + (fopt_bool("inv"@, t.inv))))))
}

/// The object a wire value stands for, if any.
pub open spec fn dec_quota_stmt(j: JsonM) -> Option<crate::stmt::QuotaM> {
    if !(j is Obj) {
        None
    } else {
        let s = j->Obj_0;
        let val = dec_req_u32(s, "val"@);
        let val_unit = dec_req_str(s, "val_unit"@);
        let used = dec_opt_u32(s, "used"@);
        let used_unit = dec_opt_str(s, "used_unit"@);
        let inv = dec_opt_bool(s, "inv"@);
        if val is Some && val_unit is Some && used is Some && used_unit is Some && inv is Some {
            Some(crate::stmt::QuotaM { val: val->0, val_unit: val_unit->0, used: used->0, used_unit: used_unit->0, inv: inv->0 })
        } else {
            None
        }
    }
}

/// Encodes this object.
#[verifier::rlimit(80)]
pub fn encode_quota_stmt(t: &crate::stmt::Quota) -> (r: Json)
    ensures
        r@ == enc_quota_stmt(quota_stmt_m(*t)),
{
    let mut es: Vec<(String, Json)> = Vec::new();
    push_field(&mut es, "val", Json::Num(t.val as i64));
    push_field(&mut es, "val_unit", Json::Str(t.val_unit.clone()));
    if let Some(x) = t.used {
        push_field(&mut es, "used", Json::Num(x as i64));
    }
    if let Some(x) = &t.used_unit {
        push_field(&mut es, "used_unit", Json::Str(x.clone()));
    }
    if let Some(x) = t.inv {
        push_field(&mut es, "inv", Json::Bool(x));
    }
    let r = finish_obj(es);
    proof {
        assert(r@->Obj_0 =~= enc_quota_stmt(quota_stmt_m(*t))->Obj_0);
    }
    r
}

/// Decodes this object.
pub fn decode_quota_stmt(j: &Json) -> (r: Result<crate::stmt::Quota, DecodeError>)
    ensures
        r matches Ok(v) ==> dec_quota_stmt(j@) == Some(quota_stmt_m(v)),
        r is Err ==> dec_quota_stmt(j@) is None,
{
    let entries = get_entries(j)?;
    let val = get_req_u32(entries, "val")?;
    let val_unit = get_req_str(entries, "val_unit")?;
    let used = get_opt_u32(entries, "used")?;
    let used_unit = get_opt_str(entries, "used_unit")?;
    let inv = get_opt_bool(entries, "inv")?;
    Ok(crate::stmt::Quota { val, val_unit, used, used_unit, inv })
}

/// Decoding an encoded object gives it back.
#[verifier::rlimit(100)]
pub proof fn lemma_rt_quota_stmt(t: crate::stmt::QuotaM)
    ensures
        dec_quota_stmt(enc_quota_stmt(t)) == Some(t),
{
    reveal_strlit("val");
    reveal_strlit("val_unit");
    reveal_strlit("used");
    reveal_strlit("used_unit");
    reveal_strlit("inv");
    assert("val"@.len() >= 1 && "val"@[0] == 'v');
    assert("val_unit"@.len() >= 1 && "val_unit"@[0] == 'v');
    assert("used"@.len() >= 1 && "used"@[0] == 'u');
    assert("used_unit"@.len() >= 1 && "used_unit"@[0] == 'u');
    assert("inv"@.len() >= 1 && "inv"@[0] == 'i');

    let f0 = fone("val"@, JsonM::Num(t.val as int));
    let f1 = fone("val_unit"@, JsonM::Str(t.val_unit));
    let f2 = fopt_u32("used"@, t.used);
    let f3 = fopt_str("used_unit"@, t.used_unit);
    let f4 = fopt_bool("inv"@, t.inv);
    crate::json::lemma_lookup_prepend_all(f0, f1 + (f2 + (f3 + (f4))));
    crate::json::lemma_lookup_prepend_all(f1, f2 + (f3 + (f4)));
    crate::json::lemma_lookup_prepend_all(f2, f3 + (f4));
    crate::json::lemma_lookup_prepend_all(f3, f4);
    crate::json::lemma_lookup_single_all("val"@, JsonM::Num(t.val as int));
    crate::json::lemma_lookup_single_all("val_unit"@, JsonM::Str(t.val_unit));
    if let Some(x) = t.used {
        crate::json::lemma_lookup_single_all("used"@, JsonM::Num(x as int));
    }
    if let Some(x) = t.used_unit {
        crate::json::lemma_lookup_single_all("used_unit"@, JsonM::Str(x));
    }
    if let Some(x) = t.inv {
        crate::json::lemma_lookup_single_all("inv"@, JsonM::Bool(x));
    }
}

/// The wire form of this object.
pub open spec fn enc_limit_stmt(t: crate::stmt::LimitM) -> JsonM {
    JsonM::Obj(fone("rate"@, JsonM::Num(t.rate as int)) + (fopt_str("rate_unit"@, t.rate_unit) + (fopt_str("per"@, t.per) + (fopt_u32("burst"@, t.burst) + (fopt_str("burst_unit"@, t.burst_unit) + (fopt_bool("inv"@, t.inv)))))))
}

/// The object a wire value stands for, if any.
pub open spec fn dec_limit_stmt(j: JsonM) -> Option<crate::stmt::LimitM> {
    if !(j is Obj) {
        None
    } else {
        let s = j->Obj_0;
        let rate = dec_req_u32(s, "rate"@);
        let rate_unit = dec_opt_str(s, "rate_unit"@);
        let per = dec_opt_str(s, "per"@);
        let burst = dec_opt_u32(s, "burst"@);
        let burst_unit = dec_opt_str(s, "burst_unit"@);
        let inv = dec_opt_bool(s, "inv"@);
        if rate is Some && rate_unit is Some && per is Some && burst is Some && burst_unit is Some && inv is Some {
            Some(crate::stmt::LimitM { rate: rate->0, rate_unit: rate_unit->0, per: per->0, burst: burst->0, burst_unit: burst_unit->0, inv: inv->0 })
        } else {
            None
        }
    }
}

/// Encodes this object.
#[verifier::rlimit(80)]
pub fn encode_limit_stmt(t: &crate::stmt::Limit) -> (r: Json)
    ensures
        r@ == enc_limit_stmt(limit_m(*t)),
{
    let mut es: Vec<(String, Json)> = Vec::new();
    push_field(&mut es, "rate", Json::Num(t.rate as i64));
    if let Some(x) = &t.rate_unit {
        push_field(&mut es, "rate_unit", Json::Str(x.clone()));
    }
    if let Some(x) = &t.per {
        push_field(&mut es, "per", Json::Str(x.clone()));
    }
    if let Some(x) = t.burst {
        push_field(&mut es, "burst", Json::Num(x as i64));
    }
    if let Some(x) = &t.burst_unit {
        push_field(&mut es, "burst_unit", Json::Str(x.clone()));
    }
    if let Some(x) = t.inv {
        push_field(&mut es, "inv", Json::Bool(x));
    }
    let r = finish_obj(es);
    proof {
        assert(r@->Obj_0 =~= enc_limit_stmt(limit_m(*t))->Obj_0);
    }
    r
}

/// Decodes this object.
pub fn decode_limit_stmt(j: &Json) -> (r: Result<crate::stmt::Limit, DecodeError>)
    ensures
        r matches Ok(v) ==> dec_limit_stmt(j@) == Some(limit_m(v)),
        r is Err ==> dec_limit_stmt(j@) is None,
{
    let entries = get_entries(j)?;
    let rate = get_req_u32(entries, "rate")?;
    let rate_unit = get_opt_str(entries, "rate_unit")?;
    let per = get_opt_str(entries, "per")?;
    let burst = get_opt_u32(entries, "burst")?;
    let burst_unit = get_opt_str(entries, "burst_unit")?;
    let inv = get_opt_bool(entries, "inv")?;
    Ok(crate::stmt::Limit { rate, rate_unit, per, burst, burst_unit, inv })
}

/// Decoding an encoded object gives it back.
#[verifier::rlimit(100)]
pub proof fn lemma_rt_limit_stmt(t: crate::stmt::LimitM)
    ensures
        dec_limit_stmt(enc_limit_stmt(t)) == Some(t),
{
    reveal_strlit("rate");
    reveal_strlit("rate_unit");
    reveal_strlit("per");
    reveal_strlit("burst");
    reveal_strlit("burst_unit");
    reveal_strlit("inv");
    assert("rate"@.len() >= 1 && "rate"@[0] == 'r');
    assert("rate_unit"@.len() >= 1 && "rate_unit"@[0] == 'r');
    assert("per"@.len() >= 1 && "per"@[0] == 'p');
    assert("burst"@.len() >= 1 && "burst"@[0] == 'b');
    assert("burst_unit"@.len() >= 1 && "burst_unit"@[0] == 'b');
    assert("inv"@.len() >= 1 && "inv"@[0] == 'i');

    let f0 = fone("rate"@, JsonM::Num(t.rate as int));
    let f1 = fopt_str("rate_unit"@, t.rate_unit);
    let f2 = fopt_str("per"@, t.per);
    let f3 = fopt_u32("burst"@, t.burst);
    let f4 = fopt_str("burst_unit"@, t.burst_unit);
    let f5 = fopt_bool("inv"@, t.inv);
    crate::json::lemma_lookup_prepend_all(f0, f1 + (f2 + (f3 + (f4 + (f5)))));
    crate::json::lemma_lookup_prepend_all(f1, f2 + (f3 + (f4 + (f5))));
    crate::json::lemma_lookup_prepend_all(f2, f3 + (f4 + (f5)));
    crate::json::lemma_lookup_prepend_all(f3, f4 + (f5));
    crate::json::lemma_lookup_prepend_all(f4, f5);
    crate::json::lemma_lookup_single_all("rate"@, JsonM::Num(t.rate as int));
    if let Some(x) = t.rate_unit {
        crate::json::lemma_lookup_single_all("rate_unit"@, JsonM::Str(x));
    }
    if let Some(x) = t.per {
        crate::json::lemma_lookup_single_all("per"@, JsonM::Str(x));
    }
    if let Some(x) = t.burst {
        crate::json::lemma_lookup_single_all("burst"@, JsonM::Num(x as int));
    }
    if let Some(x) = t.burst_unit {
        crate::json::lemma_lookup_single_all("burst_unit"@, JsonM::Str(x));
    }
    if let Some(x) = t.inv {
        crate::json::lemma_lookup_single_all("inv"@, JsonM::Bool(x));
    }
}

/// The wire form of this object.
pub open spec fn enc_flow(t: crate::stmt::FlowM) -> JsonM {
    JsonM::Obj(fone("op"@, JsonM::Str(crate::stmt::set_op_tok(t.op))) + (fone("flowtable"@, JsonM::Str(t.flowtable))))
}

/// The object a wire value stands for, if any.
pub open spec fn dec_flow(j: JsonM) -> Option<crate::stmt::FlowM> {
    if !(j is Obj) {
        None
    } else {
        let s = j->Obj_0;
        let op = dec_req_enum(s, "op"@, |t| crate::stmt::set_op_inv(t));
        let flowtable = dec_req_str(s, "flowtable"@);
        if op is Some && flowtable is Some {
            Some(crate::stmt::FlowM { op: op->0, flowtable: flowtable->0 })
        } else {
            None
        }
    }
}

/// Encodes this object.
pub fn encode_flow(t: &crate::stmt::Flow) -> (r: Json)
    ensures
        r@ == enc_flow(flow_m(*t)),
{
    let mut es: Vec<(String, Json)> = Vec::new();
    push_field(&mut es, "op", Json::Str(crate::stmt::set_op_to_wire(t.op).to_owned()));
    push_field(&mut es, "flowtable", Json::Str(t.flowtable.clone()));
    let r = finish_obj(es);
    proof {
        assert(r@->Obj_0 =~= enc_flow(flow_m(*t))->Obj_0);
    }
    r
}

/// Decodes this object.
pub fn decode_flow(j: &Json) -> (r: Result<crate::stmt::Flow, DecodeError>)
    ensures
        r matches Ok(v) ==> dec_flow(j@) == Some(flow_m(v)),
        r is Err ==> dec_flow(j@) is None,
{
    let entries = get_entries(j)?;
    let op_s = get_req_str(entries, "op")?;
    let op = match crate::stmt::set_op_from_wire(op_s.as_str()) {
        Some(v) => v,
        None => {
            return Err(DecodeError::at_key("op", "unknown enum value"));
        },
    };
    let flowtable = get_req_str(entries, "flowtable")?;
    Ok(crate::stmt::Flow { op, flowtable })
}

/// Decoding an encoded object gives it back.
pub proof fn lemma_rt_flow(t: crate::stmt::FlowM)
    ensures
        dec_flow(enc_flow(t)) == Some(t),
{
    reveal_strlit("op");
    reveal_strlit("flowtable");
    assert("op"@.len() >= 1 && "op"@[0] == 'o');
    assert("flowtable"@.len() >= 1 && "flowtable"@[0] == 'f');

    let f0 = fone("op"@, JsonM::Str(crate::stmt::set_op_tok(t.op)));
    let f1 = fone("flowtable"@, JsonM::Str(t.flowtable));
    crate::json::lemma_lookup_prepend_all(f0, f1);
    crate::json::lemma_lookup_single_all("op"@, JsonM::Str(crate::stmt::set_op_tok(t.op)));
    crate::stmt::lemma_set_op_inv_tok(t.op);
    crate::json::lemma_lookup_single_all("flowtable"@, JsonM::Str(t.flowtable));
}

/// The wire form of this object.
pub open spec fn enc_reject(t: crate::stmt::Reject) -> JsonM {
    JsonM::Obj(fopt_str("type"@, (match t._type {
            Some(x) => Some(crate::stmt::reject_type_tok(x)),
            None => None,
        })) + (fopt_str("expr"@, (match t.expr {
            Some(x) => Some(crate::types::reject_code_tok(x)),
            None => None,
        }))))
}

/// The object a wire value stands for, if any.
pub open spec fn dec_reject(j: JsonM) -> Option<crate::stmt::Reject> {
    if !(j is Obj) {
        None
    } else {
        let s = j->Obj_0;
        let _type = dec_opt_enum(s, "type"@, |t| crate::stmt::reject_type_inv(t));
        let expr = dec_opt_enum(s, "expr"@, |t| crate::types::reject_code_inv(t));
        if _type is Some && expr is Some {
            Some(crate::stmt::Reject { _type: _type->0, expr: expr->0 })
        } else {
            None
        }
    }
}

/// Encodes this object.
pub fn encode_reject(t: &crate::stmt::Reject) -> (r: Json)
    ensures
        r@ == enc_reject(*t),
{
    let mut es: Vec<(String, Json)> = Vec::new();
    if let Some(x) = t._type {
        push_field(&mut es, "type", Json::Str(crate::stmt::reject_type_to_wire(x).to_owned()));
    }
    if let Some(x) = t.expr {
        push_field(&mut es, "expr", Json::Str(crate::types::reject_code_to_wire(x).to_owned()));
    }
    let r = finish_obj(es);
    proof {
        assert(r@->Obj_0 =~= enc_reject(*t)->Obj_0);
    }
    r
}

/// Decodes this object.
pub fn decode_reject(j: &Json) -> (r: Result<crate::stmt::Reject, DecodeError>)
    ensures
        r matches Ok(v) ==> dec_reject(j@) == Some(v),
        r is Err ==> dec_reject(j@) is None,
{
    let entries = get_entries(j)?;
    let _type = match get_opt_str(entries, "type")? {
        Some(tk) => match crate::stmt::reject_type_from_wire(tk.as_str()) {
            Some(v) => Some(v),
            None => {
                return Err(DecodeError::at_key("type", "unknown enum value"));
            },
        },
        None => None,
    };
    let expr = match get_opt_str(entries, "expr")? {
        Some(tk) => match crate::types::reject_code_from_wire(tk.as_str()) {
            Some(v) => Some(v),
            None => {
                return Err(DecodeError::at_key("expr", "unknown enum value"));
            },
        },
        None => None,
    };
    Ok(crate::stmt::Reject { _type, expr })
}

/// Decoding an encoded object gives it back.
pub proof fn lemma_rt_reject(t: crate::stmt::Reject)
    ensures
        dec_reject(enc_reject(t)) == Some(t),
{
    reveal_strlit("type");
    reveal_strlit("expr");
    assert("type"@.len() >= 1 && "type"@[0] == 't');
    assert("expr"@.len() >= 1 && "expr"@[0] == 'e');

    let f0 = fopt_str("type"@, (match t._type {
            Some(x) => Some(crate::stmt::reject_type_tok(x)),
            None => None,
        }));
    let f1 = fopt_str("expr"@, (match t.expr {
            Some(x) => Some(crate::types::reject_code_tok(x)),
            None => None,
        }));
    crate::json::lemma_lookup_prepend_all(f0, f1);
    if let Some(x) = t._type {
        crate::json::lemma_lookup_single_all("type"@, JsonM::Str(crate::stmt::reject_type_tok(x)));
        crate::stmt::lemma_reject_type_inv_tok(x);
    }
    if let Some(x) = t.expr {
        crate::json::lemma_lookup_single_all("expr"@, JsonM::Str(crate::types::reject_code_tok(x)));
        crate::types::lemma_reject_code_inv_tok(x);
    }
}

/// The wire form of this object.
pub open spec fn enc_synproxy_stmt(t: crate::stmt::SynProxyM) -> JsonM {
    JsonM::Obj(fopt_u32("mss"@, t.mss) + (fopt_u32("wscale"@, t.wscale) + (fopt_val("flags"@, (match t.flags {
            Some(x) => Some(enc_synproxy_flags(x)),
            None => None,
        })))))
}

/// The object a wire value stands for, if any.
pub open spec fn dec_synproxy_stmt(j: JsonM) -> Option<crate::stmt::SynProxyM> {
    if !(j is Obj) {
        None
    } else {
        let s = j->Obj_0;
        let mss = dec_opt_u32(s, "mss"@);
        let wscale = dec_opt_u32(s, "wscale"@);
        let flags = dec_opt_val(s, "flags"@, |v| dec_synproxy_flags(v));
        if mss is Some && wscale is Some && flags is Some {
            Some(crate::stmt::SynProxyM { mss: mss->0, wscale: wscale->0, flags: flags->0 })
        } else {
            None
        }
    }
}

/// Encodes this object.
#[verifier::rlimit(80)]
pub fn encode_synproxy_stmt(t: &crate::stmt::SynProxy) -> (r: Json)
    ensures
        r@ == enc_synproxy_stmt(synproxy_stmt_m(*t)),
{
    let mut es: Vec<(String, Json)> = Vec::new();
    if let Some(x) = t.mss {
        push_field(&mut es, "mss", Json::Num(x as i64));
    }
    if let Some(x) = t.wscale {
        push_field(&mut es, "wscale", Json::Num(x as i64));
    }
    if let Some(x) = &t.flags {
        push_field(&mut es, "flags", encode_synproxy_flags(x));
    }
    let r = finish_obj(es);
    proof {
        assert(r@->Obj_0 =~= enc_synproxy_stmt(synproxy_stmt_m(*t))->Obj_0);
    }
    r
}

/// Decodes this object.
pub fn decode_synproxy_stmt(j: &Json) -> (r: Result<crate::stmt::SynProxy, DecodeError>)
    ensures
        r matches Ok(v) ==> dec_synproxy_stmt(j@) == Some(synproxy_stmt_m(v)),
        r is Err ==> dec_synproxy_stmt(j@) is None,
{
    let entries = get_entries(j)?;
    let mss = get_opt_u32(entries, "mss")?;
    let wscale = get_opt_u32(entries, "wscale")?;
    let flags = match crate::json::obj_lookup(entries, "flags") {
        None => None,
        Some(Json::Null) => None,
        Some(v) => match decode_synproxy_flags(v) {
            Ok(x) => Some(x),
            Err(e) => {
                return Err(e.in_key("flags"));
            },
        },
    };
    Ok(crate::stmt::SynProxy { mss, wscale, flags })
}

/// Decoding an encoded object gives it back.
pub proof fn lemma_rt_synproxy_stmt(t: crate::stmt::SynProxyM)
    ensures
        dec_synproxy_stmt(enc_synproxy_stmt(t)) == Some(t),
{
    reveal_strlit("mss");
    reveal_strlit("wscale");
    reveal_strlit("flags");
    assert("mss"@.len() >= 1 && "mss"@[0] == 'm');
    assert("wscale"@.len() >= 1 && "wscale"@[0] == 'w');
    assert("flags"@.len() >= 1 && "flags"@[0] == 'f');

    let f0 = fopt_u32("mss"@, t.mss);
    let f1 = fopt_u32("wscale"@, t.wscale);
    let f2 = fopt_val("flags"@, (match t.flags {
            Some(x) => Some(enc_synproxy_flags(x)),
            None => None,
        }));
    crate::json::lemma_lookup_prepend_all(f0, f1 + (f2));
    crate::json::lemma_lookup_prepend_all(f1, f2);
    if let Some(x) = t.mss {
        crate::json::lemma_lookup_single_all("mss"@, JsonM::Num(x as int));
    }
    if let Some(x) = t.wscale {
        crate::json::lemma_lookup_single_all("wscale"@, JsonM::Num(x as int));
    }
    if let Some(x) = t.flags {
        crate::json::lemma_lookup_single_all("flags"@, enc_synproxy_flags(x));
        lemma_rt_synproxy_flags(x);
    }
}

/// The wire form of this object.
pub open spec fn enc_tproxy(t: crate::stmt::TProxyM) -> JsonM {
    JsonM::Obj(fopt_str("family"@, t.family) + (fone("port"@, JsonM::Num(t.port as int)) + (fopt_str("addr"@, t.addr))))
}

/// The object a wire value stands for, if any.
pub open spec fn dec_tproxy(j: JsonM) -> Option<crate::stmt::TProxyM> {
    if !(j is Obj) {
        None
    } else {
        let s = j->Obj_0;
        let family = dec_opt_str(s, "family"@);
        let port = dec_req_u16(s, "port"@);
        let addr = dec_opt_str(s, "addr"@);
        if family is Some && port is Some && addr is Some {
            Some(crate::stmt::TProxyM { family: family->0, port: port->0, addr: addr->0 })
        } else {
            None
        }
    }
}

/// Encodes this object.
#[verifier::rlimit(80)]
pub fn encode_tproxy(t: &crate::stmt::TProxy) -> (r: Json)
    ensures
        r@ == enc_tproxy(tproxy_m(*t)),
{
    let mut es: Vec<(String, Json)> = Vec::new();
    if let Some(x) = &t.family {
        push_field(&mut es, "family", Json::Str(x.clone()));
    }
    push_field(&mut es, "port", Json::Num(t.port as i64));
    if let Some(x) = &t.addr {
        push_field(&mut es, "addr", Json::Str(x.clone()));
    }
    let r = finish_obj(es);
    proof {
        assert(r@->Obj_0 =~= enc_tproxy(tproxy_m(*t))->Obj_0);
    }
    r
}

/// Decodes this object.
pub fn decode_tproxy(j: &Json) -> (r: Result<crate::stmt::TProxy, DecodeError>)
    ensures
        r matches Ok(v) ==> dec_tproxy(j@) == Some(tproxy_m(v)),
        r is Err ==> dec_tproxy(j@) is None,
{
    let entries = get_entries(j)?;
    let family = get_opt_str(entries, "family")?;
    let port = get_req_u16(entries, "port")?;
    let addr = get_opt_str(entries, "addr")?;
    Ok(crate::stmt::TProxy { family, port, addr })
}

/// Decoding an encoded object gives it back.
pub proof fn lemma_rt_tproxy(t: crate::stmt::TProxyM)
    ensures
        dec_tproxy(enc_tproxy(t)) == Some(t),
{
    reveal_strlit("family");
    reveal_strlit("port");
    reveal_strlit("addr");
    assert("family"@.len() >= 1 && "family"@[0] == 'f');
    assert("port"@.len() >= 1 && "port"@[0] == 'p');
    assert("addr"@.len() >= 1 && "addr"@[0] == 'a');

    let f0 = fopt_str("family"@, t.family);
    let f1 = fone("port"@, JsonM::Num(t.port as int));
    let f2 = fopt_str("addr"@, t.addr);
    crate::json::lemma_lookup_prepend_all(f0, f1 + (f2));
    crate::json::lemma_lookup_prepend_all(f1, f2);
    if let Some(x) = t.family {
        crate::json::lemma_lookup_single_all("family"@, JsonM::Str(x));
    }
    crate::json::lemma_lookup_single_all("port"@, JsonM::Num(t.port as int));
    if let Some(x) = t.addr {
        crate::json::lemma_lookup_single_all("addr"@, JsonM::Str(x));
    }
}

/// The wire form of this object.
pub open spec fn enc_chain(t: crate::schema::ChainM) -> JsonM {
    JsonM::Obj(fone("family"@, JsonM::Str(crate::types::family_tok(t.family))) + (fone("table"@, JsonM::Str(t.table)) + (fone("name"@, JsonM::Str(t.name)) + (fopt_str("newname"@, t.newname) + (fopt_u32("handle"@, t.handle) + (fopt_str("type"@, (match t._type {
            Some(x) => Some(crate::types::chain_type_tok(x)),
            None => None,
        })) + (fopt_str("hook"@, (match t.hook {
            Some(x) => Some(crate::types::hook_tok(x)),
            None => None,
        })) + (fopt_i32("prio"@, t.prio) + (fopt_str("dev"@, t.dev) + (fopt_str("policy"@, (match t.policy {
            Some(x) => Some(crate::types::chain_policy_tok(x)),
            None => None,
        }))))))))))))
}

/// The object a wire value stands for, if any.
pub open spec fn dec_chain(j: JsonM) -> Option<crate::schema::ChainM> {
    if !(j is Obj) {
        None
    } else {
        let s = j->Obj_0;
        let family = dec_req_enum(s, "family"@, |t| crate::types::family_inv(t));
        let table = dec_req_str(s, "table"@);
        let name = dec_req_str(s, "name"@);
        let newname = dec_opt_str(s, "newname"@);
        let handle = dec_opt_u32(s, "handle"@);
        let _type = dec_opt_enum(s, "type"@, |t| crate::types::chain_type_inv(t));
        let hook = dec_opt_enum(s, "hook"@, |t| crate::types::hook_inv(t));
        let prio = dec_opt_i32(s, "prio"@);
        let dev = dec_opt_str(s, "dev"@);
        let policy = dec_opt_enum(s, "policy"@, |t| crate::types::chain_policy_inv(t));
        if family is Some && table is Some && name is Some && newname is Some && handle is Some && _type is Some && hook is Some && prio is Some && dev is Some && policy is Some {
            Some(crate::schema::ChainM { family: family->0, table: table->0, name: name->0, newname: newname->0, handle: handle->0, _type: _type->0, hook: hook->0, prio: prio->0, dev: dev->0, policy: policy->0 })
        } else {
            None
        }
    }
}

/// Encodes this object.
#[verifier::rlimit(100)]
#[verifier::spinoff_prover]
pub fn encode_chain(t: &crate::schema::Chain) -> (r: Json)
    ensures
        r@ == enc_chain(chain_m(*t)),
{
    let ghost m = chain_m(*t);
    let mut es: Vec<(String, Json)> = Vec::new();
    push_field(&mut es, "family", Json::Str(crate::types::family_to_wire(t.family).to_owned()));
    push_field(&mut es, "table", Json::Str(t.table.clone()));
    push_field(&mut es, "name", Json::Str(t.name.clone()));
    push_opt_str_field(&mut es, "newname", &t.newname);
    push_opt_u32_field(&mut es, "handle", t.handle);
    push_opt_chain_type_field(&mut es, t._type);
    push_opt_hook_field(&mut es, t.hook);
    push_opt_i32_field(&mut es, "prio", t.prio);
    push_opt_str_field(&mut es, "dev", &t.dev);
    push_opt_chain_policy_field(&mut es, t.policy);
    let r = finish_obj(es);
    proof {
        assert(r@->Obj_0 =~= enc_chain(m)->Obj_0);
    }
    r
}

/// Decodes this object.
pub fn decode_chain(j: &Json) -> (r: Result<crate::schema::Chain, DecodeError>)
    ensures
        r matches Ok(v) ==> dec_chain(j@) == Some(chain_m(v)),
        r is Err ==> dec_chain(j@) is None,
{
    let entries = get_entries(j)?;
    let family_s = get_req_str(entries, "family")?;
    let family = match crate::types::family_from_wire(family_s.as_str()) {
        Some(v) => v,
        None => {
            return Err(DecodeError::at_key("family", "unknown enum value"));
        },
    };
    let table = get_req_str(entries, "table")?;
    let name = get_req_str(entries, "name")?;
    let newname = get_opt_str(entries, "newname")?;
    let handle = get_opt_u32(entries, "handle")?;
    let _type = match get_opt_str(entries, "type")? {
        Some(tk) => match crate::types::chain_type_from_wire(tk.as_str()) {
            Some(v) => Some(v),
            None => {
                return Err(DecodeError::at_key("type", "unknown enum value"));
            },
        },
        None => None,
    };
    let hook = match get_opt_str(entries, "hook")? {
        Some(tk) => match crate::types::hook_from_wire(tk.as_str()) {
            Some(v) => Some(v),
            None => {
                return Err(DecodeError::at_key("hook", "unknown enum value"));
            },
        },
        None => None,
    };
    let prio = get_opt_i32(entries, "prio")?;
    let dev = get_opt_str(entries, "dev")?;
    let policy = match get_opt_str(entries, "policy")? {
        Some(tk) => match crate::types::chain_policy_from_wire(tk.as_str()) {
            Some(v) => Some(v),
            None => {
                return Err(DecodeError::at_key("policy", "unknown enum value"));
            },
        },
        None => None,
    };
    Ok(crate::schema::Chain { family, table, name, newname, handle, _type, hook, prio, dev, policy })
}

/// Decoding an encoded object gives it back.
#[verifier::rlimit(100)]
pub proof fn lemma_rt_chain(t: crate::schema::ChainM)
    ensures
        dec_chain(enc_chain(t)) == Some(t),
{
    reveal_strlit("family");
    reveal_strlit("table");
    reveal_strlit("name");
    reveal_strlit("newname");
    reveal_strlit("handle");
    reveal_strlit("type");
    reveal_strlit("hook");
    reveal_strlit("prio");
    reveal_strlit("dev");
    reveal_strlit("policy");
    assert("family"@.len() >= 1 && "family"@[0] == 'f');
    assert("table"@.len() >= 1 && "table"@[0] == 't');
    assert("name"@.len() >= 1 && "name"@[0] == 'n');
    assert("newname"@.len() >= 1 && "newname"@[0] == 'n');
    assert("handle"@.len() >= 1 && "handle"@[0] == 'h');
    assert("type"@.len() >= 1 && "type"@[0] == 't');
    assert("hook"@.len() >= 1 && "hook"@[0] == 'h');
    assert("prio"@.len() >= 1 && "prio"@[0] == 'p');
    assert("dev"@.len() >= 1 && "dev"@[0] == 'd');
    assert("policy"@.len() >= 1 && "policy"@[0] == 'p');

    let f0 = fone("family"@, JsonM::Str(crate::types::family_tok(t.family)));
    let f1 = fone("table"@, JsonM::Str(t.table));
    let f2 = fone("name"@, JsonM::Str(t.name));
    let f3 = fopt_str("newname"@, t.newname);
    let f4 = fopt_u32("handle"@, t.handle);
    let f5 = fopt_str("type"@, (match t._type {
            Some(x) => Some(crate::types::chain_type_tok(x)),
            None => None,
        }));
    let f6 = fopt_str("hook"@, (match t.hook {
            Some(x) => Some(crate::types::hook_tok(x)),
            None => None,
        }));
    let f7 = fopt_i32("prio"@, t.prio);
    let f8 = fopt_str("dev"@, t.dev);
    let f9 = fopt_str("policy"@, (match t.policy {
            Some(x) => Some(crate::types::chain_policy_tok(x)),
            None => None,
        }));
    crate::json::lemma_lookup_prepend_all(f0, f1 + (f2 + (f3 + (f4 + (f5 + (f6 + (f7 + (f8 + (f9)))))))));
    crate::json::lemma_lookup_prepend_all(f1, f2 + (f3 + (f4 + (f5 + (f6 + (f7 + (f8 + (f9))))))));
    crate::json::lemma_lookup_prepend_all(f2, f3 + (f4 + (f5 + (f6 + (f7 + (f8 + (f9)))))));
    crate::json::lemma_lookup_prepend_all(f3, f4 + (f5 + (f6 + (f7 + (f8 + (f9))))));
    crate::json::lemma_lookup_prepend_all(f4, f5 + (f6 + (f7 + (f8 + (f9)))));
    crate::json::lemma_lookup_prepend_all(f5, f6 + (f7 + (f8 + (f9))));
    crate::json::lemma_lookup_prepend_all(f6, f7 + (f8 + (f9)));
    crate::json::lemma_lookup_prepend_all(f7, f8 + (f9));
    crate::json::lemma_lookup_prepend_all(f8, f9);
    crate::json::lemma_lookup_single_all("family"@, JsonM::Str(crate::types::family_tok(t.family)));
    crate::types::lemma_family_inv_tok(t.family);
    crate::json::lemma_lookup_single_all("table"@, JsonM::Str(t.table));
    crate::json::lemma_lookup_single_all("name"@, JsonM::Str(t.name));
    if let Some(x) = t.newname {
        crate::json::lemma_lookup_single_all("newname"@, JsonM::Str(x));
    }
    if let Some(x) = t.handle {
        crate::json::lemma_lookup_single_all("handle"@, JsonM::Num(x as int));
    }
    if let Some(x) = t._type {
        crate::json::lemma_lookup_single_all("type"@, JsonM::Str(crate::types::chain_type_tok(x)));
        crate::types::lemma_chain_type_inv_tok(x);
    }
    if let Some(x) = t.hook {
        crate::json::lemma_lookup_single_all("hook"@, JsonM::Str(crate::types::hook_tok(x)));
        crate::types::lemma_hook_inv_tok(x);
    }
    if let Some(x) = t.prio {
        crate::json::lemma_lookup_single_all("prio"@, JsonM::Num(x as int));
    }
    if let Some(x) = t.dev {
        crate::json::lemma_lookup_single_all("dev"@, JsonM::Str(x));
    }
    if let Some(x) = t.policy {
        crate::json::lemma_lookup_single_all("policy"@, JsonM::Str(crate::types::chain_policy_tok(x)));
        crate::types::lemma_chain_policy_inv_tok(x);
    }
}

/// The wire form of this object.
pub open spec fn enc_counter_obj(t: crate::schema::CounterM) -> JsonM {
    JsonM::Obj(fone("family"@, JsonM::Str(crate::types::family_tok(t.family))) + (fone("table"@, JsonM::Str(t.table)) + (fone("name"@, JsonM::Str(t.name)) + (fopt_u32("handle"@, t.handle) + (fopt_u32("packets"@, t.packets) + (fopt_u32("bytes"@, t.bytes)))))))
}

/// The object a wire value stands for, if any.
pub open spec fn dec_counter_obj(j: JsonM) -> Option<crate::schema::CounterM> {
    if !(j is Obj) {
        None
    } else {
        let s = j->Obj_0;
        let family = dec_req_enum(s, "family"@, |t| crate::types::family_inv(t));
        let table = dec_req_str(s, "table"@);
        let name = dec_req_str(s, "name"@);
        let handle = dec_opt_u32(s, "handle"@);
        let packets = dec_opt_u32(s, "packets"@);
        let bytes = dec_opt_u32(s, "bytes"@);
        if family is Some && table is Some && name is Some && handle is Some && packets is Some && bytes is Some {
            Some(crate::schema::CounterM { family: family->0, table: table->0, name: name->0, handle: handle->0, packets: packets->0, bytes: bytes->0 })
        } else {
            None
        }
    }
}

/// Encodes this object.
#[verifier::rlimit(80)]
pub fn encode_counter_obj(t: &crate::schema::Counter) -> (r: Json)
    ensures
        r@ == enc_counter_obj(counter_obj_m(*t)),
{
    let mut es: Vec<(String, Json)> = Vec::new();
    push_field(&mut es, "family", Json::Str(crate::types::family_to_wire(t.family).to_owned()));
    push_field(&mut es, "table", Json::Str(t.table.clone()));
    push_field(&mut es, "name", Json::Str(t.name.clone()));
    if let Some(x) = t.handle {
        push_field(&mut es, "handle", Json::Num(x as i64));
    }
    if let Some(x) = t.packets {
        push_field(&mut es, "packets", Json::Num(x as i64));
    }
    push_opt_u32_field(&mut es, "bytes", t.bytes);
    let r = finish_obj(es);
    proof {
        assert(r@->Obj_0 =~= enc_counter_obj(counter_obj_m(*t))->Obj_0);
    }
    r
}

/// Decodes this object.
pub fn decode_counter_obj(j: &Json) -> (r: Result<crate::schema::Counter, DecodeError>)
    ensures
        r matches Ok(v) ==> dec_counter_obj(j@) == Some(counter_obj_m(v)),
        r is Err ==> dec_counter_obj(j@) is None,
{
    let entries = get_entries(j)?;
    let family_s = get_req_str(entries, "family")?;
    let family = match crate::types::family_from_wire(family_s.as_str()) {
        Some(v) => v,
        None => {
            return Err(DecodeError::at_key("family", "unknown enum value"));
        },
    };
    let table = get_req_str(entries, "table")?;
    let name = get_req_str(entries, "name")?;
    let handle = get_opt_u32(entries, "handle")?;
    let packets = get_opt_u32(entries, "packets")?;
    let bytes = get_opt_u32(entries, "bytes")?;
    Ok(crate::schema::Counter { family, table, name, handle, packets, bytes })
}

/// Decoding an encoded object gives it back.
#[verifier::rlimit(100)]
pub proof fn lemma_rt_counter_obj(t: crate::schema::CounterM)
    ensures
        dec_counter_obj(enc_counter_obj(t)) == Some(t),
{
    reveal_strlit("family");
    reveal_strlit("table");
    reveal_strlit("name");
    reveal_strlit("handle");
    reveal_strlit("packets");
    reveal_strlit("bytes");
    assert("family"@.len() >= 1 && "family"@[0] == 'f');
    assert("table"@.len() >= 1 && "table"@[0] == 't');
    assert("name"@.len() >= 1 && "name"@[0] == 'n');
    assert("handle"@.len() >= 1 && "handle"@[0] == 'h');
    assert("packets"@.len() >= 1 && "packets"@[0] == 'p');
    assert("bytes"@.len() >= 1 && "bytes"@[0] == 'b');

    let f0 = fone("family"@, JsonM::Str(crate::types::family_tok(t.family)));
    let f1 = fone("table"@, JsonM::Str(t.table));
    let f2 = fone("name"@, JsonM::Str(t.name));
    let f3 = fopt_u32("handle"@, t.handle);
    let f4 = fopt_u32("packets"@, t.packets);
    let f5 = fopt_u32("bytes"@, t.bytes);
    crate::json::lemma_lookup_prepend_all(f0, f1 + (f2 + (f3 + (f4 + (f5)))));
    crate::json::lemma_lookup_prepend_all(f1, f2 + (f3 + (f4 + (f5))));
    crate::json::lemma_lookup_prepend_all(f2, f3 + (f4 + (f5)));
    crate::json::lemma_lookup_prepend_all(f3, f4 + (f5));
    crate::json::lemma_lookup_prepend_all(f4, f5);
    crate::json::lemma_lookup_single_all("family"@, JsonM::Str(crate::types::family_tok(t.family)));
    crate::types::lemma_family_inv_tok(t.family);
    crate::json::lemma_lookup_single_all("table"@, JsonM::Str(t.table));
    crate::json::lemma_lookup_single_all("name"@, JsonM::Str(t.name));
    if let Some(x) = t.handle {
        crate::json::lemma_lookup_single_all("handle"@, JsonM::Num(x as int));
    }
    if let Some(x) = t.packets {
        crate::json::lemma_lookup_single_all("packets"@, JsonM::Num(x as int));
    }
    if let Some(x) = t.bytes {
    crate::json::lemma_lookup_single_all("bytes"@, JsonM::Num(x as int));
    }
}

/// The wire form of this object.
pub open spec fn enc_quota_obj(t: crate::schema::QuotaM) -> JsonM {
    JsonM::Obj(fone("family"@, JsonM::Str(crate::types::family_tok(t.family))) + (fone("table"@, JsonM::Str(t.table)) + (fone("name"@, JsonM::Str(t.name)) + (fopt_u32("handle"@, t.handle) + (fopt_u32("bytes"@, t.bytes) + (fopt_u32("used"@, t.used) + (fopt_bool("inv"@, t.inv))))))))
}

/// The object a wire value stands for, if any.
pub open spec fn dec_quota_obj(j: JsonM) -> Option<crate::schema::QuotaM> {
    if !(j is Obj) {
        None
    } else {
        let s = j->Obj_0;
        let family = dec_req_enum(s, "family"@, |t| crate::types::family_inv(t));
        let table = dec_req_str(s, "table"@);
        let name = dec_req_str(s, "name"@);
        let handle = dec_opt_u32(s, "handle"@);
        let bytes = dec_opt_u32(s, "bytes"@);
        let used = dec_opt_u32(s, "used"@);
        let inv = dec_opt_bool(s, "inv"@);
        if family is Some && table is Some && name is Some && handle is Some && bytes is Some && used is Some && inv is Some {
            Some(crate::schema::QuotaM { family: family->0, table: table->0, name: name->0, handle: handle->0, bytes: bytes->0, used: used->0, inv: inv->0 })
        } else {
            None
        }
    }
}

/// Encodes this object.
#[verifier::rlimit(80)]
pub fn encode_quota_obj(t: &crate::schema::Quota) -> (r: Json)
    ensures
        r@ == enc_quota_obj(quota_obj_m(*t)),
{
    let mut es: Vec<(String, Json)> = Vec::new();
    push_field(&mut es, "family", Json::Str(crate::types::family_to_wire(t.family).to_owned()));
    push_field(&mut es, "table", Json::Str(t.table.clone()));
    push_field(&mut es, "name", Json::Str(t.name.clone()));
    if let Some(x) = t.handle {
        push_field(&mut es, "handle", Json::Num(x as i64));
    }
    if let Some(x) = t.bytes {
        push_field(&mut es, "bytes", Json::Num(x as i64));
    }
    if let Some(x) = t.used {
        push_field(&mut es, "used", Json::Num(x as i64));
    }
    if let Some(x) = t.inv {
        push_field(&mut es, "inv", Json::Bool(x));
    }
    let r = finish_obj(es);
    proof {
        assert(r@->Obj_0 =~= enc_quota_obj(quota_obj_m(*t))->Obj_0);
    }
    r
}

/// Decodes this object.
pub fn decode_quota_obj(j: &Json) -> (r: Result<crate::schema::Quota, DecodeError>)
    ensures
        r matches Ok(v) ==> dec_quota_obj(j@) == Some(quota_obj_m(v)),
        r is Err ==> dec_quota_obj(j@) is None,
{
    let entries = get_entries(j)?;
    let family_s = get_req_str(entries, "family")?;
    let family = match crate::types::family_from_wire(family_s.as_str()) {
        Some(v) => v,
        None => {
            return Err(DecodeError::at_key("family", "unknown enum value"));
        },
    };
    let table = get_req_str(entries, "table")?;
    let name = get_req_str(entries, "name")?;
    let handle = get_opt_u32(entries, "handle")?;
    let bytes = get_opt_u32(entries, "bytes")?;
    let used = get_opt_u32(entries, "used")?;
    let inv = get_opt_bool(entries, "inv")?;
    Ok(crate::schema::Quota { family, table, name, handle, bytes, used, inv })
}

/// Decoding an encoded object gives it back.
#[verifier::rlimit(100)]
pub proof fn lemma_rt_quota_obj(t: crate::schema::QuotaM)
    ensures
        dec_quota_obj(enc_quota_obj(t)) == Some(t),
{
    reveal_strlit("family");
    reveal_strlit("table");
    reveal_strlit("name");
    reveal_strlit("handle");
    reveal_strlit("bytes");
    reveal_strlit("used");
    reveal_strlit("inv");
    assert("family"@.len() >= 1 && "family"@[0] == 'f');
    assert("table"@.len() >= 1 && "table"@[0] == 't');
    assert("name"@.len() >= 1 && "name"@[0] == 'n');
    assert("handle"@.len() >= 1 && "handle"@[0] == 'h');
    assert("bytes"@.len() >= 1 && "bytes"@[0] == 'b');
    assert("used"@.len() >= 1 && "used"@[0] == 'u');
    assert("inv"@.len() >= 1 && "inv"@[0] == 'i');

    let f0 = fone("family"@, JsonM::Str(crate::types::family_tok(t.family)));
    let f1 = fone("table"@, JsonM::Str(t.table));
    let f2 = fone("name"@, JsonM::Str(t.name));
    let f3 = fopt_u32("handle"@, t.handle);
    let f4 = fopt_u32("bytes"@, t.bytes);
    let f5 = fopt_u32("used"@, t.used);
    let f6 = fopt_bool("inv"@, t.inv);
    crate::json::lemma_lookup_prepend_all(f0, f1 + (f2 + (f3 + (f4 + (f5 + (f6))))));
    crate::json::lemma_lookup_prepend_all(f1, f2 + (f3 + (f4 + (f5 + (f6)))));
    crate::json::lemma_lookup_prepend_all(f2, f3 + (f4 + (f5 + (f6))));
    crate::json::lemma_lookup_prepend_all(f3, f4 + (f5 + (f6)));
    crate::json::lemma_lookup_prepend_all(f4, f5 + (f6));
    crate::json::lemma_lookup_prepend_all(f5, f6);
    crate::json::lemma_lookup_single_all("family"@, JsonM::Str(crate::types::family_tok(t.family)));
    crate::types::lemma_family_inv_tok(t.family);
    crate::json::lemma_lookup_single_all("table"@, JsonM::Str(t.table));
    crate::json::lemma_lookup_single_all("name"@, JsonM::Str(t.name));
    if let Some(x) = t.handle {
        crate::json::lemma_lookup_single_all("handle"@, JsonM::Num(x as int));
    }
    if let Some(x) = t.bytes {
        crate::json::lemma_lookup_single_all("bytes"@, JsonM::Num(x as int));
    }
    if let Some(x) = t.used {
        crate::json::lemma_lookup_single_all("used"@, JsonM::Num(x as int));
    }
    if let Some(x) = t.inv {
        crate::json::lemma_lookup_single_all("inv"@, JsonM::Bool(x));
    }
}

/// The wire form of this object.
pub open spec fn enc_cthelper(t: crate::schema::CTHelperM) -> JsonM {
    JsonM::Obj(fone("family"@, JsonM::Str(crate::types::family_tok(t.family))) + (fone("table"@, JsonM::Str(t.table)) + (fone("name"@, JsonM::Str(t.name)) + (fopt_u32("handle"@, t.handle) + (fone("type"@, JsonM::Str(t._type)) + (fopt_str("protocol"@, t.protocol) + (fopt_str("l3proto"@, t.l3proto))))))))
}

/// The object a wire value stands for, if any.
pub open spec fn dec_cthelper(j: JsonM) -> Option<crate::schema::CTHelperM> {
    if !(j is Obj) {
        None
    } else {
        let s = j->Obj_0;
        let family = dec_req_enum(s, "family"@, |t| crate::types::family_inv(t));
        let table = dec_req_str(s, "table"@);
        let name = dec_req_str(s, "name"@);
        let handle = dec_opt_u32(s, "handle"@);
        let _type = dec_req_str(s, "type"@);
        let protocol = dec_opt_str(s, "protocol"@);
        let l3proto = dec_opt_str(s, "l3proto"@);
        if family is Some && table is Some && name is Some && handle is Some && _type is Some && protocol is Some && l3proto is Some {
            Some(crate::schema::CTHelperM { family: family->0, table: table->0, name: name->0, handle: handle->0, _type: _type->0, protocol: protocol->0, l3proto: l3proto->0 })
        } else {
            None
        }
    }
}

/// Encodes this object.
#[verifier::rlimit(80)]
pub fn encode_cthelper(t: &crate::schema::CTHelper) -> (r: Json)
    ensures
        r@ == enc_cthelper(cthelper_m(*t)),
{
    let mut es: Vec<(String, Json)> = Vec::new();
    push_field(&mut es, "family", Json::Str(crate::types::family_to_wire(t.family).to_owned()));
    push_field(&mut es, "table", Json::Str(t.table.clone()));
    push_field(&mut es, "name", Json::Str(t.name.clone()));
    if let Some(x) = t.handle {
        push_field(&mut es, "handle", Json::Num(x as i64));
    }
    push_field(&mut es, "type", Json::Str(t._type.clone()));
    if let Some(x) = &t.protocol {
        push_field(&mut es, "protocol", Json::Str(x.clone()));
    }
    if let Some(x) = &t.l3proto {
        push_field(&mut es, "l3proto", Json::Str(x.clone()));
    }
    let r = finish_obj(es);
    proof {
        assert(r@->Obj_0 =~= enc_cthelper(cthelper_m(*t))->Obj_0);
    }
    r
}

/// Decodes this object.
pub fn decode_cthelper(j: &Json) -> (r: Result<crate::schema::CTHelper, DecodeError>)
    ensures
        r matches Ok(v) ==> dec_cthelper(j@) == Some(cthelper_m(v)),
        r is Err ==> dec_cthelper(j@) is None,
{
    let entries = get_entries(j)?;
    let family_s = get_req_str(entries, "family")?;
    let family = match crate::types::family_from_wire(family_s.as_str()) {
        Some(v) => v,
        None => {
            return Err(DecodeError::at_key("family", "unknown enum value"));
        },
    };
    let table = get_req_str(entries, "table")?;
    let name = get_req_str(entries, "name")?;
    let handle = get_opt_u32(entries, "handle")?;
    let _type = get_req_str(entries, "type")?;
    let protocol = get_opt_str(entries, "protocol")?;
    let l3proto = get_opt_str(entries, "l3proto")?;
    Ok(crate::schema::CTHelper { family, table, name, handle, _type, protocol, l3proto })
}

/// Decoding an encoded object gives it back.
#[verifier::rlimit(100)]
pub proof fn lemma_rt_cthelper(t: crate::schema::CTHelperM)
    ensures
        dec_cthelper(enc_cthelper(t)) == Some(t),
{
    reveal_strlit("family");
    reveal_strlit("table");
    reveal_strlit("name");
    reveal_strlit("handle");
    reveal_strlit("type");
    reveal_strlit("protocol");
    reveal_strlit("l3proto");
    assert("family"@.len() >= 1 && "family"@[0] == 'f');
    assert("table"@.len() >= 1 && "table"@[0] == 't');
    assert("name"@.len() >= 1 && "name"@[0] == 'n');
    assert("handle"@.len() >= 1 && "handle"@[0] == 'h');
    assert("type"@.len() >= 1 && "type"@[0] == 't');
    assert("protocol"@.len() >= 1 && "protocol"@[0] == 'p');
    assert("l3proto"@.len() >= 1 && "l3proto"@[0] == 'l');

    let f0 = fone("family"@, JsonM::Str(crate::types::family_tok(t.family)));
    let f1 = fone("table"@, JsonM::Str(t.table));
    let f2 = fone("name"@, JsonM::Str(t.name));
    let f3 = fopt_u32("handle"@, t.handle);
    let f4 = fone("type"@, JsonM::Str(t._type));
    let f5 = fopt_str("protocol"@, t.protocol);
    let f6 = fopt_str("l3proto"@, t.l3proto);
    crate::json::lemma_lookup_prepend_all(f0, f1 + (f2 + (f3 + (f4 + (f5 + (f6))))));
    crate::json::lemma_lookup_prepend_all(f1, f2 + (f3 + (f4 + (f5 + (f6)))));
    crate::json::lemma_lookup_prepend_all(f2, f3 + (f4 + (f5 + (f6))));
    crate::json::lemma_lookup_prepend_all(f3, f4 + (f5 + (f6)));
    crate::json::lemma_lookup_prepend_all(f4, f5 + (f6));
    crate::json::lemma_lookup_prepend_all(f5, f6);
    crate::json::lemma_lookup_single_all("family"@, JsonM::Str(crate::types::family_tok(t.family)));
    crate::types::lemma_family_inv_tok(t.family);
    crate::json::lemma_lookup_single_all("table"@, JsonM::Str(t.table));
    crate::json::lemma_lookup_single_all("name"@, JsonM::Str(t.name));
    if let Some(x) = t.handle {
        crate::json::lemma_lookup_single_all("handle"@, JsonM::Num(x as int));
    }
    crate::json::lemma_lookup_single_all("type"@, JsonM::Str(t._type));
    if let Some(x) = t.protocol {
        crate::json::lemma_lookup_single_all("protocol"@, JsonM::Str(x));
    }
    if let Some(x) = t.l3proto {
        crate::json::lemma_lookup_single_all("l3proto"@, JsonM::Str(x));
    }
}

/// The wire form of this object.
pub open spec fn enc_limit_obj(t: crate::schema::LimitM) -> JsonM {
    JsonM::Obj(fone("family"@, JsonM::Str(crate::types::family_tok(t.family))) + (fone("table"@, JsonM::Str(t.table)) + (fone("name"@, JsonM::Str(t.name)) + (fopt_u32("handle"@, t.handle) + (fopt_u32("rate"@, t.rate) + (fopt_str("per"@, (match t.per {
            Some(x) => Some(crate::types::time_unit_tok(x)),
            None => None,
        })) + (fopt_u32("burst"@, t.burst) + (fopt_str("unit"@, (match t.unit {
            Some(x) => Some(crate::schema::limit_unit_tok(x)),
            None => None,
        })) + (fopt_bool("inv"@, t.inv))))))))))
}

/// The object a wire value stands for, if any.
pub open spec fn dec_limit_obj(j: JsonM) -> Option<crate::schema::LimitM> {
    if !(j is Obj) {
        None
    } else {
        let s = j->Obj_0;
        let family = dec_req_enum(s, "family"@, |t| crate::types::family_inv(t));
        let table = dec_req_str(s, "table"@);
        let name = dec_req_str(s, "name"@);
        let handle = dec_opt_u32(s, "handle"@);
        let rate = dec_opt_u32(s, "rate"@);
        let per = dec_opt_enum(s, "per"@, |t| crate::types::time_unit_inv(t));
        let burst = dec_opt_u32(s, "burst"@);
        let unit = dec_opt_enum(s, "unit"@, |t| crate::schema::limit_unit_inv(t));
        let inv = dec_opt_bool(s, "inv"@);
        if family is Some && table is Some && name is Some && handle is Some && rate is Some && per is Some && burst is Some && unit is Some && inv is Some {
            Some(crate::schema::LimitM { family: family->0, table: table->0, name: name->0, handle: handle->0, rate: rate->0, per: per->0, burst: burst->0, unit: unit->0, inv: inv->0 })
        } else {
            None
        }
    }
}

/// Encodes this object.
#[verifier::rlimit(80)]
pub fn encode_limit_obj(t: &crate::schema::Limit) -> (r: Json)
    ensures
        r@ == enc_limit_obj(limit_obj_m(*t)),
{
    let mut es: Vec<(String, Json)> = Vec::new();
    push_field(&mut es, "family", Json::Str(crate::types::family_to_wire(t.family).to_owned()));
    push_field(&mut es, "table", Json::Str(t.table.clone()));
    push_field(&mut es, "name", Json::Str(t.name.clone()));
    if let Some(x) = t.handle {
        push_field(&mut es, "handle", Json::Num(x as i64));
    }
    if let Some(x) = t.rate {
        push_field(&mut es, "rate", Json::Num(x as i64));
    }
    if let Some(x) = t.per {
        push_field(&mut es, "per", Json::Str(crate::types::time_unit_to_wire(x).to_owned()));
    }
    if let Some(x) = t.burst {
        push_field(&mut es, "burst", Json::Num(x as i64));
    }
    if let Some(x) = t.unit {
        push_field(&mut es, "unit", Json::Str(crate::schema::limit_unit_to_wire(x).to_owned()));
    }
    if let Some(x) = t.inv {
        push_field(&mut es, "inv", Json::Bool(x));
    }
    let r = finish_obj(es);
    proof {
        assert(r@->Obj_0 =~= enc_limit_obj(limit_obj_m(*t))->Obj_0);
    }
    r
}

/// Decodes this object.
pub fn decode_limit_obj(j: &Json) -> (r: Result<crate::schema::Limit, DecodeError>)
    ensures
        r matches Ok(v) ==> dec_limit_obj(j@) == Some(limit_obj_m(v)),
        r is Err ==> dec_limit_obj(j@) is None,
{
    let entries = get_entries(j)?;
    let family_s = get_req_str(entries, "family")?;
    let family = match crate::types::family_from_wire(family_s.as_str()) {
        Some(v) => v,
        None => {
            return Err(DecodeError::at_key("family", "unknown enum value"));
        },
    };
    let table = get_req_str(entries, "table")?;
    let name = get_req_str(entries, "name")?;
    let handle = get_opt_u32(entries, "handle")?;
    let rate = get_opt_u32(entries, "rate")?;
    let per = match get_opt_str(entries, "per")? {
        Some(tk) => match crate::types::time_unit_from_wire(tk.as_str()) {
            Some(v) => Some(v),
            None => {
                return Err(DecodeError::at_key("per", "unknown enum value"));
            },
        },
        None => None,
    };
    let burst = get_opt_u32(entries, "burst")?;
    let unit = match get_opt_str(entries, "unit")? {
        Some(tk) => match crate::schema::limit_unit_from_wire(tk.as_str()) {
            Some(v) => Some(v),
            None => {
                return Err(DecodeError::at_key("unit", "unknown enum value"));
            },
        },
        None => None,
    };
    let inv = get_opt_bool(entries, "inv")?;
    Ok(crate::schema::Limit { family, table, name, handle, rate, per, burst, unit, inv })
}

/// Decoding an encoded object gives it back.
#[verifier::rlimit(100)]
pub proof fn lemma_rt_limit_obj(t: crate::schema::LimitM)
    ensures
        dec_limit_obj(enc_limit_obj(t)) == Some(t),
{
    reveal_strlit("family");
    reveal_strlit("table");
    reveal_strlit("name");
    reveal_strlit("handle");
    reveal_strlit("rate");
    reveal_strlit("per");
    reveal_strlit("burst");
    reveal_strlit("unit");
    reveal_strlit("inv");
    assert("family"@.len() >= 1 && "family"@[0] == 'f');
    assert("table"@.len() >= 1 && "table"@[0] == 't');
    assert("name"@.len() >= 1 && "name"@[0] == 'n');
    assert("handle"@.len() >= 1 && "handle"@[0] == 'h');
    assert("rate"@.len() >= 1 && "rate"@[0] == 'r');
    assert("per"@.len() >= 1 && "per"@[0] == 'p');
    assert("burst"@.len() >= 1 && "burst"@[0] == 'b');
    assert("unit"@.len() >= 1 && "unit"@[0] == 'u');
    assert("inv"@.len() >= 1 && "inv"@[0] == 'i');

    let f0 = fone("family"@, JsonM::Str(crate::types::family_tok(t.family)));
    let f1 = fone("table"@, JsonM::Str(t.table));
    let f2 = fone("name"@, JsonM::Str(t.name));
    let f3 = fopt_u32("handle"@, t.handle);
    let f4 = fopt_u32("rate"@, t.rate);
    let f5 = fopt_str("per"@, (match t.per {
            Some(x) => Some(crate::types::time_unit_tok(x)),
            None => None,
        }));
    let f6 = fopt_u32("burst"@, t.burst);
    let f7 = fopt_str("unit"@, (match t.unit {
            Some(x) => Some(crate::schema::limit_unit_tok(x)),
            None => None,
        }));
    let f8 = fopt_bool("inv"@, t.inv);
    crate::json::lemma_lookup_prepend_all(f0, f1 + (f2 + (f3 + (f4 + (f5 + (f6 + (f7 + (f8))))))));
    crate::json::lemma_lookup_prepend_all(f1, f2 + (f3 + (f4 + (f5 + (f6 + (f7 + (f8)))))));
    crate::json::lemma_lookup_prepend_all(f2, f3 + (f4 + (f5 + (f6 + (f7 + (f8))))));
    crate::json::lemma_lookup_prepend_all(f3, f4 + (f5 + (f6 + (f7 + (f8)))));
    crate::json::lemma_lookup_prepend_all(f4, f5 + (f6 + (f7 + (f8))));
    crate::json::lemma_lookup_prepend_all(f5, f6 + (f7 + (f8)));
    crate::json::lemma_lookup_prepend_all(f6, f7 + (f8));
    crate::json::lemma_lookup_prepend_all(f7, f8);
    crate::json::lemma_lookup_single_all("family"@, JsonM::Str(crate::types::family_tok(t.family)));
    crate::types::lemma_family_inv_tok(t.family);
    crate::json::lemma_lookup_single_all("table"@, JsonM::Str(t.table));
    crate::json::lemma_lookup_single_all("name"@, JsonM::Str(t.name));
    if let Some(x) = t.handle {
        crate::json::lemma_lookup_single_all("handle"@, JsonM::Num(x as int));
    }
    if let Some(x) = t.rate {
        crate::json::lemma_lookup_single_all("rate"@, JsonM::Num(x as int));
    }
    if let Some(x) = t.per {
        crate::json::lemma_lookup_single_all("per"@, JsonM::Str(crate::types::time_unit_tok(x)));
        crate::types::lemma_time_unit_inv_tok(x);
    }
    if let Some(x) = t.burst {
        crate::json::lemma_lookup_single_all("burst"@, JsonM::Num(x as int));
    }
    if let Some(x) = t.unit {
        crate::json::lemma_lookup_single_all("unit"@, JsonM::Str(crate::schema::limit_unit_tok(x)));
        crate::schema::lemma_limit_unit_inv_tok(x);
    }
    if let Some(x) = t.inv {
    crate::json::lemma_lookup_single_all("inv"@, JsonM::Bool(x));
    }
}

/// The wire form of this object.
pub open spec fn enc_metainfo(t: crate::schema::MetainfoObjectM) -> JsonM {
    JsonM::Obj(fopt_str("version"@, t.version) + (fopt_str("release_name"@, t.release_name) + (fopt_u32("json_schema_version"@, t.json_schema_version))))
}

/// The object a wire value stands for, if any.
pub open spec fn dec_metainfo(j: JsonM) -> Option<crate::schema::MetainfoObjectM> {
    if !(j is Obj) {
        None
    } else {
        let s = j->Obj_0;
        let version = dec_opt_str(s, "version"@);
        let release_name = dec_opt_str(s, "release_name"@);
        let json_schema_version = dec_opt_u32(s, "json_schema_version"@);
        if version is Some && release_name is Some && json_schema_version is Some {
            Some(crate::schema::MetainfoObjectM { version: version->0, release_name: release_name->0, json_schema_version: json_schema_version->0 })
        } else {
            None
        }
    }
}

/// Encodes this object.
#[verifier::rlimit(80)]
pub fn encode_metainfo(t: &crate::schema::MetainfoObject) -> (r: Json)
    ensures
        r@ == enc_metainfo(metainfo_m(*t)),
{
    let mut es: Vec<(String, Json)> = Vec::new();
    if let Some(x) = &t.version {
        push_field(&mut es, "version", Json::Str(x.clone()));
    }
    if let Some(x) = &t.release_name {
        push_field(&mut es, "release_name", Json::Str(x.clone()));
    }
    if let Some(x) = t.json_schema_version {
        push_field(&mut es, "json_schema_version", Json::Num(x as i64));
    }
    let r = finish_obj(es);
    proof {
        assert(r@->Obj_0 =~= enc_metainfo(metainfo_m(*t))->Obj_0);
    }
    r
}

/// Decodes this object.
pub fn decode_metainfo(j: &Json) -> (r: Result<crate::schema::MetainfoObject, DecodeError>)
    ensures
        r matches Ok(v) ==> dec_metainfo(j@) == Some(metainfo_m(v)),
        r is Err ==> dec_metainfo(j@) is None,
{
    let entries = get_entries(j)?;
    let version = get_opt_str(entries, "version")?;
    let release_name = get_opt_str(entries, "release_name")?;
    let json_schema_version = get_opt_u32(entries, "json_schema_version")?;
    Ok(crate::schema::MetainfoObject { version, release_name, json_schema_version })
}

/// Decoding an encoded object gives it back.
pub proof fn lemma_rt_metainfo(t: crate::schema::MetainfoObjectM)
    ensures
        dec_metainfo(enc_metainfo(t)) == Some(t),
{
    reveal_strlit("version");
    reveal_strlit("release_name");
    reveal_strlit("json_schema_version");
    assert("version"@.len() >= 1 && "version"@[0] == 'v');
    assert("release_name"@.len() >= 1 && "release_name"@[0] == 'r');
    assert("json_schema_version"@.len() >= 1 && "json_schema_version"@[0] == 'j');

    let f0 = fopt_str("version"@, t.version);
    let f1 = fopt_str("release_name"@, t.release_name);
    let f2 = fopt_u32("json_schema_version"@, t.json_schema_version);
    crate::json::lemma_lookup_prepend_all(f0, f1 + (f2));
    crate::json::lemma_lookup_prepend_all(f1, f2);
    if let Some(x) = t.version {
        crate::json::lemma_lookup_single_all("version"@, JsonM::Str(x));
    }
    if let Some(x) = t.release_name {
        crate::json::lemma_lookup_single_all("release_name"@, JsonM::Str(x));
    }
    if let Some(x) = t.json_schema_version {
        crate::json::lemma_lookup_single_all("json_schema_version"@, JsonM::Num(x as int));
    }
}

/// The wire form of this object.
pub open spec fn enc_cttimeout(t: crate::schema::CTTimeoutM) -> JsonM {
    JsonM::Obj(fone("family"@, JsonM::Str(crate::types::family_tok(t.family))) + (fone("table"@, JsonM::Str(t.table)) + (fone("name"@, JsonM::Str(t.name)) + (fopt_u32("handle"@, t.handle) + (fopt_str("protocol"@, (match t.protocol {
            Some(x) => Some(crate::types::cth_proto_tok(x)),
            None => None,
        })) + (fopt_str("state"@, t.state) + (fopt_u32("value"@, t.value) + (fopt_str("l3proto"@, t.l3proto)))))))))
}

/// The object a wire value stands for, if any.
pub open spec fn dec_cttimeout(j: JsonM) -> Option<crate::schema::CTTimeoutM> {
    if !(j is Obj) {
        None
    } else {
        let s = j->Obj_0;
        let family = dec_req_enum(s, "family"@, |t| crate::types::family_inv(t));
        let table = dec_req_str(s, "table"@);
        let name = dec_req_str(s, "name"@);
        let handle = dec_opt_u32(s, "handle"@);
        let protocol = dec_opt_enum(s, "protocol"@, |t| crate::types::cth_proto_inv(t));
        let state = dec_opt_str(s, "state"@);
        let value = dec_opt_u32(s, "value"@);
        let l3proto = dec_opt_str(s, "l3proto"@);
        if family is Some && table is Some && name is Some && handle is Some && protocol is Some && state is Some && value is Some && l3proto is Some {
            Some(crate::schema::CTTimeoutM { family: family->0, table: table->0, name: name->0, handle: handle->0, protocol: protocol->0, state: state->0, value: value->0, l3proto: l3proto->0 })
        } else {
            None
        }
    }
}

/// Encodes this object.
#[verifier::rlimit(80)]
pub fn encode_cttimeout(t: &crate::schema::CTTimeout) -> (r: Json)
    ensures
        r@ == enc_cttimeout(cttimeout_m(*t)),
{
    let mut es: Vec<(String, Json)> = Vec::new();
    push_field(&mut es, "family", Json::Str(crate::types::family_to_wire(t.family).to_owned()));
    push_field(&mut es, "table", Json::Str(t.table.clone()));
    push_field(&mut es, "name", Json::Str(t.name.clone()));
    if let Some(x) = t.handle {
        push_field(&mut es, "handle", Json::Num(x as i64));
    }
    if let Some(x) = t.protocol {
        push_field(&mut es, "protocol", Json::Str(crate::types::cth_proto_to_wire(x).to_owned()));
    }
    if let Some(x) = &t.state {
        push_field(&mut es, "state", Json::Str(x.clone()));
    }
    if let Some(x) = t.value {
        push_field(&mut es, "value", Json::Num(x as i64));
    }
    if let Some(x) = &t.l3proto {
        push_field(&mut es, "l3proto", Json::Str(x.clone()));
    }
    let r = finish_obj(es);
    proof {
        assert(r@->Obj_0 =~= enc_cttimeout(cttimeout_m(*t))->Obj_0);
    }
    r
}

/// Decodes this object.
pub fn decode_cttimeout(j: &Json) -> (r: Result<crate::schema::CTTimeout, DecodeError>)
    ensures
        r matches Ok(v) ==> dec_cttimeout(j@) == Some(cttimeout_m(v)),
        r is Err ==> dec_cttimeout(j@) is None,
{
    let entries = get_entries(j)?;
    let family_s = get_req_str(entries, "family")?;
    let family = match crate::types::family_from_wire(family_s.as_str()) {
        Some(v) => v,
        None => {
            return Err(DecodeError::at_key("family", "unknown enum value"));
        },
    };
    let table = get_req_str(entries, "table")?;
    let name = get_req_str(entries, "name")?;
    let handle = get_opt_u32(entries, "handle")?;
    let protocol = match get_opt_str(entries, "protocol")? {
        Some(tk) => match crate::types::cth_proto_from_wire(tk.as_str()) {
            Some(v) => Some(v),
            None => {
                return Err(DecodeError::at_key("protocol", "unknown enum value"));
            },
        },
        None => None,
    };
    let state = get_opt_str(entries, "state")?;
    let value = get_opt_u32(entries, "value")?;
    let l3proto = get_opt_str(entries, "l3proto")?;
    Ok(crate::schema::CTTimeout { family, table, name, handle, protocol, state, value, l3proto })
}

/// Decoding an encoded object gives it back.
#[verifier::rlimit(100)]
pub proof fn lemma_rt_cttimeout(t: crate::schema::CTTimeoutM)
    ensures
        dec_cttimeout(enc_cttimeout(t)) == Some(t),
{
    reveal_strlit("family");
    reveal_strlit("table");
    reveal_strlit("name");
    reveal_strlit("handle");
    reveal_strlit("protocol");
    reveal_strlit("state");
    reveal_strlit("value");
    reveal_strlit("l3proto");
    assert("family"@.len() >= 1 && "family"@[0] == 'f');
    assert("table"@.len() >= 1 && "table"@[0] == 't');
    assert("name"@.len() >= 1 && "name"@[0] == 'n');
    assert("handle"@.len() >= 1 && "handle"@[0] == 'h');
    assert("protocol"@.len() >= 1 && "protocol"@[0] == 'p');
    assert("state"@.len() >= 1 && "state"@[0] == 's');
    assert("value"@.len() >= 1 && "value"@[0] == 'v');
    assert("l3proto"@.len() >= 1 && "l3proto"@[0] == 'l');

    let f0 = fone("family"@, JsonM::Str(crate::types::family_tok(t.family)));
    let f1 = fone("table"@, JsonM::Str(t.table));
    let f2 = fone("name"@, JsonM::Str(t.name));
    let f3 = fopt_u32("handle"@, t.handle);
    let f4 = fopt_str("protocol"@, (match t.protocol {
            Some(x) => Some(crate::types::cth_proto_tok(x)),
            None => None,
        }));
    let f5 = fopt_str("state"@, t.state);
    let f6 = fopt_u32("value"@, t.value);
    let f7 = fopt_str("l3proto"@, t.l3proto);
    crate::json::lemma_lookup_prepend_all(f0, f1 + (f2 + (f3 + (f4 + (f5 + (f6 + (f7)))))));
    crate::json::lemma_lookup_prepend_all(f1, f2 + (f3 + (f4 + (f5 + (f6 + (f7))))));
    crate::json::lemma_lookup_prepend_all(f2, f3 + (f4 + (f5 + (f6 + (f7)))));
    crate::json::lemma_lookup_prepend_all(f3, f4 + (f5 + (f6 + (f7))));
    crate::json::lemma_lookup_prepend_all(f4, f5 + (f6 + (f7)));
    crate::json::lemma_lookup_prepend_all(f5, f6 + (f7));
    crate::json::lemma_lookup_prepend_all(f6, f7);
    crate::json::lemma_lookup_single_all("family"@, JsonM::Str(crate::types::family_tok(t.family)));
    crate::types::lemma_family_inv_tok(t.family);
    crate::json::lemma_lookup_single_all("table"@, JsonM::Str(t.table));
    crate::json::lemma_lookup_single_all("name"@, JsonM::Str(t.name));
    if let Some(x) = t.handle {
        crate::json::lemma_lookup_single_all("handle"@, JsonM::Num(x as int));
    }
    if let Some(x) = t.protocol {
        crate::json::lemma_lookup_single_all("protocol"@, JsonM::Str(crate::types::cth_proto_tok(x)));
        crate::types::lemma_cth_proto_inv_tok(x);
    }
    if let Some(x) = t.state {
        crate::json::lemma_lookup_single_all("state"@, JsonM::Str(x));
    }
    if let Some(x) = t.value {
        crate::json::lemma_lookup_single_all("value"@, JsonM::Num(x as int));
    }
    if let Some(x) = t.l3proto {
        crate::json::lemma_lookup_single_all("l3proto"@, JsonM::Str(x));
    }
}

/// The wire form of this object.
pub open spec fn enc_ctexpectation(t: crate::schema::CTExpectationM) -> JsonM {
    JsonM::Obj(fone("family"@, JsonM::Str(crate::types::family_tok(t.family))) + (fone("table"@, JsonM::Str(t.table)) + (fone("name"@, JsonM::Str(t.name)) + (fopt_u32("handle"@, t.handle) + (fopt_str("l3proto"@, t.l3proto) + (fopt_str("protocol"@, (match t.protocol {
            Some(x) => Some(crate::types::cth_proto_tok(x)),
            None => None,
        })) + (fopt_u32("dport"@, t.dport) + (fopt_u32("timeout"@, t.timeout) + (fopt_u32("size"@, t.size))))))))))
}

/// The object a wire value stands for, if any.
pub open spec fn dec_ctexpectation(j: JsonM) -> Option<crate::schema::CTExpectationM> {
    if !(j is Obj) {
        None
    } else {
        let s = j->Obj_0;
        let family = dec_req_enum(s, "family"@, |t| crate::types::family_inv(t));
        let table = dec_req_str(s, "table"@);
        let name = dec_req_str(s, "name"@);
        let handle = dec_opt_u32(s, "handle"@);
        let l3proto = dec_opt_str(s, "l3proto"@);
        let protocol = dec_opt_enum(s, "protocol"@, |t| crate::types::cth_proto_inv(t));
        let dport = dec_opt_u32(s, "dport"@);
        let timeout = dec_opt_u32(s, "timeout"@);
        let size = dec_opt_u32(s, "size"@);
        if family is Some && table is Some && name is Some && handle is Some && l3proto is Some && protocol is Some && dport is Some && timeout is Some && size is Some {
            Some(crate::schema::CTExpectationM { family: family->0, table: table->0, name: name->0, handle: handle->0, l3proto: l3proto->0, protocol: protocol->0, dport: dport->0, timeout: timeout->0, size: size->0 })
        } else {
            None
        }
    }
}

/// Encodes this object.
#[verifier::rlimit(80)]
pub fn encode_ctexpectation(t: &crate::schema::CTExpectation) -> (r: Json)
    ensures
        r@ == enc_ctexpectation(ctexpectation_m(*t)),
{
    let mut es: Vec<(String, Json)> = Vec::new();
    push_field(&mut es, "family", Json::Str(crate::types::family_to_wire(t.family).to_owned()));
    push_field(&mut es, "table", Json::Str(t.table.clone()));
    push_field(&mut es, "name", Json::Str(t.name.clone()));
    if let Some(x) = t.handle {
        push_field(&mut es, "handle", Json::Num(x as i64));
    }
    if let Some(x) = &t.l3proto {
        push_field(&mut es, "l3proto", Json::Str(x.clone()));
    }
    if let Some(x) = t.protocol {
        push_field(&mut es, "protocol", Json::Str(crate::types::cth_proto_to_wire(x).to_owned()));
    }
    if let Some(x) = t.dport {
        push_field(&mut es, "dport", Json::Num(x as i64));
    }
    if let Some(x) = t.timeout {
        push_field(&mut es, "timeout", Json::Num(x as i64));
    }
    if let Some(x) = t.size {
        push_field(&mut es, "size", Json::Num(x as i64));
    }
    let r = finish_obj(es);
    proof {
        assert(r@->Obj_0 =~= enc_ctexpectation(ctexpectation_m(*t))->Obj_0);
    }
    r
}

/// Decodes this object.
pub fn decode_ctexpectation(j: &Json) -> (r: Result<crate::schema::CTExpectation, DecodeError>)
    ensures
        r matches Ok(v) ==> dec_ctexpectation(j@) == Some(ctexpectation_m(v)),
        r is Err ==> dec_ctexpectation(j@) is None,
{
    let entries = get_entries(j)?;
    let family_s = get_req_str(entries, "family")?;
    let family = match crate::types::family_from_wire(family_s.as_str()) {
        Some(v) => v,
        None => {
            return Err(DecodeError::at_key("family", "unknown enum value"));
        },
    };
    let table = get_req_str(entries, "table")?;
    let name = get_req_str(entries, "name")?;
    let handle = get_opt_u32(entries, "handle")?;
    let l3proto = get_opt_str(entries, "l3proto")?;
    let protocol = match get_opt_str(entries, "protocol")? {
        Some(tk) => match crate::types::cth_proto_from_wire(tk.as_str()) {
            Some(v) => Some(v),
            None => {
                return Err(DecodeError::at_key("protocol", "unknown enum value"));
            },
        },
        None => None,
    };
    let dport = get_opt_u32(entries, "dport")?;
    let timeout = get_opt_u32(entries, "timeout")?;
    let size = get_opt_u32(entries, "size")?;
    Ok(crate::schema::CTExpectation { family, table, name, handle, l3proto, protocol, dport, timeout, size })
}

/// Decoding an encoded object gives it back.
#[verifier::rlimit(100)]
pub proof fn lemma_rt_ctexpectation(t: crate::schema::CTExpectationM)
    ensures
        dec_ctexpectation(enc_ctexpectation(t)) == Some(t),
{
    reveal_strlit("family");
    reveal_strlit("table");
    reveal_strlit("name");
    reveal_strlit("handle");
    reveal_strlit("l3proto");
    reveal_strlit("protocol");
    reveal_strlit("dport");
    reveal_strlit("timeout");
    reveal_strlit("size");
    assert("family"@.len() >= 1 && "family"@[0] == 'f');
    assert("table"@.len() >= 1 && "table"@[0] == 't');
    assert("name"@.len() >= 1 && "name"@[0] == 'n');
    assert("handle"@.len() >= 1 && "handle"@[0] == 'h');
    assert("l3proto"@.len() >= 1 && "l3proto"@[0] == 'l');
    assert("protocol"@.len() >= 1 && "protocol"@[0] == 'p');
    assert("dport"@.len() >= 1 && "dport"@[0] == 'd');
    assert("timeout"@.len() >= 1 && "timeout"@[0] == 't');
    assert("size"@.len() >= 1 && "size"@[0] == 's');

    let f0 = fone("family"@, JsonM::Str(crate::types::family_tok(t.family)));
    let f1 = fone("table"@, JsonM::Str(t.table));
    let f2 = fone("name"@, JsonM::Str(t.name));
    let f3 = fopt_u32("handle"@, t.handle);
    let f4 = fopt_str("l3proto"@, t.l3proto);
    let f5 = fopt_str("protocol"@, (match t.protocol {
            Some(x) => Some(crate::types::cth_proto_tok(x)),
            None => None,
        }));
    let f6 = fopt_u32("dport"@, t.dport);
    let f7 = fopt_u32("timeout"@, t.timeout);
    let f8 = fopt_u32("size"@, t.size);
    crate::json::lemma_lookup_prepend_all(f0, f1 + (f2 + (f3 + (f4 + (f5 + (f6 + (f7 + (f8))))))));
    crate::json::lemma_lookup_prepend_all(f1, f2 + (f3 + (f4 + (f5 + (f6 + (f7 + (f8)))))));
    crate::json::lemma_lookup_prepend_all(f2, f3 + (f4 + (f5 + (f6 + (f7 + (f8))))));
    crate::json::lemma_lookup_prepend_all(f3, f4 + (f5 + (f6 + (f7 + (f8)))));
    crate::json::lemma_lookup_prepend_all(f4, f5 + (f6 + (f7 + (f8))));
    crate::json::lemma_lookup_prepend_all(f5, f6 + (f7 + (f8)));
    crate::json::lemma_lookup_prepend_all(f6, f7 + (f8));
    crate::json::lemma_lookup_prepend_all(f7, f8);
    crate::json::lemma_lookup_single_all("family"@, JsonM::Str(crate::types::family_tok(t.family)));
    crate::types::lemma_family_inv_tok(t.family);
    crate::json::lemma_lookup_single_all("table"@, JsonM::Str(t.table));
    crate::json::lemma_lookup_single_all("name"@, JsonM::Str(t.name));
    if let Some(x) = t.handle {
        crate::json::lemma_lookup_single_all("handle"@, JsonM::Num(x as int));
    }
    if let Some(x) = t.l3proto {
        crate::json::lemma_lookup_single_all("l3proto"@, JsonM::Str(x));
    }
    if let Some(x) = t.protocol {
        crate::json::lemma_lookup_single_all("protocol"@, JsonM::Str(crate::types::cth_proto_tok(x)));
        crate::types::lemma_cth_proto_inv_tok(x);
    }
    if let Some(x) = t.dport {
        crate::json::lemma_lookup_single_all("dport"@, JsonM::Num(x as int));
    }
    if let Some(x) = t.timeout {
        crate::json::lemma_lookup_single_all("timeout"@, JsonM::Num(x as int));
    }
    if let Some(x) = t.size {
        crate::json::lemma_lookup_single_all("size"@, JsonM::Num(x as int));
    }
}

/// The wire form of this object.
pub open spec fn enc_synproxy_obj(t: crate::schema::SynProxyM) -> JsonM {
    JsonM::Obj(fone("family"@, JsonM::Str(crate::types::family_tok(t.family))) + (fone("table"@, JsonM::Str(t.table)) + (fone("name"@, JsonM::Str(t.name)) + (fopt_u32("handle"@, t.handle) + (fopt_u16("mss"@, t.mss) + (fopt_u8("wscale"@, t.wscale) + (fopt_val("flags"@, (match t.flags {
            Some(x) => Some(enc_synproxy_flags(x)),
            None => None,
        })))))))))
}

/// The object a wire value stands for, if any.
pub open spec fn dec_synproxy_obj(j: JsonM) -> Option<crate::schema::SynProxyM> {
    if !(j is Obj) {
        None
    } else {
        let s = j->Obj_0;
        let family = dec_req_enum(s, "family"@, |t| crate::types::family_inv(t));
        let table = dec_req_str(s, "table"@);
        let name = dec_req_str(s, "name"@);
        let handle = dec_opt_u32(s, "handle"@);
        let mss = dec_opt_u16(s, "mss"@);
        let wscale = dec_opt_u8(s, "wscale"@);
        let flags = dec_opt_val(s, "flags"@, |v| dec_synproxy_flags(v));
        if family is Some && table is Some && name is Some && handle is Some && mss is Some && wscale is Some && flags is Some {
            Some(crate::schema::SynProxyM { family: family->0, table: table->0, name: name->0, handle: handle->0, mss: mss->0, wscale: wscale->0, flags: flags->0 })
        } else {
            None
        }
    }
}

/// Encodes this object.
#[verifier::rlimit(80)]
pub fn encode_synproxy_obj(t: &crate::schema::SynProxy) -> (r: Json)
    ensures
        r@ == enc_synproxy_obj(synproxy_obj_m(*t)),
{
    let mut es: Vec<(String, Json)> = Vec::new();
    push_field(&mut es, "family", Json::Str(crate::types::family_to_wire(t.family).to_owned()));
    push_field(&mut es, "table", Json::Str(t.table.clone()));
    push_field(&mut es, "name", Json::Str(t.name.clone()));
    if let Some(x) = t.handle {
        push_field(&mut es, "handle", Json::Num(x as i64));
    }
    if let Some(x) = t.mss {
        push_field(&mut es, "mss", Json::Num(x as i64));
    }
    if let Some(x) = t.wscale {
        push_field(&mut es, "wscale", Json::Num(x as i64));
    }
    if let Some(x) = &t.flags {
        push_field(&mut es, "flags", encode_synproxy_flags(x));
    }
    let r = finish_obj(es);
    proof {
        assert(r@->Obj_0 =~= enc_synproxy_obj(synproxy_obj_m(*t))->Obj_0);
    }
    r
}

/// Decodes this object.
pub fn decode_synproxy_obj(j: &Json) -> (r: Result<crate::schema::SynProxy, DecodeError>)
    ensures
        r matches Ok(v) ==> dec_synproxy_obj(j@) == Some(synproxy_obj_m(v)),
        r is Err ==> dec_synproxy_obj(j@) is None,
{
    let entries = get_entries(j)?;
    let family_s = get_req_str(entries, "family")?;
    let family = match crate::types::family_from_wire(family_s.as_str()) {
        Some(v) => v,
        None => {
            return Err(DecodeError::at_key("family", "unknown enum value"));
        },
    };
    let table = get_req_str(entries, "table")?;
    let name = get_req_str(entries, "name")?;
    let handle = get_opt_u32(entries, "handle")?;
    let mss = get_opt_u16(entries, "mss")?;
    let wscale = get_opt_u8(entries, "wscale")?;
    let flags = match crate::json::obj_lookup(entries, "flags") {
        None => None,
        Some(Json::Null) => None,
        Some(v) => match decode_synproxy_flags(v) {
            Ok(x) => Some(x),
            Err(e) => {
                return Err(e.in_key("flags"));
            },
        },
    };
    Ok(crate::schema::SynProxy { family, table, name, handle, mss, wscale, flags })
}

/// Decoding an encoded object gives it back.
#[verifier::rlimit(100)]
pub proof fn lemma_rt_synproxy_obj(t: crate::schema::SynProxyM)
    ensures
        dec_synproxy_obj(enc_synproxy_obj(t)) == Some(t),
{
    reveal_strlit("family");
    reveal_strlit("table");
    reveal_strlit("name");
    reveal_strlit("handle");
    reveal_strlit("mss");
    reveal_strlit("wscale");
    reveal_strlit("flags");
    assert("family"@.len() >= 1 && "family"@[0] == 'f');
    assert("table"@.len() >= 1 && "table"@[0] == 't');
    assert("name"@.len() >= 1 && "name"@[0] == 'n');
    assert("handle"@.len() >= 1 && "handle"@[0] == 'h');
    assert("mss"@.len() >= 1 && "mss"@[0] == 'm');
    assert("wscale"@.len() >= 1 && "wscale"@[0] == 'w');
    assert("flags"@.len() >= 1 && "flags"@[0] == 'f');

    let f0 = fone("family"@, JsonM::Str(crate::types::family_tok(t.family)));
    let f1 = fone("table"@, JsonM::Str(t.table));
    let f2 = fone("name"@, JsonM::Str(t.name));
    let f3 = fopt_u32("handle"@, t.handle);
    let f4 = fopt_u16("mss"@, t.mss);
    let f5 = fopt_u8("wscale"@, t.wscale);
    let f6 = fopt_val("flags"@, (match t.flags {
            Some(x) => Some(enc_synproxy_flags(x)),
            None => None,
        }));
    crate::json::lemma_lookup_prepend_all(f0, f1 + (f2 + (f3 + (f4 + (f5 + (f6))))));
    crate::json::lemma_lookup_prepend_all(f1, f2 + (f3 + (f4 + (f5 + (f6)))));
    crate::json::lemma_lookup_prepend_all(f2, f3 + (f4 + (f5 + (f6))));
    crate::json::lemma_lookup_prepend_all(f3, f4 + (f5 + (f6)));
    crate::json::lemma_lookup_prepend_all(f4, f5 + (f6));
    crate::json::lemma_lookup_prepend_all(f5, f6);
    crate::json::lemma_lookup_single_all("family"@, JsonM::Str(crate::types::family_tok(t.family)));
    crate::types::lemma_family_inv_tok(t.family);
    crate::json::lemma_lookup_single_all("table"@, JsonM::Str(t.table));
    crate::json::lemma_lookup_single_all("name"@, JsonM::Str(t.name));
    if let Some(x) = t.handle {
        crate::json::lemma_lookup_single_all("handle"@, JsonM::Num(x as int));
    }
    if let Some(x) = t.mss {
        crate::json::lemma_lookup_single_all("mss"@, JsonM::Num(x as int));
    }
    if let Some(x) = t.wscale {
        crate::json::lemma_lookup_single_all("wscale"@, JsonM::Num(x as int));
    }
    if let Some(x) = t.flags {
        crate::json::lemma_lookup_single_all("flags"@, enc_synproxy_flags(x));
        lemma_rt_synproxy_flags(x);
    }
}


/// Appends an optional string property, omitted when absent.
pub fn push_opt_str_field(es: &mut Vec<(String, Json)>, k: &str, o: &Option<String>)
    ensures
        crate::json::entries_m(final(es)@) == crate::json::entries_m(old(es)@) + fopt_str(
            k@,
            opt_str_m(*o),
        ),
{
    match o {
        Some(x) => push_field(es, k, Json::Str(x.clone())),
        None => {
            proof {
                assert(crate::json::entries_m(es@) =~= crate::json::entries_m(es@) + fopt_str(
                    k@,
                    opt_str_m(*o),
                ));
            }
        },
    }
}

/// Appends an optional number property, omitted when absent.
pub fn push_opt_u32_field(es: &mut Vec<(String, Json)>, k: &str, o: Option<u32>)
    ensures
        crate::json::entries_m(final(es)@) == crate::json::entries_m(old(es)@) + fopt_u32(k@, o),
{
    match o {
        Some(x) => push_field(es, k, Json::Num(x as i64)),
        None => {
            proof {
                assert(crate::json::entries_m(es@) =~= crate::json::entries_m(es@) + fopt_u32(
                    k@,
                    o,
                ));
            }
        },
    }
}

/// Appends an optional signed number property, omitted when absent.
pub fn push_opt_i32_field(es: &mut Vec<(String, Json)>, k: &str, o: Option<i32>)
    ensures
        crate::json::entries_m(final(es)@) == crate::json::entries_m(old(es)@) + fopt_i32(k@, o),
{
    match o {
        Some(x) => push_field(es, k, Json::Num(x as i64)),
        None => {
            proof {
                assert(crate::json::entries_m(es@) =~= crate::json::entries_m(es@) + fopt_i32(
                    k@,
                    o,
                ));
            }
        },
    }
}

// ---------------------------------------------------------------------
// Spec encoders for the recursive expression and statement languages
// ---------------------------------------------------------------------

/// The wire form of an expression.
pub open spec fn enc_expr(m: ExpressionM) -> JsonM
    decreases m,
{
    match m {
        ExpressionM::String(s) => JsonM::Str(s),
        ExpressionM::Number(n) => JsonM::Num(n as int),
        ExpressionM::Boolean(b) => JsonM::Bool(b),
        ExpressionM::List(items) => JsonM::Arr(enc_exprs_at(items, 0)),
        ExpressionM::BinaryOperation(b) => enc_binop(*b),
        ExpressionM::Range(r) => JsonM::Obj(
            fone("range"@, JsonM::Arr(seq![enc_expr(*r.low), enc_expr(*r.high)])),
        ),
        ExpressionM::Named(n) => enc_named(n),
        ExpressionM::Verdict(v) => enc_verdict(v),
    }
}

/// The wire forms of the expressions of a list, from index `i` on.
pub open spec fn enc_exprs_at(s: Seq<ExpressionM>, i: int) -> Seq<JsonM>
    decreases s, s.len() - i,
{
    if 0 <= i < s.len() {
        seq![enc_expr(s[i])] + enc_exprs_at(s, i + 1)
    } else {
        Seq::empty()
    }
}

/// The wire form of a binary operation: a single-property object whose
/// name is the operator symbol and whose value is the operand pair.
pub open spec fn enc_binop(b: BinaryOperationM) -> JsonM
    decreases b,
{
    match b {
        BinaryOperationM::AND(l, r) => JsonM::Obj(
            fone("&"@, JsonM::Arr(seq![enc_expr(l), enc_expr(r)])),
        ),
        BinaryOperationM::OR(l, r) => JsonM::Obj(
            fone("|"@, JsonM::Arr(seq![enc_expr(l), enc_expr(r)])),
        ),
        BinaryOperationM::XOR(l, r) => JsonM::Obj(
            fone("^"@, JsonM::Arr(seq![enc_expr(l), enc_expr(r)])),
        ),
        BinaryOperationM::LSHIFT(l, r) => JsonM::Obj(
            fone("<<"@, JsonM::Arr(seq![enc_expr(l), enc_expr(r)])),
        ),
        BinaryOperationM::RSHIFT(l, r) => JsonM::Obj(
            fone(">>"@, JsonM::Arr(seq![enc_expr(l), enc_expr(r)])),
        ),
    }
}

/// The wire form of a named expression: a single-property object.
pub open spec fn enc_named(n: NamedExpressionM) -> JsonM
    decreases n,
{
    match n {
        NamedExpressionM::Concat(items) => JsonM::Obj(
            fone("concat"@, JsonM::Arr(enc_exprs_at(items, 0))),
        ),
        NamedExpressionM::SetExpr(items) => JsonM::Obj(
            fone("set"@, JsonM::Arr(enc_set_items_at(items, 0))),
        ),
        NamedExpressionM::MapExpr(m) => JsonM::Obj(fone("map"@, enc_map_expr(*m))),
        NamedExpressionM::Prefix(p) => JsonM::Obj(fone("prefix"@, enc_prefix(p))),
        NamedExpressionM::Payload(p) => JsonM::Obj(fone("payload"@, enc_payload(p))),
        NamedExpressionM::Exthdr(x) => JsonM::Obj(fone("exthdr"@, enc_exthdr(x))),
        NamedExpressionM::TcpOption(x) => JsonM::Obj(fone("tcp option"@, enc_tcp_option(x))),
        NamedExpressionM::SctpChunk(x) => JsonM::Obj(fone("sctp chunk"@, enc_sctp_chunk(x))),
        NamedExpressionM::Meta(m) => JsonM::Obj(fone("meta"@, enc_meta(m))),
        NamedExpressionM::RT(r) => JsonM::Obj(fone("rt"@, enc_rt(r))),
        NamedExpressionM::CT(c) => JsonM::Obj(fone("ct"@, enc_ct(c))),
        NamedExpressionM::Numgen(g) => JsonM::Obj(fone("numgen"@, enc_numgen(g))),
        NamedExpressionM::JHash(h) => JsonM::Obj(fone("jhash"@, enc_jhash(h))),
        NamedExpressionM::SymHash(h) => JsonM::Obj(fone("symhash"@, enc_symhash(h))),
        NamedExpressionM::Fib(f) => JsonM::Obj(fone("fib"@, enc_fib(f))),
        NamedExpressionM::Elem(e) => JsonM::Obj(fone("elem"@, enc_elem(e))),
        NamedExpressionM::Socket(s) => JsonM::Obj(fone("socket"@, enc_socket(s))),
        NamedExpressionM::Osf(o) => JsonM::Obj(fone("osf"@, enc_osf(o))),
    }
}

/// The wire forms of the items of an anonymous set, from index `i` on.
pub open spec fn enc_set_items_at(s: Seq<SetItemM>, i: int) -> Seq<JsonM>
    decreases s, s.len() - i,
{
    if 0 <= i < s.len() {
        seq![enc_set_item(s[i])] + enc_set_items_at(s, i + 1)
    } else {
        Seq::empty()
    }
}

/// The wire form of a set item: a bare expression, or a two-element
/// array mapping a key to a value or statement.
pub open spec fn enc_set_item(it: SetItemM) -> JsonM
    decreases it,
{
    match it {
        SetItemM::Element(e) => enc_expr(e),
        SetItemM::Mapping(k, v) => JsonM::Arr(seq![enc_expr(k), enc_expr(v)]),
        SetItemM::MappingStatement(k, s) => JsonM::Arr(seq![enc_expr(k), enc_stmt_m(*s)]),
    }
}

/// The wire form of an expression map.
pub open spec fn enc_map_expr(m: MapExprM) -> JsonM
    decreases m,
{
    JsonM::Obj(fone("key"@, enc_expr(m.key)) + fone("data"@, enc_expr(m.data)))
}

/// The wire form of a prefix.
pub open spec fn enc_prefix(p: PrefixM) -> JsonM
    decreases p,
{
    JsonM::Obj(fone("addr"@, enc_expr(*p.addr)) + fone("len"@, JsonM::Num(p.len as int)))
}

/// The wire form of a jhash.
pub open spec fn enc_jhash(h: JHashM) -> JsonM
    decreases h,
{
    JsonM::Obj(
        fone("mod"@, JsonM::Num(h.hash_mod as int)) + (fopt_u32("offset"@, h.offset) + (fone(
            "expr"@,
            enc_expr(*h.expr),
        ) + fopt_u32("seed"@, h.seed))),
    )
}

/// The wire form of an elem expression.
pub open spec fn enc_elem(e: ElemM) -> JsonM
    decreases e,
{
    JsonM::Obj(
        fone("val"@, enc_expr(*e.val)) + (fopt_u32("timeout"@, e.timeout) + (fopt_u32(
            "expires"@,
            e.expires,
        ) + (fopt_str("comment"@, e.comment) + fopt_val(
            "counter"@,
            (match e.counter {
                Some(c) => Some(enc_counter(c)),
                None => None,
            }),
        )))),
    )
}

/// The wire form of an anonymous or named counter.
pub open spec fn enc_counter(c: CounterM) -> JsonM {
    match c {
        CounterM::Named(s) => JsonM::Str(s),
        CounterM::Anonymous(None) => JsonM::Null,
        CounterM::Anonymous(Some(a)) => enc_anon_counter(a),
    }
}

/// The wire form of a verdict expression.  The no-payload verdicts use
/// the bare keyword string; `jump` and `goto` carry their target.
pub open spec fn enc_verdict(v: VerdictM) -> JsonM {
    match v {
        VerdictM::Accept => JsonM::Str("accept"@),
        VerdictM::Drop => JsonM::Str("drop"@),
        VerdictM::Continue => JsonM::Str("continue"@),
        VerdictM::Return => JsonM::Str("return"@),
        VerdictM::Jump(t) => JsonM::Obj(fone("jump"@, enc_jump_target(t))),
        VerdictM::Goto(t) => JsonM::Obj(fone("goto"@, enc_jump_target(t))),
    }
}

/// The wire form of a jump target.
pub open spec fn enc_jump_target(t: JumpTargetM) -> JsonM {
    JsonM::Obj(fone("target"@, JsonM::Str(t.target)))
}

/// The wire form of a statement: a single-property object whose name
/// selects the statement kind; no-payload kinds carry null.
pub open spec fn enc_stmt_m(st: StatementM) -> JsonM
    decreases st,
{
    match st {
        StatementM::Accept(o) => JsonM::Obj(fone("accept"@, enc_empty_payload(o is Some))),
        StatementM::Drop(o) => JsonM::Obj(fone("drop"@, enc_empty_payload(o is Some))),
        StatementM::Continue(o) => JsonM::Obj(fone("continue"@, enc_empty_payload(o is Some))),
        StatementM::Return(o) => JsonM::Obj(fone("return"@, enc_empty_payload(o is Some))),
        StatementM::Jump(t) => JsonM::Obj(fone("jump"@, enc_jump_target(t))),
        StatementM::Goto(t) => JsonM::Obj(fone("goto"@, enc_jump_target(t))),
        StatementM::Match(m) => JsonM::Obj(fone("match"@, enc_match(m))),
        StatementM::Counter(c) => JsonM::Obj(fone("counter"@, enc_counter(c))),
        StatementM::Mangle(m) => JsonM::Obj(fone("mangle"@, enc_mangle(m))),
        StatementM::Quota(q) => JsonM::Obj(fone("quota"@, enc_quota_ref(q))),
        StatementM::Limit(l) => JsonM::Obj(fone("limit"@, enc_limit_stmt(l))),
        StatementM::Flow(f) => JsonM::Obj(fone("flow"@, enc_flow(f))),
        StatementM::FWD(o) => JsonM::Obj(
            fone(
                "fwd"@,
                match o {
                    Some(f) => enc_fwd(f),
                    None => JsonM::Null,
                },
            ),
        ),
        StatementM::Notrack => JsonM::Obj(fone("notrack"@, JsonM::Null)),
        StatementM::Dup(d) => JsonM::Obj(fone("dup"@, enc_dup(d))),
        StatementM::SNAT(o) => JsonM::Obj(fone("snat"@, enc_opt_nat(o))),
        StatementM::DNAT(o) => JsonM::Obj(fone("dnat"@, enc_opt_nat(o))),
        StatementM::Masquerade(o) => JsonM::Obj(fone("masquerade"@, enc_opt_nat(o))),
        StatementM::Redirect(o) => JsonM::Obj(fone("redirect"@, enc_opt_nat(o))),
        StatementM::Reject(o) => JsonM::Obj(
            fone(
                "reject"@,
                match o {
                    Some(x) => enc_reject(x),
                    None => JsonM::Null,
                },
            ),
        ),
        StatementM::SetStmt(st2) => JsonM::Obj(fone("set"@, enc_set_stmt(st2))),
        StatementM::Log(o) => JsonM::Obj(
            fone(
                "log"@,
                match o {
                    Some(l) => enc_log(l),
                    None => JsonM::Null,
                },
            ),
        ),
        StatementM::CTHelper(h) => JsonM::Obj(fone("ct helper"@, JsonM::Str(h))),
        StatementM::Meter(m) => JsonM::Obj(fone("meter"@, enc_meter_stmt(m))),
        StatementM::Queue(q) => JsonM::Obj(fone("queue"@, enc_queue(q))),
        StatementM::VerdictMap(v) => JsonM::Obj(fone("vmap"@, enc_vmap(v))),
        StatementM::CTCount(c) => JsonM::Obj(fone("ct count"@, enc_ctcount(c))),
        StatementM::CTTimeout(e) => JsonM::Obj(fone("ct timeout"@, enc_expr(e))),
        StatementM::CTExpectation(e) => JsonM::Obj(fone("ct expectation"@, enc_expr(e))),
        StatementM::XT(o) => JsonM::Obj(
            fone(
                "xt"@,
                match o {
                    Some(j) => j,
                    None => JsonM::Null,
                },
            ),
        ),
        StatementM::SynProxy(p) => JsonM::Obj(fone("synproxy"@, enc_synproxy_stmt(p))),
        StatementM::TProxy(t) => JsonM::Obj(fone("tproxy"@, enc_tproxy(t))),
    }
}

/// The payload of a verdict-like statement: an empty object when the
/// explicit payload is present, null when it is not.
pub open spec fn enc_empty_payload(present: bool) -> JsonM {
    if present {
        JsonM::Obj(Seq::empty())
    } else {
        JsonM::Null
    }
}

/// The wire forms of the statements of a rule, from index `i` on.
pub open spec fn enc_stmts_at(s: Seq<StatementM>, i: int) -> Seq<JsonM>
    decreases s, s.len() - i,
{
    if 0 <= i < s.len() {
        seq![enc_stmt_m(s[i])] + enc_stmts_at(s, i + 1)
    } else {
        Seq::empty()
    }
}

/// The wire form of a match statement.
pub open spec fn enc_match(m: MatchM) -> JsonM
    decreases m,
{
    JsonM::Obj(
        fone("left"@, enc_expr(m.left)) + (fone("right"@, enc_expr(m.right)) + fone(
            "op"@,
            JsonM::Str(crate::stmt::operator_tok(m.op)),
        )),
    )
}

/// The wire form of a mangle statement.
pub open spec fn enc_mangle(m: MangleM) -> JsonM
    decreases m,
{
    JsonM::Obj(fone("key"@, enc_expr(m.key)) + fone("value"@, enc_expr(m.value)))
}

/// The wire form of an anonymous or referenced quota.
pub open spec fn enc_quota_ref(q: QuotaOrQuotaRefM) -> JsonM {
    match q {
        QuotaOrQuotaRefM::Quota(a) => enc_quota_stmt(a),
        QuotaOrQuotaRefM::QuotaRef(s) => JsonM::Str(s),
    }
}

/// The wire form of a forward statement.
pub open spec fn enc_fwd(f: FWDM) -> JsonM
    decreases f,
{
    JsonM::Obj(
        fopt_val(
            "dev"@,
            (match f.dev {
                Some(e) => Some(enc_expr(e)),
                None => None,
            }),
        ) + (fopt_str(
            "family"@,
            (match f.family {
                Some(x) => Some(crate::stmt::fwd_family_tok(x)),
                None => None,
            }),
        ) + fopt_val(
            "addr"@,
            (match f.addr {
                Some(e) => Some(enc_expr(e)),
                None => None,
            }),
        )),
    )
}

/// The wire form of a dup statement.
pub open spec fn enc_dup(d: DupM) -> JsonM
    decreases d,
{
    JsonM::Obj(
        fone("addr"@, enc_expr(d.addr)) + fopt_val(
            "dev"@,
            (match d.dev {
                Some(e) => Some(enc_expr(e)),
                None => None,
            }),
        ),
    )
}

/// The wire form of a NAT statement payload.
pub open spec fn enc_opt_nat(o: Option<NATM>) -> JsonM
    decreases o,
{
    match o {
        None => JsonM::Null,
        Some(n) => JsonM::Obj(
            fopt_val(
                "addr"@,
                (match n.addr {
                    Some(e) => Some(enc_expr(e)),
                    None => None,
                }),
            ) + (fopt_str(
                "family"@,
                (match n.family {
                    Some(x) => Some(crate::stmt::nat_family_tok(x)),
                    None => None,
                }),
            ) + (fopt_u32("port"@, n.port) + fopt_val(
                "flags"@,
                (match n.flags {
                    Some(fs) => Some(enc_nat_flags(fs)),
                    None => None,
                }),
            ))),
        ),
    }
}

/// The wire form of a set statement.
pub open spec fn enc_set_stmt(st: SetStmtM) -> JsonM
    decreases st,
{
    JsonM::Obj(
        fone("op"@, JsonM::Str(crate::stmt::set_op_tok(st.op))) + (fone(
            "elem"@,
            enc_expr(st.elem),
        ) + fone("set"@, JsonM::Str(st.set))),
    )
}

/// The wire form of a meter statement.
pub open spec fn enc_meter_stmt(m: MeterM) -> JsonM
    decreases m,
{
    JsonM::Obj(
        fone("name"@, JsonM::Str(m.name)) + (fone("key"@, enc_expr(m.key)) + fone(
            "stmt"@,
            enc_stmt_m(*m.stmt),
        )),
    )
}

/// The wire form of a queue statement.
pub open spec fn enc_queue(q: QueueM) -> JsonM
    decreases q,
{
    JsonM::Obj(
        fone("num"@, enc_expr(q.num)) + fopt_val(
            "flags"@,
            (match q.flags {
                Some(fs) => Some(enc_queue_flags(fs)),
                None => None,
            }),
        ),
    )
}

/// The wire form of a verdict map statement.
pub open spec fn enc_vmap(v: VerdictMapM) -> JsonM
    decreases v,
{
    JsonM::Obj(fone("key"@, enc_expr(v.key)) + fone("data"@, enc_expr(v.data)))
}

/// The wire form of a ct count statement.
pub open spec fn enc_ctcount(c: CTCountM) -> JsonM
    decreases c,
{
    JsonM::Obj(fone("val"@, enc_expr(c.val)) + fopt_bool("inv"@, c.inv))
}

// ---------------------------------------------------------------------
// Log, whose flags field accepts a bare string, an array, or null
// ---------------------------------------------------------------------

/// The flags property of a log statement: absent and null mean none, a
/// bare word names a single flag, an array lists flags.
pub open spec fn dec_log_flags_coerced(s: Seq<(Seq<char>, JsonM)>, k: Seq<char>) -> Option<
    Option<Seq<crate::stmt::LogFlag>>,
> {
    match crate::json::lookup_entries(s, k) {
        None => Some(None),
        Some(JsonM::Null) => Some(None),
        Some(JsonM::Str(t)) => match crate::stmt::log_flag_inv(t) {
            Some(f) => Some(Some(seq![f])),
            None => None,
        },
        Some(v) => match dec_log_flags(v) {
            Some(fs) => Some(Some(fs)),
            None => None,
        },
    }
}

/// The wire form of a log statement.
pub open spec fn enc_log(l: LogM) -> JsonM {
    JsonM::Obj(
        fopt_str("prefix"@, l.prefix) + (fopt_u32("group"@, l.group) + (fopt_u32(
            "snaplen"@,
            l.snaplen,
        ) + (fopt_u32("queue-threshold"@, l.queue_threshold) + (fopt_str(
            "level"@,
            (match l.level {
                Some(x) => Some(crate::stmt::log_level_tok(x)),
                None => None,
            }),
        ) + fopt_val(
            "flags"@,
            (match l.flags {
                Some(fs) => if fs.len() > 0 {
                    Some(enc_log_flags(fs))
                } else {
                    None
                },
                None => None,
            }),
        ))))),
    )
}

/// The log statement a wire value stands for, if any.
pub open spec fn dec_log(j: JsonM) -> Option<LogM> {
    if !(j is Obj) {
        None
    } else {
        let s = j->Obj_0;
        let prefix = dec_opt_str(s, "prefix"@);
        let group = dec_opt_u32(s, "group"@);
        let snaplen = dec_opt_u32(s, "snaplen"@);
        let queue_threshold = dec_opt_u32(s, "queue-threshold"@);
        let level = dec_opt_enum(s, "level"@, |t| crate::stmt::log_level_inv(t));
        let flags = dec_log_flags_coerced(s, "flags"@);
        if prefix is Some && group is Some && snaplen is Some && queue_threshold is Some && level
            is Some && flags is Some {
            Some(
                LogM {
                    prefix: prefix->0,
                    group: group->0,
                    snaplen: snaplen->0,
                    queue_threshold: queue_threshold->0,
                    level: level->0,
                    flags: flags->0,
                },
            )
        } else {
            None
        }
    }
}

/// Encodes a log statement.
#[verifier::rlimit(80)]
pub fn encode_log(t: &Log) -> (r: Json)
    ensures
        r@ == enc_log(log_m(*t)),
{
    let mut es: Vec<(String, Json)> = Vec::new();
    push_opt_str_field(&mut es, "prefix", &t.prefix);
    push_opt_u32_field(&mut es, "group", t.group);
    push_opt_u32_field(&mut es, "snaplen", t.snaplen);
    push_opt_u32_field(&mut es, "queue-threshold", t.queue_threshold);
    if let Some(x) = t.level {
        push_field(&mut es, "level", Json::Str(crate::stmt::log_level_to_wire(x).to_owned()));
    }
    if let Some(x) = &t.flags {
        if x.len() > 0 {
            push_field(&mut es, "flags", encode_log_flags(x));
        }
    }
    let r = finish_obj(es);
    proof {
        assert(r@->Obj_0 =~= enc_log(log_m(*t))->Obj_0);
    }
    r
}

/// Decodes a log statement.
#[verifier::rlimit(80)]
pub fn decode_log(j: &Json) -> (r: Result<Log, DecodeError>)
    ensures
        r matches Ok(v) ==> dec_log(j@) == Some(log_m(v)),
        r is Err ==> dec_log(j@) is None,
{
    let entries = get_entries(j)?;
    let prefix = get_opt_str(entries, "prefix")?;
    let group = get_opt_u32(entries, "group")?;
    let snaplen = get_opt_u32(entries, "snaplen")?;
    let queue_threshold = get_opt_u32(entries, "queue-threshold")?;
    let level = match get_opt_str(entries, "level")? {
        Some(tk) => match crate::stmt::log_level_from_wire(tk.as_str()) {
            Some(v) => Some(v),
            None => {
                return Err(DecodeError::at_key("level", "unknown enum value"));
            },
        },
        None => None,
    };
    let flags = match crate::json::obj_lookup(entries, "flags") {
        None => None,
        Some(Json::Null) => None,
        Some(Json::Str(t)) => match crate::stmt::log_flag_from_wire(t.as_str()) {
            Some(f) => {
                let mut fs: Vec<crate::stmt::LogFlag> = Vec::new();
                fs.push(f);
                proof {
                    assert(fs@ =~= seq![f]);
                }
                Some(fs)
            },
            None => {
                return Err(DecodeError::at_key("flags", "unknown enum value"));
            },
        },
        Some(v) => match decode_log_flags(v) {
            Ok(fs) => Some(fs),
            Err(e) => {
                return Err(e.in_key("flags"));
            },
        },
    };
    Ok(Log { prefix, group, snaplen, queue_threshold, level, flags })
}

/// Decoding an encoded log statement gives it back.  An empty flag
/// list is excluded: as a flexible field it encodes as field-absent,
/// which decodes to no flags at all.
#[verifier::rlimit(100)]
pub proof fn lemma_rt_log(t: LogM)
    requires
        t.flags matches Some(fs) ==> fs.len() > 0,
    ensures
        dec_log(enc_log(t)) == Some(t),
{
    reveal_strlit("prefix");
    reveal_strlit("group");
    reveal_strlit("snaplen");
    reveal_strlit("queue-threshold");
    reveal_strlit("level");
    reveal_strlit("flags");
    assert("prefix"@.len() >= 1 && "prefix"@[0] == 'p');
    assert("group"@.len() >= 1 && "group"@[0] == 'g');
    assert("snaplen"@.len() >= 1 && "snaplen"@[0] == 's');
    assert("queue-threshold"@.len() >= 1 && "queue-threshold"@[0] == 'q');
    assert("level"@.len() >= 1 && "level"@[0] == 'l');
    assert("flags"@.len() >= 1 && "flags"@[0] == 'f');
    let f0 = fopt_str("prefix"@, t.prefix);
    let f1 = fopt_u32("group"@, t.group);
    let f2 = fopt_u32("snaplen"@, t.snaplen);
    let f3 = fopt_u32("queue-threshold"@, t.queue_threshold);
    let f4 = fopt_str(
        "level"@,
        (match t.level {
            Some(x) => Some(crate::stmt::log_level_tok(x)),
            None => None,
        }),
    );
    let f5 = fopt_val(
        "flags"@,
        (match t.flags {
            Some(fs) => if fs.len() > 0 {
                Some(enc_log_flags(fs))
            } else {
                None
            },
            None => None,
        }),
    );
    crate::json::lemma_lookup_prepend_all(f0, f1 + (f2 + (f3 + (f4 + f5))));
    crate::json::lemma_lookup_prepend_all(f1, f2 + (f3 + (f4 + f5)));
    crate::json::lemma_lookup_prepend_all(f2, f3 + (f4 + f5));
    crate::json::lemma_lookup_prepend_all(f3, f4 + f5);
    crate::json::lemma_lookup_prepend_all(f4, f5);
    if let Some(x) = t.prefix {
        crate::json::lemma_lookup_single_all("prefix"@, JsonM::Str(x));
    }
    if let Some(x) = t.group {
        crate::json::lemma_lookup_single_all("group"@, JsonM::Num(x as int));
    }
    if let Some(x) = t.snaplen {
        crate::json::lemma_lookup_single_all("snaplen"@, JsonM::Num(x as int));
    }
    if let Some(x) = t.queue_threshold {
        crate::json::lemma_lookup_single_all("queue-threshold"@, JsonM::Num(x as int));
    }
    if let Some(x) = t.level {
        crate::json::lemma_lookup_single_all("level"@, JsonM::Str(crate::stmt::log_level_tok(x)));
        crate::stmt::lemma_log_level_inv_tok(x);
    }
    if let Some(x) = t.flags {
        crate::json::lemma_lookup_single_all("flags"@, enc_log_flags(x));
        lemma_rt_log_flags(x);
    }
}

// ---------------------------------------------------------------------
// Spec decoders for the recursive expression and statement languages
// ---------------------------------------------------------------------

/// The payload of a verdict-like statement: null means no explicit
/// payload, an object means an explicit (empty) payload.
pub open spec fn dec_unit_payload(v: JsonM) -> Option<bool> {
    match v {
        JsonM::Null => Some(false),
        JsonM::Obj(_) => Some(true),
        _ => None,
    }
}

/// The jump target a wire value stands for, if any.
pub open spec fn dec_jump_target(j: JsonM) -> Option<JumpTargetM> {
    if !(j is Obj) {
        None
    } else {
        match dec_req_str(j->Obj_0, "target"@) {
            Some(t) => Some(JumpTargetM { target: t }),
            None => None,
        }
    }
}

/// The counter a wire value stands for, if any: a name, null, or an
/// anonymous counter object.
pub open spec fn dec_counter(j: JsonM) -> Option<CounterM> {
    match j {
        JsonM::Str(s) => Some(CounterM::Named(s)),
        JsonM::Null => Some(CounterM::Anonymous(None)),
        JsonM::Obj(_) => match dec_anon_counter(j) {
            Some(a) => Some(CounterM::Anonymous(Some(a))),
            None => None,
        },
        _ => None,
    }
}

/// The anonymous or referenced quota a wire value stands for, if any.
pub open spec fn dec_quota_ref(j: JsonM) -> Option<QuotaOrQuotaRefM> {
    match j {
        JsonM::Str(s) => Some(QuotaOrQuotaRefM::QuotaRef(s)),
        JsonM::Obj(_) => match dec_quota_stmt(j) {
            Some(a) => Some(QuotaOrQuotaRefM::Quota(a)),
            None => None,
        },
        _ => None,
    }
}

/// The expression a wire value stands for, if any.  The untagged
/// alternatives are told apart by shape, in the fixed precedence:
/// strings, numbers and booleans are immediates, arrays are lists, and
/// objects dispatch on their single property name.
pub open spec fn dec_expr(j: JsonM) -> Option<ExpressionM>
    decreases crate::json::json_height(j), 1int, 0int,
{
    match j {
        JsonM::Str(s) => Some(ExpressionM::String(s)),
        JsonM::Num(n) => if 0 <= n <= u32::MAX {
            Some(ExpressionM::Number(n as u32))
        } else {
            None
        },
        JsonM::Bool(b) => Some(ExpressionM::Boolean(b)),
        JsonM::Arr(items) => match dec_exprs_at(items, 0) {
            Some(es) => Some(ExpressionM::List(es)),
            None => None,
        },
        JsonM::Obj(s) => if s.len() != 1 {
            None
        } else {
            let k = s[0].0;
            let v = s[0].1;
            if k == "&"@ {
                dec_binop_operands(v, 0)
            } else if k == "|"@ {
                dec_binop_operands(v, 1)
            } else if k == "^"@ {
                dec_binop_operands(v, 2)
            } else if k == "<<"@ {
                dec_binop_operands(v, 3)
            } else if k == ">>"@ {
                dec_binop_operands(v, 4)
            } else if k == "range"@ {
                if v is Arr && v->Arr_0.len() == 2 {
                    match (dec_expr(v->Arr_0[0]), dec_expr(v->Arr_0[1])) {
                        (Some(l), Some(h)) => Some(
                            ExpressionM::Range(
                                Box::new(RangeM { low: Box::new(l), high: Box::new(h) }),
                            ),
                        ),
                        _ => None,
                    }
                } else {
                    None
                }
            } else if k == "concat"@ {
                if v is Arr {
                    match dec_exprs_at(v->Arr_0, 0) {
                        Some(es) => Some(
                            ExpressionM::Named(NamedExpressionM::Concat(es)),
                        ),
                        None => None,
                    }
                } else {
                    None
                }
            } else if k == "set"@ {
                if v is Arr {
                    match dec_set_items_at(v->Arr_0, 0) {
                        Some(its) => Some(
                            ExpressionM::Named(NamedExpressionM::SetExpr(its)),
                        ),
                        None => None,
                    }
                } else {
                    None
                }
            } else if k == "map"@ {
                match dec_map_expr(v) {
                    Some(m) => Some(
                        ExpressionM::Named(NamedExpressionM::MapExpr(Box::new(m))),
                    ),
                    None => None,
                }
            } else if k == "prefix"@ {
                match dec_prefix(v) {
                    Some(p) => Some(ExpressionM::Named(NamedExpressionM::Prefix(p))),
                    None => None,
                }
            } else if k == "payload"@ {
                match dec_payload(v) {
                    Some(p) => Some(ExpressionM::Named(NamedExpressionM::Payload(p))),
                    None => None,
                }
            } else if k == "exthdr"@ {
                match dec_exthdr(v) {
                    Some(x) => Some(ExpressionM::Named(NamedExpressionM::Exthdr(x))),
                    None => None,
                }
            } else if k == "tcp option"@ {
                match dec_tcp_option(v) {
                    Some(x) => Some(ExpressionM::Named(NamedExpressionM::TcpOption(x))),
                    None => None,
                }
            } else if k == "sctp chunk"@ {
                match dec_sctp_chunk(v) {
                    Some(x) => Some(ExpressionM::Named(NamedExpressionM::SctpChunk(x))),
                    None => None,
                }
            } else if k == "meta"@ {
                match dec_meta(v) {
                    Some(x) => Some(ExpressionM::Named(NamedExpressionM::Meta(x))),
                    None => None,
                }
            } else if k == "rt"@ {
                match dec_rt(v) {
                    Some(x) => Some(ExpressionM::Named(NamedExpressionM::RT(x))),
                    None => None,
                }
            } else if k == "ct"@ {
                match dec_ct(v) {
                    Some(x) => Some(ExpressionM::Named(NamedExpressionM::CT(x))),
                    None => None,
                }
            } else if k == "numgen"@ {
                match dec_numgen(v) {
                    Some(x) => Some(ExpressionM::Named(NamedExpressionM::Numgen(x))),
                    None => None,
                }
            } else if k == "jhash"@ {
                match dec_jhash(v) {
                    Some(x) => Some(ExpressionM::Named(NamedExpressionM::JHash(x))),
                    None => None,
                }
            } else if k == "symhash"@ {
                match dec_symhash(v) {
                    Some(x) => Some(ExpressionM::Named(NamedExpressionM::SymHash(x))),
                    None => None,
                }
            } else if k == "fib"@ {
                match dec_fib(v) {
                    Some(x) => Some(ExpressionM::Named(NamedExpressionM::Fib(x))),
                    None => None,
                }
            } else if k == "elem"@ {
                match dec_elem(v) {
                    Some(x) => Some(ExpressionM::Named(NamedExpressionM::Elem(x))),
                    None => None,
                }
            } else if k == "socket"@ {
                match dec_socket(v) {
                    Some(x) => Some(ExpressionM::Named(NamedExpressionM::Socket(x))),
                    None => None,
                }
            } else if k == "osf"@ {
                match dec_osf(v) {
                    Some(x) => Some(ExpressionM::Named(NamedExpressionM::Osf(x))),
                    None => None,
                }
            } else if k == "jump"@ {
                match dec_jump_target(v) {
                    Some(t) => Some(ExpressionM::Verdict(VerdictM::Jump(t))),
                    None => None,
                }
            } else if k == "goto"@ {
                match dec_jump_target(v) {
                    Some(t) => Some(ExpressionM::Verdict(VerdictM::Goto(t))),
                    None => None,
                }
            } else if k == "accept"@ {
                if v is Null {
                    Some(ExpressionM::Verdict(VerdictM::Accept))
                } else {
                    None
                }
            } else if k == "drop"@ {
                if v is Null {
                    Some(ExpressionM::Verdict(VerdictM::Drop))
                } else {
                    None
                }
            } else if k == "continue"@ {
                if v is Null {
                    Some(ExpressionM::Verdict(VerdictM::Continue))
                } else {
                    None
                }
            } else if k == "return"@ {
                if v is Null {
                    Some(ExpressionM::Verdict(VerdictM::Return))
                } else {
                    None
                }
            } else {
                None
            }
        },
        JsonM::Null => None,
    }
}

/// The operand pair of a binary operation; `which` selects the
/// operator.
pub open spec fn dec_binop_operands(v: JsonM, which: int) -> Option<ExpressionM>
    decreases crate::json::json_height(v), 1int, 1int,
{
    if v is Arr && v->Arr_0.len() == 2 {
        match (dec_expr(v->Arr_0[0]), dec_expr(v->Arr_0[1])) {
            (Some(l), Some(r)) => {
                let b = if which == 0 {
            BinaryOperationM::AND(l, r)
        } else if which == 1 {
            BinaryOperationM::OR(l, r)
        } else if which == 2 {
            BinaryOperationM::XOR(l, r)
        } else if which == 3 {
            BinaryOperationM::LSHIFT(l, r)
        } else {
            BinaryOperationM::RSHIFT(l, r)
        };
                Some(ExpressionM::BinaryOperation(Box::new(b)))
            },
            _ => None,
        }
    } else {
        None
    }
}

/// The expressions an array of wire values stands for, from index `i`
/// on, if all of them decode.
pub open spec fn dec_exprs_at(s: Seq<JsonM>, i: int) -> Option<Seq<ExpressionM>>
    decreases crate::json::json_height(JsonM::Arr(s)), 0int, s.len() - i,
{
    if 0 <= i < s.len() {
        match dec_expr(s[i]) {
            Some(e) => match dec_exprs_at(s, i + 1) {
                Some(rest) => Some(seq![e] + rest),
                None => None,
            },
            None => None,
        }
    } else if i == s.len() {
        Some(Seq::empty())
    } else {
        None
    }
}

/// The set items an array of wire values stands for, from index `i` on,
/// if all of them decode.
pub open spec fn dec_set_items_at(s: Seq<JsonM>, i: int) -> Option<Seq<SetItemM>>
    decreases crate::json::json_height(JsonM::Arr(s)), 0int, s.len() - i,
{
    if 0 <= i < s.len() {
        match dec_set_item(s[i]) {
            Some(it) => match dec_set_items_at(s, i + 1) {
                Some(rest) => Some(seq![it] + rest),
                None => None,
            },
            None => None,
        }
    } else if i == s.len() {
        Some(Seq::empty())
    } else {
        None
    }
}

/// The set item a wire value stands for, if any.  A two-element array
/// is a mapping — to an expression if the second element is one, else
/// to a statement; anything else is a plain element.
pub open spec fn dec_set_item(j: JsonM) -> Option<SetItemM>
    decreases crate::json::json_height(j), 2int, 0int,
{
    if j is Arr && j->Arr_0.len() == 2 {
        let a = j->Arr_0[0];
        let b = j->Arr_0[1];
        match dec_expr(a) {
            None => None,
            Some(k) => match dec_expr(b) {
                Some(v) => Some(SetItemM::Mapping(k, v)),
                None => match dec_stmt(b) {
                    Some(st) => Some(SetItemM::MappingStatement(k, Box::new(st))),
                    None => None,
                },
            },
        }
    } else {
        match dec_expr(j) {
            Some(e) => Some(SetItemM::Element(e)),
            None => None,
        }
    }
}

/// The expression map a wire value stands for, if any.
pub open spec fn dec_map_expr(j: JsonM) -> Option<MapExprM>
    decreases crate::json::json_height(j), 1int, 0int,
{
    if !(j is Obj) {
        None
    } else {
        let s = j->Obj_0;
        let key = match crate::json::lookup_entries(s, "key"@) {
            Some(v) => dec_expr(v),
            None => None,
        };
        let data = match crate::json::lookup_entries(s, "data"@) {
            Some(v) => dec_expr(v),
            None => None,
        };
        match (key, data) {
            (Some(k), Some(d)) => Some(MapExprM { key: k, data: d }),
            _ => None,
        }
    }
}

/// The prefix a wire value stands for, if any.
pub open spec fn dec_prefix(j: JsonM) -> Option<PrefixM>
    decreases crate::json::json_height(j), 1int, 0int,
{
    if !(j is Obj) {
        None
    } else {
        let s = j->Obj_0;
        let addr = match crate::json::lookup_entries(s, "addr"@) {
            Some(v) => dec_expr(v),
            None => None,
        };
        let len = dec_req_u32(s, "len"@);
        match (addr, len) {
            (Some(a), Some(l)) => Some(PrefixM { addr: Box::new(a), len: l }),
            _ => None,
        }
    }
}

/// The jhash a wire value stands for, if any.
pub open spec fn dec_jhash(j: JsonM) -> Option<JHashM>
    decreases crate::json::json_height(j), 1int, 0int,
{
    if !(j is Obj) {
        None
    } else {
        let s = j->Obj_0;
        let hash_mod = dec_req_u32(s, "mod"@);
        let offset = dec_opt_u32(s, "offset"@);
        let expr = match crate::json::lookup_entries(s, "expr"@) {
            Some(v) => dec_expr(v),
            None => None,
        };
        let seed = dec_opt_u32(s, "seed"@);
        if hash_mod is Some && offset is Some && expr is Some && seed is Some {
            Some(
                JHashM {
                    hash_mod: hash_mod->0,
                    offset: offset->0,
                    expr: Box::new(expr->0),
                    seed: seed->0,
                },
            )
        } else {
            None
        }
    }
}

/// The elem expression a wire value stands for, if any.
pub open spec fn dec_elem(j: JsonM) -> Option<ElemM>
    decreases crate::json::json_height(j), 1int, 0int,
{
    if !(j is Obj) {
        None
    } else {
        let s = j->Obj_0;
        let val = match crate::json::lookup_entries(s, "val"@) {
            Some(v) => dec_expr(v),
            None => None,
        };
        let timeout = dec_opt_u32(s, "timeout"@);
        let expires = dec_opt_u32(s, "expires"@);
        let comment = dec_opt_str(s, "comment"@);
        let counter = match crate::json::lookup_entries(s, "counter"@) {
            None => Some(None),
            Some(JsonM::Null) => Some(None),
            Some(v) => match dec_counter(v) {
                Some(c) => Some(Some(c)),
                None => None,
            },
        };
        if val is Some && timeout is Some && expires is Some && comment is Some && counter
            is Some {
            Some(
                ElemM {
                    val: Box::new(val->0),
                    timeout: timeout->0,
                    expires: expires->0,
                    comment: comment->0,
                    counter: counter->0,
                },
            )
        } else {
            None
        }
    }
}

/// The statement a wire value stands for, if any: an object with
/// exactly one recognized property.
pub open spec fn dec_stmt(j: JsonM) -> Option<StatementM>
    decreases crate::json::json_height(j), 1int, 0int,
{
    match j {
        JsonM::Obj(s) => if s.len() != 1 {
            None
        } else {
            let k = s[0].0;
            let v = s[0].1;
            if k == "accept"@ {
                match dec_unit_payload(v) {
                    Some(p) => Some(
                        StatementM::Accept(
                            if p {
                                Some(crate::stmt::Accept {  })
                            } else {
                                None
                            },
                        ),
                    ),
                    None => None,
                }
            } else if k == "drop"@ {
                match dec_unit_payload(v) {
                    Some(p) => Some(
                        StatementM::Drop(
                            if p {
                                Some(crate::stmt::Drop {  })
                            } else {
                                None
                            },
                        ),
                    ),
                    None => None,
                }
            } else if k == "continue"@ {
                match dec_unit_payload(v) {
                    Some(p) => Some(
                        StatementM::Continue(
                            if p {
                                Some(crate::stmt::Continue {  })
                            } else {
                                None
                            },
                        ),
                    ),
                    None => None,
                }
            } else if k == "return"@ {
                match dec_unit_payload(v) {
                    Some(p) => Some(
                        StatementM::Return(
                            if p {
                                Some(crate::stmt::Return {  })
                            } else {
                                None
                            },
                        ),
                    ),
                    None => None,
                }
            } else if k == "jump"@ {
                match dec_jump_target(v) {
                    Some(t) => Some(StatementM::Jump(t)),
                    None => None,
                }
            } else if k == "goto"@ {
                match dec_jump_target(v) {
                    Some(t) => Some(StatementM::Goto(t)),
                    None => None,
                }
            } else if k == "match"@ {
                match dec_match(v) {
                    Some(m) => Some(StatementM::Match(m)),
                    None => None,
                }
            } else if k == "counter"@ {
                match dec_counter(v) {
                    Some(c) => Some(StatementM::Counter(c)),
                    None => None,
                }
            } else if k == "mangle"@ {
                match dec_mangle(v) {
                    Some(m) => Some(StatementM::Mangle(m)),
                    None => None,
                }
            } else if k == "quota"@ {
                match dec_quota_ref(v) {
                    Some(q) => Some(StatementM::Quota(q)),
                    None => None,
                }
            } else if k == "limit"@ {
                match dec_limit_stmt(v) {
                    Some(l) => Some(StatementM::Limit(l)),
                    None => None,
                }
            } else if k == "flow"@ {
                match dec_flow(v) {
                    Some(f) => Some(StatementM::Flow(f)),
                    None => None,
                }
            } else if k == "fwd"@ {
                if v is Null {
                    Some(StatementM::FWD(None))
                } else {
                    match dec_fwd(v) {
                        Some(f) => Some(StatementM::FWD(Some(f))),
                        None => None,
                    }
                }
            } else if k == "notrack"@ {
                if v is Null {
                    Some(StatementM::Notrack)
                } else {
                    None
                }
            } else if k == "dup"@ {
                match dec_dup(v) {
                    Some(d) => Some(StatementM::Dup(d)),
                    None => None,
                }
            } else if k == "snat"@ {
                match dec_opt_nat_payload(v) {
                    Some(o) => Some(StatementM::SNAT(o)),
                    None => None,
                }
            } else if k == "dnat"@ {
                match dec_opt_nat_payload(v) {
                    Some(o) => Some(StatementM::DNAT(o)),
                    None => None,
                }
            } else if k == "masquerade"@ {
                match dec_opt_nat_payload(v) {
                    Some(o) => Some(StatementM::Masquerade(o)),
                    None => None,
                }
            } else if k == "redirect"@ {
                match dec_opt_nat_payload(v) {
                    Some(o) => Some(StatementM::Redirect(o)),
                    None => None,
                }
            } else if k == "reject"@ {
                if v is Null {
                    Some(StatementM::Reject(None))
                } else {
                    match dec_reject(v) {
                        Some(x) => Some(StatementM::Reject(Some(x))),
                        None => None,
                    }
                }
            } else if k == "set"@ {
                match dec_set_stmt(v) {
                    Some(st) => Some(StatementM::SetStmt(st)),
                    None => None,
                }
            } else if k == "log"@ {
                if v is Null {
                    Some(StatementM::Log(None))
                } else {
                    match dec_log(v) {
                        Some(l) => Some(StatementM::Log(Some(l))),
                        None => None,
                    }
                }
            } else if k == "ct helper"@ {
                match v {
                    JsonM::Str(h) => Some(StatementM::CTHelper(h)),
                    _ => None,
                }
            } else if k == "meter"@ {
                match dec_meter_stmt(v) {
                    Some(m) => Some(StatementM::Meter(m)),
                    None => None,
                }
            } else if k == "queue"@ {
                match dec_queue(v) {
                    Some(q) => Some(StatementM::Queue(q)),
                    None => None,
                }
            } else if k == "vmap"@ {
                match dec_vmap(v) {
                    Some(x) => Some(StatementM::VerdictMap(x)),
                    None => None,
                }
            } else if k == "ct count"@ {
                match dec_ctcount(v) {
                    Some(c) => Some(StatementM::CTCount(c)),
                    None => None,
                }
            } else if k == "ct timeout"@ {
                match dec_expr(v) {
                    Some(e) => Some(StatementM::CTTimeout(e)),
                    None => None,
                }
            } else if k == "ct expectation"@ {
                match dec_expr(v) {
                    Some(e) => Some(StatementM::CTExpectation(e)),
                    None => None,
                }
            } else if k == "xt"@ {
                if v is Null {
                    Some(StatementM::XT(None))
                } else {
                    Some(StatementM::XT(Some(v)))
                }
            } else if k == "synproxy"@ {
                match dec_synproxy_stmt(v) {
                    Some(p) => Some(StatementM::SynProxy(p)),
                    None => None,
                }
            } else if k == "tproxy"@ {
                match dec_tproxy(v) {
                    Some(t) => Some(StatementM::TProxy(t)),
                    None => None,
                }
            } else {
                None
            }
        },
        _ => None,
    }
}

/// The statements an array of wire values stands for, from index `i`
/// on, if all of them decode.
pub open spec fn dec_stmts_at(s: Seq<JsonM>, i: int) -> Option<Seq<StatementM>>
    decreases s.len() - i,
{
    if 0 <= i < s.len() {
        match dec_stmt(s[i]) {
            Some(st) => match dec_stmts_at(s, i + 1) {
                Some(rest) => Some(seq![st] + rest),
                None => None,
            },
            None => None,
        }
    } else if i == s.len() {
        Some(Seq::empty())
    } else {
        None
    }
}

/// The match statement a wire value stands for, if any.
pub open spec fn dec_match(j: JsonM) -> Option<MatchM>
    decreases crate::json::json_height(j), 1int, 0int,
{
    if !(j is Obj) {
        None
    } else {
        let s = j->Obj_0;
        let left = match crate::json::lookup_entries(s, "left"@) {
            Some(v) => dec_expr(v),
            None => None,
        };
        let right = match crate::json::lookup_entries(s, "right"@) {
            Some(v) => dec_expr(v),
            None => None,
        };
        let op = dec_req_enum(s, "op"@, |t| crate::stmt::operator_inv(t));
        match (left, right, op) {
            (Some(l), Some(r), Some(o)) => Some(MatchM { left: l, right: r, op: o }),
            _ => None,
        }
    }
}

/// The mangle statement a wire value stands for, if any.
pub open spec fn dec_mangle(j: JsonM) -> Option<MangleM>
    decreases crate::json::json_height(j), 1int, 0int,
{
    if !(j is Obj) {
        None
    } else {
        let s = j->Obj_0;
        let key = match crate::json::lookup_entries(s, "key"@) {
            Some(v) => dec_expr(v),
            None => None,
        };
        let value = match crate::json::lookup_entries(s, "value"@) {
            Some(v) => dec_expr(v),
            None => None,
        };
        match (key, value) {
            (Some(k), Some(x)) => Some(MangleM { key: k, value: x }),
            _ => None,
        }
    }
}

/// The forward statement a wire value stands for, if any.
pub open spec fn dec_fwd(j: JsonM) -> Option<FWDM>
    decreases crate::json::json_height(j), 1int, 0int,
{
    if !(j is Obj) {
        None
    } else {
        let s = j->Obj_0;
        let dev = match crate::json::lookup_entries(s, "dev"@) {
            None => Some(None),
            Some(JsonM::Null) => Some(None),
            Some(v) => match dec_expr(v) {
                Some(e) => Some(Some(e)),
                None => None,
            },
        };
        let family = dec_opt_enum(s, "family"@, |t| crate::stmt::fwd_family_inv(t));
        let addr = match crate::json::lookup_entries(s, "addr"@) {
            None => Some(None),
            Some(JsonM::Null) => Some(None),
            Some(v) => match dec_expr(v) {
                Some(e) => Some(Some(e)),
                None => None,
            },
        };
        if dev is Some && family is Some && addr is Some {
            Some(FWDM { dev: dev->0, family: family->0, addr: addr->0 })
        } else {
            None
        }
    }
}

/// The dup statement a wire value stands for, if any.
pub open spec fn dec_dup(j: JsonM) -> Option<DupM>
    decreases crate::json::json_height(j), 1int, 0int,
{
    if !(j is Obj) {
        None
    } else {
        let s = j->Obj_0;
        let addr = match crate::json::lookup_entries(s, "addr"@) {
            Some(v) => dec_expr(v),
            None => None,
        };
        let dev = match crate::json::lookup_entries(s, "dev"@) {
            None => Some(None),
            Some(JsonM::Null) => Some(None),
            Some(v) => match dec_expr(v) {
                Some(e) => Some(Some(e)),
                None => None,
            },
        };
        match (addr, dev) {
            (Some(a), Some(d)) => Some(DupM { addr: a, dev: d }),
            _ => None,
        }
    }
}

/// The NAT payload a wire value stands for, if any: null means a NAT
/// statement with no options.
pub open spec fn dec_opt_nat_payload(v: JsonM) -> Option<Option<NATM>>
    decreases crate::json::json_height(v), 2int, 0int,
{
    if v is Null {
        Some(None)
    } else {
        match dec_nat(v) {
            Some(n) => Some(Some(n)),
            None => None,
        }
    }
}

/// The NAT options a wire value stands for, if any.
pub open spec fn dec_nat(j: JsonM) -> Option<NATM>
    decreases crate::json::json_height(j), 1int, 0int,
{
    if !(j is Obj) {
        None
    } else {
        let s = j->Obj_0;
        let addr = match crate::json::lookup_entries(s, "addr"@) {
            None => Some(None),
            Some(JsonM::Null) => Some(None),
            Some(v) => match dec_expr(v) {
                Some(e) => Some(Some(e)),
                None => None,
            },
        };
        let family = dec_opt_enum(s, "family"@, |t| crate::stmt::nat_family_inv(t));
        let port = dec_opt_u32(s, "port"@);
        let flags = match crate::json::lookup_entries(s, "flags"@) {
            None => Some(None),
            Some(JsonM::Null) => Some(None),
            Some(v) => match dec_nat_flags(v) {
                Some(fs) => Some(Some(fs)),
                None => None,
            },
        };
        if addr is Some && family is Some && port is Some && flags is Some {
            Some(NATM { addr: addr->0, family: family->0, port: port->0, flags: flags->0 })
        } else {
            None
        }
    }
}

/// The set statement a wire value stands for, if any.
pub open spec fn dec_set_stmt(j: JsonM) -> Option<SetStmtM>
    decreases crate::json::json_height(j), 1int, 0int,
{
    if !(j is Obj) {
        None
    } else {
        let s = j->Obj_0;
        let op = dec_req_enum(s, "op"@, |t| crate::stmt::set_op_inv(t));
        let elem = match crate::json::lookup_entries(s, "elem"@) {
            Some(v) => dec_expr(v),
            None => None,
        };
        let set = dec_req_str(s, "set"@);
        match (op, elem, set) {
            (Some(o), Some(e), Some(st)) => Some(SetStmtM { op: o, elem: e, set: st }),
            _ => None,
        }
    }
}

/// The meter statement a wire value stands for, if any.
pub open spec fn dec_meter_stmt(j: JsonM) -> Option<MeterM>
    decreases crate::json::json_height(j), 1int, 0int,
{
    if !(j is Obj) {
        None
    } else {
        let s = j->Obj_0;
        let name = dec_req_str(s, "name"@);
        let key = match crate::json::lookup_entries(s, "key"@) {
            Some(v) => dec_expr(v),
            None => None,
        };
        let stmt = match crate::json::lookup_entries(s, "stmt"@) {
            Some(v) => dec_stmt(v),
            None => None,
        };
        match (name, key, stmt) {
            (Some(n), Some(k), Some(st)) => Some(
                MeterM { name: n, key: k, stmt: Box::new(st) },
            ),
            _ => None,
        }
    }
}

/// The queue statement a wire value stands for, if any.
pub open spec fn dec_queue(j: JsonM) -> Option<QueueM>
    decreases crate::json::json_height(j), 1int, 0int,
{
    if !(j is Obj) {
        None
    } else {
        let s = j->Obj_0;
        let num = match crate::json::lookup_entries(s, "num"@) {
            Some(v) => dec_expr(v),
            None => None,
        };
        let flags = match crate::json::lookup_entries(s, "flags"@) {
            None => Some(None),
            Some(JsonM::Null) => Some(None),
            Some(v) => match dec_queue_flags(v) {
                Some(fs) => Some(Some(fs)),
                None => None,
            },
        };
        match (num, flags) {
            (Some(n), Some(f)) => Some(QueueM { num: n, flags: f }),
            _ => None,
        }
    }
}

/// The verdict map statement a wire value stands for, if any.
pub open spec fn dec_vmap(j: JsonM) -> Option<VerdictMapM>
    decreases crate::json::json_height(j), 1int, 0int,
{
    if !(j is Obj) {
        None
    } else {
        let s = j->Obj_0;
        let key = match crate::json::lookup_entries(s, "key"@) {
            Some(v) => dec_expr(v),
            None => None,
        };
        let data = match crate::json::lookup_entries(s, "data"@) {
            Some(v) => dec_expr(v),
            None => None,
        };
        match (key, data) {
            (Some(k), Some(d)) => Some(VerdictMapM { key: k, data: d }),
            _ => None,
        }
    }
}

/// The ct count statement a wire value stands for, if any.
pub open spec fn dec_ctcount(j: JsonM) -> Option<CTCountM>
    decreases crate::json::json_height(j), 1int, 0int,
{
    if !(j is Obj) {
        None
    } else {
        let s = j->Obj_0;
        let val = match crate::json::lookup_entries(s, "val"@) {
            Some(v) => dec_expr(v),
            None => None,
        };
        let inv = dec_opt_bool(s, "inv"@);
        match (val, inv) {
            (Some(x), Some(i)) => Some(CTCountM { val: x, inv: i }),
            _ => None,
        }
    }
}

// ---------------------------------------------------------------------
// Pointwise characterizations of the list helpers
// ---------------------------------------------------------------------

/// `exprs_m_at` is the pointwise abstraction of the vector.
pub proof fn lemma_exprs_m_at(items: Vec<Expression>, i: int)
    requires
        0 <= i <= items@.len(),
    ensures
        exprs_m_at(items, i).len() == items@.len() - i,
        forall|k: int|
            0 <= k < items@.len() - i ==> exprs_m_at(items, i)[k] == expr_m(items[i + k]),
    decreases items@.len() - i,
{
    if i < items@.len() {
        lemma_exprs_m_at(items, i + 1);
    }
}

/// `set_items_m_at` is the pointwise abstraction of the vector.
pub proof fn lemma_set_items_m_at(items: Vec<SetItem>, i: int)
    requires
        0 <= i <= items@.len(),
    ensures
        set_items_m_at(items, i).len() == items@.len() - i,
        forall|k: int|
            0 <= k < items@.len() - i ==> set_items_m_at(items, i)[k] == set_item_m(
                items[i + k],
            ),
    decreases items@.len() - i,
{
    if i < items@.len() {
        lemma_set_items_m_at(items, i + 1);
    }
}

/// `stmts_m_at` is the pointwise abstraction of the vector.
pub proof fn lemma_stmts_m_at(items: Vec<Statement>, i: int)
    requires
        0 <= i <= items@.len(),
    ensures
        stmts_m_at(items, i).len() == items@.len() - i,
        forall|k: int|
            0 <= k < items@.len() - i ==> stmts_m_at(items, i)[k] == stmt_m(items[i + k]),
    decreases items@.len() - i,
{
    if i < items@.len() {
        lemma_stmts_m_at(items, i + 1);
    }
}

/// `enc_exprs_at` encodes pointwise.
pub proof fn lemma_enc_exprs_at(s: Seq<ExpressionM>, i: int)
    requires
        0 <= i <= s.len(),
    ensures
        enc_exprs_at(s, i).len() == s.len() - i,
        forall|k: int| 0 <= k < s.len() - i ==> enc_exprs_at(s, i)[k] == enc_expr(s[i + k]),
    decreases s.len() - i,
{
    if i < s.len() {
        lemma_enc_exprs_at(s, i + 1);
    }
}

/// `enc_set_items_at` encodes pointwise.
pub proof fn lemma_enc_set_items_at(s: Seq<SetItemM>, i: int)
    requires
        0 <= i <= s.len(),
    ensures
        enc_set_items_at(s, i).len() == s.len() - i,
        forall|k: int|
            0 <= k < s.len() - i ==> enc_set_items_at(s, i)[k] == enc_set_item(s[i + k]),
    decreases s.len() - i,
{
    if i < s.len() {
        lemma_enc_set_items_at(s, i + 1);
    }
}

/// `enc_stmts_at` encodes pointwise.
#[verifier::rlimit(100)]
#[verifier::spinoff_prover]
pub proof fn lemma_enc_stmts_at(s: Seq<StatementM>, i: int)
    requires
        0 <= i <= s.len(),
    ensures
        enc_stmts_at(s, i).len() == s.len() - i,
        forall|k: int| 0 <= k < s.len() - i ==> enc_stmts_at(s, i)[k] == enc_stmt_m(s[i + k]),
    decreases s.len() - i,
{
    if i < s.len() {
        lemma_enc_stmts_at(s, i + 1);
    }
}

/// When every element decodes, the list decodes pointwise.
#[verifier::rlimit(100)]
pub proof fn lemma_dec_exprs_at_some(s: Seq<JsonM>, i: int)
    requires
        0 <= i <= s.len(),
        forall|k: int| i <= k < s.len() ==> (#[trigger] dec_expr(s[k])) is Some,
    ensures
        dec_exprs_at(s, i) matches Some(r) && r.len() == s.len() - i && forall|k: int|
            0 <= k < s.len() - i ==> #[trigger] r[k] == dec_expr(s[i + k])->0,
    decreases s.len() - i,
{
    if i < s.len() {
        lemma_dec_exprs_at_some(s, i + 1);
        let r1 = dec_exprs_at(s, i + 1)->0;
        let e0 = dec_expr(s[i])->0;
        let r = seq![e0] + r1;
        assert(dec_exprs_at(s, i) == Some(r));
        assert forall|k: int| 0 <= k < s.len() - i implies #[trigger] r[k] == dec_expr(s[i + k])->0 by {
            if k > 0 {
                assert(r[k] == r1[k - 1]);
            }
        }
    }
}

/// When some element fails to decode, the list fails.
#[verifier::rlimit(100)]
pub proof fn lemma_dec_exprs_at_none(s: Seq<JsonM>, i: int, w: int)
    requires
        0 <= i <= w < s.len(),
        dec_expr(s[w]) is None,
    ensures
        dec_exprs_at(s, i) is None,
    decreases s.len() - i,
{
    if i < w {
        lemma_dec_exprs_at_none(s, i + 1, w);
    }
}

/// When every item decodes, the set item list decodes pointwise.
#[verifier::rlimit(100)]
#[verifier::spinoff_prover]
pub proof fn lemma_dec_set_items_at_some(s: Seq<JsonM>, i: int)
    requires
        0 <= i <= s.len(),
        forall|k: int| i <= k < s.len() ==> (#[trigger] dec_set_item(s[k])) is Some,
    ensures
        dec_set_items_at(s, i) matches Some(r) && r.len() == s.len() - i && forall|k: int|
            0 <= k < s.len() - i ==> #[trigger] r[k] == dec_set_item(s[i + k])->0,
    decreases s.len() - i,
{
    if i < s.len() {
        lemma_dec_set_items_at_some(s, i + 1);
        let r1 = dec_set_items_at(s, i + 1)->0;
        let e0 = dec_set_item(s[i])->0;
        let r = seq![e0] + r1;
        assert(dec_set_items_at(s, i) == Some(r));
        assert forall|k: int| 0 <= k < s.len() - i implies #[trigger] r[k] == dec_set_item(s[i + k])->0 by {
            if k > 0 {
                assert(r[k] == r1[k - 1]);
            }
        }
    }
}

/// When some item fails to decode, the set item list fails.
#[verifier::rlimit(100)]
pub proof fn lemma_dec_set_items_at_none(s: Seq<JsonM>, i: int, w: int)
    requires
        0 <= i <= w < s.len(),
        dec_set_item(s[w]) is None,
    ensures
        dec_set_items_at(s, i) is None,
    decreases s.len() - i,
{
    if i < w {
        lemma_dec_set_items_at_none(s, i + 1, w);
    }
}

/// When every statement decodes, the statement list decodes pointwise.
#[verifier::rlimit(100)]
pub proof fn lemma_dec_stmts_at_some(s: Seq<JsonM>, i: int)
    requires
        0 <= i <= s.len(),
        forall|k: int| i <= k < s.len() ==> (#[trigger] dec_stmt(s[k])) is Some,
    ensures
        dec_stmts_at(s, i) matches Some(r) && r.len() == s.len() - i && forall|k: int|
            0 <= k < s.len() - i ==> #[trigger] r[k] == dec_stmt(s[i + k])->0,
    decreases s.len() - i,
{
    if i < s.len() {
        lemma_dec_stmts_at_some(s, i + 1);
        let r1 = dec_stmts_at(s, i + 1)->0;
        let e0 = dec_stmt(s[i])->0;
        let r = seq![e0] + r1;
        assert(dec_stmts_at(s, i) == Some(r));
        assert forall|k: int| 0 <= k < s.len() - i implies #[trigger] r[k] == dec_stmt(s[i + k])->0 by {
            if k > 0 {
                assert(r[k] == r1[k - 1]);
            }
        }
    }
}

/// When some statement fails to decode, the statement list fails.
#[verifier::rlimit(100)]
pub proof fn lemma_dec_stmts_at_none(s: Seq<JsonM>, i: int, w: int)
    requires
        0 <= i <= w < s.len(),
        dec_stmt(s[w]) is None,
    ensures
        dec_stmts_at(s, i) is None,
    decreases s.len() - i,
{
    if i < w {
        lemma_dec_stmts_at_none(s, i + 1, w);
    }
}

// ---------------------------------------------------------------------
// Executable encoders for expressions and statements
// ---------------------------------------------------------------------

/// Builds a single-property object.
pub fn single_obj(k: &str, v: Json) -> (r: Json)
    ensures
        r@ == JsonM::Obj(fone(k@, v@)),
{
    let mut es: Vec<(String, Json)> = Vec::new();
    push_field(&mut es, k, v);
    let r = finish_obj(es);
    proof {
        assert(r@->Obj_0 =~= fone(k@, json_m(v)));
    }
    r
}

/// Encodes an expression.
pub fn encode_expr(e: &Expression) -> (r: Json)
    ensures
        r@ == enc_expr(expr_m(*e)),
    decreases *e,
{
    match e {
        Expression::String(s) => Json::Str(s.clone()),
        Expression::Number(n) => Json::Num(*n as i64),
        Expression::Boolean(b) => Json::Bool(*b),
        Expression::List(items) => {
            let arr = encode_exprs(items);
            let r = finish_arr(arr);
            proof {
                assert(r@->Arr_0 =~= enc_expr(expr_m(*e))->Arr_0);
            }
            r
        },
        Expression::BinaryOperation(b) => encode_binop(b),
        Expression::Range(rg) => {
            let mut arr: Vec<Json> = Vec::new();
            arr.push(encode_expr(&rg.low));
            arr.push(encode_expr(&rg.high));
            let inner = finish_arr(arr);
            proof {
                assert(inner@->Arr_0 =~= seq![
                    enc_expr(expr_m(*rg.low)),
                    enc_expr(expr_m(*rg.high)),
                ]);
            }
            single_obj("range", inner)
        },
        Expression::Named(n) => encode_named(n),
        Expression::Verdict(v) => encode_verdict(v),
    }
}

/// Encodes a list of expressions.
pub fn encode_exprs(items: &Vec<Expression>) -> (r: Vec<Json>)
    ensures
        jsons_m(r@) == enc_exprs_at(exprs_m_at(*items, 0), 0),
    decreases *items,
{
    proof {
        lemma_exprs_m_at(*items, 0);
        lemma_enc_exprs_at(exprs_m_at(*items, 0), 0);
    }
    let mut out: Vec<Json> = Vec::new();
    let mut i: usize = 0;
    while i < items.len()
        invariant
            0 <= i <= items@.len(),
            out@.len() == i,
            exprs_m_at(*items, 0).len() == items@.len(),
            forall|k: int|
                0 <= k < items@.len() ==> exprs_m_at(*items, 0)[k] == expr_m(items[k]),
            enc_exprs_at(exprs_m_at(*items, 0), 0).len() == items@.len(),
            forall|k: int|
                0 <= k < items@.len() ==> enc_exprs_at(exprs_m_at(*items, 0), 0)[k] == enc_expr(
                    exprs_m_at(*items, 0)[k],
                ),
            forall|k: int| 0 <= k < i ==> json_m(out@[k]) == enc_expr(expr_m(items[k])),
        decreases items@.len() - i,
    {
        out.push(encode_expr(&items[i]));
        i += 1;
    }
    proof {
        assert(jsons_m(out@) =~= enc_exprs_at(exprs_m_at(*items, 0), 0));
    }
    out
}

/// Encodes a binary operation.
pub fn encode_binop(b: &BinaryOperation) -> (r: Json)
    ensures
        r@ == enc_binop(binop_m(*b)),
    decreases *b,
{
    let (key, l, r2): (&str, &Expression, &Expression) = match b {
        BinaryOperation::AND(l, r2) => ("&", l, r2),
        BinaryOperation::OR(l, r2) => ("|", l, r2),
        BinaryOperation::XOR(l, r2) => ("^", l, r2),
        BinaryOperation::LSHIFT(l, r2) => ("<<", l, r2),
        BinaryOperation::RSHIFT(l, r2) => (">>", l, r2),
    };
    let mut arr: Vec<Json> = Vec::new();
    arr.push(encode_expr(l));
    arr.push(encode_expr(r2));
    let inner = finish_arr(arr);
    proof {
        assert(inner@->Arr_0 =~= seq![enc_expr(expr_m(*l)), enc_expr(expr_m(*r2))]);
    }
    single_obj(key, inner)
}

/// Encodes a named expression.
pub fn encode_named(n: &NamedExpression) -> (r: Json)
    ensures
        r@ == enc_named(named_m(*n)),
    decreases *n,
{
    match n {
        NamedExpression::Concat(items) => {
            let arr = encode_exprs(items);
            let inner = finish_arr(arr);
            single_obj("concat", inner)
        },
        NamedExpression::SetExpr(items) => {
            let arr = encode_set_items(items);
            let inner = finish_arr(arr);
            single_obj("set", inner)
        },
        NamedExpression::MapExpr(m) => {
            let mut es: Vec<(String, Json)> = Vec::new();
            push_field(&mut es, "key", encode_expr(&m.key));
            push_field(&mut es, "data", encode_expr(&m.data));
            let inner = finish_obj(es);
            proof {
                assert(inner@->Obj_0 =~= enc_map_expr(map_expr_m(**m))->Obj_0);
            }
            single_obj("map", inner)
        },
        NamedExpression::Prefix(p) => {
            let mut es: Vec<(String, Json)> = Vec::new();
            push_field(&mut es, "addr", encode_expr(&p.addr));
            push_field(&mut es, "len", Json::Num(p.len as i64));
            let inner = finish_obj(es);
            proof {
                assert(inner@->Obj_0 =~= enc_prefix(prefix_m(*p))->Obj_0);
            }
            single_obj("prefix", inner)
        },
        NamedExpression::Payload(p) => single_obj("payload", encode_payload(p)),
        NamedExpression::Exthdr(x) => single_obj("exthdr", encode_exthdr(x)),
        NamedExpression::TcpOption(x) => single_obj("tcp option", encode_tcp_option(x)),
        NamedExpression::SctpChunk(x) => single_obj("sctp chunk", encode_sctp_chunk(x)),
        NamedExpression::Meta(m) => single_obj("meta", encode_meta(m)),
        NamedExpression::RT(x) => single_obj("rt", encode_rt(x)),
        NamedExpression::CT(c) => single_obj("ct", encode_ct(c)),
        NamedExpression::Numgen(g) => single_obj("numgen", encode_numgen(g)),
        NamedExpression::JHash(h) => {
            let mut es: Vec<(String, Json)> = Vec::new();
            push_field(&mut es, "mod", Json::Num(h.hash_mod as i64));
            push_opt_u32_field(&mut es, "offset", h.offset);
            push_field(&mut es, "expr", encode_expr(&h.expr));
            push_opt_u32_field(&mut es, "seed", h.seed);
            let inner = finish_obj(es);
            proof {
                assert(inner@->Obj_0 =~= enc_jhash(jhash_m(*h))->Obj_0);
            }
            single_obj("jhash", inner)
        },
        NamedExpression::SymHash(h) => single_obj("symhash", encode_symhash(h)),
        NamedExpression::Fib(f) => single_obj("fib", encode_fib(f)),
        NamedExpression::Elem(el) => {
            let mut es: Vec<(String, Json)> = Vec::new();
            push_field(&mut es, "val", encode_expr(&el.val));
            push_opt_u32_field(&mut es, "timeout", el.timeout);
            push_opt_u32_field(&mut es, "expires", el.expires);
            push_opt_str_field(&mut es, "comment", &el.comment);
            if let Some(c) = &el.counter {
                push_field(&mut es, "counter", encode_counter(c));
            }
            let inner = finish_obj(es);
            proof {
                assert(inner@->Obj_0 =~= enc_elem(elem_m(*el))->Obj_0);
            }
            single_obj("elem", inner)
        },
        NamedExpression::Socket(s) => single_obj("socket", encode_socket(s)),
        NamedExpression::Osf(o) => single_obj("osf", encode_osf(o)),
    }
}

/// Encodes a list of set items.
pub fn encode_set_items(items: &Vec<SetItem>) -> (r: Vec<Json>)
    ensures
        jsons_m(r@) == enc_set_items_at(set_items_m_at(*items, 0), 0),
    decreases *items,
{
    proof {
        lemma_set_items_m_at(*items, 0);
        lemma_enc_set_items_at(set_items_m_at(*items, 0), 0);
    }
    let mut out: Vec<Json> = Vec::new();
    let mut i: usize = 0;
    while i < items.len()
        invariant
            0 <= i <= items@.len(),
            out@.len() == i,
            set_items_m_at(*items, 0).len() == items@.len(),
            forall|k: int|
                0 <= k < items@.len() ==> set_items_m_at(*items, 0)[k] == set_item_m(items[k]),
            enc_set_items_at(set_items_m_at(*items, 0), 0).len() == items@.len(),
            forall|k: int|
                0 <= k < items@.len() ==> enc_set_items_at(set_items_m_at(*items, 0), 0)[k]
                    == enc_set_item(set_items_m_at(*items, 0)[k]),
            forall|k: int| 0 <= k < i ==> json_m(out@[k]) == enc_set_item(set_item_m(items[k])),
        decreases items@.len() - i,
    {
        out.push(encode_set_item(&items[i]));
        i += 1;
    }
    proof {
        assert(jsons_m(out@) =~= enc_set_items_at(set_items_m_at(*items, 0), 0));
    }
    out
}

/// Encodes a set item.
pub fn encode_set_item(it: &SetItem) -> (r: Json)
    ensures
        r@ == enc_set_item(set_item_m(*it)),
    decreases *it,
{
    match it {
        SetItem::Element(e) => encode_expr(e),
        SetItem::Mapping(k, v) => {
            let mut arr: Vec<Json> = Vec::new();
            arr.push(encode_expr(k));
            arr.push(encode_expr(v));
            let r = finish_arr(arr);
            proof {
                assert(r@->Arr_0 =~= seq![enc_expr(expr_m(*k)), enc_expr(expr_m(*v))]);
            }
            r
        },
        SetItem::MappingStatement(k, s) => {
            let mut arr: Vec<Json> = Vec::new();
            arr.push(encode_expr(k));
            arr.push(encode_stmt(s));
            let r = finish_arr(arr);
            proof {
                assert(r@->Arr_0 =~= seq![enc_expr(expr_m(*k)), enc_stmt_m(stmt_m(**s))]);
            }
            r
        },
    }
}

/// Encodes an anonymous or named counter.
pub fn encode_counter(c: &Counter) -> (r: Json)
    ensures
        r@ == enc_counter(counter_m(*c)),
{
    match c {
        Counter::Named(s) => Json::Str(s.clone()),
        Counter::Anonymous(None) => Json::Null,
        Counter::Anonymous(Some(a)) => encode_anon_counter(a),
    }
}

/// Encodes a verdict expression.
pub fn encode_verdict(v: &Verdict) -> (r: Json)
    ensures
        r@ == enc_verdict(verdict_m(*v)),
{
    match v {
        Verdict::Accept => Json::Str("accept".to_owned()),
        Verdict::Drop => Json::Str("drop".to_owned()),
        Verdict::Continue => Json::Str("continue".to_owned()),
        Verdict::Return => Json::Str("return".to_owned()),
        Verdict::Jump(t) => single_obj("jump", encode_jump_target(t)),
        Verdict::Goto(t) => single_obj("goto", encode_jump_target(t)),
    }
}

/// Encodes a jump target.
pub fn encode_jump_target(t: &JumpTarget) -> (r: Json)
    ensures
        r@ == enc_jump_target(JumpTargetM { target: t.target@ }),
{
    single_obj("target", Json::Str(t.target.clone()))
}

/// Encodes a statement.
#[verifier::rlimit(100)]
#[verifier::spinoff_prover]
pub fn encode_stmt(st: &Statement) -> (r: Json)
    ensures
        r@ == enc_stmt_m(stmt_m(*st)),
    decreases *st,
{
    match st {
        Statement::Accept(o) => single_obj("accept", encode_unit_payload(o.is_some())),
        Statement::Drop(o) => single_obj("drop", encode_unit_payload(o.is_some())),
        Statement::Continue(o) => single_obj("continue", encode_unit_payload(o.is_some())),
        Statement::Return(o) => single_obj("return", encode_unit_payload(o.is_some())),
        Statement::Jump(t) => single_obj("jump", encode_jump_target(t)),
        Statement::Goto(t) => single_obj("goto", encode_jump_target(t)),
        Statement::Match(m) => {
            let mut es: Vec<(String, Json)> = Vec::new();
            push_field(&mut es, "left", encode_expr(&m.left));
            push_field(&mut es, "right", encode_expr(&m.right));
            push_field(&mut es, "op", Json::Str(crate::stmt::operator_to_wire(m.op).to_owned()));
            let inner = finish_obj(es);
            proof {
                assert(inner@->Obj_0 =~= enc_match(
                    MatchM { left: expr_m(m.left), right: expr_m(m.right), op: m.op },
                )->Obj_0);
            }
            single_obj("match", inner)
        },
        Statement::Counter(c) => single_obj("counter", encode_counter(c)),
        Statement::Mangle(m) => {
            let mut es: Vec<(String, Json)> = Vec::new();
            push_field(&mut es, "key", encode_expr(&m.key));
            push_field(&mut es, "value", encode_expr(&m.value));
            let inner = finish_obj(es);
            proof {
                assert(inner@->Obj_0 =~= enc_mangle(
                    MangleM { key: expr_m(m.key), value: expr_m(m.value) },
                )->Obj_0);
            }
            single_obj("mangle", inner)
        },
        Statement::Quota(q) => {
            let inner = match q {
                QuotaOrQuotaRef::Quota(a) => encode_quota_stmt(a),
                QuotaOrQuotaRef::QuotaRef(s) => Json::Str(s.clone()),
            };
            single_obj("quota", inner)
        },
        Statement::Limit(l) => single_obj("limit", encode_limit_stmt(l)),
        Statement::Flow(f) => single_obj("flow", encode_flow(f)),
        Statement::FWD(o) => {
            let inner = match o {
                Some(f) => encode_fwd(f),
                None => Json::Null,
            };
            single_obj("fwd", inner)
        },
        Statement::Notrack => single_obj("notrack", Json::Null),
        Statement::Dup(d) => {
            let mut es: Vec<(String, Json)> = Vec::new();
            push_field(&mut es, "addr", encode_expr(&d.addr));
            if let Some(x) = &d.dev {
                push_field(&mut es, "dev", encode_expr(x));
            }
            let inner = finish_obj(es);
            proof {
                assert(inner@->Obj_0 =~= enc_dup(
                    DupM {
                        addr: expr_m(d.addr),
                        dev: match d.dev {
                            Some(e) => Some(expr_m(e)),
                            None => None,
                        },
                    },
                )->Obj_0);
            }
            single_obj("dup", inner)
        },
        Statement::SNAT(o) => single_obj("snat", encode_opt_nat(o)),
        Statement::DNAT(o) => single_obj("dnat", encode_opt_nat(o)),
        Statement::Masquerade(o) => single_obj("masquerade", encode_opt_nat(o)),
        Statement::Redirect(o) => single_obj("redirect", encode_opt_nat(o)),
        Statement::Reject(o) => {
            let inner = match o {
                Some(x) => encode_reject(x),
                None => Json::Null,
            };
            single_obj("reject", inner)
        },
        Statement::SetStmt(s2) => {
            let mut es: Vec<(String, Json)> = Vec::new();
            push_field(&mut es, "op", Json::Str(crate::stmt::set_op_to_wire(s2.op).to_owned()));
            push_field(&mut es, "elem", encode_expr(&s2.elem));
            push_field(&mut es, "set", Json::Str(s2.set.clone()));
            let inner = finish_obj(es);
            proof {
                assert(inner@->Obj_0 =~= enc_set_stmt(
                    SetStmtM { op: s2.op, elem: expr_m(s2.elem), set: s2.set@ },
                )->Obj_0);
            }
            single_obj("set", inner)
        },
        Statement::Log(o) => {
            let inner = match o {
                Some(l) => encode_log(l),
                None => Json::Null,
            };
            single_obj("log", inner)
        },
        Statement::CTHelper(h) => single_obj("ct helper", Json::Str(h.clone())),
        Statement::Meter(m) => {
            let mut es: Vec<(String, Json)> = Vec::new();
            push_field(&mut es, "name", Json::Str(m.name.clone()));
            push_field(&mut es, "key", encode_expr(&m.key));
            push_field(&mut es, "stmt", encode_stmt(&m.stmt));
            let inner = finish_obj(es);
            proof {
                assert(inner@->Obj_0 =~= enc_meter_stmt(
                    MeterM { name: m.name@, key: expr_m(m.key), stmt: Box::new(stmt_m(*m.stmt)) },
                )->Obj_0);
            }
            single_obj("meter", inner)
        },
        Statement::Queue(q) => {
            let mut es: Vec<(String, Json)> = Vec::new();
            push_field(&mut es, "num", encode_expr(&q.num));
            if let Some(x) = &q.flags {
                push_field(&mut es, "flags", encode_queue_flags(x));
            }
            let inner = finish_obj(es);
            proof {
                assert(inner@->Obj_0 =~= enc_queue(
                    QueueM {
                        num: expr_m(q.num),
                        flags: match q.flags {
                            Some(f) => Some(f@),
                            None => None,
                        },
                    },
                )->Obj_0);
            }
            single_obj("queue", inner)
        },
        Statement::VerdictMap(v) => {
            let mut es: Vec<(String, Json)> = Vec::new();
            push_field(&mut es, "key", encode_expr(&v.key));
            push_field(&mut es, "data", encode_expr(&v.data));
            let inner = finish_obj(es);
            proof {
                assert(inner@->Obj_0 =~= enc_vmap(
                    VerdictMapM { key: expr_m(v.key), data: expr_m(v.data) },
                )->Obj_0);
            }
            single_obj("vmap", inner)
        },
        Statement::CTCount(c) => {
            let mut es: Vec<(String, Json)> = Vec::new();
            push_field(&mut es, "val", encode_expr(&c.val));
            if let Some(x) = c.inv {
                push_field(&mut es, "inv", Json::Bool(x));
            }
            let inner = finish_obj(es);
            proof {
                assert(inner@->Obj_0 =~= enc_ctcount(
                    CTCountM { val: expr_m(c.val), inv: c.inv },
                )->Obj_0);
            }
            single_obj("ct count", inner)
        },
        Statement::CTTimeout(e) => single_obj("ct timeout", encode_expr(e)),
        Statement::CTExpectation(e) => single_obj("ct expectation", encode_expr(e)),
        Statement::XT(o) => {
            let inner = match o {
                Some(j) => encode_json_copy(j),
                None => Json::Null,
            };
            single_obj("xt", inner)
        },
        Statement::SynProxy(p) => single_obj("synproxy", encode_synproxy_stmt(p)),
        Statement::TProxy(t) => single_obj("tproxy", encode_tproxy(t)),
    }
}

/// Encodes the payload of a verdict-like statement.
pub fn encode_unit_payload(present: bool) -> (r: Json)
    ensures
        r@ == enc_empty_payload(present),
{
    if present {
        let es: Vec<(String, Json)> = Vec::new();
        let r = finish_obj(es);
        proof {
            assert(r@->Obj_0 =~= Seq::<(Seq<char>, JsonM)>::empty());
        }
        r
    } else {
        Json::Null
    }
}

/// Encodes a NAT statement payload.
pub fn encode_opt_nat(o: &Option<NAT>) -> (r: Json)
    ensures
        r@ == enc_opt_nat(opt_nat_m(*o)),
    decreases *o,
{
    match o {
        None => Json::Null,
        Some(n) => {
            let mut es: Vec<(String, Json)> = Vec::new();
            if let Some(x) = &n.addr {
                push_field(&mut es, "addr", encode_expr(x));
            }
            if let Some(x) = n.family {
                push_field(
                    &mut es,
                    "family",
                    Json::Str(crate::stmt::nat_family_to_wire(x).to_owned()),
                );
            }
            push_opt_u32_field(&mut es, "port", n.port);
            if let Some(x) = &n.flags {
                push_field(&mut es, "flags", encode_nat_flags(x));
            }
            let r = finish_obj(es);
            proof {
                assert(r@->Obj_0 =~= enc_opt_nat(opt_nat_m(*o))->Obj_0);
            }
            r
        },
    }
}

/// Encodes a forward statement payload.
pub fn encode_fwd(f: &FWD) -> (r: Json)
    ensures
        r@ == enc_fwd(fwd_m(*f)),
    decreases *f,
{
    let mut es: Vec<(String, Json)> = Vec::new();
    if let Some(x) = &f.dev {
        push_field(&mut es, "dev", encode_expr(x));
    }
    if let Some(x) = f.family {
        push_field(&mut es, "family", Json::Str(crate::stmt::fwd_family_to_wire(x).to_owned()));
    }
    if let Some(x) = &f.addr {
        push_field(&mut es, "addr", encode_expr(x));
    }
    let r = finish_obj(es);
    proof {
        assert(r@->Obj_0 =~= enc_fwd(fwd_m(*f))->Obj_0);
    }
    r
}

/// Rebuilds a JSON value owned by an xt statement.
pub fn encode_json_copy(j: &Json) -> (r: Json)
    ensures
        r@ == j@,
    decreases crate::json::json_height(json_m(*j)),
{
    match j {
        Json::Null => Json::Null,
        Json::Bool(b) => Json::Bool(*b),
        Json::Num(n) => Json::Num(*n),
        Json::Str(s) => Json::Str(s.clone()),
        Json::Arr(items) => {
            proof {
                crate::json::lemma_arr_m_at(*items, 0);
            }
            let ghost s = crate::json::arr_m_at(*items, 0);
            let mut out: Vec<Json> = Vec::new();
            let mut i: usize = 0;
            while i < items.len()
                invariant
                    0 <= i <= items@.len(),
                    out@.len() == i,
                    json_m(*j) == JsonM::Arr(s),
                    s.len() == items@.len(),
                    forall|k: int| 0 <= k < items@.len() ==> s[k] == json_m(items@[k]),
                    forall|k: int| 0 <= k < i ==> json_m(out@[k]) == json_m(items@[k]),
                decreases items@.len() - i,
            {
                proof {
                    assert(s[i as int] == json_m(items@[i as int]));
                    assert(crate::json::json_height(json_m(items@[i as int]))
                        < crate::json::json_height(json_m(*j)));
                }
                out.push(encode_json_copy(&items[i]));
                i += 1;
            }
            let r = finish_arr(out);
            proof {
                assert(r@->Arr_0 =~= s);
            }
            r
        },
        Json::Obj(entries) => {
            proof {
                crate::json::lemma_obj_m_at(*entries, 0);
            }
            let ghost s = crate::json::obj_m_at(*entries, 0);
            let mut out: Vec<(String, Json)> = Vec::new();
            let mut i: usize = 0;
            while i < entries.len()
                invariant
                    0 <= i <= entries@.len(),
                    out@.len() == i,
                    json_m(*j) == JsonM::Obj(s),
                    s.len() == entries@.len(),
                    forall|k: int|
                        0 <= k < entries@.len() ==> s[k] == (
                            entries@[k].0@,
                            json_m(entries@[k].1),
                        ),
                    forall|k: int|
                        0 <= k < i ==> out@[k].0@ == entries@[k].0@ && json_m(out@[k].1) == json_m(
                            entries@[k].1,
                        ),
                decreases entries@.len() - i,
            {
                proof {
                    assert(s[i as int] == (entries@[i as int].0@, json_m(entries@[i as int].1)));
                    assert(crate::json::json_height(json_m(entries@[i as int].1))
                        < crate::json::json_height(json_m(*j)));
                }
                let v = encode_json_copy(&entries[i].1);
                out.push((entries[i].0.clone(), v));
                i += 1;
            }
            let r = finish_obj(out);
            proof {
                assert(r@->Obj_0 =~= s);
            }
            r
        },
    }
}

/// Encodes a list of statements.
pub fn encode_stmts(items: &Vec<Statement>) -> (r: Vec<Json>)
    ensures
        jsons_m(r@) == enc_stmts_at(stmts_m_at(*items, 0), 0),
    decreases *items,
{
    proof {
        lemma_stmts_m_at(*items, 0);
        lemma_enc_stmts_at(stmts_m_at(*items, 0), 0);
    }
    let mut out: Vec<Json> = Vec::new();
    let mut i: usize = 0;
    while i < items.len()
        invariant
            0 <= i <= items@.len(),
            out@.len() == i,
            stmts_m_at(*items, 0).len() == items@.len(),
            forall|k: int| 0 <= k < items@.len() ==> stmts_m_at(*items, 0)[k] == stmt_m(items[k]),
            enc_stmts_at(stmts_m_at(*items, 0), 0).len() == items@.len(),
            forall|k: int|
                0 <= k < items@.len() ==> enc_stmts_at(stmts_m_at(*items, 0), 0)[k] == enc_stmt_m(
                    stmts_m_at(*items, 0)[k],
                ),
            forall|k: int| 0 <= k < i ==> json_m(out@[k]) == enc_stmt_m(stmt_m(items[k])),
        decreases items@.len() - i,
    {
        out.push(encode_stmt(&items[i]));
        i += 1;
    }
    proof {
        assert(jsons_m(out@) =~= enc_stmts_at(stmts_m_at(*items, 0), 0));
    }
    out
}

// ---------------------------------------------------------------------
// Executable decoders for expressions and statements
// ---------------------------------------------------------------------

/// Decodes a list of expressions.
pub fn decode_exprs(items: &Vec<Json>) -> (r: Result<Vec<Expression>, DecodeError>)
    ensures
        r matches Ok(out) ==> dec_exprs_at(jsons_m(items@), 0) == Some(exprs_m_at(out, 0)),
        r is Err ==> dec_exprs_at(jsons_m(items@), 0) is None,
    decreases crate::json::json_height(JsonM::Arr(jsons_m(items@))), 0int,
{
    let ghost s = jsons_m(items@);
    let mut out: Vec<Expression> = Vec::new();
    let mut i: usize = 0;
    while i < items.len()
        invariant
            0 <= i <= items@.len(),
            s == jsons_m(items@),
            s.len() == items@.len(),
            out@.len() == i,
            forall|k: int|
                0 <= k < i ==> (#[trigger] dec_expr(s[k])) == Some(expr_m(out@[k])),
        decreases items@.len() - i,
    {
        proof {
            assert(s[i as int] == json_m(items@[i as int]));
            assert(crate::json::json_height(s[i as int]) < crate::json::json_height(
                JsonM::Arr(s),
            ));
        }
        match decode_expr(&items[i]) {
            Ok(e) => {
                out.push(e);
            },
            Err(err) => {
                proof {
                    lemma_dec_exprs_at_none(s, 0, i as int);
                }
                return Err(err.in_index(i));
            },
        }
        i += 1;
    }
    proof {
        lemma_dec_exprs_at_some(s, 0);
        lemma_exprs_m_at(out, 0);
        let r1 = dec_exprs_at(s, 0)->0;
        assert(r1 =~= exprs_m_at(out, 0));
    }
    Ok(out)
}

/// Decodes a list of set items.
pub fn decode_set_items(items: &Vec<Json>) -> (r: Result<Vec<SetItem>, DecodeError>)
    ensures
        r matches Ok(out) ==> dec_set_items_at(jsons_m(items@), 0) == Some(
            set_items_m_at(out, 0),
        ),
        r is Err ==> dec_set_items_at(jsons_m(items@), 0) is None,
    decreases crate::json::json_height(JsonM::Arr(jsons_m(items@))), 0int,
{
    let ghost s = jsons_m(items@);
    let mut out: Vec<SetItem> = Vec::new();
    let mut i: usize = 0;
    while i < items.len()
        invariant
            0 <= i <= items@.len(),
            s == jsons_m(items@),
            s.len() == items@.len(),
            out@.len() == i,
            forall|k: int|
                0 <= k < i ==> (#[trigger] dec_set_item(s[k])) == Some(set_item_m(out@[k])),
        decreases items@.len() - i,
    {
        proof {
            assert(s[i as int] == json_m(items@[i as int]));
            assert(crate::json::json_height(s[i as int]) < crate::json::json_height(
                JsonM::Arr(s),
            ));
        }
        match decode_set_item(&items[i]) {
            Ok(it) => {
                out.push(it);
            },
            Err(err) => {
                proof {
                    lemma_dec_set_items_at_none(s, 0, i as int);
                }
                return Err(err.in_index(i));
            },
        }
        i += 1;
    }
    proof {
        lemma_dec_set_items_at_some(s, 0);
        lemma_set_items_m_at(out, 0);
        let r1 = dec_set_items_at(s, 0)->0;
        assert(r1 =~= set_items_m_at(out, 0));
    }
    Ok(out)
}

/// Decodes a list of statements.
pub fn decode_stmts(items: &Vec<Json>) -> (r: Result<Vec<Statement>, DecodeError>)
    ensures
        r matches Ok(out) ==> dec_stmts_at(jsons_m(items@), 0) == Some(stmts_m_at(out, 0)),
        r is Err ==> dec_stmts_at(jsons_m(items@), 0) is None,
{
    let ghost s = jsons_m(items@);
    let mut out: Vec<Statement> = Vec::new();
    let mut i: usize = 0;
    while i < items.len()
        invariant
            0 <= i <= items@.len(),
            s == jsons_m(items@),
            s.len() == items@.len(),
            out@.len() == i,
            forall|k: int| 0 <= k < i ==> (#[trigger] dec_stmt(s[k])) == Some(stmt_m(out@[k])),
        decreases items@.len() - i,
    {
        proof {
            assert(s[i as int] == json_m(items@[i as int]));
        }
        match decode_stmt(&items[i]) {
            Ok(st) => {
                out.push(st);
            },
            Err(err) => {
                proof {
                    lemma_dec_stmts_at_none(s, 0, i as int);
                }
                return Err(err.in_index(i));
            },
        }
        i += 1;
    }
    proof {
        lemma_dec_stmts_at_some(s, 0);
        lemma_stmts_m_at(out, 0);
        let r1 = dec_stmts_at(s, 0)->0;
        assert(r1 =~= stmts_m_at(out, 0));
    }
    Ok(out)
}

/// Decodes the operand pair of a binary operation.
fn decode_binop_pair(v: &Json, key: &str) -> (r: Result<(Expression, Expression), DecodeError>)
    ensures
        r matches Ok(p) ==> (v@ is Arr && v@->Arr_0.len() == 2 && dec_expr(v@->Arr_0[0]) == Some(
            expr_m(p.0),
        ) && dec_expr(v@->Arr_0[1]) == Some(expr_m(p.1))),
        r is Err ==> !(v@ is Arr && v@->Arr_0.len() == 2 && dec_expr(v@->Arr_0[0]) is Some
            && dec_expr(v@->Arr_0[1]) is Some),
    decreases crate::json::json_height(v@), 0int,
{
    let items = match v {
        Json::Arr(items) => items,
        _ => {
            return Err(DecodeError::here("expected a two-element array"));
        },
    };
    proof {
        crate::json::lemma_arr_m_at(*items, 0);
        assert(crate::json::arr_m_at(*items, 0) =~= jsons_m(items@));
    }
    if items.len() != 2 {
        return Err(DecodeError::here("expected a two-element array"));
    }
    proof {
        assert(jsons_m(items@)[0] == json_m(items@[0]));
        assert(jsons_m(items@)[1] == json_m(items@[1]));
        assert(crate::json::json_height(v@->Arr_0[0]) < crate::json::json_height(v@));
        assert(crate::json::json_height(v@->Arr_0[1]) < crate::json::json_height(v@));
    }
    let l = match decode_expr(&items[0]) {
        Ok(e) => e,
        Err(e) => {
            return Err(e.in_index(0));
        },
    };
    let r2 = match decode_expr(&items[1]) {
        Ok(e) => e,
        Err(e) => {
            return Err(e.in_index(1));
        },
    };
    Ok((l, r2))
}

/// Decodes an expression.
#[verifier::rlimit(100)]
#[verifier::spinoff_prover]
pub fn decode_expr(j: &Json) -> (r: Result<Expression, DecodeError>)
    ensures
        r matches Ok(v) ==> dec_expr(j@) == Some(expr_m(v)),
        r is Err ==> dec_expr(j@) is None,
    decreases crate::json::json_height(j@), 1int,
{
    match j {
        Json::Str(s) => Ok(Expression::String(s.clone())),
        Json::Num(n) => {
            let n = *n;
            if 0 <= n && n <= u32::MAX as i64 {
                Ok(Expression::Number(n as u32))
            } else {
                Err(DecodeError::here("number out of range"))
            }
        },
        Json::Bool(b) => Ok(Expression::Boolean(*b)),
        Json::Null => Err(DecodeError::here("expected an expression")),
        Json::Arr(items) => {
            proof {
                crate::json::lemma_arr_m_at(*items, 0);
                assert(crate::json::arr_m_at(*items, 0) =~= jsons_m(items@));
            }
            match decode_exprs(items) {
                Ok(es) => Ok(Expression::List(es)),
                Err(e) => Err(e),
            }
        },
        Json::Obj(entries) => {
            proof {
                crate::json::lemma_obj_m_at(*entries, 0);
                assert(crate::json::obj_m_at(*entries, 0) =~= crate::json::entries_m(entries@));
            }
            if entries.len() != 1 {
                return Err(DecodeError::here("expected a single-property object"));
            }
            let ghost s = crate::json::entries_m(entries@);
            let key = &entries[0].0;
            let v = &entries[0].1;
            proof {
                assert(s[0] == (key@, v@));
                assert(crate::json::json_height(v@) < crate::json::json_height(j@));
            }
            if crate::json::str_eq(key.as_str(), "&") {
                let p = match decode_binop_pair(v, "&") {
                    Ok(p) => p,
                    Err(e) => {
                        proof {
                            assert(dec_binop_operands(v@, 0) is None);
                        }
                        return Err(e.in_key("&"));
                    },
                };
                Ok(
                    Expression::BinaryOperation(
                        Box::new(BinaryOperation::AND(p.0, p.1)),
                    ),
                )
            } else if crate::json::str_eq(key.as_str(), "|") {
                let p = match decode_binop_pair(v, "|") {
                    Ok(p) => p,
                    Err(e) => {
                        proof {
                            assert(dec_binop_operands(v@, 1) is None);
                        }
                        return Err(e.in_key("|"));
                    },
                };
                Ok(Expression::BinaryOperation(Box::new(BinaryOperation::OR(p.0, p.1))))
            } else if crate::json::str_eq(key.as_str(), "^") {
                let p = match decode_binop_pair(v, "^") {
                    Ok(p) => p,
                    Err(e) => {
                        proof {
                            assert(dec_binop_operands(v@, 2) is None);
                        }
                        return Err(e.in_key("^"));
                    },
                };
                Ok(
                    Expression::BinaryOperation(
                        Box::new(BinaryOperation::XOR(p.0, p.1)),
                    ),
                )
            } else if crate::json::str_eq(key.as_str(), "<<") {
                let p = match decode_binop_pair(v, "<<") {
                    Ok(p) => p,
                    Err(e) => {
                        proof {
                            assert(dec_binop_operands(v@, 3) is None);
                        }
                        return Err(e.in_key("<<"));
                    },
                };
                Ok(
                    Expression::BinaryOperation(
                        Box::new(BinaryOperation::LSHIFT(p.0, p.1)),
                    ),
                )
            } else if crate::json::str_eq(key.as_str(), ">>") {
                let p = match decode_binop_pair(v, ">>") {
                    Ok(p) => p,
                    Err(e) => {
                        proof {
                            assert(dec_binop_operands(v@, 4) is None);
                        }
                        return Err(e.in_key(">>"));
                    },
                };
                Ok(
                    Expression::BinaryOperation(
                        Box::new(BinaryOperation::RSHIFT(p.0, p.1)),
                    ),
                )
            } else if crate::json::str_eq(key.as_str(), "range") {
                let p = match decode_binop_pair(v, "range") {
                    Ok(p) => p,
                    Err(e) => {
                        return Err(e.in_key("range"));
                    },
                };
                Ok(
                    Expression::Range(
                        Box::new(Range { low: Box::new(p.0), high: Box::new(p.1) }),
                    ),
                )
            } else if crate::json::str_eq(key.as_str(), "concat") {
                let items2 = match v {
                    Json::Arr(items2) => items2,
                    _ => {
                        return Err(DecodeError::at_key("concat", "expected an array"));
                    },
                };
                proof {
                    crate::json::lemma_arr_m_at(*items2, 0);
                    assert(crate::json::arr_m_at(*items2, 0) =~= jsons_m(items2@));
                }
                match decode_exprs(items2) {
                    Ok(es) => Ok(Expression::Named(NamedExpression::Concat(es))),
                    Err(e) => Err(e.in_key("concat")),
                }
            } else if crate::json::str_eq(key.as_str(), "set") {
                let items2 = match v {
                    Json::Arr(items2) => items2,
                    _ => {
                        return Err(DecodeError::at_key("set", "expected an array"));
                    },
                };
                proof {
                    crate::json::lemma_arr_m_at(*items2, 0);
                    assert(crate::json::arr_m_at(*items2, 0) =~= jsons_m(items2@));
                }
                match decode_set_items(items2) {
                    Ok(its) => Ok(Expression::Named(NamedExpression::SetExpr(its))),
                    Err(e) => Err(e.in_key("set")),
                }
            } else if crate::json::str_eq(key.as_str(), "map") {
                match decode_map_expr(v) {
                    Ok(m) => Ok(
                        Expression::Named(NamedExpression::MapExpr(Box::new(m))),
                    ),
                    Err(e) => Err(e.in_key("map")),
                }
            } else if crate::json::str_eq(key.as_str(), "prefix") {
                match decode_prefix(v) {
                    Ok(p) => Ok(Expression::Named(NamedExpression::Prefix(p))),
                    Err(e) => Err(e.in_key("prefix")),
                }
            } else if crate::json::str_eq(key.as_str(), "payload") {
                match decode_payload(v) {
                    Ok(p) => Ok(Expression::Named(NamedExpression::Payload(p))),
                    Err(e) => Err(e.in_key("payload")),
                }
            } else if crate::json::str_eq(key.as_str(), "exthdr") {
                match decode_exthdr(v) {
                    Ok(x) => Ok(Expression::Named(NamedExpression::Exthdr(x))),
                    Err(e) => Err(e.in_key("exthdr")),
                }
            } else if crate::json::str_eq(key.as_str(), "tcp option") {
                match decode_tcp_option(v) {
                    Ok(x) => Ok(Expression::Named(NamedExpression::TcpOption(x))),
                    Err(e) => Err(e.in_key("tcp option")),
                }
            } else if crate::json::str_eq(key.as_str(), "sctp chunk") {
                match decode_sctp_chunk(v) {
                    Ok(x) => Ok(Expression::Named(NamedExpression::SctpChunk(x))),
                    Err(e) => Err(e.in_key("sctp chunk")),
                }
            } else if crate::json::str_eq(key.as_str(), "meta") {
                match decode_meta(v) {
                    Ok(x) => Ok(Expression::Named(NamedExpression::Meta(x))),
                    Err(e) => Err(e.in_key("meta")),
                }
            } else if crate::json::str_eq(key.as_str(), "rt") {
                match decode_rt(v) {
                    Ok(x) => Ok(Expression::Named(NamedExpression::RT(x))),
                    Err(e) => Err(e.in_key("rt")),
                }
            } else if crate::json::str_eq(key.as_str(), "ct") {
                match decode_ct(v) {
                    Ok(x) => Ok(Expression::Named(NamedExpression::CT(x))),
                    Err(e) => Err(e.in_key("ct")),
                }
            } else if crate::json::str_eq(key.as_str(), "numgen") {
                match decode_numgen(v) {
                    Ok(x) => Ok(Expression::Named(NamedExpression::Numgen(x))),
                    Err(e) => Err(e.in_key("numgen")),
                }
            } else if crate::json::str_eq(key.as_str(), "jhash") {
                match decode_jhash(v) {
                    Ok(h) => Ok(Expression::Named(NamedExpression::JHash(h))),
                    Err(e) => Err(e.in_key("jhash")),
                }
            } else if crate::json::str_eq(key.as_str(), "symhash") {
                match decode_symhash(v) {
                    Ok(x) => Ok(Expression::Named(NamedExpression::SymHash(x))),
                    Err(e) => Err(e.in_key("symhash")),
                }
            } else if crate::json::str_eq(key.as_str(), "fib") {
                match decode_fib(v) {
                    Ok(x) => Ok(Expression::Named(NamedExpression::Fib(x))),
                    Err(e) => Err(e.in_key("fib")),
                }
            } else if crate::json::str_eq(key.as_str(), "elem") {
                match decode_elem(v) {
                    Ok(el) => Ok(Expression::Named(NamedExpression::Elem(el))),
                    Err(e) => Err(e.in_key("elem")),
                }
            } else if crate::json::str_eq(key.as_str(), "socket") {
                match decode_socket(v) {
                    Ok(x) => Ok(Expression::Named(NamedExpression::Socket(x))),
                    Err(e) => Err(e.in_key("socket")),
                }
            } else if crate::json::str_eq(key.as_str(), "osf") {
                match decode_osf(v) {
                    Ok(x) => Ok(Expression::Named(NamedExpression::Osf(x))),
                    Err(e) => Err(e.in_key("osf")),
                }
            } else if crate::json::str_eq(key.as_str(), "jump") {
                match decode_jump_target(v) {
                    Ok(t) => Ok(Expression::Verdict(Verdict::Jump(t))),
                    Err(e) => Err(e.in_key("jump")),
                }
            } else if crate::json::str_eq(key.as_str(), "goto") {
                match decode_jump_target(v) {
                    Ok(t) => Ok(Expression::Verdict(Verdict::Goto(t))),
                    Err(e) => Err(e.in_key("goto")),
                }
            } else if crate::json::str_eq(key.as_str(), "accept") {
                match v {
                    Json::Null => Ok(Expression::Verdict(Verdict::Accept)),
                    _ => Err(DecodeError::at_key("accept", "expected null")),
                }
            } else if crate::json::str_eq(key.as_str(), "drop") {
                match v {
                    Json::Null => Ok(Expression::Verdict(Verdict::Drop)),
                    _ => Err(DecodeError::at_key("drop", "expected null")),
                }
            } else if crate::json::str_eq(key.as_str(), "continue") {
                match v {
                    Json::Null => Ok(Expression::Verdict(Verdict::Continue)),
                    _ => Err(DecodeError::at_key("continue", "expected null")),
                }
            } else if crate::json::str_eq(key.as_str(), "return") {
                match v {
                    Json::Null => Ok(Expression::Verdict(Verdict::Return)),
                    _ => Err(DecodeError::at_key("return", "expected null")),
                }
            } else {
                Err(DecodeError::here("unrecognized expression property"))
            }
        },
    }
}

/// Decodes a jump target.
pub fn decode_jump_target(j: &Json) -> (r: Result<JumpTarget, DecodeError>)
    ensures
        r matches Ok(v) ==> dec_jump_target(j@) == Some(JumpTargetM { target: v.target@ }),
        r is Err ==> dec_jump_target(j@) is None,
{
    let entries = get_entries(j)?;
    let target = get_req_str(entries, "target")?;
    Ok(JumpTarget { target })
}

/// Decodes an anonymous or named counter value.
pub fn decode_counter_value(j: &Json) -> (r: Result<Counter, DecodeError>)
    ensures
        r matches Ok(v) ==> dec_counter(j@) == Some(counter_m(v)),
        r is Err ==> dec_counter(j@) is None,
{
    match j {
        Json::Str(s) => Ok(Counter::Named(s.clone())),
        Json::Null => Ok(Counter::Anonymous(None)),
        Json::Obj(_) => match decode_anon_counter(j) {
            Ok(a) => Ok(Counter::Anonymous(Some(a))),
            Err(e) => Err(e),
        },
        _ => Err(DecodeError::here("expected a counter")),
    }
}

/// Decodes a set item.
pub fn decode_set_item(j: &Json) -> (r: Result<SetItem, DecodeError>)
    ensures
        r matches Ok(v) ==> dec_set_item(j@) == Some(set_item_m(v)),
        r is Err ==> dec_set_item(j@) is None,
    decreases crate::json::json_height(j@), 2int,
{
    let two = match j {
        Json::Arr(items) => {
            proof {
                crate::json::lemma_arr_m_at(*items, 0);
                assert(crate::json::arr_m_at(*items, 0) =~= jsons_m(items@));
            }
            items.len() == 2
        },
        _ => false,
    };
    if two {
        let items = match j {
            Json::Arr(items) => items,
            _ => {
                return Err(DecodeError::here("expected an array"));
            },
        };
        proof {
            crate::json::lemma_arr_m_at(*items, 0);
            assert(crate::json::arr_m_at(*items, 0) =~= jsons_m(items@));
            assert(jsons_m(items@)[0] == json_m(items@[0]));
            assert(jsons_m(items@)[1] == json_m(items@[1]));
            assert(crate::json::json_height(j@->Arr_0[0]) < crate::json::json_height(j@));
            assert(crate::json::json_height(j@->Arr_0[1]) < crate::json::json_height(j@));
        }
        let k = match decode_expr(&items[0]) {
            Ok(e) => e,
            Err(e) => {
                return Err(e.in_index(0));
            },
        };
        match decode_expr(&items[1]) {
            Ok(v) => Ok(SetItem::Mapping(k, v)),
            Err(_) => match decode_stmt(&items[1]) {
                Ok(st) => Ok(SetItem::MappingStatement(k, Box::new(st))),
                Err(e) => Err(e.in_index(1)),
            },
        }
    } else {
        match decode_expr(j) {
            Ok(e) => Ok(SetItem::Element(e)),
            Err(e) => Err(e),
        }
    }
}

/// Decodes a statement.
#[verifier::rlimit(100)]
#[verifier::spinoff_prover]
pub fn decode_stmt(j: &Json) -> (r: Result<Statement, DecodeError>)
    ensures
        r matches Ok(v) ==> dec_stmt(j@) == Some(stmt_m(v)),
        r is Err ==> dec_stmt(j@) is None,
    decreases crate::json::json_height(j@), 1int,
{
    match j {
        Json::Obj(entries) => {
            proof {
                crate::json::lemma_obj_m_at(*entries, 0);
                assert(crate::json::obj_m_at(*entries, 0) =~= crate::json::entries_m(entries@));
            }
            if entries.len() != 1 {
                return Err(DecodeError::here("expected a single-property object"));
            }
            let ghost s = crate::json::entries_m(entries@);
            let key = &entries[0].0;
            let v = &entries[0].1;
            proof {
                assert(s[0] == (key@, v@));
                assert(crate::json::json_height(v@) < crate::json::json_height(j@));
            }
            if crate::json::str_eq(key.as_str(), "accept") {
                match decode_unit_payload(v) {
                    Ok(p) => Ok(
                        Statement::Accept(
                            if p {
                                Some(crate::stmt::Accept {  })
                            } else {
                                None
                            },
                        ),
                    ),
                    Err(e) => Err(e.in_key("accept")),
                }
            } else if crate::json::str_eq(key.as_str(), "drop") {
                match decode_unit_payload(v) {
                    Ok(p) => Ok(
                        Statement::Drop(
                            if p {
                                Some(crate::stmt::Drop {  })
                            } else {
                                None
                            },
                        ),
                    ),
                    Err(e) => Err(e.in_key("drop")),
                }
            } else if crate::json::str_eq(key.as_str(), "continue") {
                match decode_unit_payload(v) {
                    Ok(p) => Ok(
                        Statement::Continue(
                            if p {
                                Some(crate::stmt::Continue {  })
                            } else {
                                None
                            },
                        ),
                    ),
                    Err(e) => Err(e.in_key("continue")),
                }
            } else if crate::json::str_eq(key.as_str(), "return") {
                match decode_unit_payload(v) {
                    Ok(p) => Ok(
                        Statement::Return(
                            if p {
                                Some(crate::stmt::Return {  })
                            } else {
                                None
                            },
                        ),
                    ),
                    Err(e) => Err(e.in_key("return")),
                }
            } else if crate::json::str_eq(key.as_str(), "jump") {
                match decode_jump_target(v) {
                    Ok(t) => Ok(Statement::Jump(t)),
                    Err(e) => Err(e.in_key("jump")),
                }
            } else if crate::json::str_eq(key.as_str(), "goto") {
                match decode_jump_target(v) {
                    Ok(t) => Ok(Statement::Goto(t)),
                    Err(e) => Err(e.in_key("goto")),
                }
            } else if crate::json::str_eq(key.as_str(), "match") {
                match decode_match(v) {
                    Ok(m) => Ok(Statement::Match(m)),
                    Err(e) => Err(e.in_key("match")),
                }
            } else if crate::json::str_eq(key.as_str(), "counter") {
                match decode_counter_value(v) {
                    Ok(c) => Ok(Statement::Counter(c)),
                    Err(e) => Err(e.in_key("counter")),
                }
            } else if crate::json::str_eq(key.as_str(), "mangle") {
                match decode_mangle(v) {
                    Ok(m) => Ok(Statement::Mangle(m)),
                    Err(e) => Err(e.in_key("mangle")),
                }
            } else if crate::json::str_eq(key.as_str(), "quota") {
                match v {
                    Json::Str(s2) => Ok(
                        Statement::Quota(QuotaOrQuotaRef::QuotaRef(s2.clone())),
                    ),
                    Json::Obj(_) => match decode_quota_stmt(v) {
                        Ok(a) => Ok(Statement::Quota(QuotaOrQuotaRef::Quota(a))),
                        Err(e) => Err(e.in_key("quota")),
                    },
                    _ => Err(DecodeError::at_key("quota", "expected a quota")),
                }
            } else if crate::json::str_eq(key.as_str(), "limit") {
                match decode_limit_stmt(v) {
                    Ok(l) => Ok(Statement::Limit(l)),
                    Err(e) => Err(e.in_key("limit")),
                }
            } else if crate::json::str_eq(key.as_str(), "flow") {
                match decode_flow(v) {
                    Ok(f) => Ok(Statement::Flow(f)),
                    Err(e) => Err(e.in_key("flow")),
                }
            } else if crate::json::str_eq(key.as_str(), "fwd") {
                match v {
                    Json::Null => Ok(Statement::FWD(None)),
                    _ => match decode_fwd(v) {
                        Ok(f) => Ok(Statement::FWD(Some(f))),
                        Err(e) => Err(e.in_key("fwd")),
                    },
                }
            } else if crate::json::str_eq(key.as_str(), "notrack") {
                match v {
                    Json::Null => Ok(Statement::Notrack),
                    _ => Err(DecodeError::at_key("notrack", "expected null")),
                }
            } else if crate::json::str_eq(key.as_str(), "dup") {
                match decode_dup(v) {
                    Ok(d) => Ok(Statement::Dup(d)),
                    Err(e) => Err(e.in_key("dup")),
                }
            } else if crate::json::str_eq(key.as_str(), "snat") {
                match decode_opt_nat(v) {
                    Ok(o) => Ok(Statement::SNAT(o)),
                    Err(e) => Err(e.in_key("snat")),
                }
            } else if crate::json::str_eq(key.as_str(), "dnat") {
                match decode_opt_nat(v) {
                    Ok(o) => Ok(Statement::DNAT(o)),
                    Err(e) => Err(e.in_key("dnat")),
                }
            } else if crate::json::str_eq(key.as_str(), "masquerade") {
                match decode_opt_nat(v) {
                    Ok(o) => Ok(Statement::Masquerade(o)),
                    Err(e) => Err(e.in_key("masquerade")),
                }
            } else if crate::json::str_eq(key.as_str(), "redirect") {
                match decode_opt_nat(v) {
                    Ok(o) => Ok(Statement::Redirect(o)),
                    Err(e) => Err(e.in_key("redirect")),
                }
            } else if crate::json::str_eq(key.as_str(), "reject") {
                match v {
                    Json::Null => Ok(Statement::Reject(None)),
                    _ => match decode_reject(v) {
                        Ok(x) => Ok(Statement::Reject(Some(x))),
                        Err(e) => Err(e.in_key("reject")),
                    },
                }
            } else if crate::json::str_eq(key.as_str(), "set") {
                match decode_set_stmt(v) {
                    Ok(s2) => Ok(Statement::SetStmt(s2)),
                    Err(e) => Err(e.in_key("set")),
                }
            } else if crate::json::str_eq(key.as_str(), "log") {
                match v {
                    Json::Null => Ok(Statement::Log(None)),
                    _ => match decode_log(v) {
                        Ok(l) => Ok(Statement::Log(Some(l))),
                        Err(e) => Err(e.in_key("log")),
                    },
                }
            } else if crate::json::str_eq(key.as_str(), "ct helper") {
                match v {
                    Json::Str(h) => Ok(Statement::CTHelper(h.clone())),
                    _ => Err(DecodeError::at_key("ct helper", "expected a string")),
                }
            } else if crate::json::str_eq(key.as_str(), "meter") {
                match decode_meter_stmt(v) {
                    Ok(m) => Ok(Statement::Meter(m)),
                    Err(e) => Err(e.in_key("meter")),
                }
            } else if crate::json::str_eq(key.as_str(), "queue") {
                match decode_queue(v) {
                    Ok(q) => Ok(Statement::Queue(q)),
                    Err(e) => Err(e.in_key("queue")),
                }
            } else if crate::json::str_eq(key.as_str(), "vmap") {
                match decode_vmap(v) {
                    Ok(x) => Ok(Statement::VerdictMap(x)),
                    Err(e) => Err(e.in_key("vmap")),
                }
            } else if crate::json::str_eq(key.as_str(), "ct count") {
                match decode_ctcount(v) {
                    Ok(c) => Ok(Statement::CTCount(c)),
                    Err(e) => Err(e.in_key("ct count")),
                }
            } else if crate::json::str_eq(key.as_str(), "ct timeout") {
                match decode_expr(v) {
                    Ok(e) => Ok(Statement::CTTimeout(e)),
                    Err(e) => Err(e.in_key("ct timeout")),
                }
            } else if crate::json::str_eq(key.as_str(), "ct expectation") {
                match decode_expr(v) {
                    Ok(e) => Ok(Statement::CTExpectation(e)),
                    Err(e) => Err(e.in_key("ct expectation")),
                }
            } else if crate::json::str_eq(key.as_str(), "xt") {
                match v {
                    Json::Null => Ok(Statement::XT(None)),
                    _ => Ok(Statement::XT(Some(encode_json_copy(v)))),
                }
            } else if crate::json::str_eq(key.as_str(), "synproxy") {
                match decode_synproxy_stmt(v) {
                    Ok(p) => Ok(Statement::SynProxy(p)),
                    Err(e) => Err(e.in_key("synproxy")),
                }
            } else if crate::json::str_eq(key.as_str(), "tproxy") {
                match decode_tproxy(v) {
                    Ok(t) => Ok(Statement::TProxy(t)),
                    Err(e) => Err(e.in_key("tproxy")),
                }
            } else {
                Err(DecodeError::here("unrecognized statement property"))
            }
        },
        _ => Err(DecodeError::here("expected a statement")),
    }
}

/// Decodes the payload of a verdict-like statement.
pub fn decode_unit_payload(v: &Json) -> (r: Result<bool, DecodeError>)
    ensures
        r matches Ok(p) ==> dec_unit_payload(v@) == Some(p),
        r is Err ==> dec_unit_payload(v@) is None,
{
    match v {
        Json::Null => Ok(false),
        Json::Obj(_) => Ok(true),
        _ => Err(DecodeError::here("expected null or an object")),
    }
}

/// Decodes a NAT statement payload.
pub fn decode_opt_nat(v: &Json) -> (r: Result<Option<NAT>, DecodeError>)
    ensures
        r matches Ok(o) ==> dec_opt_nat_payload(v@) == Some(opt_nat_m(o)),
        r is Err ==> dec_opt_nat_payload(v@) is None,
    decreases crate::json::json_height(v@), 2int,
{
    match v {
        Json::Null => Ok(None),
        _ => {
            let entries = get_entries(v)?;
            let addr = match crate::json::obj_lookup(entries, "addr") {
                None => None,
                Some(Json::Null) => None,
                Some(x) => {
                    proof {
                        assert(crate::json::json_height(x@) < crate::json::json_height(v@));
                    }
                    match decode_expr(x) {
                        Ok(e) => Some(e),
                        Err(e) => {
                            return Err(e.in_key("addr"));
                        },
                    }
                },
            };
            let family = match get_opt_str(entries, "family")? {
                Some(tk) => match crate::stmt::nat_family_from_wire(tk.as_str()) {
                    Some(x) => Some(x),
                    None => {
                        return Err(DecodeError::at_key("family", "unknown enum value"));
                    },
                },
                None => None,
            };
            let port = get_opt_u32(entries, "port")?;
            let flags = match crate::json::obj_lookup(entries, "flags") {
                None => None,
                Some(Json::Null) => None,
                Some(x) => match decode_nat_flags(x) {
                    Ok(fs) => Some(fs),
                    Err(e) => {
                        return Err(e.in_key("flags"));
                    },
                },
            };
            Ok(Some(NAT { addr, family, port, flags }))
        },
    }
}

/// Decodes a forward statement payload.
pub fn decode_fwd(v: &Json) -> (r: Result<FWD, DecodeError>)
    ensures
        r matches Ok(f) ==> dec_fwd(v@) == Some(fwd_m(f)),
        r is Err ==> dec_fwd(v@) is None,
    decreases crate::json::json_height(v@), 2int,
{
    let entries = get_entries(v)?;
    let dev = match crate::json::obj_lookup(entries, "dev") {
        None => None,
        Some(Json::Null) => None,
        Some(x) => {
            proof {
                assert(crate::json::json_height(x@) < crate::json::json_height(v@));
            }
            match decode_expr(x) {
                Ok(e) => Some(e),
                Err(e) => {
                    return Err(e.in_key("dev"));
                },
            }
        },
    };
    let family = match get_opt_str(entries, "family")? {
        Some(tk) => match crate::stmt::fwd_family_from_wire(tk.as_str()) {
            Some(x) => Some(x),
            None => {
                return Err(DecodeError::at_key("family", "unknown enum value"));
            },
        },
        None => None,
    };
    let addr = match crate::json::obj_lookup(entries, "addr") {
        None => None,
        Some(Json::Null) => None,
        Some(x) => {
            proof {
                assert(crate::json::json_height(x@) < crate::json::json_height(v@));
            }
            match decode_expr(x) {
                Ok(e) => Some(e),
                Err(e) => {
                    return Err(e.in_key("addr"));
                },
            }
        },
    };
    Ok(FWD { dev, family, addr })
}

/// Reads a required expression-valued property.
fn get_req_expr_field(
    entries: &Vec<(String, Json)>,
    k: &str,
    Ghost(vh): Ghost<JsonM>,
) -> (r: Result<Expression, DecodeError>)
    requires
        vh is Obj && vh->Obj_0 == crate::json::entries_m(entries@),
    ensures
        r matches Ok(e) ==> (crate::json::lookup_entries(
            crate::json::entries_m(entries@),
            k@,
        ) matches Some(v) && dec_expr(v) == Some(expr_m(e))),
        r is Err ==> (match crate::json::lookup_entries(crate::json::entries_m(entries@), k@) {
            Some(v) => dec_expr(v) is None,
            None => true,
        }),
    decreases crate::json::json_height(vh), 0int,
{
    match crate::json::obj_lookup(entries, k) {
        Some(x) => {
            proof {
                assert(crate::json::json_height(x@) < crate::json::json_height(vh));
            }
            match decode_expr(x) {
                Ok(e) => Ok(e),
                Err(e) => Err(e.in_key(k)),
            }
        },
        None => Err(DecodeError::at_key(k, "missing required property")),
    }
}

/// Decodes an expression map payload.
pub fn decode_map_expr(v: &Json) -> (r: Result<MapExpr, DecodeError>)
    ensures
        r matches Ok(m) ==> dec_map_expr(v@) == Some(map_expr_m(m)),
        r is Err ==> dec_map_expr(v@) is None,
    decreases crate::json::json_height(v@), 2int,
{
    let entries = get_entries(v)?;
    let key = get_req_expr_field(entries, "key", Ghost(v@))?;
    let data = get_req_expr_field(entries, "data", Ghost(v@))?;
    Ok(MapExpr { key, data })
}

/// Decodes a prefix payload.
pub fn decode_prefix(v: &Json) -> (r: Result<Prefix, DecodeError>)
    ensures
        r matches Ok(p) ==> dec_prefix(v@) == Some(prefix_m(p)),
        r is Err ==> dec_prefix(v@) is None,
    decreases crate::json::json_height(v@), 2int,
{
    let entries = get_entries(v)?;
    let addr = get_req_expr_field(entries, "addr", Ghost(v@))?;
    let len = get_req_u32(entries, "len")?;
    Ok(Prefix { addr: Box::new(addr), len })
}

/// Decodes a jhash payload.
pub fn decode_jhash(v: &Json) -> (r: Result<JHash, DecodeError>)
    ensures
        r matches Ok(h) ==> dec_jhash(v@) == Some(jhash_m(h)),
        r is Err ==> dec_jhash(v@) is None,
    decreases crate::json::json_height(v@), 2int,
{
    let entries = get_entries(v)?;
    let hash_mod = get_req_u32(entries, "mod")?;
    let offset = get_opt_u32(entries, "offset")?;
    let ex = get_req_expr_field(entries, "expr", Ghost(v@))?;
    let seed = get_opt_u32(entries, "seed")?;
    Ok(JHash { hash_mod, offset, expr: Box::new(ex), seed })
}

/// Decodes an elem payload.
pub fn decode_elem(v: &Json) -> (r: Result<Elem, DecodeError>)
    ensures
        r matches Ok(el) ==> dec_elem(v@) == Some(elem_m(el)),
        r is Err ==> dec_elem(v@) is None,
    decreases crate::json::json_height(v@), 2int,
{
    let entries = get_entries(v)?;
    let val = get_req_expr_field(entries, "val", Ghost(v@))?;
    let timeout = get_opt_u32(entries, "timeout")?;
    let expires = get_opt_u32(entries, "expires")?;
    let comment = get_opt_str(entries, "comment")?;
    let counter = match crate::json::obj_lookup(entries, "counter") {
        None => None,
        Some(Json::Null) => None,
        Some(x) => match decode_counter_value(x) {
            Ok(c) => Some(c),
            Err(e) => {
                return Err(e.in_key("counter"));
            },
        },
    };
    Ok(Elem { val: Box::new(val), timeout, expires, comment, counter })
}

/// Decodes a match payload.
pub fn decode_match(v: &Json) -> (r: Result<Match, DecodeError>)
    ensures
        r matches Ok(m) ==> dec_match(v@) == Some(
            MatchM { left: expr_m(m.left), right: expr_m(m.right), op: m.op },
        ),
        r is Err ==> dec_match(v@) is None,
    decreases crate::json::json_height(v@), 2int,
{
    let entries = get_entries(v)?;
    let left = get_req_expr_field(entries, "left", Ghost(v@))?;
    let right = get_req_expr_field(entries, "right", Ghost(v@))?;
    let op_s = get_req_str(entries, "op")?;
    let op = match crate::stmt::operator_from_wire(op_s.as_str()) {
        Some(o) => o,
        None => {
            return Err(DecodeError::at_key("op", "unknown enum value"));
        },
    };
    Ok(Match { left, right, op })
}

/// Decodes a mangle payload.
pub fn decode_mangle(v: &Json) -> (r: Result<Mangle, DecodeError>)
    ensures
        r matches Ok(m) ==> dec_mangle(v@) == Some(
            MangleM { key: expr_m(m.key), value: expr_m(m.value) },
        ),
        r is Err ==> dec_mangle(v@) is None,
    decreases crate::json::json_height(v@), 2int,
{
    let entries = get_entries(v)?;
    let key = get_req_expr_field(entries, "key", Ghost(v@))?;
    let value = get_req_expr_field(entries, "value", Ghost(v@))?;
    Ok(Mangle { key, value })
}

/// Decodes a dup payload.
pub fn decode_dup(v: &Json) -> (r: Result<Dup, DecodeError>)
    ensures
        r matches Ok(d) ==> dec_dup(v@) == Some(
            DupM {
                addr: expr_m(d.addr),
                dev: match d.dev {
                    Some(e) => Some(expr_m(e)),
                    None => None,
                },
            },
        ),
        r is Err ==> dec_dup(v@) is None,
    decreases crate::json::json_height(v@), 2int,
{
    let entries = get_entries(v)?;
    let addr = get_req_expr_field(entries, "addr", Ghost(v@))?;
    let dev = match crate::json::obj_lookup(entries, "dev") {
        None => None,
        Some(Json::Null) => None,
        Some(x) => {
            proof {
                assert(crate::json::json_height(x@) < crate::json::json_height(v@));
            }
            match decode_expr(x) {
                Ok(e) => Some(e),
                Err(e) => {
                    return Err(e.in_key("dev"));
                },
            }
        },
    };
    Ok(Dup { addr, dev })
}

/// Decodes a set statement payload.
pub fn decode_set_stmt(v: &Json) -> (r: Result<SetStmt, DecodeError>)
    ensures
        r matches Ok(s2) ==> dec_set_stmt(v@) == Some(
            SetStmtM { op: s2.op, elem: expr_m(s2.elem), set: s2.set@ },
        ),
        r is Err ==> dec_set_stmt(v@) is None,
    decreases crate::json::json_height(v@), 2int,
{
    let entries = get_entries(v)?;
    let op_s = get_req_str(entries, "op")?;
    let op = match crate::stmt::set_op_from_wire(op_s.as_str()) {
        Some(o) => o,
        None => {
            return Err(DecodeError::at_key("op", "unknown enum value"));
        },
    };
    let elem = get_req_expr_field(entries, "elem", Ghost(v@))?;
    let set = get_req_str(entries, "set")?;
    Ok(SetStmt { op, elem, set })
}

/// Decodes a meter payload.
pub fn decode_meter_stmt(v: &Json) -> (r: Result<Meter, DecodeError>)
    ensures
        r matches Ok(m) ==> dec_meter_stmt(v@) == Some(
            MeterM { name: m.name@, key: expr_m(m.key), stmt: Box::new(stmt_m(*m.stmt)) },
        ),
        r is Err ==> dec_meter_stmt(v@) is None,
    decreases crate::json::json_height(v@), 2int,
{
    let entries = get_entries(v)?;
    let name = get_req_str(entries, "name")?;
    let key = get_req_expr_field(entries, "key", Ghost(v@))?;
    let st = match crate::json::obj_lookup(entries, "stmt") {
        Some(x) => {
            proof {
                assert(crate::json::json_height(x@) < crate::json::json_height(v@));
            }
            match decode_stmt(x) {
                Ok(e) => e,
                Err(e) => {
                    return Err(e.in_key("stmt"));
                },
            }
        },
        None => {
            return Err(DecodeError::at_key("stmt", "missing required property"));
        },
    };
    Ok(Meter { name, key, stmt: Box::new(st) })
}

/// Decodes a queue payload.
pub fn decode_queue(v: &Json) -> (r: Result<Queue, DecodeError>)
    ensures
        r matches Ok(q) ==> dec_queue(v@) == Some(
            QueueM {
                num: expr_m(q.num),
                flags: match q.flags {
                    Some(f) => Some(f@),
                    None => None,
                },
            },
        ),
        r is Err ==> dec_queue(v@) is None,
    decreases crate::json::json_height(v@), 2int,
{
    let entries = get_entries(v)?;
    let num = get_req_expr_field(entries, "num", Ghost(v@))?;
    let flags = match crate::json::obj_lookup(entries, "flags") {
        None => None,
        Some(Json::Null) => None,
        Some(x) => match decode_queue_flags(x) {
            Ok(fs) => Some(fs),
            Err(e) => {
                return Err(e.in_key("flags"));
            },
        },
    };
    Ok(Queue { num, flags })
}

/// Decodes a verdict map payload.
pub fn decode_vmap(v: &Json) -> (r: Result<VerdictMap, DecodeError>)
    ensures
        r matches Ok(x) ==> dec_vmap(v@) == Some(
            VerdictMapM { key: expr_m(x.key), data: expr_m(x.data) },
        ),
        r is Err ==> dec_vmap(v@) is None,
    decreases crate::json::json_height(v@), 2int,
{
    let entries = get_entries(v)?;
    let key = get_req_expr_field(entries, "key", Ghost(v@))?;
    let data = get_req_expr_field(entries, "data", Ghost(v@))?;
    Ok(VerdictMap { key, data })
}

/// Decodes a ct count payload.
pub fn decode_ctcount(v: &Json) -> (r: Result<CTCount, DecodeError>)
    ensures
        r matches Ok(c) ==> dec_ctcount(v@) == Some(CTCountM { val: expr_m(c.val), inv: c.inv }),
        r is Err ==> dec_ctcount(v@) is None,
    decreases crate::json::json_height(v@), 2int,
{
    let entries = get_entries(v)?;
    let val = get_req_expr_field(entries, "val", Ghost(v@))?;
    let inv = get_opt_bool(entries, "inv")?;
    Ok(CTCount { val, inv })
}

/// Appends an optional chain type property, omitted when absent.
fn push_opt_chain_type_field(es: &mut Vec<(String, Json)>, o: Option<crate::types::NfChainType>)
    ensures
        crate::json::entries_m(final(es)@) == crate::json::entries_m(old(es)@) + fopt_str(
            "type"@,
            (match o {
                Some(x) => Some(crate::types::chain_type_tok(x)),
                None => None,
            }),
        ),
{
    match o {
        Some(x) => push_field(es, "type", Json::Str(crate::types::chain_type_to_wire(x).to_owned())),
        None => {
            proof {
                assert(crate::json::entries_m(es@) =~= crate::json::entries_m(es@) + Seq::<
                    (Seq<char>, JsonM),
                >::empty());
            }
        },
    }
}

/// Appends an optional hook property, omitted when absent.
fn push_opt_hook_field(es: &mut Vec<(String, Json)>, o: Option<crate::types::NfHook>)
    ensures
        crate::json::entries_m(final(es)@) == crate::json::entries_m(old(es)@) + fopt_str(
            "hook"@,
            (match o {
                Some(x) => Some(crate::types::hook_tok(x)),
                None => None,
            }),
        ),
{
    match o {
        Some(x) => push_field(es, "hook", Json::Str(crate::types::hook_to_wire(x).to_owned())),
        None => {
            proof {
                assert(crate::json::entries_m(es@) =~= crate::json::entries_m(es@) + Seq::<
                    (Seq<char>, JsonM),
                >::empty());
            }
        },
    }
}

/// Appends an optional chain policy property, omitted when absent.
fn push_opt_chain_policy_field(es: &mut Vec<(String, Json)>, o: Option<crate::types::NfChainPolicy>)
    ensures
        crate::json::entries_m(final(es)@) == crate::json::entries_m(old(es)@) + fopt_str(
            "policy"@,
            (match o {
                Some(x) => Some(crate::types::chain_policy_tok(x)),
                None => None,
            }),
        ),
{
    match o {
        Some(x) => push_field(
            es,
            "policy",
            Json::Str(crate::types::chain_policy_to_wire(x).to_owned()),
        ),
        None => {
            proof {
                assert(crate::json::entries_m(es@) =~= crate::json::entries_m(es@) + Seq::<
                    (Seq<char>, JsonM),
                >::empty());
            }
        },
    }
}

/// Abstraction of a vector of strings.
pub open spec fn strs_m(s: Seq<String>) -> Seq<Seq<char>> {
    Seq::new(s.len(), |i: int| s[i]@)
}

/// The wire form of a list of strings.
pub open spec fn enc_strs(s: Seq<Seq<char>>) -> JsonM {
    JsonM::Arr(Seq::new(s.len(), |i: int| JsonM::Str(s[i])))
}

/// The string list a wire value stands for, if any.
pub open spec fn dec_strs(j: JsonM) -> Option<Seq<Seq<char>>> {
    if !(j is Arr) {
        None
    } else {
        let s = j->Arr_0;
        if forall|i: int| 0 <= i < s.len() ==> (#[trigger] s[i]) is Str {
            Some(Seq::new(s.len(), |i: int| s[i]->Str_0))
        } else {
            None
        }
    }
}

/// Encodes a list of strings.
pub fn encode_strs(items: &Vec<String>) -> (r: Json)
    ensures
        r@ == enc_strs(strs_m(items@)),
{
    let mut out: Vec<Json> = Vec::new();
    let mut i: usize = 0;
    while i < items.len()
        invariant
            0 <= i <= items@.len(),
            out@.len() == i,
            forall|k: int| 0 <= k < i ==> json_m(out@[k]) == JsonM::Str(items@[k]@),
        decreases items@.len() - i,
    {
        out.push(Json::Str(items[i].clone()));
        i += 1;
    }
    let r = finish_arr(out);
    proof {
        assert(r@->Arr_0 =~= enc_strs(strs_m(items@))->Arr_0);
    }
    r
}

/// Decodes a list of strings.
pub fn decode_strs(j: &Json) -> (r: Result<Vec<String>, DecodeError>)
    ensures
        r matches Ok(v) ==> dec_strs(j@) == Some(strs_m(v@)),
        r is Err ==> dec_strs(j@) is None,
{
    let items = match j {
        Json::Arr(items) => items,
        _ => {
            return Err(DecodeError::here("expected an array"));
        },
    };
    proof {
        crate::json::lemma_arr_m_at(*items, 0);
        assert(crate::json::arr_m_at(*items, 0) =~= jsons_m(items@));
    }
    let ghost s = jsons_m(items@);
    let mut out: Vec<String> = Vec::new();
    let mut i: usize = 0;
    while i < items.len()
        invariant
            0 <= i <= items@.len(),
            s == jsons_m(items@),
            s.len() == items@.len(),
            j@ == JsonM::Arr(s),
            out@.len() == i,
            forall|k: int| 0 <= k < i ==> (#[trigger] s[k]) is Str && s[k]->Str_0 == out@[k]@,
        decreases items@.len() - i,
    {
        match &items[i] {
            Json::Str(t) => {
                out.push(t.clone());
            },
            _ => {
                proof {
                    assert(!(s[i as int] is Str));
                }
                return Err(DecodeError::here("expected a string").in_index(i));
            },
        }
        i += 1;
    }
    proof {
        assert(dec_strs(json_m(*j)) == Some(strs_m(out@))) by {
            assert(strs_m(out@) =~= Seq::new(s.len(), |k: int| s[k]->Str_0));
        }
    }
    Ok(out)
}

/// Decoding an encoded string list gives it back.
pub proof fn lemma_rt_strs(s: Seq<Seq<char>>)
    ensures
        dec_strs(enc_strs(s)) == Some(s),
{
    let w = enc_strs(s)->Arr_0;
    assert forall|i: int| 0 <= i < w.len() implies (#[trigger] w[i]) is Str by {
    }
    assert(Seq::new(w.len(), |i: int| w[i]->Str_0) =~= s);
}

/// A wire value that is null, a single string, or an array of strings,
/// normalized to a list of strings.
pub open spec fn dec_string_or_list(j: JsonM) -> Option<Seq<Seq<char>>> {
    match j {
        JsonM::Null => Some(Seq::empty()),
        JsonM::Str(t) => Some(seq![t]),
        _ => dec_strs(j),
    }
}

} // verus!
