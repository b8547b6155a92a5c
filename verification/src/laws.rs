use vstd::prelude::*;

use crate::expr::{
    BinaryOperationM, ElemM, ExpressionM, NamedExpressionM, SetItemM, VerdictM,
};
use crate::json::JsonM;
use crate::stmt::{CounterM, LogM, QuotaOrQuotaRefM, StatementM};

verus! {

broadcast use vstd::string::group_string_axioms, vstd::std_specs::vec::group_vec_axioms;

// ---------------------------------------------------------------------
// Which model values survive the wire unchanged
//
// Encoding is total, but a few in-memory values are normalized on the
// wire: a no-payload verdict expression encodes as a bare keyword
// string and so decodes as a string immediate; an anonymous counter
// without initial values encodes as null, which an optional field
// swallows; an empty flexible flag list encodes as field-absent; an
// xt payload of null is indistinguishable from no payload; a set item
// holding a plain two-element list, or mapping to a statement that
// also reads as an expression, would decode as a different item.
// The well-formedness predicates below exclude exactly those values.
// ---------------------------------------------------------------------

/// An expression that decodes back from its wire form.
pub open spec fn wf_expr(m: ExpressionM) -> bool
    decreases m, 1int,
{
    match m {
        ExpressionM::String(_) => true,
        ExpressionM::Number(_) => true,
        ExpressionM::Boolean(_) => true,
        ExpressionM::List(items) => wf_exprs_at(items, 0),
        ExpressionM::BinaryOperation(b) => match *b {
            BinaryOperationM::AND(l, r) => wf_expr(l) && wf_expr(r),
            BinaryOperationM::OR(l, r) => wf_expr(l) && wf_expr(r),
            BinaryOperationM::XOR(l, r) => wf_expr(l) && wf_expr(r),
            BinaryOperationM::LSHIFT(l, r) => wf_expr(l) && wf_expr(r),
            BinaryOperationM::RSHIFT(l, r) => wf_expr(l) && wf_expr(r),
        },
        ExpressionM::Range(r) => wf_expr(*r.low) && wf_expr(*r.high),
        ExpressionM::Named(n) => wf_named(n),
        ExpressionM::Verdict(v) => v is Jump || v is Goto,
    }
}

/// The expressions of a list, from index `i` on, all well-formed.
pub open spec fn wf_exprs_at(s: Seq<ExpressionM>, i: int) -> bool
    decreases s, s.len() - i,
{
    if 0 <= i < s.len() {
        wf_expr(s[i]) && wf_exprs_at(s, i + 1)
    } else {
        true
    }
}

/// A named expression that decodes back from its wire form.
pub open spec fn wf_named(n: NamedExpressionM) -> bool
    decreases n, 1int,
{
    match n {
        NamedExpressionM::Concat(items) => wf_exprs_at(items, 0),
        NamedExpressionM::SetExpr(items) => wf_set_items_at(items, 0),
        NamedExpressionM::MapExpr(m) => wf_expr(m.key) && wf_expr(m.data),
        NamedExpressionM::Prefix(p) => wf_expr(*p.addr),
        NamedExpressionM::Payload(_) => true,
        NamedExpressionM::Exthdr(_) => true,
        NamedExpressionM::TcpOption(_) => true,
        NamedExpressionM::SctpChunk(_) => true,
        NamedExpressionM::Meta(_) => true,
        NamedExpressionM::RT(_) => true,
        NamedExpressionM::CT(_) => true,
        NamedExpressionM::Numgen(_) => true,
        NamedExpressionM::JHash(h) => wf_expr(*h.expr),
        NamedExpressionM::SymHash(_) => true,
        NamedExpressionM::Fib(_) => true,
        NamedExpressionM::Elem(e) => wf_elem(e),
        NamedExpressionM::Socket(_) => true,
        NamedExpressionM::Osf(_) => true,
    }
}

/// An elem expression that decodes back from its wire form.
pub open spec fn wf_elem(e: ElemM) -> bool
    decreases e,
{
    &&& wf_expr(*e.val)
    &&& e.counter != Some(CounterM::Anonymous(None))
}

/// The items of an anonymous set, from index `i` on, all well-formed.
pub open spec fn wf_set_items_at(s: Seq<SetItemM>, i: int) -> bool
    decreases s, s.len() - i,
{
    if 0 <= i < s.len() {
        wf_set_item(s[i]) && wf_set_items_at(s, i + 1)
    } else {
        true
    }
}

/// A set item that decodes back from its wire form: a plain element
/// may not be a two-element list (that shape is a mapping), and a
/// statement mapped to may not be one whose wire form also reads as an
/// expression.
pub open spec fn wf_set_item(it: SetItemM) -> bool
    decreases it, 2int,
{
    match it {
        SetItemM::Element(e) => wf_expr(e) && !(e matches ExpressionM::List(items)
            && items.len() == 2),
        SetItemM::Mapping(k, v) => wf_expr(k) && wf_expr(v),
        SetItemM::MappingStatement(k, s) => wf_expr(k) && wf_stmt(*s) && !stmt_reads_as_expr(*s),
    }
}

/// Whether a statement's wire form is also a valid expression: the
/// no-payload verdicts and the verdict objects are.
pub open spec fn stmt_reads_as_expr(s: StatementM) -> bool {
    match s {
        StatementM::Accept(o) => o is None,
        StatementM::Drop(o) => o is None,
        StatementM::Continue(o) => o is None,
        StatementM::Return(o) => o is None,
        StatementM::Jump(_) => true,
        StatementM::Goto(_) => true,
        _ => false,
    }
}

/// A statement that decodes back from its wire form.
pub open spec fn wf_stmt(s: StatementM) -> bool
    decreases s, 1int,
{
    match s {
        StatementM::Accept(_) => true,
        StatementM::Drop(_) => true,
        StatementM::Continue(_) => true,
        StatementM::Return(_) => true,
        StatementM::Jump(_) => true,
        StatementM::Goto(_) => true,
        StatementM::Match(m) => wf_expr(m.left) && wf_expr(m.right),
        StatementM::Counter(_) => true,
        StatementM::Mangle(m) => wf_expr(m.key) && wf_expr(m.value),
        StatementM::Quota(_) => true,
        StatementM::Limit(_) => true,
        StatementM::Flow(_) => true,
        StatementM::FWD(o) => match o {
            Some(f) => (match f.dev {
                Some(e) => wf_expr(e),
                None => true,
            }) && (match f.addr {
                Some(e) => wf_expr(e),
                None => true,
            }),
            None => true,
        },
        StatementM::Notrack => true,
        StatementM::Dup(d) => wf_expr(d.addr) && (match d.dev {
            Some(e) => wf_expr(e),
            None => true,
        }),
        StatementM::SNAT(o) => wf_opt_nat(o),
        StatementM::DNAT(o) => wf_opt_nat(o),
        StatementM::Masquerade(o) => wf_opt_nat(o),
        StatementM::Redirect(o) => wf_opt_nat(o),
        StatementM::Reject(_) => true,
        StatementM::SetStmt(st) => wf_expr(st.elem),
        StatementM::Log(o) => match o {
            Some(l) => !(l.flags matches Some(fs) && fs.len() == 0),
            None => true,
        },
        StatementM::CTHelper(_) => true,
        StatementM::Meter(m) => wf_expr(m.key) && wf_stmt(*m.stmt),
        StatementM::Queue(q) => wf_expr(q.num),
        StatementM::VerdictMap(v) => wf_expr(v.key) && wf_expr(v.data),
        StatementM::CTCount(c) => wf_expr(c.val),
        StatementM::CTTimeout(e) => wf_expr(e),
        StatementM::CTExpectation(e) => wf_expr(e),
        StatementM::XT(o) => o != Some(JsonM::Null),
        StatementM::SynProxy(_) => true,
        StatementM::TProxy(_) => true,
    }
}

/// A NAT payload whose nested expressions are well-formed.
pub open spec fn wf_opt_nat(o: Option<crate::stmt::NATM>) -> bool
    decreases o,
{
    match o {
        Some(n) => match n.addr {
            Some(e) => wf_expr(e),
            None => true,
        },
        None => true,
    }
}

/// The statements of a rule, from index `i` on, all well-formed.
pub open spec fn wf_stmts_at(s: Seq<StatementM>, i: int) -> bool
    decreases s, s.len() - i,
{
    if 0 <= i < s.len() {
        wf_stmt(s[i]) && wf_stmts_at(s, i + 1)
    } else {
        true
    }
}

// ---------------------------------------------------------------------
// Round-trip lemmas for the recursive core
// ---------------------------------------------------------------------

/// Decoding an encoded jump target gives it back.
pub proof fn lemma_rt_jump_target(t: crate::stmt::JumpTargetM)
    ensures
        crate::codec::dec_jump_target(crate::codec::enc_jump_target(t)) == Some(t),
{
    crate::json::lemma_lookup_single_all("target"@, JsonM::Str(t.target));
}

/// Decoding an encoded counter gives it back.
pub proof fn lemma_rt_counter(c: CounterM)
    ensures
        crate::codec::dec_counter(crate::codec::enc_counter(c)) == Some(c),
{
    if let CounterM::Anonymous(Some(a)) = c {
        crate::codec::lemma_rt_anon_counter(a);
    }
}

/// Decoding an encoded quota payload gives it back.
pub proof fn lemma_rt_quota_ref(q: QuotaOrQuotaRefM)
    ensures
        crate::codec::dec_quota_ref(crate::codec::enc_quota_ref(q)) == Some(q),
{
    if let QuotaOrQuotaRefM::Quota(a) = q {
        crate::codec::lemma_rt_quota_stmt(a);
    }
}

/// Decoding an encoded expression map gives it back.
pub proof fn lemma_rt_map_expr(m: crate::expr::MapExprM)
    requires
        wf_expr(m.key),
        wf_expr(m.data),
    ensures
        crate::codec::dec_map_expr(crate::codec::enc_map_expr(m)) == Some(m),
    decreases m, 0int,
{
    reveal_strlit("key");
    reveal_strlit("data");
    assert("key"@.len() >= 1 && "key"@[0] == 'k');
    assert("data"@.len() >= 1 && "data"@[0] == 'd');
    let f1 = crate::codec::fone("key"@, crate::codec::enc_expr(m.key));
    let f2 = crate::codec::fone("data"@, crate::codec::enc_expr(m.data));
    crate::json::lemma_lookup_prepend_all(f1, f2);
    crate::json::lemma_lookup_single_all("key"@, crate::codec::enc_expr(m.key));
    crate::json::lemma_lookup_single_all("data"@, crate::codec::enc_expr(m.data));
    lemma_rt_expr(m.key);
    lemma_rt_expr(m.data);
}

/// Decoding an encoded prefix gives it back.
pub proof fn lemma_rt_prefix(p: crate::expr::PrefixM)
    requires
        wf_expr(*p.addr),
    ensures
        crate::codec::dec_prefix(crate::codec::enc_prefix(p)) == Some(p),
    decreases p, 0int,
{
    reveal_strlit("addr");
    reveal_strlit("len");
    assert("addr"@.len() >= 1 && "addr"@[0] == 'a');
    assert("len"@.len() >= 1 && "len"@[0] == 'l');
    let f1 = crate::codec::fone("addr"@, crate::codec::enc_expr(*p.addr));
    let f2 = crate::codec::fone("len"@, JsonM::Num(p.len as int));
    crate::json::lemma_lookup_prepend_all(f1, f2);
    crate::json::lemma_lookup_single_all("addr"@, crate::codec::enc_expr(*p.addr));
    crate::json::lemma_lookup_single_all("len"@, JsonM::Num(p.len as int));
    lemma_rt_expr(*p.addr);
}

/// Decoding an encoded jhash gives it back.
pub proof fn lemma_rt_jhash(h: crate::expr::JHashM)
    requires
        wf_expr(*h.expr),
    ensures
        crate::codec::dec_jhash(crate::codec::enc_jhash(h)) == Some(h),
    decreases h, 0int,
{
    reveal_strlit("mod");
    reveal_strlit("offset");
    reveal_strlit("expr");
    reveal_strlit("seed");
    assert("mod"@.len() >= 1 && "mod"@[0] == 'm');
    assert("offset"@.len() >= 1 && "offset"@[0] == 'o');
    assert("expr"@.len() >= 1 && "expr"@[0] == 'e');
    assert("seed"@.len() >= 1 && "seed"@[0] == 's');
    let f1 = crate::codec::fone("mod"@, JsonM::Num(h.hash_mod as int));
    let f2 = crate::codec::fopt_u32("offset"@, h.offset);
    let f3 = crate::codec::fone("expr"@, crate::codec::enc_expr(*h.expr));
    let f4 = crate::codec::fopt_u32("seed"@, h.seed);
    crate::json::lemma_lookup_prepend_all(f1, f2 + (f3 + f4));
    crate::json::lemma_lookup_prepend_all(f2, f3 + f4);
    crate::json::lemma_lookup_prepend_all(f3, f4);
    crate::json::lemma_lookup_single_all("mod"@, JsonM::Num(h.hash_mod as int));
    if let Some(x) = h.offset {
        crate::json::lemma_lookup_single_all("offset"@, JsonM::Num(x as int));
    }
    crate::json::lemma_lookup_single_all("expr"@, crate::codec::enc_expr(*h.expr));
    if let Some(x) = h.seed {
        crate::json::lemma_lookup_single_all("seed"@, JsonM::Num(x as int));
    }
    lemma_rt_expr(*h.expr);
}

/// Decoding an encoded elem expression gives it back.
pub proof fn lemma_rt_elem(e: ElemM)
    requires
        wf_elem(e),
    ensures
        crate::codec::dec_elem(crate::codec::enc_elem(e)) == Some(e),
    decreases e, 0int,
{
    reveal_strlit("val");
    reveal_strlit("timeout");
    reveal_strlit("expires");
    reveal_strlit("comment");
    reveal_strlit("counter");
    assert("val"@.len() >= 1 && "val"@[0] == 'v');
    assert("timeout"@.len() >= 1 && "timeout"@[0] == 't');
    assert("expires"@.len() >= 1 && "expires"@[0] == 'e');
    assert("comment"@.len() >= 2 && "comment"@[0] == 'c' && "comment"@[1] == 'o');
    assert("counter"@.len() >= 2 && "counter"@[0] == 'c' && "counter"@[1] == 'o');
    assert("comment"@.len() == 7 && "counter"@.len() == 7 && "comment"@[2] == 'm'
        && "counter"@[2] == 'u');
    let f1 = crate::codec::fone("val"@, crate::codec::enc_expr(*e.val));
    let f2 = crate::codec::fopt_u32("timeout"@, e.timeout);
    let f3 = crate::codec::fopt_u32("expires"@, e.expires);
    let f4 = crate::codec::fopt_str("comment"@, e.comment);
    let f5 = crate::codec::fopt_val(
        "counter"@,
        (match e.counter {
            Some(c) => Some(crate::codec::enc_counter(c)),
            None => None,
        }),
    );
    crate::json::lemma_lookup_prepend_all(f1, f2 + (f3 + (f4 + f5)));
    crate::json::lemma_lookup_prepend_all(f2, f3 + (f4 + f5));
    crate::json::lemma_lookup_prepend_all(f3, f4 + f5);
    crate::json::lemma_lookup_prepend_all(f4, f5);
    crate::json::lemma_lookup_single_all("val"@, crate::codec::enc_expr(*e.val));
    if let Some(x) = e.timeout {
        crate::json::lemma_lookup_single_all("timeout"@, JsonM::Num(x as int));
    }
    if let Some(x) = e.expires {
        crate::json::lemma_lookup_single_all("expires"@, JsonM::Num(x as int));
    }
    if let Some(x) = e.comment {
        crate::json::lemma_lookup_single_all("comment"@, JsonM::Str(x));
    }
    if let Some(c) = e.counter {
        crate::json::lemma_lookup_single_all("counter"@, crate::codec::enc_counter(c));
        lemma_rt_counter(c);
        assert(crate::codec::enc_counter(c) != JsonM::Null);
    }
    lemma_rt_expr(*e.val);
}

/// Every expression of a well-formed list is well-formed.
pub proof fn lemma_wf_exprs_pointwise(s: Seq<ExpressionM>, i: int)
    requires
        0 <= i <= s.len(),
        wf_exprs_at(s, i),
    ensures
        forall|k: int| i <= k < s.len() ==> wf_expr(#[trigger] s[k]),
    decreases s.len() - i,
{
    if i < s.len() {
        lemma_wf_exprs_pointwise(s, i + 1);
    }
}

/// Every item of a well-formed set is well-formed.
pub proof fn lemma_wf_set_items_pointwise(s: Seq<SetItemM>, i: int)
    requires
        0 <= i <= s.len(),
        wf_set_items_at(s, i),
    ensures
        forall|k: int| i <= k < s.len() ==> wf_set_item(#[trigger] s[k]),
    decreases s.len() - i,
{
    if i < s.len() {
        lemma_wf_set_items_pointwise(s, i + 1);
    }
}

/// Every statement of a well-formed rule body is well-formed.
pub proof fn lemma_wf_stmts_pointwise(s: Seq<StatementM>, i: int)
    requires
        0 <= i <= s.len(),
        wf_stmts_at(s, i),
    ensures
        forall|k: int| i <= k < s.len() ==> wf_stmt(#[trigger] s[k]),
    decreases s.len() - i,
{
    if i < s.len() {
        lemma_wf_stmts_pointwise(s, i + 1);
    }
}

/// Decoding an encoded match statement gives it back.
pub proof fn lemma_rt_match(m: crate::stmt::MatchM)
    requires
        wf_expr(m.left),
        wf_expr(m.right),
    ensures
        crate::codec::dec_match(crate::codec::enc_match(m)) == Some(m),
    decreases m, 0int,
{
    reveal_strlit("left");
    reveal_strlit("right");
    reveal_strlit("op");
    assert("left"@.len() >= 1 && "left"@[0] == 'l');
    assert("right"@.len() >= 1 && "right"@[0] == 'r');
    assert("op"@.len() >= 1 && "op"@[0] == 'o');
    let f1 = crate::codec::fone("left"@, crate::codec::enc_expr(m.left));
    let f2 = crate::codec::fone("right"@, crate::codec::enc_expr(m.right));
    let f3 = crate::codec::fone("op"@, JsonM::Str(crate::stmt::operator_tok(m.op)));
    crate::json::lemma_lookup_prepend_all(f1, f2 + f3);
    crate::json::lemma_lookup_prepend_all(f2, f3);
    crate::json::lemma_lookup_single_all("left"@, crate::codec::enc_expr(m.left));
    crate::json::lemma_lookup_single_all("right"@, crate::codec::enc_expr(m.right));
    crate::json::lemma_lookup_single_all("op"@, JsonM::Str(crate::stmt::operator_tok(m.op)));
    crate::stmt::lemma_operator_inv_tok(m.op);
    lemma_rt_expr(m.left);
    lemma_rt_expr(m.right);
}

/// Decoding an encoded mangle statement gives it back.
pub proof fn lemma_rt_mangle(m: crate::stmt::MangleM)
    requires
        wf_expr(m.key),
        wf_expr(m.value),
    ensures
        crate::codec::dec_mangle(crate::codec::enc_mangle(m)) == Some(m),
    decreases m, 0int,
{
    reveal_strlit("key");
    reveal_strlit("value");
    assert("key"@.len() >= 1 && "key"@[0] == 'k');
    assert("value"@.len() >= 1 && "value"@[0] == 'v');
    let f1 = crate::codec::fone("key"@, crate::codec::enc_expr(m.key));
    let f2 = crate::codec::fone("value"@, crate::codec::enc_expr(m.value));
    crate::json::lemma_lookup_prepend_all(f1, f2);
    crate::json::lemma_lookup_single_all("key"@, crate::codec::enc_expr(m.key));
    crate::json::lemma_lookup_single_all("value"@, crate::codec::enc_expr(m.value));
    lemma_rt_expr(m.key);
    lemma_rt_expr(m.value);
}

/// Decoding an encoded dup statement gives it back.
pub proof fn lemma_rt_dup(d: crate::stmt::DupM)
    requires
        wf_expr(d.addr),
        d.dev matches Some(e) ==> wf_expr(e),
    ensures
        crate::codec::dec_dup(crate::codec::enc_dup(d)) == Some(d),
    decreases d, 0int,
{
    reveal_strlit("addr");
    reveal_strlit("dev");
    assert("addr"@.len() >= 1 && "addr"@[0] == 'a');
    assert("dev"@.len() >= 1 && "dev"@[0] == 'd');
    let f1 = crate::codec::fone("addr"@, crate::codec::enc_expr(d.addr));
    let f2 = crate::codec::fopt_val(
        "dev"@,
        (match d.dev {
            Some(e) => Some(crate::codec::enc_expr(e)),
            None => None,
        }),
    );
    crate::json::lemma_lookup_prepend_all(f1, f2);
    crate::json::lemma_lookup_single_all("addr"@, crate::codec::enc_expr(d.addr));
    lemma_rt_expr(d.addr);
    if let Some(e) = d.dev {
        crate::json::lemma_lookup_single_all("dev"@, crate::codec::enc_expr(e));
        lemma_rt_expr(e);
        lemma_enc_expr_not_null(e);
    }
}

/// An encoded expression is never the null value.
pub proof fn lemma_enc_expr_not_null(e: ExpressionM)
    ensures
        crate::codec::enc_expr(e) != JsonM::Null,
{
    match e {
        ExpressionM::BinaryOperation(b) => {
            assert(crate::codec::enc_expr(e) == crate::codec::enc_binop(*b));
            match *b {
                BinaryOperationM::AND(l, r) => {
                    assert(crate::codec::enc_binop(*b) is Obj);
                },
                BinaryOperationM::OR(l, r) => {
                    assert(crate::codec::enc_binop(*b) is Obj);
                },
                BinaryOperationM::XOR(l, r) => {
                    assert(crate::codec::enc_binop(*b) is Obj);
                },
                BinaryOperationM::LSHIFT(l, r) => {
                    assert(crate::codec::enc_binop(*b) is Obj);
                },
                BinaryOperationM::RSHIFT(l, r) => {
                    assert(crate::codec::enc_binop(*b) is Obj);
                },
            }
        },
        ExpressionM::Named(n) => {
            assert(crate::codec::enc_expr(e) == crate::codec::enc_named(n));
            assert(crate::codec::enc_named(n) is Obj);
        },
        ExpressionM::Verdict(v) => {
            assert(crate::codec::enc_expr(e) == crate::codec::enc_verdict(v));
            assert(!(crate::codec::enc_verdict(v) is Null));
        },
        _ => {
        },
    }
}

/// Decoding an encoded set statement gives it back.
pub proof fn lemma_rt_set_stmt(st: crate::stmt::SetStmtM)
    requires
        wf_expr(st.elem),
    ensures
        crate::codec::dec_set_stmt(crate::codec::enc_set_stmt(st)) == Some(st),
    decreases st, 0int,
{
    reveal_strlit("op");
    reveal_strlit("elem");
    reveal_strlit("set");
    assert("op"@.len() >= 1 && "op"@[0] == 'o');
    assert("elem"@.len() >= 1 && "elem"@[0] == 'e');
    assert("set"@.len() >= 1 && "set"@[0] == 's');
    let f1 = crate::codec::fone("op"@, JsonM::Str(crate::stmt::set_op_tok(st.op)));
    let f2 = crate::codec::fone("elem"@, crate::codec::enc_expr(st.elem));
    let f3 = crate::codec::fone("set"@, JsonM::Str(st.set));
    crate::json::lemma_lookup_prepend_all(f1, f2 + f3);
    crate::json::lemma_lookup_prepend_all(f2, f3);
    crate::json::lemma_lookup_single_all("op"@, JsonM::Str(crate::stmt::set_op_tok(st.op)));
    crate::json::lemma_lookup_single_all("elem"@, crate::codec::enc_expr(st.elem));
    crate::json::lemma_lookup_single_all("set"@, JsonM::Str(st.set));
    crate::stmt::lemma_set_op_inv_tok(st.op);
    lemma_rt_expr(st.elem);
}

/// Decoding an encoded meter statement gives it back.
pub proof fn lemma_rt_meter(m: crate::stmt::MeterM)
    requires
        wf_expr(m.key),
        wf_stmt(*m.stmt),
    ensures
        crate::codec::dec_meter_stmt(crate::codec::enc_meter_stmt(m)) == Some(m),
    decreases m, 0int,
{
    reveal_strlit("name");
    reveal_strlit("key");
    reveal_strlit("stmt");
    assert("name"@.len() >= 1 && "name"@[0] == 'n');
    assert("key"@.len() >= 1 && "key"@[0] == 'k');
    assert("stmt"@.len() >= 1 && "stmt"@[0] == 's');
    let f1 = crate::codec::fone("name"@, JsonM::Str(m.name));
    let f2 = crate::codec::fone("key"@, crate::codec::enc_expr(m.key));
    let f3 = crate::codec::fone("stmt"@, crate::codec::enc_stmt_m(*m.stmt));
    crate::json::lemma_lookup_prepend_all(f1, f2 + f3);
    crate::json::lemma_lookup_prepend_all(f2, f3);
    crate::json::lemma_lookup_single_all("name"@, JsonM::Str(m.name));
    crate::json::lemma_lookup_single_all("key"@, crate::codec::enc_expr(m.key));
    crate::json::lemma_lookup_single_all("stmt"@, crate::codec::enc_stmt_m(*m.stmt));
    lemma_rt_expr(m.key);
    lemma_rt_stmt(*m.stmt);
}

/// Decoding an encoded queue statement gives it back.
pub proof fn lemma_rt_queue(q: crate::stmt::QueueM)
    requires
        wf_expr(q.num),
    ensures
        crate::codec::dec_queue(crate::codec::enc_queue(q)) == Some(q),
    decreases q, 0int,
{
    reveal_strlit("num");
    reveal_strlit("flags");
    assert("num"@.len() >= 1 && "num"@[0] == 'n');
    assert("flags"@.len() >= 1 && "flags"@[0] == 'f');
    let f1 = crate::codec::fone("num"@, crate::codec::enc_expr(q.num));
    let f2 = crate::codec::fopt_val(
        "flags"@,
        (match q.flags {
            Some(fs) => Some(crate::codec::enc_queue_flags(fs)),
            None => None,
        }),
    );
    crate::json::lemma_lookup_prepend_all(f1, f2);
    crate::json::lemma_lookup_single_all("num"@, crate::codec::enc_expr(q.num));
    lemma_rt_expr(q.num);
    if let Some(fs) = q.flags {
        crate::json::lemma_lookup_single_all("flags"@, crate::codec::enc_queue_flags(fs));
        crate::codec::lemma_rt_queue_flags(fs);
    }
}

/// Decoding an encoded verdict map statement gives it back.
pub proof fn lemma_rt_vmap(v: crate::stmt::VerdictMapM)
    requires
        wf_expr(v.key),
        wf_expr(v.data),
    ensures
        crate::codec::dec_vmap(crate::codec::enc_vmap(v)) == Some(v),
    decreases v, 0int,
{
    reveal_strlit("key");
    reveal_strlit("data");
    assert("key"@.len() >= 1 && "key"@[0] == 'k');
    assert("data"@.len() >= 1 && "data"@[0] == 'd');
    let f1 = crate::codec::fone("key"@, crate::codec::enc_expr(v.key));
    let f2 = crate::codec::fone("data"@, crate::codec::enc_expr(v.data));
    crate::json::lemma_lookup_prepend_all(f1, f2);
    crate::json::lemma_lookup_single_all("key"@, crate::codec::enc_expr(v.key));
    crate::json::lemma_lookup_single_all("data"@, crate::codec::enc_expr(v.data));
    lemma_rt_expr(v.key);
    lemma_rt_expr(v.data);
}

/// Decoding an encoded ct count statement gives it back.
pub proof fn lemma_rt_ctcount(c: crate::stmt::CTCountM)
    requires
        wf_expr(c.val),
    ensures
        crate::codec::dec_ctcount(crate::codec::enc_ctcount(c)) == Some(c),
    decreases c, 0int,
{
    reveal_strlit("val");
    reveal_strlit("inv");
    assert("val"@.len() >= 1 && "val"@[0] == 'v');
    assert("inv"@.len() >= 1 && "inv"@[0] == 'i');
    let f1 = crate::codec::fone("val"@, crate::codec::enc_expr(c.val));
    let f2 = crate::codec::fopt_bool("inv"@, c.inv);
    crate::json::lemma_lookup_prepend_all(f1, f2);
    crate::json::lemma_lookup_single_all("val"@, crate::codec::enc_expr(c.val));
    if let Some(x) = c.inv {
        crate::json::lemma_lookup_single_all("inv"@, JsonM::Bool(x));
    }
    lemma_rt_expr(c.val);
}

/// Decoding an encoded forward statement gives it back.
pub proof fn lemma_rt_fwd(f: crate::stmt::FWDM)
    requires
        f.dev matches Some(e) ==> wf_expr(e),
        f.addr matches Some(e) ==> wf_expr(e),
    ensures
        crate::codec::dec_fwd(crate::codec::enc_fwd(f)) == Some(f),
    decreases f, 0int,
{
    reveal_strlit("dev");
    reveal_strlit("family");
    reveal_strlit("addr");
    assert("dev"@.len() >= 1 && "dev"@[0] == 'd');
    assert("family"@.len() >= 1 && "family"@[0] == 'f');
    assert("addr"@.len() >= 1 && "addr"@[0] == 'a');
    let f1 = crate::codec::fopt_val(
        "dev"@,
        (match f.dev {
            Some(e) => Some(crate::codec::enc_expr(e)),
            None => None,
        }),
    );
    let f2 = crate::codec::fopt_str(
        "family"@,
        (match f.family {
            Some(x) => Some(crate::stmt::fwd_family_tok(x)),
            None => None,
        }),
    );
    let f3 = crate::codec::fopt_val(
        "addr"@,
        (match f.addr {
            Some(e) => Some(crate::codec::enc_expr(e)),
            None => None,
        }),
    );
    crate::json::lemma_lookup_prepend_all(f1, f2 + f3);
    crate::json::lemma_lookup_prepend_all(f2, f3);
    if let Some(e) = f.dev {
        crate::json::lemma_lookup_single_all("dev"@, crate::codec::enc_expr(e));
        lemma_rt_expr(e);
        lemma_enc_expr_not_null(e);
    }
    if let Some(x) = f.family {
        crate::json::lemma_lookup_single_all("family"@, JsonM::Str(crate::stmt::fwd_family_tok(x)));
        crate::stmt::lemma_fwd_family_inv_tok(x);
    }
    if let Some(e) = f.addr {
        crate::json::lemma_lookup_single_all("addr"@, crate::codec::enc_expr(e));
        lemma_rt_expr(e);
        lemma_enc_expr_not_null(e);
    }
}

/// Decoding an encoded NAT payload gives it back.
pub proof fn lemma_rt_nat(o: Option<crate::stmt::NATM>)
    requires
        wf_opt_nat(o),
    ensures
        crate::codec::dec_opt_nat_payload(crate::codec::enc_opt_nat(o)) == Some(o),
    decreases o, 0int,
{
    reveal_strlit("addr");
    reveal_strlit("family");
    reveal_strlit("port");
    reveal_strlit("flags");
    assert("addr"@.len() >= 1 && "addr"@[0] == 'a');
    assert("family"@.len() >= 1 && "family"@[0] == 'f');
    assert("port"@.len() >= 1 && "port"@[0] == 'p');
    assert("flags"@.len() >= 2 && "flags"@[0] == 'f' && "flags"@[1] == 'l');
    assert("family"@.len() == 6 && "flags"@.len() == 5);
    if let Some(n) = o {
        let f1 = crate::codec::fopt_val(
            "addr"@,
            (match n.addr {
                Some(e) => Some(crate::codec::enc_expr(e)),
                None => None,
            }),
        );
        let f2 = crate::codec::fopt_str(
            "family"@,
            (match n.family {
                Some(x) => Some(crate::stmt::nat_family_tok(x)),
                None => None,
            }),
        );
        let f3 = crate::codec::fopt_u32("port"@, n.port);
        let f4 = crate::codec::fopt_val(
            "flags"@,
            (match n.flags {
                Some(fs) => Some(crate::codec::enc_nat_flags(fs)),
                None => None,
            }),
        );
        crate::json::lemma_lookup_prepend_all(f1, f2 + (f3 + f4));
        crate::json::lemma_lookup_prepend_all(f2, f3 + f4);
        crate::json::lemma_lookup_prepend_all(f3, f4);
        if let Some(e) = n.addr {
            crate::json::lemma_lookup_single_all("addr"@, crate::codec::enc_expr(e));
            lemma_rt_expr(e);
            lemma_enc_expr_not_null(e);
        }
        if let Some(x) = n.family {
            crate::json::lemma_lookup_single_all(
                "family"@,
                JsonM::Str(crate::stmt::nat_family_tok(x)),
            );
            crate::stmt::lemma_nat_family_inv_tok(x);
        }
        if let Some(x) = n.port {
            crate::json::lemma_lookup_single_all("port"@, JsonM::Num(x as int));
        }
        if let Some(fs) = n.flags {
            crate::json::lemma_lookup_single_all("flags"@, crate::codec::enc_nat_flags(fs));
            crate::codec::lemma_rt_nat_flags(fs);
        }
    }
}


/// Decoding an encoded well-formed expression gives it back.
#[verifier::rlimit(100)]
#[verifier::spinoff_prover]
pub proof fn lemma_rt_expr(m: ExpressionM)
    requires
        wf_expr(m),
    ensures
        crate::codec::dec_expr(crate::codec::enc_expr(m)) == Some(m),
    decreases m, 3int,
{
    reveal_strlit("&");
    reveal_strlit("|");
    reveal_strlit("^");
    reveal_strlit("<<");
    reveal_strlit(">>");
    reveal_strlit("range");
    reveal_strlit("concat");
    reveal_strlit("set");
    reveal_strlit("map");
    reveal_strlit("prefix");
    reveal_strlit("payload");
    reveal_strlit("exthdr");
    reveal_strlit("tcp option");
    reveal_strlit("sctp chunk");
    reveal_strlit("meta");
    reveal_strlit("rt");
    reveal_strlit("ct");
    reveal_strlit("numgen");
    reveal_strlit("jhash");
    reveal_strlit("symhash");
    reveal_strlit("fib");
    reveal_strlit("elem");
    reveal_strlit("socket");
    reveal_strlit("osf");
    reveal_strlit("jump");
    reveal_strlit("goto");
    reveal_strlit("accept");
    reveal_strlit("drop");
    reveal_strlit("continue");
    reveal_strlit("return");
    assert("&"@.len() == 1 && "&"@[0] == '&');
    assert("|"@.len() == 1 && "|"@[0] == '|');
    assert("^"@.len() == 1 && "^"@[0] == '^');
    assert("<<"@.len() == 2 && "<<"@[0] == '<' && "<<"@[1] == '<');
    assert(">>"@.len() == 2 && ">>"@[0] == '>' && ">>"@[1] == '>');
    assert("range"@.len() == 5 && "range"@[0] == 'r' && "range"@[1] == 'a');
    assert("concat"@.len() == 6 && "concat"@[0] == 'c' && "concat"@[1] == 'o');
    assert("set"@.len() == 3 && "set"@[0] == 's' && "set"@[1] == 'e');
    assert("map"@.len() == 3 && "map"@[0] == 'm' && "map"@[1] == 'a');
    assert("prefix"@.len() == 6 && "prefix"@[0] == 'p' && "prefix"@[1] == 'r');
    assert("payload"@.len() == 7 && "payload"@[0] == 'p' && "payload"@[1] == 'a');
    assert("exthdr"@.len() == 6 && "exthdr"@[0] == 'e' && "exthdr"@[1] == 'x');
    assert("tcp option"@.len() == 10 && "tcp option"@[0] == 't' && "tcp option"@[1] == 'c');
    assert("sctp chunk"@.len() == 10 && "sctp chunk"@[0] == 's' && "sctp chunk"@[1] == 'c');
    assert("meta"@.len() == 4 && "meta"@[0] == 'm' && "meta"@[1] == 'e');
    assert("rt"@.len() == 2 && "rt"@[0] == 'r' && "rt"@[1] == 't');
    assert("ct"@.len() == 2 && "ct"@[0] == 'c' && "ct"@[1] == 't');
    assert("numgen"@.len() == 6 && "numgen"@[0] == 'n' && "numgen"@[1] == 'u');
    assert("jhash"@.len() == 5 && "jhash"@[0] == 'j' && "jhash"@[1] == 'h');
    assert("symhash"@.len() == 7 && "symhash"@[0] == 's' && "symhash"@[1] == 'y');
    assert("fib"@.len() == 3 && "fib"@[0] == 'f' && "fib"@[1] == 'i');
    assert("elem"@.len() == 4 && "elem"@[0] == 'e' && "elem"@[1] == 'l');
    assert("socket"@.len() == 6 && "socket"@[0] == 's' && "socket"@[1] == 'o');
    assert("osf"@.len() == 3 && "osf"@[0] == 'o' && "osf"@[1] == 's');
    assert("jump"@.len() == 4 && "jump"@[0] == 'j' && "jump"@[1] == 'u');
    assert("goto"@.len() == 4 && "goto"@[0] == 'g' && "goto"@[1] == 'o');
    assert("accept"@.len() == 6 && "accept"@[0] == 'a' && "accept"@[1] == 'c');
    assert("drop"@.len() == 4 && "drop"@[0] == 'd' && "drop"@[1] == 'r');
    assert("continue"@.len() == 8 && "continue"@[0] == 'c' && "continue"@[1] == 'o');
    assert("return"@.len() == 6 && "return"@[0] == 'r' && "return"@[1] == 'e');
    match m {
        ExpressionM::String(_) => {
        },
        ExpressionM::Number(_) => {
        },
        ExpressionM::Boolean(_) => {
        },
        ExpressionM::List(items) => {
            let w = crate::codec::enc_exprs_at(items, 0);
            crate::codec::lemma_enc_exprs_at(items, 0);
            lemma_wf_exprs_pointwise(items, 0);
            assert forall|k: int|
                0 <= k < w.len() implies (#[trigger] crate::codec::dec_expr(w[k])) == Some(
                items[k],
            ) by {
                lemma_rt_expr(items[k]);
            }
            crate::codec::lemma_dec_exprs_at_some(w, 0);
            let r = crate::codec::dec_exprs_at(w, 0)->0;
            assert(r =~= items);
        },
        ExpressionM::BinaryOperation(b) => {
            assert(crate::codec::enc_expr(m) == crate::codec::enc_binop(*b));
            match *b {
                BinaryOperationM::AND(l, r) => {
                    lemma_rt_expr(l);
                    lemma_rt_expr(r);
                    let w = JsonM::Arr(
                        seq![crate::codec::enc_expr(l), crate::codec::enc_expr(r)],
                    );
                    assert(crate::codec::dec_binop_operands(w, 0) == Some(m));
                },
                BinaryOperationM::OR(l, r) => {
                    lemma_rt_expr(l);
                    lemma_rt_expr(r);
                    let w = JsonM::Arr(
                        seq![crate::codec::enc_expr(l), crate::codec::enc_expr(r)],
                    );
                    assert(crate::codec::dec_binop_operands(w, 1) == Some(m));
                },
                BinaryOperationM::XOR(l, r) => {
                    lemma_rt_expr(l);
                    lemma_rt_expr(r);
                    let w = JsonM::Arr(
                        seq![crate::codec::enc_expr(l), crate::codec::enc_expr(r)],
                    );
                    assert(crate::codec::dec_binop_operands(w, 2) == Some(m));
                },
                BinaryOperationM::LSHIFT(l, r) => {
                    lemma_rt_expr(l);
                    lemma_rt_expr(r);
                    let w = JsonM::Arr(
                        seq![crate::codec::enc_expr(l), crate::codec::enc_expr(r)],
                    );
                    assert(crate::codec::dec_binop_operands(w, 3) == Some(m));
                },
                BinaryOperationM::RSHIFT(l, r) => {
                    lemma_rt_expr(l);
                    lemma_rt_expr(r);
                    let w = JsonM::Arr(
                        seq![crate::codec::enc_expr(l), crate::codec::enc_expr(r)],
                    );
                    assert(crate::codec::dec_binop_operands(w, 4) == Some(m));
                },
            }
        },
        ExpressionM::Range(rg) => {
            lemma_rt_expr(*rg.low);
            lemma_rt_expr(*rg.high);
        },
        ExpressionM::Named(n) => {
            lemma_rt_named(n);
            assert(crate::codec::enc_expr(m) == crate::codec::enc_named(n));
        },
        ExpressionM::Verdict(v) => {
            assert(crate::codec::enc_expr(m) == crate::codec::enc_verdict(v));
            match v {
                VerdictM::Jump(t) => {
                    lemma_rt_jump_target(t);
                },
                VerdictM::Goto(t) => {
                    lemma_rt_jump_target(t);
                },
                _ => {
                },
            }
        },
    }
}

/// Decoding an encoded well-formed named expression gives back the
/// expression wrapping it.
#[verifier::rlimit(100)]
#[verifier::spinoff_prover]
pub proof fn lemma_rt_named(n: NamedExpressionM)
    requires
        wf_named(n),
    ensures
        crate::codec::dec_expr(crate::codec::enc_named(n)) == Some(ExpressionM::Named(n)),
    decreases n, 3int,
{
    reveal_strlit("&");
    reveal_strlit("|");
    reveal_strlit("^");
    reveal_strlit("<<");
    reveal_strlit(">>");
    reveal_strlit("range");
    reveal_strlit("concat");
    reveal_strlit("set");
    reveal_strlit("map");
    reveal_strlit("prefix");
    reveal_strlit("payload");
    reveal_strlit("exthdr");
    reveal_strlit("tcp option");
    reveal_strlit("sctp chunk");
    reveal_strlit("meta");
    reveal_strlit("rt");
    reveal_strlit("ct");
    reveal_strlit("numgen");
    reveal_strlit("jhash");
    reveal_strlit("symhash");
    reveal_strlit("fib");
    reveal_strlit("elem");
    reveal_strlit("socket");
    reveal_strlit("osf");
    reveal_strlit("jump");
    reveal_strlit("goto");
    reveal_strlit("accept");
    reveal_strlit("drop");
    reveal_strlit("continue");
    reveal_strlit("return");
    assert("&"@.len() == 1 && "&"@[0] == '&');
    assert("|"@.len() == 1 && "|"@[0] == '|');
    assert("^"@.len() == 1 && "^"@[0] == '^');
    assert("<<"@.len() == 2 && "<<"@[0] == '<' && "<<"@[1] == '<');
    assert(">>"@.len() == 2 && ">>"@[0] == '>' && ">>"@[1] == '>');
    assert("range"@.len() == 5 && "range"@[0] == 'r' && "range"@[1] == 'a');
    assert("concat"@.len() == 6 && "concat"@[0] == 'c' && "concat"@[1] == 'o');
    assert("set"@.len() == 3 && "set"@[0] == 's' && "set"@[1] == 'e');
    assert("map"@.len() == 3 && "map"@[0] == 'm' && "map"@[1] == 'a');
    assert("prefix"@.len() == 6 && "prefix"@[0] == 'p' && "prefix"@[1] == 'r');
    assert("payload"@.len() == 7 && "payload"@[0] == 'p' && "payload"@[1] == 'a');
    assert("exthdr"@.len() == 6 && "exthdr"@[0] == 'e' && "exthdr"@[1] == 'x');
    assert("tcp option"@.len() == 10 && "tcp option"@[0] == 't' && "tcp option"@[1] == 'c');
    assert("sctp chunk"@.len() == 10 && "sctp chunk"@[0] == 's' && "sctp chunk"@[1] == 'c');
    assert("meta"@.len() == 4 && "meta"@[0] == 'm' && "meta"@[1] == 'e');
    assert("rt"@.len() == 2 && "rt"@[0] == 'r' && "rt"@[1] == 't');
    assert("ct"@.len() == 2 && "ct"@[0] == 'c' && "ct"@[1] == 't');
    assert("numgen"@.len() == 6 && "numgen"@[0] == 'n' && "numgen"@[1] == 'u');
    assert("jhash"@.len() == 5 && "jhash"@[0] == 'j' && "jhash"@[1] == 'h');
    assert("symhash"@.len() == 7 && "symhash"@[0] == 's' && "symhash"@[1] == 'y');
    assert("fib"@.len() == 3 && "fib"@[0] == 'f' && "fib"@[1] == 'i');
    assert("elem"@.len() == 4 && "elem"@[0] == 'e' && "elem"@[1] == 'l');
    assert("socket"@.len() == 6 && "socket"@[0] == 's' && "socket"@[1] == 'o');
    assert("osf"@.len() == 3 && "osf"@[0] == 'o' && "osf"@[1] == 's');
    assert("jump"@.len() == 4 && "jump"@[0] == 'j' && "jump"@[1] == 'u');
    assert("goto"@.len() == 4 && "goto"@[0] == 'g' && "goto"@[1] == 'o');
    assert("accept"@.len() == 6 && "accept"@[0] == 'a' && "accept"@[1] == 'c');
    assert("drop"@.len() == 4 && "drop"@[0] == 'd' && "drop"@[1] == 'r');
    assert("continue"@.len() == 8 && "continue"@[0] == 'c' && "continue"@[1] == 'o');
    assert("return"@.len() == 6 && "return"@[0] == 'r' && "return"@[1] == 'e');
    match n {
        NamedExpressionM::Concat(items) => {
            let w = crate::codec::enc_exprs_at(items, 0);
            crate::codec::lemma_enc_exprs_at(items, 0);
            lemma_wf_exprs_pointwise(items, 0);
            assert forall|k: int|
                0 <= k < w.len() implies (#[trigger] crate::codec::dec_expr(w[k])) == Some(
                items[k],
            ) by {
                lemma_rt_expr(items[k]);
            }
            crate::codec::lemma_dec_exprs_at_some(w, 0);
            let r = crate::codec::dec_exprs_at(w, 0)->0;
            assert(r =~= items);
        },
        NamedExpressionM::SetExpr(items) => {
            let w = crate::codec::enc_set_items_at(items, 0);
            crate::codec::lemma_enc_set_items_at(items, 0);
            lemma_wf_set_items_pointwise(items, 0);
            assert forall|k: int|
                0 <= k < w.len() implies (#[trigger] crate::codec::dec_set_item(w[k])) == Some(
                items[k],
            ) by {
                lemma_rt_set_item(items[k]);
            }
            crate::codec::lemma_dec_set_items_at_some(w, 0);
            let r = crate::codec::dec_set_items_at(w, 0)->0;
            assert(r =~= items);
        },
        NamedExpressionM::MapExpr(mm) => {
            lemma_rt_map_expr(*mm);
        },
        NamedExpressionM::Prefix(p) => {
            lemma_rt_prefix(p);
        },
        NamedExpressionM::Payload(p) => {
            crate::codec::lemma_rt_payload(p);
        },
        NamedExpressionM::Exthdr(x) => {
            crate::codec::lemma_rt_exthdr(x);
        },
        NamedExpressionM::TcpOption(x) => {
            crate::codec::lemma_rt_tcp_option(x);
        },
        NamedExpressionM::SctpChunk(x) => {
            crate::codec::lemma_rt_sctp_chunk(x);
        },
        NamedExpressionM::Meta(x) => {
            crate::codec::lemma_rt_meta(x);
        },
        NamedExpressionM::RT(x) => {
            crate::codec::lemma_rt_rt(x);
        },
        NamedExpressionM::CT(x) => {
            crate::codec::lemma_rt_ct(x);
        },
        NamedExpressionM::Numgen(x) => {
            crate::codec::lemma_rt_numgen(x);
        },
        NamedExpressionM::JHash(h) => {
            lemma_rt_jhash(h);
        },
        NamedExpressionM::SymHash(x) => {
            crate::codec::lemma_rt_symhash(x);
        },
        NamedExpressionM::Fib(x) => {
            crate::codec::lemma_rt_fib(x);
        },
        NamedExpressionM::Elem(e) => {
            lemma_rt_elem(e);
        },
        NamedExpressionM::Socket(x) => {
            crate::codec::lemma_rt_socket(x);
        },
        NamedExpressionM::Osf(x) => {
            crate::codec::lemma_rt_osf(x);
        },
    }
}

/// Decoding an encoded well-formed set item gives it back.
#[verifier::rlimit(100)]
#[verifier::spinoff_prover]
pub proof fn lemma_rt_set_item(it: SetItemM)
    requires
        wf_set_item(it),
    ensures
        crate::codec::dec_set_item(crate::codec::enc_set_item(it)) == Some(it),
    decreases it, 4int,
{
    match it {
        SetItemM::Element(e) => {
            lemma_rt_expr(e);
            if let ExpressionM::List(items) = e {
                crate::codec::lemma_enc_exprs_at(items, 0);
            }
        },
        SetItemM::Mapping(k, v) => {
            lemma_rt_expr(k);
            lemma_rt_expr(v);
        },
        SetItemM::MappingStatement(k, st) => {
            lemma_rt_expr(k);
            lemma_rt_stmt(*st);
            lemma_stmt_not_expr(*st);
        },
    }
}


/// The wire form of a statement that does not read as an expression is
/// rejected by the expression decoder.
#[verifier::rlimit(100)]
#[verifier::spinoff_prover]
pub proof fn lemma_stmt_not_expr(st: StatementM)
    requires
        !stmt_reads_as_expr(st),
    ensures
        crate::codec::dec_expr(crate::codec::enc_stmt_m(st)) is None,
{
    reveal_strlit("&");
    reveal_strlit("|");
    reveal_strlit("^");
    reveal_strlit("<<");
    reveal_strlit(">>");
    reveal_strlit("range");
    reveal_strlit("concat");
    reveal_strlit("set");
    reveal_strlit("map");
    reveal_strlit("prefix");
    reveal_strlit("payload");
    reveal_strlit("exthdr");
    reveal_strlit("tcp option");
    reveal_strlit("sctp chunk");
    reveal_strlit("meta");
    reveal_strlit("rt");
    reveal_strlit("ct");
    reveal_strlit("numgen");
    reveal_strlit("jhash");
    reveal_strlit("symhash");
    reveal_strlit("fib");
    reveal_strlit("elem");
    reveal_strlit("socket");
    reveal_strlit("osf");
    reveal_strlit("jump");
    reveal_strlit("goto");
    reveal_strlit("accept");
    reveal_strlit("drop");
    reveal_strlit("continue");
    reveal_strlit("return");
    assert("&"@.len() == 1 && "&"@[0] == '&');
    assert("|"@.len() == 1 && "|"@[0] == '|');
    assert("^"@.len() == 1 && "^"@[0] == '^');
    assert("<<"@.len() == 2 && "<<"@[0] == '<' && "<<"@[1] == '<');
    assert(">>"@.len() == 2 && ">>"@[0] == '>' && ">>"@[1] == '>');
    assert("range"@.len() == 5 && "range"@[0] == 'r' && "range"@[1] == 'a');
    assert("concat"@.len() == 6 && "concat"@[0] == 'c' && "concat"@[1] == 'o');
    assert("set"@.len() == 3 && "set"@[0] == 's' && "set"@[1] == 'e');
    assert("map"@.len() == 3 && "map"@[0] == 'm' && "map"@[1] == 'a');
    assert("prefix"@.len() == 6 && "prefix"@[0] == 'p' && "prefix"@[1] == 'r');
    assert("payload"@.len() == 7 && "payload"@[0] == 'p' && "payload"@[1] == 'a');
    assert("exthdr"@.len() == 6 && "exthdr"@[0] == 'e' && "exthdr"@[1] == 'x');
    assert("tcp option"@.len() == 10 && "tcp option"@[0] == 't' && "tcp option"@[1] == 'c');
    assert("sctp chunk"@.len() == 10 && "sctp chunk"@[0] == 's' && "sctp chunk"@[1] == 'c');
    assert("meta"@.len() == 4 && "meta"@[0] == 'm' && "meta"@[1] == 'e');
    assert("rt"@.len() == 2 && "rt"@[0] == 'r' && "rt"@[1] == 't');
    assert("ct"@.len() == 2 && "ct"@[0] == 'c' && "ct"@[1] == 't');
    assert("numgen"@.len() == 6 && "numgen"@[0] == 'n' && "numgen"@[1] == 'u');
    assert("jhash"@.len() == 5 && "jhash"@[0] == 'j' && "jhash"@[1] == 'h');
    assert("symhash"@.len() == 7 && "symhash"@[0] == 's' && "symhash"@[1] == 'y');
    assert("fib"@.len() == 3 && "fib"@[0] == 'f' && "fib"@[1] == 'i');
    assert("elem"@.len() == 4 && "elem"@[0] == 'e' && "elem"@[1] == 'l');
    assert("socket"@.len() == 6 && "socket"@[0] == 's' && "socket"@[1] == 'o');
    assert("osf"@.len() == 3 && "osf"@[0] == 'o' && "osf"@[1] == 's');
    assert("jump"@.len() == 4 && "jump"@[0] == 'j' && "jump"@[1] == 'u');
    assert("goto"@.len() == 4 && "goto"@[0] == 'g' && "goto"@[1] == 'o');
    assert("accept"@.len() == 6 && "accept"@[0] == 'a' && "accept"@[1] == 'c');
    assert("drop"@.len() == 4 && "drop"@[0] == 'd' && "drop"@[1] == 'r');
    assert("continue"@.len() == 8 && "continue"@[0] == 'c' && "continue"@[1] == 'o');
    assert("return"@.len() == 6 && "return"@[0] == 'r' && "return"@[1] == 'e');
    reveal_strlit("accept");
    reveal_strlit("drop");
    reveal_strlit("continue");
    reveal_strlit("return");
    reveal_strlit("jump");
    reveal_strlit("goto");
    reveal_strlit("match");
    reveal_strlit("counter");
    reveal_strlit("mangle");
    reveal_strlit("quota");
    reveal_strlit("limit");
    reveal_strlit("flow");
    reveal_strlit("fwd");
    reveal_strlit("notrack");
    reveal_strlit("dup");
    reveal_strlit("snat");
    reveal_strlit("dnat");
    reveal_strlit("masquerade");
    reveal_strlit("redirect");
    reveal_strlit("reject");
    reveal_strlit("set");
    reveal_strlit("log");
    reveal_strlit("ct helper");
    reveal_strlit("meter");
    reveal_strlit("queue");
    reveal_strlit("vmap");
    reveal_strlit("ct count");
    reveal_strlit("ct timeout");
    reveal_strlit("ct expectation");
    reveal_strlit("xt");
    reveal_strlit("synproxy");
    reveal_strlit("tproxy");
    assert("accept"@.len() == 6 && "accept"@[0] == 'a' && "accept"@[1] == 'c' && "accept"@[2] == 'c');
    assert("drop"@.len() == 4 && "drop"@[0] == 'd' && "drop"@[1] == 'r' && "drop"@[2] == 'o');
    assert("continue"@.len() == 8 && "continue"@[0] == 'c' && "continue"@[1] == 'o' && "continue"@[2] == 'n');
    assert("return"@.len() == 6 && "return"@[0] == 'r' && "return"@[1] == 'e' && "return"@[2] == 't');
    assert("jump"@.len() == 4 && "jump"@[0] == 'j' && "jump"@[1] == 'u' && "jump"@[2] == 'm');
    assert("goto"@.len() == 4 && "goto"@[0] == 'g' && "goto"@[1] == 'o' && "goto"@[2] == 't');
    assert("match"@.len() == 5 && "match"@[0] == 'm' && "match"@[1] == 'a' && "match"@[2] == 't');
    assert("counter"@.len() == 7 && "counter"@[0] == 'c' && "counter"@[1] == 'o' && "counter"@[2] == 'u');
    assert("mangle"@.len() == 6 && "mangle"@[0] == 'm' && "mangle"@[1] == 'a' && "mangle"@[2] == 'n');
    assert("quota"@.len() == 5 && "quota"@[0] == 'q' && "quota"@[1] == 'u' && "quota"@[2] == 'o');
    assert("limit"@.len() == 5 && "limit"@[0] == 'l' && "limit"@[1] == 'i' && "limit"@[2] == 'm');
    assert("flow"@.len() == 4 && "flow"@[0] == 'f' && "flow"@[1] == 'l' && "flow"@[2] == 'o');
    assert("fwd"@.len() == 3 && "fwd"@[0] == 'f' && "fwd"@[1] == 'w' && "fwd"@[2] == 'd');
    assert("notrack"@.len() == 7 && "notrack"@[0] == 'n' && "notrack"@[1] == 'o' && "notrack"@[2] == 't');
    assert("dup"@.len() == 3 && "dup"@[0] == 'd' && "dup"@[1] == 'u' && "dup"@[2] == 'p');
    assert("snat"@.len() == 4 && "snat"@[0] == 's' && "snat"@[1] == 'n' && "snat"@[2] == 'a');
    assert("dnat"@.len() == 4 && "dnat"@[0] == 'd' && "dnat"@[1] == 'n' && "dnat"@[2] == 'a');
    assert("masquerade"@.len() == 10 && "masquerade"@[0] == 'm' && "masquerade"@[1] == 'a' && "masquerade"@[2] == 's');
    assert("redirect"@.len() == 8 && "redirect"@[0] == 'r' && "redirect"@[1] == 'e' && "redirect"@[2] == 'd');
    assert("reject"@.len() == 6 && "reject"@[0] == 'r' && "reject"@[1] == 'e' && "reject"@[2] == 'j');
    assert("set"@.len() == 3 && "set"@[0] == 's' && "set"@[1] == 'e' && "set"@[2] == 't');
    assert("log"@.len() == 3 && "log"@[0] == 'l' && "log"@[1] == 'o' && "log"@[2] == 'g');
    assert("ct helper"@.len() == 9 && "ct helper"@[0] == 'c' && "ct helper"@[1] == 't' && "ct helper"@[2] == ' ');
    assert("meter"@.len() == 5 && "meter"@[0] == 'm' && "meter"@[1] == 'e' && "meter"@[2] == 't');
    assert("queue"@.len() == 5 && "queue"@[0] == 'q' && "queue"@[1] == 'u' && "queue"@[2] == 'e');
    assert("vmap"@.len() == 4 && "vmap"@[0] == 'v' && "vmap"@[1] == 'm' && "vmap"@[2] == 'a');
    assert("ct count"@.len() == 8 && "ct count"@[0] == 'c' && "ct count"@[1] == 't' && "ct count"@[2] == ' ');
    assert("ct timeout"@.len() == 10 && "ct timeout"@[0] == 'c' && "ct timeout"@[1] == 't' && "ct timeout"@[2] == ' ');
    assert("ct expectation"@.len() == 14 && "ct expectation"@[0] == 'c' && "ct expectation"@[1] == 't' && "ct expectation"@[2] == ' ');
    assert("xt"@.len() == 2 && "xt"@[0] == 'x' && "xt"@[1] == 't');
    assert("synproxy"@.len() == 8 && "synproxy"@[0] == 's' && "synproxy"@[1] == 'y' && "synproxy"@[2] == 'n');
    assert("tproxy"@.len() == 6 && "tproxy"@[0] == 't' && "tproxy"@[1] == 'p' && "tproxy"@[2] == 'r');
}

/// Decoding an encoded well-formed statement gives it back.
#[verifier::rlimit(100)]
#[verifier::spinoff_prover]
pub proof fn lemma_rt_stmt(st: StatementM)
    requires
        wf_stmt(st),
    ensures
        crate::codec::dec_stmt(crate::codec::enc_stmt_m(st)) == Some(st),
    decreases st, 3int,
{
    reveal_strlit("accept");
    reveal_strlit("drop");
    reveal_strlit("continue");
    reveal_strlit("return");
    reveal_strlit("jump");
    reveal_strlit("goto");
    reveal_strlit("match");
    reveal_strlit("counter");
    reveal_strlit("mangle");
    reveal_strlit("quota");
    reveal_strlit("limit");
    reveal_strlit("flow");
    reveal_strlit("fwd");
    reveal_strlit("notrack");
    reveal_strlit("dup");
    reveal_strlit("snat");
    reveal_strlit("dnat");
    reveal_strlit("masquerade");
    reveal_strlit("redirect");
    reveal_strlit("reject");
    reveal_strlit("set");
    reveal_strlit("log");
    reveal_strlit("ct helper");
    reveal_strlit("meter");
    reveal_strlit("queue");
    reveal_strlit("vmap");
    reveal_strlit("ct count");
    reveal_strlit("ct timeout");
    reveal_strlit("ct expectation");
    reveal_strlit("xt");
    reveal_strlit("synproxy");
    reveal_strlit("tproxy");
    assert("accept"@.len() == 6 && "accept"@[0] == 'a' && "accept"@[1] == 'c' && "accept"@[2] == 'c');
    assert("drop"@.len() == 4 && "drop"@[0] == 'd' && "drop"@[1] == 'r' && "drop"@[2] == 'o');
    assert("continue"@.len() == 8 && "continue"@[0] == 'c' && "continue"@[1] == 'o' && "continue"@[2] == 'n');
    assert("return"@.len() == 6 && "return"@[0] == 'r' && "return"@[1] == 'e' && "return"@[2] == 't');
    assert("jump"@.len() == 4 && "jump"@[0] == 'j' && "jump"@[1] == 'u' && "jump"@[2] == 'm');
    assert("goto"@.len() == 4 && "goto"@[0] == 'g' && "goto"@[1] == 'o' && "goto"@[2] == 't');
    assert("match"@.len() == 5 && "match"@[0] == 'm' && "match"@[1] == 'a' && "match"@[2] == 't');
    assert("counter"@.len() == 7 && "counter"@[0] == 'c' && "counter"@[1] == 'o' && "counter"@[2] == 'u');
    assert("mangle"@.len() == 6 && "mangle"@[0] == 'm' && "mangle"@[1] == 'a' && "mangle"@[2] == 'n');
    assert("quota"@.len() == 5 && "quota"@[0] == 'q' && "quota"@[1] == 'u' && "quota"@[2] == 'o');
    assert("limit"@.len() == 5 && "limit"@[0] == 'l' && "limit"@[1] == 'i' && "limit"@[2] == 'm');
    assert("flow"@.len() == 4 && "flow"@[0] == 'f' && "flow"@[1] == 'l' && "flow"@[2] == 'o');
    assert("fwd"@.len() == 3 && "fwd"@[0] == 'f' && "fwd"@[1] == 'w' && "fwd"@[2] == 'd');
    assert("notrack"@.len() == 7 && "notrack"@[0] == 'n' && "notrack"@[1] == 'o' && "notrack"@[2] == 't');
    assert("dup"@.len() == 3 && "dup"@[0] == 'd' && "dup"@[1] == 'u' && "dup"@[2] == 'p');
    assert("snat"@.len() == 4 && "snat"@[0] == 's' && "snat"@[1] == 'n' && "snat"@[2] == 'a');
    assert("dnat"@.len() == 4 && "dnat"@[0] == 'd' && "dnat"@[1] == 'n' && "dnat"@[2] == 'a');
    assert("masquerade"@.len() == 10 && "masquerade"@[0] == 'm' && "masquerade"@[1] == 'a' && "masquerade"@[2] == 's');
    assert("redirect"@.len() == 8 && "redirect"@[0] == 'r' && "redirect"@[1] == 'e' && "redirect"@[2] == 'd');
    assert("reject"@.len() == 6 && "reject"@[0] == 'r' && "reject"@[1] == 'e' && "reject"@[2] == 'j');
    assert("set"@.len() == 3 && "set"@[0] == 's' && "set"@[1] == 'e' && "set"@[2] == 't');
    assert("log"@.len() == 3 && "log"@[0] == 'l' && "log"@[1] == 'o' && "log"@[2] == 'g');
    assert("ct helper"@.len() == 9 && "ct helper"@[0] == 'c' && "ct helper"@[1] == 't' && "ct helper"@[2] == ' ');
    assert("meter"@.len() == 5 && "meter"@[0] == 'm' && "meter"@[1] == 'e' && "meter"@[2] == 't');
    assert("queue"@.len() == 5 && "queue"@[0] == 'q' && "queue"@[1] == 'u' && "queue"@[2] == 'e');
    assert("vmap"@.len() == 4 && "vmap"@[0] == 'v' && "vmap"@[1] == 'm' && "vmap"@[2] == 'a');
    assert("ct count"@.len() == 8 && "ct count"@[0] == 'c' && "ct count"@[1] == 't' && "ct count"@[2] == ' ');
    assert("ct timeout"@.len() == 10 && "ct timeout"@[0] == 'c' && "ct timeout"@[1] == 't' && "ct timeout"@[2] == ' ');
    assert("ct expectation"@.len() == 14 && "ct expectation"@[0] == 'c' && "ct expectation"@[1] == 't' && "ct expectation"@[2] == ' ');
    assert("xt"@.len() == 2 && "xt"@[0] == 'x' && "xt"@[1] == 't');
    assert("synproxy"@.len() == 8 && "synproxy"@[0] == 's' && "synproxy"@[1] == 'y' && "synproxy"@[2] == 'n');
    assert("tproxy"@.len() == 6 && "tproxy"@[0] == 't' && "tproxy"@[1] == 'p' && "tproxy"@[2] == 'r');
    match st {
        StatementM::Accept(o) => {
            if let Some(a) = o {
                assert(a == (crate::stmt::Accept {  }));
            }
        },
        StatementM::Drop(o) => {
            if let Some(a) = o {
                assert(a == (crate::stmt::Drop {  }));
            }
        },
        StatementM::Continue(o) => {
            if let Some(a) = o {
                assert(a == (crate::stmt::Continue {  }));
            }
        },
        StatementM::Return(o) => {
            if let Some(a) = o {
                assert(a == (crate::stmt::Return {  }));
            }
        },
        StatementM::Jump(t) => {
            lemma_rt_jump_target(t);
        },
        StatementM::Goto(t) => {
            lemma_rt_jump_target(t);
        },
        StatementM::Match(m) => {
            lemma_rt_match(m);
        },
        StatementM::Counter(c) => {
            lemma_rt_counter(c);
        },
        StatementM::Mangle(m) => {
            lemma_rt_mangle(m);
        },
        StatementM::Quota(q) => {
            lemma_rt_quota_ref(q);
        },
        StatementM::Limit(l) => {
            crate::codec::lemma_rt_limit_stmt(l);
        },
        StatementM::Flow(f) => {
            crate::codec::lemma_rt_flow(f);
        },
        StatementM::FWD(o) => {
            if let Some(f) = o {
                lemma_rt_fwd(f);
            }
        },
        StatementM::Notrack => {
        },
        StatementM::Dup(d) => {
            lemma_rt_dup(d);
        },
        StatementM::SNAT(o) => {
            lemma_rt_nat(o);
        },
        StatementM::DNAT(o) => {
            lemma_rt_nat(o);
        },
        StatementM::Masquerade(o) => {
            lemma_rt_nat(o);
        },
        StatementM::Redirect(o) => {
            lemma_rt_nat(o);
        },
        StatementM::Reject(o) => {
            if let Some(x) = o {
                crate::codec::lemma_rt_reject(x);
            }
        },
        StatementM::SetStmt(s2) => {
            lemma_rt_set_stmt(s2);
        },
        StatementM::Log(o) => {
            if let Some(l) = o {
                crate::codec::lemma_rt_log(l);
            }
        },
        StatementM::CTHelper(_) => {
        },
        StatementM::Meter(m) => {
            lemma_rt_meter(m);
        },
        StatementM::Queue(q) => {
            lemma_rt_queue(q);
        },
        StatementM::VerdictMap(v) => {
            lemma_rt_vmap(v);
        },
        StatementM::CTCount(c) => {
            lemma_rt_ctcount(c);
        },
        StatementM::CTTimeout(e) => {
            lemma_rt_expr(e);
        },
        StatementM::CTExpectation(e) => {
            lemma_rt_expr(e);
        },
        StatementM::XT(_) => {
        },
        StatementM::SynProxy(p) => {
            crate::codec::lemma_rt_synproxy_stmt(p);
        },
        StatementM::TProxy(t) => {
            crate::codec::lemma_rt_tproxy(t);
        },
    }
}









/// A range expression holds exactly two boundaries: any other operand
/// arity is a hard decode error, never truncated or padded.
pub proof fn lemma_range_arity(v: JsonM)
    ensures
        !(v is Arr && v->Arr_0.len() == 2) ==> crate::codec::dec_expr(
            JsonM::Obj(crate::codec::fone("range"@, v)),
        ) is None,
{
    reveal_strlit("&");
    reveal_strlit("|");
    reveal_strlit("^");
    reveal_strlit("<<");
    reveal_strlit(">>");
    reveal_strlit("range");
    assert("&"@.len() == 1 && "&"@[0] == '&');
    assert("|"@.len() == 1 && "|"@[0] == '|');
    assert("^"@.len() == 1 && "^"@[0] == '^');
    assert("<<"@.len() == 2 && "<<"@[0] == '<');
    assert(">>"@.len() == 2 && ">>"@[0] == '>');
    assert("range"@.len() == 5 && "range"@[0] == 'r');
}

} // verus!
