use vstd::prelude::*;

use crate::json::JsonM;
use crate::laws::{
    lemma_rt_expr, lemma_rt_stmt, lemma_wf_exprs_pointwise, lemma_wf_stmts_pointwise, wf_expr,
    wf_exprs_at, wf_stmt, wf_stmts_at,
};
use crate::schema::{
    ChainM, ElementM, FlowTableM, FlushObjectM, MapObjectM, MeterM, NfCmdM, NfListObjectM,
    NfObjectM, NftablesM, ResetObjectM, RuleM, Ruleset, SetObjectM,
};

verus! {

broadcast use vstd::string::group_string_axioms, vstd::std_specs::vec::group_vec_axioms;

// ---------------------------------------------------------------------
// Which documents survive the wire unchanged: every nested expression
// and statement well-formed, and an empty device list excluded (as a
// flexible field it encodes as field-absent).
// ---------------------------------------------------------------------

/// A rule that decodes back from its wire form.
pub open spec fn wf_rule(r: RuleM) -> bool {
    wf_stmts_at(r.expr, 0)
}

/// An element manipulation that decodes back from its wire form.
pub open spec fn wf_element(e: ElementM) -> bool {
    wf_exprs_at(e.elem, 0)
}

/// A named set that decodes back from its wire form.
pub open spec fn wf_set_object(t: SetObjectM) -> bool {
    match t.elem {
        Some(es) => wf_exprs_at(es, 0),
        None => true,
    }
}

/// A named map that decodes back from its wire form.
pub open spec fn wf_map_object(t: MapObjectM) -> bool {
    match t.elem {
        Some(es) => wf_exprs_at(es, 0),
        None => true,
    }
}

/// A flow table that decodes back from its wire form.
pub open spec fn wf_flow_table(t: FlowTableM) -> bool {
    match t.dev {
        Some(d) => d.len() > 0,
        None => true,
    }
}

/// A named meter that decodes back from its wire form.
pub open spec fn wf_meter_obj(t: MeterM) -> bool {
    wf_expr(t.key) && wf_stmt(*t.stmt)
}

/// A ruleset element that decodes back from its wire form.
pub open spec fn wf_list_obj(t: NfListObjectM) -> bool {
    match t {
        NfListObjectM::Table(_) => true,
        NfListObjectM::Chain(_) => true,
        NfListObjectM::Rule(r) => wf_rule(r),
        NfListObjectM::SetObj(s) => wf_set_object(*s),
        NfListObjectM::MapObj(m) => wf_map_object(*m),
        NfListObjectM::Element(e) => wf_element(e),
        NfListObjectM::FlowTable(f) => wf_flow_table(f),
        NfListObjectM::Counter(_) => true,
        NfListObjectM::Quota(_) => true,
        NfListObjectM::CTHelper(_) => true,
        NfListObjectM::Limit(_) => true,
        NfListObjectM::MetainfoObject(_) => true,
        NfListObjectM::CTTimeout(_) => true,
        NfListObjectM::CTExpectation(_) => true,
        NfListObjectM::SynProxy(_) => true,
    }
}

/// A command that decodes back from its wire form.
pub open spec fn wf_cmd(c: NfCmdM) -> bool {
    match c {
        NfCmdM::Add(x) => wf_list_obj(x),
        NfCmdM::Replace(r) => wf_rule(r),
        NfCmdM::Create(x) => wf_list_obj(x),
        NfCmdM::Insert(x) => wf_list_obj(x),
        NfCmdM::Delete(x) => wf_list_obj(x),
        NfCmdM::List(x) => wf_list_obj(x),
        NfCmdM::Reset(_) => true,
        NfCmdM::Flush(f) => match f {
            FlushObjectM::SetObj(s) => wf_set_object(*s),
            FlushObjectM::MapObj(m) => wf_map_object(*m),
            FlushObjectM::Meter(x) => wf_meter_obj(x),
            _ => true,
        },
        NfCmdM::Rename(_) => true,
    }
}

/// A document item that decodes back from its wire form.
pub open spec fn wf_obj(o: NfObjectM) -> bool {
    match o {
        NfObjectM::CmdObject(c) => wf_cmd(c),
        NfObjectM::ListObject(l) => wf_list_obj(l),
    }
}

/// The items of a document, from index `i` on, all well-formed.
pub open spec fn wf_objs_at(s: Seq<NfObjectM>, i: int) -> bool
    decreases s.len() - i,
{
    if 0 <= i < s.len() {
        wf_obj(s[i]) && wf_objs_at(s, i + 1)
    } else {
        true
    }
}

/// A document that decodes back from its wire form.
pub open spec fn wf_doc(d: NftablesM) -> bool {
    wf_objs_at(d.objects, 0)
}

/// Every item of a well-formed document is well-formed.
pub proof fn lemma_wf_objs_pointwise(s: Seq<NfObjectM>, i: int)
    requires
        0 <= i <= s.len(),
        wf_objs_at(s, i),
    ensures
        forall|k: int| i <= k < s.len() ==> wf_obj(#[trigger] s[k]),
    decreases s.len() - i,
{
    if i < s.len() {
        lemma_wf_objs_pointwise(s, i + 1);
    }
}

// ---------------------------------------------------------------------
// Round-trip lemmas for the ruleset elements that hold expressions
// ---------------------------------------------------------------------

/// Decoding an encoded well-formed rule gives it back.
#[verifier::rlimit(100)]
#[verifier::spinoff_prover]
pub proof fn lemma_rt_rule(t: RuleM)
    requires
        wf_rule(t),
    ensures
        crate::doc::dec_rule(crate::doc::enc_rule(t)) == Some(t),
{
    reveal(crate::doc::dec_rule);
    reveal_strlit("family");
    reveal_strlit("table");
    reveal_strlit("chain");
    reveal_strlit("expr");
    reveal_strlit("handle");
    reveal_strlit("index");
    reveal_strlit("comment");
    assert("family"@.len() >= 1 && "family"@[0] == 'f');
    assert("table"@.len() >= 1 && "table"@[0] == 't');
    assert("chain"@.len() >= 2 && "chain"@[0] == 'c' && "chain"@[1] == 'h');
    assert("expr"@.len() >= 1 && "expr"@[0] == 'e');
    assert("handle"@.len() >= 1 && "handle"@[0] == 'h');
    assert("index"@.len() >= 1 && "index"@[0] == 'i');
    assert("comment"@.len() >= 2 && "comment"@[0] == 'c' && "comment"@[1] == 'o');
    let f1 = crate::codec::fone("family"@, JsonM::Str(crate::types::family_tok(t.family)));
    let f2 = crate::codec::fone("table"@, JsonM::Str(t.table));
    let f3 = crate::codec::fone("chain"@, JsonM::Str(t.chain));
    let w = crate::codec::enc_stmts_at(t.expr, 0);
    let f4 = crate::codec::fone("expr"@, JsonM::Arr(w));
    let f5 = crate::codec::fopt_u32("handle"@, t.handle);
    let f6 = crate::codec::fopt_u32("index"@, t.index);
    let f7 = crate::codec::fopt_str("comment"@, t.comment);
    crate::json::lemma_lookup_prepend_all(f1, f2 + (f3 + (f4 + (f5 + (f6 + f7)))));
    crate::json::lemma_lookup_prepend_all(f2, f3 + (f4 + (f5 + (f6 + f7))));
    crate::json::lemma_lookup_prepend_all(f3, f4 + (f5 + (f6 + f7)));
    crate::json::lemma_lookup_prepend_all(f4, f5 + (f6 + f7));
    crate::json::lemma_lookup_prepend_all(f5, f6 + f7);
    crate::json::lemma_lookup_prepend_all(f6, f7);
    crate::json::lemma_lookup_single_all(
        "family"@,
        JsonM::Str(crate::types::family_tok(t.family)),
    );
    crate::json::lemma_lookup_single_all("table"@, JsonM::Str(t.table));
    crate::json::lemma_lookup_single_all("chain"@, JsonM::Str(t.chain));
    crate::json::lemma_lookup_single_all("expr"@, JsonM::Arr(w));
    if let Some(x) = t.handle {
        crate::json::lemma_lookup_single_all("handle"@, JsonM::Num(x as int));
    }
    if let Some(x) = t.index {
        crate::json::lemma_lookup_single_all("index"@, JsonM::Num(x as int));
    }
    if let Some(x) = t.comment {
        crate::json::lemma_lookup_single_all("comment"@, JsonM::Str(x));
    }
    crate::types::lemma_family_inv_tok(t.family);
    crate::codec::lemma_enc_stmts_at(t.expr, 0);
    lemma_wf_stmts_pointwise(t.expr, 0);
    assert forall|k: int|
        0 <= k < w.len() implies (#[trigger] crate::codec::dec_stmt(w[k])) == Some(
        t.expr[k],
    ) by {
        lemma_rt_stmt(t.expr[k]);
    }
    crate::codec::lemma_dec_stmts_at_some(w, 0);
    let r = crate::codec::dec_stmts_at(w, 0)->0;
    assert(r =~= t.expr);
}

/// Decoding an encoded well-formed element manipulation gives it back.
#[verifier::rlimit(100)]
#[verifier::spinoff_prover]
pub proof fn lemma_rt_element(t: ElementM)
    requires
        wf_element(t),
    ensures
        crate::doc::dec_element(crate::doc::enc_element(t)) == Some(t),
{
    reveal(crate::doc::dec_element);
    reveal_strlit("family");
    reveal_strlit("table");
    reveal_strlit("name");
    reveal_strlit("elem");
    assert("family"@.len() >= 1 && "family"@[0] == 'f');
    assert("table"@.len() >= 1 && "table"@[0] == 't');
    assert("name"@.len() >= 1 && "name"@[0] == 'n');
    assert("elem"@.len() >= 1 && "elem"@[0] == 'e');
    let f1 = crate::codec::fone("family"@, JsonM::Str(crate::types::family_tok(t.family)));
    let f2 = crate::codec::fone("table"@, JsonM::Str(t.table));
    let f3 = crate::codec::fone("name"@, JsonM::Str(t.name));
    let w = crate::codec::enc_exprs_at(t.elem, 0);
    let f4 = crate::codec::fone("elem"@, JsonM::Arr(w));
    crate::json::lemma_lookup_prepend_all(f1, f2 + (f3 + f4));
    crate::json::lemma_lookup_prepend_all(f2, f3 + f4);
    crate::json::lemma_lookup_prepend_all(f3, f4);
    crate::json::lemma_lookup_single_all(
        "family"@,
        JsonM::Str(crate::types::family_tok(t.family)),
    );
    crate::json::lemma_lookup_single_all("table"@, JsonM::Str(t.table));
    crate::json::lemma_lookup_single_all("name"@, JsonM::Str(t.name));
    crate::json::lemma_lookup_single_all("elem"@, JsonM::Arr(w));
    crate::types::lemma_family_inv_tok(t.family);
    crate::codec::lemma_enc_exprs_at(t.elem, 0);
    lemma_wf_exprs_pointwise(t.elem, 0);
    assert forall|k: int|
        0 <= k < w.len() implies (#[trigger] crate::codec::dec_expr(w[k])) == Some(
        t.elem[k],
    ) by {
        lemma_rt_expr(t.elem[k]);
    }
    crate::codec::lemma_dec_exprs_at_some(w, 0);
    let r = crate::codec::dec_exprs_at(w, 0)->0;
    assert(r =~= t.elem);
}

/// Decoding an encoded well-formed flow table gives it back.  An empty
/// device list is excluded: as a flexible field it encodes as
/// field-absent, which decodes to no devices at all.
#[verifier::rlimit(100)]
#[verifier::spinoff_prover]
pub proof fn lemma_rt_flow_table(t: FlowTableM)
    requires
        wf_flow_table(t),
    ensures
        crate::doc::dec_flow_table(crate::doc::enc_flow_table(t)) == Some(t),
{
    reveal(crate::doc::dec_flow_table);
    reveal_strlit("family");
    reveal_strlit("table");
    reveal_strlit("name");
    reveal_strlit("handle");
    reveal_strlit("hook");
    reveal_strlit("prio");
    reveal_strlit("dev");
    assert("family"@.len() >= 1 && "family"@[0] == 'f');
    assert("table"@.len() >= 1 && "table"@[0] == 't');
    assert("name"@.len() >= 1 && "name"@[0] == 'n');
    assert("handle"@.len() >= 2 && "handle"@[0] == 'h' && "handle"@[1] == 'a');
    assert("hook"@.len() >= 2 && "hook"@[0] == 'h' && "hook"@[1] == 'o');
    assert("prio"@.len() >= 1 && "prio"@[0] == 'p');
    assert("dev"@.len() >= 1 && "dev"@[0] == 'd');
    let f1 = crate::codec::fone("family"@, JsonM::Str(crate::types::family_tok(t.family)));
    let f2 = crate::codec::fone("table"@, JsonM::Str(t.table));
    let f3 = crate::codec::fone("name"@, JsonM::Str(t.name));
    let f4 = crate::codec::fopt_u32("handle"@, t.handle);
    let f5 = crate::codec::fopt_str(
        "hook"@,
        (match t.hook {
            Some(h) => Some(crate::types::hook_tok(h)),
            None => None,
        }),
    );
    let f6 = crate::codec::fopt_u32("prio"@, t.prio);
    let f7 = crate::codec::fopt_val(
        "dev"@,
        (match t.dev {
            Some(d) => if d.len() > 0 {
                Some(crate::codec::enc_strs(d))
            } else {
                None
            },
            None => None,
        }),
    );
    crate::json::lemma_lookup_prepend_all(f1, f2 + (f3 + (f4 + (f5 + (f6 + f7)))));
    crate::json::lemma_lookup_prepend_all(f2, f3 + (f4 + (f5 + (f6 + f7))));
    crate::json::lemma_lookup_prepend_all(f3, f4 + (f5 + (f6 + f7)));
    crate::json::lemma_lookup_prepend_all(f4, f5 + (f6 + f7));
    crate::json::lemma_lookup_prepend_all(f5, f6 + f7);
    crate::json::lemma_lookup_prepend_all(f6, f7);
    crate::json::lemma_lookup_single_all(
        "family"@,
        JsonM::Str(crate::types::family_tok(t.family)),
    );
    crate::json::lemma_lookup_single_all("table"@, JsonM::Str(t.table));
    crate::json::lemma_lookup_single_all("name"@, JsonM::Str(t.name));
    if let Some(x) = t.handle {
        crate::json::lemma_lookup_single_all("handle"@, JsonM::Num(x as int));
    }
    if let Some(h) = t.hook {
        crate::json::lemma_lookup_single_all("hook"@, JsonM::Str(crate::types::hook_tok(h)));
        crate::types::lemma_hook_inv_tok(h);
    }
    if let Some(x) = t.prio {
        crate::json::lemma_lookup_single_all("prio"@, JsonM::Num(x as int));
    }
    if let Some(d) = t.dev {
        crate::json::lemma_lookup_single_all("dev"@, crate::codec::enc_strs(d));
        crate::codec::lemma_rt_strs(d);
    }
    crate::types::lemma_family_inv_tok(t.family);
}

/// Decoding an encoded well-formed named meter gives it back.
#[verifier::rlimit(100)]
#[verifier::spinoff_prover]
pub proof fn lemma_rt_meter_obj(t: MeterM)
    requires
        wf_meter_obj(t),
    ensures
        crate::doc::dec_meter_obj(crate::doc::enc_meter_obj(t)) == Some(t),
{
    reveal_strlit("name");
    reveal_strlit("key");
    reveal_strlit("stmt");
    assert("name"@.len() >= 1 && "name"@[0] == 'n');
    assert("key"@.len() >= 1 && "key"@[0] == 'k');
    assert("stmt"@.len() >= 1 && "stmt"@[0] == 's');
    let f1 = crate::codec::fone("name"@, JsonM::Str(t.name));
    let f2 = crate::codec::fone("key"@, crate::codec::enc_expr(t.key));
    let f3 = crate::codec::fone("stmt"@, crate::codec::enc_stmt_m(*t.stmt));
    crate::json::lemma_lookup_prepend_all(f1, f2 + f3);
    crate::json::lemma_lookup_prepend_all(f2, f3);
    crate::json::lemma_lookup_single_all("name"@, JsonM::Str(t.name));
    crate::json::lemma_lookup_single_all("key"@, crate::codec::enc_expr(t.key));
    crate::json::lemma_lookup_single_all("stmt"@, crate::codec::enc_stmt_m(*t.stmt));
    lemma_rt_expr(t.key);
    lemma_rt_stmt(*t.stmt);
}

/// Decoding an encoded well-formed named set gives it back.
#[verifier::rlimit(100)]
#[verifier::spinoff_prover]
pub proof fn lemma_rt_set_object(t: SetObjectM)
    requires
        wf_set_object(t),
    ensures
        crate::doc::dec_set_object(crate::doc::enc_set_object(t)) == Some(t),
{
    reveal(crate::doc::dec_set_object);
    reveal_strlit("family");
    reveal_strlit("table");
    reveal_strlit("name");
    reveal_strlit("handle");
    reveal_strlit("type");
    reveal_strlit("policy");
    reveal_strlit("flags");
    reveal_strlit("elem");
    reveal_strlit("timeout");
    reveal_strlit("gc-interval");
    reveal_strlit("size");
    reveal_strlit("comment");
    assert("family"@.len() == 6 && "family"@[0] == 'f' && "family"@[1] == 'a');
    assert("table"@.len() == 5 && "table"@[0] == 't' && "table"@[1] == 'a');
    assert("name"@.len() == 4 && "name"@[0] == 'n' && "name"@[1] == 'a');
    assert("handle"@.len() == 6 && "handle"@[0] == 'h' && "handle"@[1] == 'a');
    assert("type"@.len() == 4 && "type"@[0] == 't' && "type"@[1] == 'y');
    assert("policy"@.len() == 6 && "policy"@[0] == 'p' && "policy"@[1] == 'o');
    assert("flags"@.len() == 5 && "flags"@[0] == 'f' && "flags"@[1] == 'l');
    assert("elem"@.len() == 4 && "elem"@[0] == 'e' && "elem"@[1] == 'l');
    assert("timeout"@.len() == 7 && "timeout"@[0] == 't' && "timeout"@[1] == 'i');
    assert("gc-interval"@.len() == 11 && "gc-interval"@[0] == 'g' && "gc-interval"@[1] == 'c');
    assert("size"@.len() == 4 && "size"@[0] == 's' && "size"@[1] == 'i');
    assert("comment"@.len() == 7 && "comment"@[0] == 'c' && "comment"@[1] == 'o');
    let f1 = crate::codec::fone("family"@, JsonM::Str(crate::types::family_tok(t.family)));
    let f2 = crate::codec::fone("table"@, JsonM::Str(t.table));
    let f3 = crate::codec::fone("name"@, JsonM::Str(t.name));
    let f4 = crate::codec::fopt_u32("handle"@, t.handle);
    let f5 = crate::codec::fone("type"@, crate::doc::enc_set_type_value(t.set_type));
    let f6 = crate::codec::fopt_str("policy"@, (match t.policy {
        Some(x) => Some(crate::schema::set_policy_tok(x)),
        None => None,
    }));
    let f7 = crate::codec::fopt_val("flags"@, (match t.flags {
        Some(fs) => Some(crate::codec::enc_set_flags(fs)),
        None => None,
    }));
    let f8 = crate::codec::fopt_val("elem"@, (match t.elem {
        Some(es) => Some(JsonM::Arr(crate::codec::enc_exprs_at(es, 0))),
        None => None,
    }));
    let f9 = crate::codec::fopt_u32("timeout"@, t.timeout);
    let f10 = crate::codec::fopt_u32("gc-interval"@, t.gc_interval);
    let f11 = crate::codec::fopt_u32("size"@, t.size);
    let f12 = crate::codec::fopt_str("comment"@, t.comment);
    crate::json::lemma_lookup_prepend_all(f1, f2 + (f3 + (f4 + (f5 + (f6 + (f7 + (f8 + (f9 + (f10 + (f11 + (f12)))))))))));
    crate::json::lemma_lookup_prepend_all(f2, f3 + (f4 + (f5 + (f6 + (f7 + (f8 + (f9 + (f10 + (f11 + (f12))))))))));
    crate::json::lemma_lookup_prepend_all(f3, f4 + (f5 + (f6 + (f7 + (f8 + (f9 + (f10 + (f11 + (f12)))))))));
    crate::json::lemma_lookup_prepend_all(f4, f5 + (f6 + (f7 + (f8 + (f9 + (f10 + (f11 + (f12))))))));
    crate::json::lemma_lookup_prepend_all(f5, f6 + (f7 + (f8 + (f9 + (f10 + (f11 + (f12)))))));
    crate::json::lemma_lookup_prepend_all(f6, f7 + (f8 + (f9 + (f10 + (f11 + (f12))))));
    crate::json::lemma_lookup_prepend_all(f7, f8 + (f9 + (f10 + (f11 + (f12)))));
    crate::json::lemma_lookup_prepend_all(f8, f9 + (f10 + (f11 + (f12))));
    crate::json::lemma_lookup_prepend_all(f9, f10 + (f11 + (f12)));
    crate::json::lemma_lookup_prepend_all(f10, f11 + (f12));
    crate::json::lemma_lookup_prepend_all(f11, f12);
    crate::json::lemma_lookup_single_all("family"@, JsonM::Str(crate::types::family_tok(t.family)));
    crate::json::lemma_lookup_single_all("table"@, JsonM::Str(t.table));
    crate::json::lemma_lookup_single_all("name"@, JsonM::Str(t.name));
    if let Some(x) = t.handle {
        crate::json::lemma_lookup_single_all("handle"@, JsonM::Num(x as int));
    }
    crate::json::lemma_lookup_single_all("type"@, crate::doc::enc_set_type_value(t.set_type));
    crate::doc::lemma_rt_set_type_value(t.set_type);
    if let Some(x) = t.policy {
        crate::json::lemma_lookup_single_all("policy"@, JsonM::Str(crate::schema::set_policy_tok(x)));
        crate::schema::lemma_set_policy_inv_tok(x);
    }
    if let Some(fs) = t.flags {
        crate::json::lemma_lookup_single_all("flags"@, crate::codec::enc_set_flags(fs));
        crate::codec::lemma_rt_set_flags(fs);
    }
    if let Some(es) = t.elem {
        let w = crate::codec::enc_exprs_at(es, 0);
        crate::json::lemma_lookup_single_all("elem"@, JsonM::Arr(w));
        crate::codec::lemma_enc_exprs_at(es, 0);
        lemma_wf_exprs_pointwise(es, 0);
        assert forall|k: int|
            0 <= k < w.len() implies (#[trigger] crate::codec::dec_expr(w[k])) == Some(
            es[k],
        ) by {
            lemma_rt_expr(es[k]);
        }
        crate::codec::lemma_dec_exprs_at_some(w, 0);
        let r = crate::codec::dec_exprs_at(w, 0)->0;
        assert(r =~= es);
    }
    if let Some(x) = t.timeout {
        crate::json::lemma_lookup_single_all("timeout"@, JsonM::Num(x as int));
    }
    if let Some(x) = t.gc_interval {
        crate::json::lemma_lookup_single_all("gc-interval"@, JsonM::Num(x as int));
    }
    if let Some(x) = t.size {
        crate::json::lemma_lookup_single_all("size"@, JsonM::Num(x as int));
    }
    if let Some(x) = t.comment {
        crate::json::lemma_lookup_single_all("comment"@, JsonM::Str(x));
    }
    crate::types::lemma_family_inv_tok(t.family);

}

/// Decoding an encoded well-formed named map gives it back.
#[verifier::rlimit(100)]
#[verifier::spinoff_prover]
pub proof fn lemma_rt_map_object(t: MapObjectM)
    requires
        wf_map_object(t),
    ensures
        crate::doc::dec_map_object(crate::doc::enc_map_object(t)) == Some(t),
{
    reveal(crate::doc::dec_map_object);
    reveal_strlit("family");
    reveal_strlit("table");
    reveal_strlit("name");
    reveal_strlit("handle");
    reveal_strlit("type");
    reveal_strlit("map");
    reveal_strlit("policy");
    reveal_strlit("flags");
    reveal_strlit("elem");
    reveal_strlit("timeout");
    reveal_strlit("gc-interval");
    reveal_strlit("size");
    reveal_strlit("comment");
    assert("family"@.len() == 6 && "family"@[0] == 'f' && "family"@[1] == 'a');
    assert("table"@.len() == 5 && "table"@[0] == 't' && "table"@[1] == 'a');
    assert("name"@.len() == 4 && "name"@[0] == 'n' && "name"@[1] == 'a');
    assert("handle"@.len() == 6 && "handle"@[0] == 'h' && "handle"@[1] == 'a');
    assert("type"@.len() == 4 && "type"@[0] == 't' && "type"@[1] == 'y');
    assert("map"@.len() == 3 && "map"@[0] == 'm' && "map"@[1] == 'a');
    assert("policy"@.len() == 6 && "policy"@[0] == 'p' && "policy"@[1] == 'o');
    assert("flags"@.len() == 5 && "flags"@[0] == 'f' && "flags"@[1] == 'l');
    assert("elem"@.len() == 4 && "elem"@[0] == 'e' && "elem"@[1] == 'l');
    assert("timeout"@.len() == 7 && "timeout"@[0] == 't' && "timeout"@[1] == 'i');
    assert("gc-interval"@.len() == 11 && "gc-interval"@[0] == 'g' && "gc-interval"@[1] == 'c');
    assert("size"@.len() == 4 && "size"@[0] == 's' && "size"@[1] == 'i');
    assert("comment"@.len() == 7 && "comment"@[0] == 'c' && "comment"@[1] == 'o');
    let f1 = crate::codec::fone("family"@, JsonM::Str(crate::types::family_tok(t.family)));
    let f2 = crate::codec::fone("table"@, JsonM::Str(t.table));
    let f3 = crate::codec::fone("name"@, JsonM::Str(t.name));
    let f4 = crate::codec::fopt_u32("handle"@, t.handle);
    let f5 = crate::codec::fone("type"@, crate::doc::enc_set_type_value(t.set_type));
    let f6 = crate::codec::fone("map"@, crate::doc::enc_set_type_value(t.map));
    let f7 = crate::codec::fopt_str("policy"@, (match t.policy {
        Some(x) => Some(crate::schema::set_policy_tok(x)),
        None => None,
    }));
    let f8 = crate::codec::fopt_val("flags"@, (match t.flags {
        Some(fs) => Some(crate::codec::enc_set_flags(fs)),
        None => None,
    }));
    let f9 = crate::codec::fopt_val("elem"@, (match t.elem {
        Some(es) => Some(JsonM::Arr(crate::codec::enc_exprs_at(es, 0))),
        None => None,
    }));
    let f10 = crate::codec::fopt_u32("timeout"@, t.timeout);
    let f11 = crate::codec::fopt_u32("gc-interval"@, t.gc_interval);
    let f12 = crate::codec::fopt_u32("size"@, t.size);
    let f13 = crate::codec::fopt_str("comment"@, t.comment);
    crate::json::lemma_lookup_prepend_all(f1, f2 + (f3 + (f4 + (f5 + (f6 + (f7 + (f8 + (f9 + (f10 + (f11 + (f12 + (f13))))))))))));
    crate::json::lemma_lookup_prepend_all(f2, f3 + (f4 + (f5 + (f6 + (f7 + (f8 + (f9 + (f10 + (f11 + (f12 + (f13)))))))))));
    crate::json::lemma_lookup_prepend_all(f3, f4 + (f5 + (f6 + (f7 + (f8 + (f9 + (f10 + (f11 + (f12 + (f13))))))))));
    crate::json::lemma_lookup_prepend_all(f4, f5 + (f6 + (f7 + (f8 + (f9 + (f10 + (f11 + (f12 + (f13)))))))));
    crate::json::lemma_lookup_prepend_all(f5, f6 + (f7 + (f8 + (f9 + (f10 + (f11 + (f12 + (f13))))))));
    crate::json::lemma_lookup_prepend_all(f6, f7 + (f8 + (f9 + (f10 + (f11 + (f12 + (f13)))))));
    crate::json::lemma_lookup_prepend_all(f7, f8 + (f9 + (f10 + (f11 + (f12 + (f13))))));
    crate::json::lemma_lookup_prepend_all(f8, f9 + (f10 + (f11 + (f12 + (f13)))));
    crate::json::lemma_lookup_prepend_all(f9, f10 + (f11 + (f12 + (f13))));
    crate::json::lemma_lookup_prepend_all(f10, f11 + (f12 + (f13)));
    crate::json::lemma_lookup_prepend_all(f11, f12 + (f13));
    crate::json::lemma_lookup_prepend_all(f12, f13);
    crate::json::lemma_lookup_single_all("family"@, JsonM::Str(crate::types::family_tok(t.family)));
    crate::json::lemma_lookup_single_all("table"@, JsonM::Str(t.table));
    crate::json::lemma_lookup_single_all("name"@, JsonM::Str(t.name));
    if let Some(x) = t.handle {
        crate::json::lemma_lookup_single_all("handle"@, JsonM::Num(x as int));
    }
    crate::json::lemma_lookup_single_all("type"@, crate::doc::enc_set_type_value(t.set_type));
    crate::doc::lemma_rt_set_type_value(t.set_type);
    crate::json::lemma_lookup_single_all("map"@, crate::doc::enc_set_type_value(t.map));
    crate::doc::lemma_rt_set_type_value(t.map);
    if let Some(x) = t.policy {
        crate::json::lemma_lookup_single_all("policy"@, JsonM::Str(crate::schema::set_policy_tok(x)));
        crate::schema::lemma_set_policy_inv_tok(x);
    }
    if let Some(fs) = t.flags {
        crate::json::lemma_lookup_single_all("flags"@, crate::codec::enc_set_flags(fs));
        crate::codec::lemma_rt_set_flags(fs);
    }
    if let Some(es) = t.elem {
        let w = crate::codec::enc_exprs_at(es, 0);
        crate::json::lemma_lookup_single_all("elem"@, JsonM::Arr(w));
        crate::codec::lemma_enc_exprs_at(es, 0);
        lemma_wf_exprs_pointwise(es, 0);
        assert forall|k: int|
            0 <= k < w.len() implies (#[trigger] crate::codec::dec_expr(w[k])) == Some(
            es[k],
        ) by {
            lemma_rt_expr(es[k]);
        }
        crate::codec::lemma_dec_exprs_at_some(w, 0);
        let r = crate::codec::dec_exprs_at(w, 0)->0;
        assert(r =~= es);
    }
    if let Some(x) = t.timeout {
        crate::json::lemma_lookup_single_all("timeout"@, JsonM::Num(x as int));
    }
    if let Some(x) = t.gc_interval {
        crate::json::lemma_lookup_single_all("gc-interval"@, JsonM::Num(x as int));
    }
    if let Some(x) = t.size {
        crate::json::lemma_lookup_single_all("size"@, JsonM::Num(x as int));
    }
    if let Some(x) = t.comment {
        crate::json::lemma_lookup_single_all("comment"@, JsonM::Str(x));
    }
    crate::types::lemma_family_inv_tok(t.family);

}


// ---------------------------------------------------------------------
// Round-trip lemmas for the dispatch layers and whole documents
// ---------------------------------------------------------------------

/// Decoding an encoded well-formed ruleset element gives it back, and
/// its dispatch property is an element kind, not a command verb.
#[verifier::rlimit(100)]
#[verifier::spinoff_prover]
pub proof fn lemma_rt_list_obj(t: NfListObjectM)
    requires
        wf_list_obj(t),
    ensures
        crate::doc::enc_list_obj(t) matches JsonM::Obj(s) && s.len() == 1 && !crate::doc::is_cmd_key(
            s[0].0,
        ) && crate::doc::dec_list_obj_kv(s[0].0, s[0].1) == Some(t),
        crate::doc::dec_list_obj_payload(crate::doc::enc_list_obj(t)) == Some(t),
{
    reveal(crate::doc::dec_list_obj_kv);
    reveal_strlit("table");
    reveal_strlit("chain");
    reveal_strlit("rule");
    reveal_strlit("set");
    reveal_strlit("map");
    reveal_strlit("element");
    reveal_strlit("flowtable");
    reveal_strlit("counter");
    reveal_strlit("quota");
    reveal_strlit("ct helper");
    reveal_strlit("limit");
    reveal_strlit("metainfo");
    reveal_strlit("ct timeout");
    reveal_strlit("ct expectation");
    reveal_strlit("synproxy");
    assert("table"@.len() == 5 && "table"@[0] == 't' && "table"@[1] == 'a');
    assert("chain"@.len() == 5 && "chain"@[0] == 'c' && "chain"@[1] == 'h');
    assert("rule"@.len() == 4 && "rule"@[0] == 'r' && "rule"@[1] == 'u');
    assert("set"@.len() == 3 && "set"@[0] == 's' && "set"@[1] == 'e');
    assert("map"@.len() == 3 && "map"@[0] == 'm' && "map"@[1] == 'a');
    assert("element"@.len() == 7 && "element"@[0] == 'e' && "element"@[1] == 'l');
    assert("flowtable"@.len() == 9 && "flowtable"@[0] == 'f' && "flowtable"@[1] == 'l');
    assert("counter"@.len() == 7 && "counter"@[0] == 'c' && "counter"@[1] == 'o');
    assert("quota"@.len() == 5 && "quota"@[0] == 'q' && "quota"@[1] == 'u');
    assert("ct helper"@.len() == 9 && "ct helper"@[0] == 'c' && "ct helper"@[1] == 't');
    assert("limit"@.len() == 5 && "limit"@[0] == 'l' && "limit"@[1] == 'i');
    assert("metainfo"@.len() == 8 && "metainfo"@[0] == 'm' && "metainfo"@[1] == 'e');
    assert("ct timeout"@.len() == 10 && "ct timeout"@[0] == 'c' && "ct timeout"@[1] == 't');
    assert("ct expectation"@.len() == 14 && "ct expectation"@[0] == 'c' && "ct expectation"@[1] == 't');
    assert("synproxy"@.len() == 8 && "synproxy"@[0] == 's' && "synproxy"@[1] == 'y');
    reveal_strlit("add");
    reveal_strlit("replace");
    reveal_strlit("create");
    reveal_strlit("insert");
    reveal_strlit("delete");
    reveal_strlit("list");
    reveal_strlit("reset");
    reveal_strlit("flush");
    reveal_strlit("rename");
    assert("add"@.len() == 3 && "add"@[0] == 'a' && "add"@[1] == 'd');
    assert("replace"@.len() == 7 && "replace"@[0] == 'r' && "replace"@[1] == 'e');
    assert("create"@.len() == 6 && "create"@[0] == 'c' && "create"@[1] == 'r');
    assert("insert"@.len() == 6 && "insert"@[0] == 'i' && "insert"@[1] == 'n');
    assert("delete"@.len() == 6 && "delete"@[0] == 'd' && "delete"@[1] == 'e');
    assert("list"@.len() == 4 && "list"@[0] == 'l' && "list"@[1] == 'i');
    assert("reset"@.len() == 5 && "reset"@[0] == 'r' && "reset"@[1] == 'e');
    assert("flush"@.len() == 5 && "flush"@[0] == 'f' && "flush"@[1] == 'l');
    assert("rename"@.len() == 6 && "rename"@[0] == 'r' && "rename"@[1] == 'e');
    match t {
        NfListObjectM::Table(x) => {
            crate::codec::lemma_rt_table(x);
        },
        NfListObjectM::Chain(x) => {
            crate::codec::lemma_rt_chain(x);
        },
        NfListObjectM::Rule(x) => {
            lemma_rt_rule(x);
        },
        NfListObjectM::SetObj(x) => {
            lemma_rt_set_object(*x);
        },
        NfListObjectM::MapObj(x) => {
            lemma_rt_map_object(*x);
        },
        NfListObjectM::Element(x) => {
            lemma_rt_element(x);
        },
        NfListObjectM::FlowTable(x) => {
            lemma_rt_flow_table(x);
        },
        NfListObjectM::Counter(x) => {
            crate::codec::lemma_rt_counter_obj(x);
        },
        NfListObjectM::Quota(x) => {
            crate::codec::lemma_rt_quota_obj(x);
        },
        NfListObjectM::CTHelper(x) => {
            crate::codec::lemma_rt_cthelper(x);
        },
        NfListObjectM::Limit(x) => {
            crate::codec::lemma_rt_limit_obj(x);
        },
        NfListObjectM::MetainfoObject(x) => {
            crate::codec::lemma_rt_metainfo(x);
        },
        NfListObjectM::CTTimeout(x) => {
            crate::codec::lemma_rt_cttimeout(x);
        },
        NfListObjectM::CTExpectation(x) => {
            crate::codec::lemma_rt_ctexpectation(x);
        },
        NfListObjectM::SynProxy(x) => {
            crate::codec::lemma_rt_synproxy_obj(x);
        },
    }
}

/// Decoding an encoded reset target gives it back.
#[verifier::rlimit(100)]
#[verifier::spinoff_prover]
pub proof fn lemma_rt_reset(x: ResetObjectM)
    ensures
        crate::doc::dec_reset_obj(crate::doc::enc_reset_obj(x)) == Some(x),
{
    reveal(crate::doc::dec_reset_obj);
    reveal_strlit("counter");
    reveal_strlit("counters");
    reveal_strlit("quota");
    reveal_strlit("quotas");
    assert("counter"@.len() == 7 && "counter"@[0] == 'c');
    assert("counters"@.len() == 8 && "counters"@[0] == 'c');
    assert("quota"@.len() == 5 && "quota"@[0] == 'q');
    assert("quotas"@.len() == 6 && "quotas"@[0] == 'q');
    match x {
        ResetObjectM::Counter(c) => {
            crate::codec::lemma_rt_counter_obj(c);
        },
        ResetObjectM::Counters(cs) => {
            let w = Seq::new(cs.len(), |i: int| crate::codec::enc_counter_obj(cs[i]));
            assert forall|i: int|
                0 <= i < w.len() implies (#[trigger] crate::codec::dec_counter_obj(w[i]))
                == Some(cs[i]) by {
                crate::codec::lemma_rt_counter_obj(cs[i]);
            }
            assert(crate::doc::dec_counter_list(JsonM::Arr(w)) == Some(cs)) by {
                assert(Seq::new(w.len(), |i: int| crate::codec::dec_counter_obj(w[i])->0)
                    =~= cs);
            }
        },
        ResetObjectM::Quota(q) => {
            crate::codec::lemma_rt_quota_obj(q);
        },
        ResetObjectM::Quotas(qs) => {
            let w = Seq::new(qs.len(), |i: int| crate::codec::enc_quota_obj(qs[i]));
            assert forall|i: int|
                0 <= i < w.len() implies (#[trigger] crate::codec::dec_quota_obj(w[i])) == Some(
                qs[i],
            ) by {
                crate::codec::lemma_rt_quota_obj(qs[i]);
            }
            assert(crate::doc::dec_quota_list(JsonM::Arr(w)) == Some(qs)) by {
                assert(Seq::new(w.len(), |i: int| crate::codec::dec_quota_obj(w[i])->0) =~= qs);
            }
        },
    }
}

/// Decoding an encoded well-formed flush target gives it back.
#[verifier::rlimit(100)]
#[verifier::spinoff_prover]
pub proof fn lemma_rt_flush(f: FlushObjectM)
    requires
        (f matches FlushObjectM::SetObj(s) ==> wf_set_object(*s)) && (f
            matches FlushObjectM::MapObj(m) ==> wf_map_object(*m)) && (f
            matches FlushObjectM::Meter(x) ==> wf_meter_obj(x)),
    ensures
        crate::doc::dec_flush_obj(crate::doc::enc_flush_obj(f)) == Some(f),
{
    reveal(crate::doc::dec_flush_obj);
    reveal_strlit("table");
    reveal_strlit("chain");
    reveal_strlit("set");
    reveal_strlit("map");
    reveal_strlit("meter");
    reveal_strlit("ruleset");
    assert("table"@.len() == 5 && "table"@[0] == 't');
    assert("chain"@.len() == 5 && "chain"@[0] == 'c');
    assert("set"@.len() == 3 && "set"@[0] == 's');
    assert("map"@.len() == 3 && "map"@[0] == 'm');
    assert("meter"@.len() == 5 && "meter"@[0] == 'm');
    assert("ruleset"@.len() == 7 && "ruleset"@[0] == 'r');
    match f {
        FlushObjectM::Table(x) => {
            crate::codec::lemma_rt_table(x);
        },
        FlushObjectM::Chain(x) => {
            crate::codec::lemma_rt_chain(x);
        },
        FlushObjectM::SetObj(x) => {
            lemma_rt_set_object(*x);
        },
        FlushObjectM::MapObj(x) => {
            lemma_rt_map_object(*x);
        },
        FlushObjectM::Meter(x) => {
            lemma_rt_meter_obj(x);
        },
        FlushObjectM::Ruleset(o) => {
            if let Some(rs) = o {
                assert(rs == (Ruleset {  }));
            }
        },
    }
}

/// Decoding an encoded well-formed command gives it back, and its
/// dispatch property is a command verb.
#[verifier::rlimit(100)]
#[verifier::spinoff_prover]
pub proof fn lemma_rt_cmd(c: NfCmdM)
    requires
        wf_cmd(c),
    ensures
        crate::doc::enc_cmd(c) matches JsonM::Obj(s) && s.len() == 1 && crate::doc::is_cmd_key(
            s[0].0,
        ) && crate::doc::dec_cmd_kv(s[0].0, s[0].1) == Some(c),
{
    reveal(crate::doc::dec_cmd_kv);
    reveal_strlit("add");
    reveal_strlit("replace");
    reveal_strlit("create");
    reveal_strlit("insert");
    reveal_strlit("delete");
    reveal_strlit("list");
    reveal_strlit("reset");
    reveal_strlit("flush");
    reveal_strlit("rename");
    assert("add"@.len() == 3 && "add"@[0] == 'a' && "add"@[1] == 'd');
    assert("replace"@.len() == 7 && "replace"@[0] == 'r' && "replace"@[1] == 'e');
    assert("create"@.len() == 6 && "create"@[0] == 'c' && "create"@[1] == 'r');
    assert("insert"@.len() == 6 && "insert"@[0] == 'i' && "insert"@[1] == 'n');
    assert("delete"@.len() == 6 && "delete"@[0] == 'd' && "delete"@[1] == 'e');
    assert("list"@.len() == 4 && "list"@[0] == 'l' && "list"@[1] == 'i');
    assert("reset"@.len() == 5 && "reset"@[0] == 'r' && "reset"@[1] == 'e');
    assert("flush"@.len() == 5 && "flush"@[0] == 'f' && "flush"@[1] == 'l');
    assert("rename"@.len() == 6 && "rename"@[0] == 'r' && "rename"@[1] == 'e');
    match c {
        NfCmdM::Add(x) => {
            lemma_rt_list_obj(x);
        },
        NfCmdM::Replace(x) => {
            lemma_rt_rule(x);
        },
        NfCmdM::Create(x) => {
            lemma_rt_list_obj(x);
        },
        NfCmdM::Insert(x) => {
            lemma_rt_list_obj(x);
        },
        NfCmdM::Delete(x) => {
            lemma_rt_list_obj(x);
        },
        NfCmdM::List(x) => {
            lemma_rt_list_obj(x);
        },
        NfCmdM::Reset(x) => {
            lemma_rt_reset(x);
        },
        NfCmdM::Flush(x) => {
            lemma_rt_flush(x);
        },
        NfCmdM::Rename(x) => {
            crate::codec::lemma_rt_chain(x);
        },
    }
}

/// Decoding an encoded well-formed document item gives it back.
#[verifier::rlimit(100)]
#[verifier::spinoff_prover]
pub proof fn lemma_rt_obj(o: NfObjectM)
    requires
        wf_obj(o),
    ensures
        crate::doc::dec_obj(crate::doc::enc_obj(o)) == Some(o),
{
    reveal(crate::doc::dec_obj);
    match o {
        NfObjectM::CmdObject(c) => {
            lemma_rt_cmd(c);
        },
        NfObjectM::ListObject(l) => {
            lemma_rt_list_obj(l);
        },
    }
}

/// Decoding an encoded well-formed document gives it back: the
/// round-trip law for whole documents.
#[verifier::rlimit(100)]
#[verifier::spinoff_prover]
pub proof fn lemma_rt_doc(d: NftablesM)
    requires
        wf_doc(d),
    ensures
        crate::doc::dec_doc(crate::doc::enc_doc(d)) == Some(d),
{
    reveal_strlit("nftables");
    assert("nftables"@.len() == 8 && "nftables"@[0] == 'n');
    let w = Seq::new(d.objects.len(), |i: int| crate::doc::enc_obj(d.objects[i]));
    lemma_wf_objs_pointwise(d.objects, 0);
    assert forall|i: int|
        0 <= i < w.len() implies (#[trigger] crate::doc::dec_obj(w[i])) == Some(
        d.objects[i],
    ) by {
        lemma_rt_obj(d.objects[i]);
    }
    assert(Seq::new(w.len(), |i: int| crate::doc::dec_obj(w[i])->0) =~= d.objects);
}

// ---------------------------------------------------------------------
// Dispatch exclusivity and arity, stated as laws
// ---------------------------------------------------------------------

/// Single-key dispatch is exclusive: an object with zero or several
/// properties, or with an unrecognized single property, is never a
/// document item.
pub proof fn lemma_dispatch_exclusive(j: JsonM)
    ensures
        j is Obj && j->Obj_0.len() != 1 ==> crate::doc::dec_obj(j) is None,
        !(j is Obj) ==> crate::doc::dec_obj(j) is None,
{
    reveal(crate::doc::dec_obj);
}

/// Single-key dispatch is exclusive for statements: an object with
/// zero or several properties is never a statement, and no other shape
/// but an object is.
pub proof fn lemma_stmt_dispatch_exclusive(j: JsonM)
    ensures
        j is Obj && j->Obj_0.len() != 1 ==> crate::codec::dec_stmt(j) is None,
        !(j is Obj) ==> crate::codec::dec_stmt(j) is None,
{
}

} // verus!
