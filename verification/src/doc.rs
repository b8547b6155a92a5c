use vstd::prelude::*;

use crate::codec::{DecodeError, PathSeg};
use crate::json::{json_m, Json, JsonM};
use crate::schema::{
    Chain, ChainM, Counter, CounterM, CTExpectation, CTHelper, CTTimeout, Element, ElementM,
    FlowTable, FlowTableM, FlushObject, FlushObjectM, Limit, MapObject, MapObjectM, Meter, MeterM,
    MetainfoObject, NfCmd, NfCmdM, NfListObject, NfListObjectM, NfObject, NfObjectM, Nftables,
    NftablesM, Quota, QuotaM, ResetObject, ResetObjectM, Rule, RuleM, Ruleset, SetObject,
    SetObjectM, SetType, SetTypeValue, SetTypeValueM, SynProxy, Table,
};

verus! {

broadcast use vstd::string::group_string_axioms, vstd::std_specs::vec::group_vec_axioms, crate::json::lemma_height_lookup, crate::json::lemma_height_entry, crate::json::lemma_height_index;

// ---------------------------------------------------------------------
// Set types: a single token or an array of tokens
// ---------------------------------------------------------------------

/// The wire form of a set datatype.
pub open spec fn enc_set_type_value(v: SetTypeValueM) -> JsonM {
    match v {
        SetTypeValueM::Single(t) => JsonM::Str(crate::schema::set_type_tok(t)),
        SetTypeValueM::Concatenated(ts) => crate::codec::enc_set_types(ts),
    }
}

/// The set datatype a wire value stands for, if any.
pub open spec fn dec_set_type_value(j: JsonM) -> Option<SetTypeValueM> {
    match j {
        JsonM::Str(t) => match crate::schema::set_type_inv(t) {
            Some(x) => Some(SetTypeValueM::Single(x)),
            None => None,
        },
        JsonM::Arr(_) => match crate::codec::dec_set_types(j) {
            Some(ts) => Some(SetTypeValueM::Concatenated(ts)),
            None => None,
        },
        _ => None,
    }
}

/// Encodes a set datatype.
pub fn encode_set_type_value(v: &SetTypeValue) -> (r: Json)
    ensures
        r@ == enc_set_type_value(crate::schema::set_type_value_m(*v)),
{
    match v {
        SetTypeValue::Single(t) => Json::Str(crate::schema::set_type_to_wire(*t).to_owned()),
        SetTypeValue::Concatenated(ts) => crate::codec::encode_set_types(ts),
    }
}

/// Decodes a set datatype.
pub fn decode_set_type_value(j: &Json) -> (r: Result<SetTypeValue, DecodeError>)
    ensures
        r matches Ok(v) ==> dec_set_type_value(j@) == Some(crate::schema::set_type_value_m(v)),
        r is Err ==> dec_set_type_value(j@) is None,
{
    match j {
        Json::Str(t) => match crate::schema::set_type_from_wire(t.as_str()) {
            Some(x) => Ok(SetTypeValue::Single(x)),
            None => Err(DecodeError::here("unknown enum value")),
        },
        Json::Arr(_) => match crate::codec::decode_set_types(j) {
            Ok(ts) => Ok(SetTypeValue::Concatenated(ts)),
            Err(e) => Err(e),
        },
        _ => Err(DecodeError::here("expected a set datatype")),
    }
}

/// Decoding an encoded set datatype gives it back.
pub proof fn lemma_rt_set_type_value(v: SetTypeValueM)
    ensures
        dec_set_type_value(enc_set_type_value(v)) == Some(v),
{
    match v {
        SetTypeValueM::Single(t) => {
            crate::schema::lemma_set_type_inv_tok(t);
        },
        SetTypeValueM::Concatenated(ts) => {
            crate::codec::lemma_rt_set_types(ts);
        },
    }
}

// ---------------------------------------------------------------------
// Rule
// ---------------------------------------------------------------------

/// Abstraction of a rule.
pub open spec fn rule_m(t: Rule) -> RuleM {
    RuleM {
        family: t.family,
        table: t.table@,
        chain: t.chain@,
        expr: crate::codec::stmts_m_at(t.expr, 0),
        handle: t.handle,
        index: t.index,
        comment: crate::codec::opt_str_m(t.comment),
    }
}

/// The wire form of a rule.
pub open spec fn enc_rule(t: RuleM) -> JsonM {
    JsonM::Obj(
        crate::codec::fone("family"@, JsonM::Str(crate::types::family_tok(t.family))) + (
        crate::codec::fone("table"@, JsonM::Str(t.table)) + (crate::codec::fone(
            "chain"@,
            JsonM::Str(t.chain),
        ) + (crate::codec::fone("expr"@, JsonM::Arr(crate::codec::enc_stmts_at(t.expr, 0))) + (
        crate::codec::fopt_u32("handle"@, t.handle) + (crate::codec::fopt_u32("index"@, t.index)
            + crate::codec::fopt_str("comment"@, t.comment)))))),
    )
}

/// The rule a wire value stands for, if any.
#[verifier::opaque]
pub open spec fn dec_rule(j: JsonM) -> Option<RuleM> {
    if !(j is Obj) {
        None
    } else {
        let s = j->Obj_0;
        let family = crate::codec::dec_field_family(s);
        let table = crate::codec::dec_req_str(s, "table"@);
        let chain = crate::codec::dec_req_str(s, "chain"@);
        let expr = match crate::json::lookup_entries(s, "expr"@) {
            Some(JsonM::Arr(items)) => crate::codec::dec_stmts_at(items, 0),
            _ => None,
        };
        let handle = crate::codec::dec_opt_u32(s, "handle"@);
        let index = crate::codec::dec_opt_u32(s, "index"@);
        let comment = crate::codec::dec_opt_str(s, "comment"@);
        if family is Some && table is Some && chain is Some && expr is Some && handle is Some
            && index is Some && comment is Some {
            Some(
                RuleM {
                    family: family->0,
                    table: table->0,
                    chain: chain->0,
                    expr: expr->0,
                    handle: handle->0,
                    index: index->0,
                    comment: comment->0,
                },
            )
        } else {
            None
        }
    }
}

/// Encodes a rule.
#[verifier::rlimit(100)]
pub fn encode_rule(t: &Rule) -> (r: Json)
    ensures
        r@ == enc_rule(rule_m(*t)),
{
    let mut es: Vec<(String, Json)> = Vec::new();
    crate::codec::push_field(
        &mut es,
        "family",
        Json::Str(crate::types::family_to_wire(t.family).to_owned()),
    );
    crate::codec::push_field(&mut es, "table", Json::Str(t.table.clone()));
    crate::codec::push_field(&mut es, "chain", Json::Str(t.chain.clone()));
    let stmts = crate::codec::encode_stmts(&t.expr);
    crate::codec::push_field(&mut es, "expr", crate::codec::finish_arr(stmts));
    crate::codec::push_opt_u32_field(&mut es, "handle", t.handle);
    crate::codec::push_opt_u32_field(&mut es, "index", t.index);
    crate::codec::push_opt_str_field(&mut es, "comment", &t.comment);
    let r = crate::codec::finish_obj(es);
    proof {
        assert(r@->Obj_0 =~= enc_rule(rule_m(*t))->Obj_0);
    }
    r
}

/// Decodes a rule.
#[verifier::rlimit(100)]
pub fn decode_rule(j: &Json) -> (r: Result<Rule, DecodeError>)
    ensures
        r matches Ok(v) ==> dec_rule(j@) == Some(rule_m(v)),
        r is Err ==> dec_rule(j@) is None,
{
    proof {
        reveal(dec_rule);
    }
    let entries = crate::codec::get_entries(j)?;
    let family = crate::codec::get_family(entries)?;
    let table = crate::codec::get_req_str(entries, "table")?;
    let chain = crate::codec::get_req_str(entries, "chain")?;
    let expr = match crate::json::obj_lookup(entries, "expr") {
        Some(Json::Arr(items)) => {
            proof {
                crate::json::lemma_arr_m_at(*items, 0);
                assert(crate::json::arr_m_at(*items, 0) =~= crate::codec::jsons_m(items@));
            }
            match crate::codec::decode_stmts(items) {
                Ok(sts) => sts,
                Err(e) => {
                    return Err(e.in_key("expr"));
                },
            }
        },
        Some(_) => {
            return Err(DecodeError::at_key("expr", "expected an array"));
        },
        None => {
            return Err(DecodeError::at_key("expr", "missing required property"));
        },
    };
    let handle = crate::codec::get_opt_u32(entries, "handle")?;
    let index = crate::codec::get_opt_u32(entries, "index")?;
    let comment = crate::codec::get_opt_str(entries, "comment")?;
    Ok(Rule { family, table, chain, expr, handle, index, comment })
}

// ---------------------------------------------------------------------
// Element
// ---------------------------------------------------------------------

/// Abstraction of an element manipulation.
pub open spec fn element_m(t: Element) -> ElementM {
    ElementM {
        family: t.family,
        table: t.table@,
        name: t.name@,
        elem: crate::codec::exprs_m_at(t.elem, 0),
    }
}

/// The wire form of an element manipulation.
pub open spec fn enc_element(t: ElementM) -> JsonM {
    JsonM::Obj(
        crate::codec::fone("family"@, JsonM::Str(crate::types::family_tok(t.family))) + (
        crate::codec::fone("table"@, JsonM::Str(t.table)) + (crate::codec::fone(
            "name"@,
            JsonM::Str(t.name),
        ) + crate::codec::fone("elem"@, JsonM::Arr(crate::codec::enc_exprs_at(t.elem, 0))))),
    )
}

/// The element manipulation a wire value stands for, if any.
#[verifier::opaque]
pub open spec fn dec_element(j: JsonM) -> Option<ElementM> {
    if !(j is Obj) {
        None
    } else {
        let s = j->Obj_0;
        let family = crate::codec::dec_field_family(s);
        let table = crate::codec::dec_req_str(s, "table"@);
        let name = crate::codec::dec_req_str(s, "name"@);
        let elem = match crate::json::lookup_entries(s, "elem"@) {
            Some(JsonM::Arr(items)) => crate::codec::dec_exprs_at(items, 0),
            _ => None,
        };
        if family is Some && table is Some && name is Some && elem is Some {
            Some(
                ElementM { family: family->0, table: table->0, name: name->0, elem: elem->0 },
            )
        } else {
            None
        }
    }
}

/// Encodes an element manipulation.
pub fn encode_element(t: &Element) -> (r: Json)
    ensures
        r@ == enc_element(element_m(*t)),
{
    let mut es: Vec<(String, Json)> = Vec::new();
    crate::codec::push_field(
        &mut es,
        "family",
        Json::Str(crate::types::family_to_wire(t.family).to_owned()),
    );
    crate::codec::push_field(&mut es, "table", Json::Str(t.table.clone()));
    crate::codec::push_field(&mut es, "name", Json::Str(t.name.clone()));
    let items = crate::codec::encode_exprs(&t.elem);
    crate::codec::push_field(&mut es, "elem", crate::codec::finish_arr(items));
    let r = crate::codec::finish_obj(es);
    proof {
        assert(r@->Obj_0 =~= enc_element(element_m(*t))->Obj_0);
    }
    r
}

/// Decodes an element manipulation.
pub fn decode_element(j: &Json) -> (r: Result<Element, DecodeError>)
    ensures
        r matches Ok(v) ==> dec_element(j@) == Some(element_m(v)),
        r is Err ==> dec_element(j@) is None,
{
    proof {
        reveal(dec_element);
    }
    let entries = crate::codec::get_entries(j)?;
    let family = crate::codec::get_family(entries)?;
    let table = crate::codec::get_req_str(entries, "table")?;
    let name = crate::codec::get_req_str(entries, "name")?;
    let elem = match crate::json::obj_lookup(entries, "elem") {
        Some(Json::Arr(items)) => {
            proof {
                crate::json::lemma_arr_m_at(*items, 0);
                assert(crate::json::arr_m_at(*items, 0) =~= crate::codec::jsons_m(items@));
            }
            match crate::codec::decode_exprs(items) {
                Ok(esx) => esx,
                Err(e) => {
                    return Err(e.in_key("elem"));
                },
            }
        },
        Some(_) => {
            return Err(DecodeError::at_key("elem", "expected an array"));
        },
        None => {
            return Err(DecodeError::at_key("elem", "missing required property"));
        },
    };
    Ok(Element { family, table, name, elem })
}

// ---------------------------------------------------------------------
// Flow tables, whose device list accepts a bare string or an array
// ---------------------------------------------------------------------

/// Abstraction of a flow table.
pub open spec fn flow_table_m(t: FlowTable) -> FlowTableM {
    FlowTableM {
        family: t.family,
        table: t.table@,
        name: t.name@,
        handle: t.handle,
        hook: t.hook,
        prio: t.prio,
        dev: match t.dev {
            Some(d) => Some(crate::codec::strs_m(d@)),
            None => None,
        },
    }
}

/// The wire form of a flow table.
pub open spec fn enc_flow_table(t: FlowTableM) -> JsonM {
    JsonM::Obj(
        crate::codec::fone("family"@, JsonM::Str(crate::types::family_tok(t.family))) + (
        crate::codec::fone("table"@, JsonM::Str(t.table)) + (crate::codec::fone(
            "name"@,
            JsonM::Str(t.name),
        ) + (crate::codec::fopt_u32("handle"@, t.handle) + (crate::codec::fopt_str(
            "hook"@,
            (match t.hook {
                Some(h) => Some(crate::types::hook_tok(h)),
                None => None,
            }),
        ) + (crate::codec::fopt_u32("prio"@, t.prio) + crate::codec::fopt_val(
            "dev"@,
            (match t.dev {
                Some(d) => if d.len() > 0 {
                    Some(crate::codec::enc_strs(d))
                } else {
                    None
                },
                None => None,
            }),
        )))))),
    )
}

/// The flow table a wire value stands for, if any.  The device list may
/// be given as a bare string, an array of strings, null, or be absent;
/// an empty array and null both mean no devices.
#[verifier::opaque]
pub open spec fn dec_flow_table(j: JsonM) -> Option<FlowTableM> {
    if !(j is Obj) {
        None
    } else {
        let s = j->Obj_0;
        let family = crate::codec::dec_field_family(s);
        let table = crate::codec::dec_req_str(s, "table"@);
        let name = crate::codec::dec_req_str(s, "name"@);
        let handle = crate::codec::dec_opt_u32(s, "handle"@);
        let hook = crate::codec::dec_opt_enum(s, "hook"@, |t2| crate::types::hook_inv(t2));
        let prio = crate::codec::dec_opt_u32(s, "prio"@);
        let dev = dec_dev_list(s);
        if family is Some && table is Some && name is Some && handle is Some && hook is Some
            && prio is Some && dev is Some {
            Some(
                FlowTableM {
                    family: family->0,
                    table: table->0,
                    name: name->0,
                    handle: handle->0,
                    hook: hook->0,
                    prio: prio->0,
                    dev: dev->0,
                },
            )
        } else {
            None
        }
    }
}

/// The device list of a flow table: absent, null and the empty array
/// mean none; a bare string is a one-device list.
pub open spec fn dec_dev_list(s: Seq<(Seq<char>, JsonM)>) -> Option<Option<Seq<Seq<char>>>> {
    match crate::json::lookup_entries(s, "dev"@) {
        None => Some(None),
        Some(JsonM::Null) => Some(None),
        Some(JsonM::Str(t)) => Some(Some(seq![t])),
        Some(v) => match crate::codec::dec_strs(v) {
            Some(ds) => if ds.len() == 0 {
                Some(None)
            } else {
                Some(Some(ds))
            },
            None => None,
        },
    }
}

/// Encodes a flow table.
#[verifier::rlimit(100)]
pub fn encode_flow_table(t: &FlowTable) -> (r: Json)
    ensures
        r@ == enc_flow_table(flow_table_m(*t)),
{
    let mut es: Vec<(String, Json)> = Vec::new();
    crate::codec::push_field(
        &mut es,
        "family",
        Json::Str(crate::types::family_to_wire(t.family).to_owned()),
    );
    crate::codec::push_field(&mut es, "table", Json::Str(t.table.clone()));
    crate::codec::push_field(&mut es, "name", Json::Str(t.name.clone()));
    crate::codec::push_opt_u32_field(&mut es, "handle", t.handle);
    if let Some(h) = t.hook {
        crate::codec::push_field(
            &mut es,
            "hook",
            Json::Str(crate::types::hook_to_wire(h).to_owned()),
        );
    }
    crate::codec::push_opt_u32_field(&mut es, "prio", t.prio);
    if let Some(d) = &t.dev {
        if d.len() > 0 {
            crate::codec::push_field(&mut es, "dev", crate::codec::encode_strs(d));
        }
    }
    let r = crate::codec::finish_obj(es);
    proof {
        assert(r@->Obj_0 =~= enc_flow_table(flow_table_m(*t))->Obj_0);
    }
    r
}

/// Decodes a flow table.
#[verifier::rlimit(100)]
pub fn decode_flow_table(j: &Json) -> (r: Result<FlowTable, DecodeError>)
    ensures
        r matches Ok(v) ==> dec_flow_table(j@) == Some(flow_table_m(v)),
        r is Err ==> dec_flow_table(j@) is None,
{
    proof {
        reveal(dec_flow_table);
    }
    let entries = crate::codec::get_entries(j)?;
    let family = crate::codec::get_family(entries)?;
    let table = crate::codec::get_req_str(entries, "table")?;
    let name = crate::codec::get_req_str(entries, "name")?;
    let handle = crate::codec::get_opt_u32(entries, "handle")?;
    let hook = match crate::codec::get_opt_str(entries, "hook")? {
        Some(tk) => match crate::types::hook_from_wire(tk.as_str()) {
            Some(h) => Some(h),
            None => {
                return Err(DecodeError::at_key("hook", "unknown enum value"));
            },
        },
        None => None,
    };
    let prio = crate::codec::get_opt_u32(entries, "prio")?;
    let dev = match crate::json::obj_lookup(entries, "dev") {
        None => None,
        Some(Json::Null) => None,
        Some(Json::Str(t2)) => {
            let mut ds: Vec<String> = Vec::new();
            ds.push(t2.clone());
            proof {
                assert(crate::codec::strs_m(ds@) =~= seq![t2@]);
            }
            Some(ds)
        },
        Some(v) => match crate::codec::decode_strs(v) {
            Ok(ds) => if ds.len() == 0 {
                None
            } else {
                Some(ds)
            },
            Err(e) => {
                return Err(e.in_key("dev"));
            },
        },
    };
    Ok(FlowTable { family, table, name, handle, hook, prio, dev })
}
// ---------------------------------------------------------------------
// Sets and maps
// ---------------------------------------------------------------------

/// Abstraction of a named set.
pub open spec fn set_object_m(t: SetObject) -> SetObjectM {
    SetObjectM {
        family: t.family,
        table: t.table@,
        name: t.name@,
        handle: t.handle,
        set_type: crate::schema::set_type_value_m(t.set_type),
        policy: t.policy,
        flags: match t.flags {
            Some(f) => Some(f@),
            None => None,
        },
        elem: match t.elem {
            Some(es) => Some(crate::codec::exprs_m_at(es, 0)),
            None => None,
        },
        timeout: t.timeout,
        gc_interval: t.gc_interval,
        size: t.size,
        comment: crate::codec::opt_str_m(t.comment),
    }
}

/// The wire form of a named set.
pub open spec fn enc_set_object(t: SetObjectM) -> JsonM {
    let g12 = crate::codec::fopt_str("comment"@, t.comment);
    let g11 = crate::codec::fopt_u32("size"@, t.size) + g12;
    let g10 = crate::codec::fopt_u32("gc-interval"@, t.gc_interval) + g11;
    let g9 = crate::codec::fopt_u32("timeout"@, t.timeout) + g10;
    let g8 = crate::codec::fopt_val("elem"@, (match t.elem {
        Some(es) => Some(JsonM::Arr(crate::codec::enc_exprs_at(es, 0))),
        None => None,
    })) + g9;
    let g7 = crate::codec::fopt_val("flags"@, (match t.flags {
        Some(fs) => Some(crate::codec::enc_set_flags(fs)),
        None => None,
    })) + g8;
    let g6 = crate::codec::fopt_str("policy"@, (match t.policy {
        Some(x) => Some(crate::schema::set_policy_tok(x)),
        None => None,
    })) + g7;
    let g5 = crate::codec::fone("type"@, enc_set_type_value(t.set_type)) + g6;
    let g4 = crate::codec::fopt_u32("handle"@, t.handle) + g5;
    let g3 = crate::codec::fone("name"@, JsonM::Str(t.name)) + g4;
    let g2 = crate::codec::fone("table"@, JsonM::Str(t.table)) + g3;
    let g1 = crate::codec::fone("family"@, JsonM::Str(crate::types::family_tok(t.family))) + g2;
    JsonM::Obj(g1)
}

/// The named set a wire value stands for, if any.
#[verifier::opaque]
pub open spec fn dec_set_object(j: JsonM) -> Option<SetObjectM> {
    if !(j is Obj) {
        None
    } else {
        let s = j->Obj_0;
        let family = crate::codec::dec_field_family(s);
        let table = crate::codec::dec_req_str(s, "table"@);
        let name = crate::codec::dec_req_str(s, "name"@);
        let handle = crate::codec::dec_opt_u32(s, "handle"@);
        let set_type = match crate::json::lookup_entries(s, "type"@) {
            Some(v) => dec_set_type_value(v),
            None => None,
        };
        let policy = crate::codec::dec_opt_enum(s, "policy"@, |t2| crate::schema::set_policy_inv(t2));
        let flags = crate::codec::dec_opt_val(s, "flags"@, |v| crate::codec::dec_set_flags(v));
        let elem = dec_opt_expr_list(s, "elem"@);
        let timeout = crate::codec::dec_opt_u32(s, "timeout"@);
        let gc_interval = crate::codec::dec_opt_u32(s, "gc-interval"@);
        let size = crate::codec::dec_opt_u32(s, "size"@);
        let comment = crate::codec::dec_opt_str(s, "comment"@);
        if family is Some && table is Some && name is Some && handle is Some && set_type is Some
            && policy is Some && flags is Some && elem is Some && timeout is Some && gc_interval
            is Some && size is Some && comment is Some {
            Some(
                SetObjectM {
                    family: family->0,
                    table: table->0,
                    name: name->0,
                    handle: handle->0,
                    set_type: set_type->0,
                    policy: policy->0,
                    flags: flags->0,
                    elem: elem->0,
                    timeout: timeout->0,
                    gc_interval: gc_interval->0,
                    size: size->0,
                    comment: comment->0,
                },
            )
        } else {
            None
        }
    }
}

/// An optional property holding an array of expressions; absent and
/// null mean none.
pub open spec fn dec_opt_expr_list(s: Seq<(Seq<char>, JsonM)>, k: Seq<char>) -> Option<
    Option<Seq<crate::expr::ExpressionM>>,
> {
    match crate::json::lookup_entries(s, k) {
        None => Some(None),
        Some(JsonM::Null) => Some(None),
        Some(JsonM::Arr(items)) => match crate::codec::dec_exprs_at(items, 0) {
            Some(es) => Some(Some(es)),
            None => None,
        },
        Some(_) => None,
    }
}


/// Appends an optional set policy property, omitted when absent.
fn push_opt_set_policy_field(es: &mut Vec<(String, Json)>, o: Option<crate::schema::SetPolicy>)
    ensures
        crate::json::entries_m(final(es)@) == crate::json::entries_m(old(es)@)
            + crate::codec::fopt_str(
            "policy"@,
            (match o {
                Some(x) => Some(crate::schema::set_policy_tok(x)),
                None => None,
            }),
        ),
{
    match o {
        Some(x) => crate::codec::push_field(
            es,
            "policy",
            Json::Str(crate::schema::set_policy_to_wire(x).to_owned()),
        ),
        None => {
            proof {
                assert(crate::json::entries_m(es@) =~= crate::json::entries_m(es@) + Seq::<
                    (Seq<char>, JsonM),
                >::empty());
            }
        },
    }
}

/// Appends an optional set flag list property, omitted when absent.
fn push_opt_set_flags_field(es: &mut Vec<(String, Json)>, o: &Option<Vec<crate::schema::SetFlag>>)
    ensures
        crate::json::entries_m(final(es)@) == crate::json::entries_m(old(es)@)
            + crate::codec::fopt_val(
            "flags"@,
            (match *o {
                Some(fs) => Some(crate::codec::enc_set_flags(fs@)),
                None => None,
            }),
        ),
{
    match o {
        Some(fs) => crate::codec::push_field(es, "flags", crate::codec::encode_set_flags(fs)),
        None => {
            proof {
                assert(crate::json::entries_m(es@) =~= crate::json::entries_m(es@) + Seq::<
                    (Seq<char>, JsonM),
                >::empty());
            }
        },
    }
}

/// Appends an optional initial-element list property, omitted when
/// absent.
fn push_opt_elem_field(es: &mut Vec<(String, Json)>, o: &Option<Vec<crate::expr::Expression>>)
    ensures
        crate::json::entries_m(final(es)@) == crate::json::entries_m(old(es)@)
            + crate::codec::fopt_val(
            "elem"@,
            (match *o {
                Some(xs) => Some(JsonM::Arr(crate::codec::enc_exprs_at(
                    crate::codec::exprs_m_at(xs, 0),
                    0,
                ))),
                None => None,
            }),
        ),
{
    match o {
        Some(xs) => {
            let items = crate::codec::encode_exprs(xs);
            crate::codec::push_field(es, "elem", crate::codec::finish_arr(items));
        },
        None => {
            proof {
                assert(crate::json::entries_m(es@) =~= crate::json::entries_m(es@) + Seq::<
                    (Seq<char>, JsonM),
                >::empty());
            }
        },
    }
}

/// Encodes a named set.
#[verifier::rlimit(100)]
#[verifier::spinoff_prover]
pub fn encode_set_object(t: &SetObject) -> (r: Json)
    ensures
        r@ == enc_set_object(set_object_m(*t)),
{
    let ghost m = set_object_m(*t);
    let ghost f1 = crate::codec::fone("family"@, JsonM::Str(crate::types::family_tok(m.family)));
    let ghost f2 = crate::codec::fone("table"@, JsonM::Str(m.table));
    let ghost f3 = crate::codec::fone("name"@, JsonM::Str(m.name));
    let ghost f4 = crate::codec::fopt_u32("handle"@, m.handle);
    let ghost f5 = crate::codec::fone("type"@, enc_set_type_value(m.set_type));
    let ghost f6 = crate::codec::fopt_str("policy"@, (match m.policy {
            Some(x) => Some(crate::schema::set_policy_tok(x)),
            None => None,
        }));
    let ghost f7 = crate::codec::fopt_val("flags"@, (match m.flags {
            Some(fs) => Some(crate::codec::enc_set_flags(fs)),
            None => None,
        }));
    let ghost f8 = crate::codec::fopt_val("elem"@, (match m.elem {
            Some(es) => Some(JsonM::Arr(crate::codec::enc_exprs_at(es, 0))),
            None => None,
        }));
    let ghost f9 = crate::codec::fopt_u32("timeout"@, m.timeout);
    let ghost f10 = crate::codec::fopt_u32("gc-interval"@, m.gc_interval);
    let ghost f11 = crate::codec::fopt_u32("size"@, m.size);
    let ghost f12 = crate::codec::fopt_str("comment"@, m.comment);
    let ghost g12 = f12 + Seq::<(Seq<char>, JsonM)>::empty();
    let ghost g11 = f11 + g12;
    let ghost g10 = f10 + g11;
    let ghost g9 = f9 + g10;
    let ghost g8 = f8 + g9;
    let ghost g7 = f7 + g8;
    let ghost g6 = f6 + g7;
    let ghost g5 = f5 + g6;
    let ghost g4 = f4 + g5;
    let ghost g3 = f3 + g4;
    let ghost g2 = f2 + g3;
    let ghost g1 = f1 + g2;
    let mut es: Vec<(String, Json)> = Vec::new();
    proof {
        assert(crate::json::entries_m(es@) + g1 =~= g1);
    }
    crate::codec::push_field(
        &mut es,
        "family",
        Json::Str(crate::types::family_to_wire(t.family).to_owned()),
    );
    proof {
        assert(crate::json::entries_m(es@) + g2 =~= g1);
    }
    crate::codec::push_field(&mut es, "table", Json::Str(t.table.clone()));
    proof {
        assert(crate::json::entries_m(es@) + g3 =~= g1);
    }
    crate::codec::push_field(&mut es, "name", Json::Str(t.name.clone()));
    proof {
        assert(crate::json::entries_m(es@) + g4 =~= g1);
    }
    crate::codec::push_opt_u32_field(&mut es, "handle", t.handle);
    proof {
        assert(crate::json::entries_m(es@) + g5 =~= g1);
    }
    crate::codec::push_field(&mut es, "type", encode_set_type_value(&t.set_type));
    proof {
        assert(crate::json::entries_m(es@) + g6 =~= g1);
    }
    push_opt_set_policy_field(&mut es, t.policy);
    proof {
        assert(crate::json::entries_m(es@) + g7 =~= g1);
    }
    push_opt_set_flags_field(&mut es, &t.flags);
    proof {
        assert(crate::json::entries_m(es@) + g8 =~= g1);
    }
    push_opt_elem_field(&mut es, &t.elem);
    proof {
        assert(crate::json::entries_m(es@) + g9 =~= g1);
    }
    crate::codec::push_opt_u32_field(&mut es, "timeout", t.timeout);
    proof {
        assert(crate::json::entries_m(es@) + g10 =~= g1);
    }
    crate::codec::push_opt_u32_field(&mut es, "gc-interval", t.gc_interval);
    proof {
        assert(crate::json::entries_m(es@) + g11 =~= g1);
    }
    crate::codec::push_opt_u32_field(&mut es, "size", t.size);
    proof {
        assert(crate::json::entries_m(es@) + g12 =~= g1);
    }
    crate::codec::push_opt_str_field(&mut es, "comment", &t.comment);
    proof {
        assert(crate::json::entries_m(es@) =~= g1);
    }
    let r = crate::codec::finish_obj(es);
    proof {
        assert(enc_set_object(m)->Obj_0 =~= g1);
        assert(r@->Obj_0 =~= g1);
    }
    r
}

/// Decodes a named set.
#[verifier::rlimit(100)]
#[verifier::spinoff_prover]
pub fn decode_set_object(j: &Json) -> (r: Result<SetObject, DecodeError>)
    ensures
        r matches Ok(v) ==> dec_set_object(j@) == Some(set_object_m(v)),
        r is Err ==> dec_set_object(j@) is None,
{
    proof {
        reveal(dec_set_object);
    }
    let entries = crate::codec::get_entries(j)?;
    let family = crate::codec::get_family(entries)?;
    let table = crate::codec::get_req_str(entries, "table")?;
    let name = crate::codec::get_req_str(entries, "name")?;
    let handle = crate::codec::get_opt_u32(entries, "handle")?;
    let set_type = match crate::json::obj_lookup(entries, "type") {
        Some(v) => match decode_set_type_value(v) {
            Ok(x) => x,
            Err(e) => {
                return Err(e.in_key("type"));
            },
        },
        None => {
            return Err(DecodeError::at_key("type", "missing required property"));
        },
    };
    let policy = match crate::codec::get_opt_str(entries, "policy")? {
        Some(tk) => match crate::schema::set_policy_from_wire(tk.as_str()) {
            Some(x) => Some(x),
            None => {
                return Err(DecodeError::at_key("policy", "unknown enum value"));
            },
        },
        None => None,
    };
    let flags = match crate::json::obj_lookup(entries, "flags") {
        None => None,
        Some(Json::Null) => None,
        Some(v) => match crate::codec::decode_set_flags(v) {
            Ok(fs) => Some(fs),
            Err(e) => {
                return Err(e.in_key("flags"));
            },
        },
    };
    let elem = get_opt_expr_list(entries, "elem")?;
    let timeout = crate::codec::get_opt_u32(entries, "timeout")?;
    let gc_interval = crate::codec::get_opt_u32(entries, "gc-interval")?;
    let size = crate::codec::get_opt_u32(entries, "size")?;
    let comment = crate::codec::get_opt_str(entries, "comment")?;
    Ok(
        SetObject {
            family,
            table,
            name,
            handle,
            set_type,
            policy,
            flags,
            elem,
            timeout,
            gc_interval,
            size,
            comment,
        },
    )
}

/// Reads an optional expression-array property.
fn get_opt_expr_list(entries: &Vec<(String, Json)>, k: &str) -> (r: Result<
    Option<Vec<crate::expr::Expression>>,
    DecodeError,
>)
    ensures
        r matches Ok(v) ==> dec_opt_expr_list(crate::json::entries_m(entries@), k@) == Some(
            match v {
                Some(es) => Some(crate::codec::exprs_m_at(es, 0)),
                None => None,
            },
        ),
        r is Err ==> dec_opt_expr_list(crate::json::entries_m(entries@), k@) is None,
{
    match crate::json::obj_lookup(entries, k) {
        None => Ok(None),
        Some(Json::Null) => Ok(None),
        Some(Json::Arr(items)) => {
            proof {
                crate::json::lemma_arr_m_at(*items, 0);
                assert(crate::json::arr_m_at(*items, 0) =~= crate::codec::jsons_m(items@));
            }
            match crate::codec::decode_exprs(items) {
                Ok(es) => Ok(Some(es)),
                Err(e) => Err(e.in_key(k)),
            }
        },
        Some(_) => Err(DecodeError::at_key(k, "expected an array")),
    }
}

/// Abstraction of a named map.
pub open spec fn map_object_m(t: MapObject) -> MapObjectM {
    MapObjectM {
        family: t.family,
        table: t.table@,
        name: t.name@,
        handle: t.handle,
        set_type: crate::schema::set_type_value_m(t.set_type),
        map: crate::schema::set_type_value_m(t.map),
        policy: t.policy,
        flags: match t.flags {
            Some(f) => Some(f@),
            None => None,
        },
        elem: match t.elem {
            Some(es) => Some(crate::codec::exprs_m_at(es, 0)),
            None => None,
        },
        timeout: t.timeout,
        gc_interval: t.gc_interval,
        size: t.size,
        comment: crate::codec::opt_str_m(t.comment),
    }
}

/// The wire form of a named map.
pub open spec fn enc_map_object(t: MapObjectM) -> JsonM {
    let g13 = crate::codec::fopt_str("comment"@, t.comment);
    let g12 = crate::codec::fopt_u32("size"@, t.size) + g13;
    let g11 = crate::codec::fopt_u32("gc-interval"@, t.gc_interval) + g12;
    let g10 = crate::codec::fopt_u32("timeout"@, t.timeout) + g11;
    let g9 = crate::codec::fopt_val("elem"@, (match t.elem {
        Some(es) => Some(JsonM::Arr(crate::codec::enc_exprs_at(es, 0))),
        None => None,
    })) + g10;
    let g8 = crate::codec::fopt_val("flags"@, (match t.flags {
        Some(fs) => Some(crate::codec::enc_set_flags(fs)),
        None => None,
    })) + g9;
    let g7 = crate::codec::fopt_str("policy"@, (match t.policy {
        Some(x) => Some(crate::schema::set_policy_tok(x)),
        None => None,
    })) + g8;
    let g6 = crate::codec::fone("map"@, enc_set_type_value(t.map)) + g7;
    let g5 = crate::codec::fone("type"@, enc_set_type_value(t.set_type)) + g6;
    let g4 = crate::codec::fopt_u32("handle"@, t.handle) + g5;
    let g3 = crate::codec::fone("name"@, JsonM::Str(t.name)) + g4;
    let g2 = crate::codec::fone("table"@, JsonM::Str(t.table)) + g3;
    let g1 = crate::codec::fone("family"@, JsonM::Str(crate::types::family_tok(t.family))) + g2;
    JsonM::Obj(g1)
}

/// The named map a wire value stands for, if any.
#[verifier::opaque]
pub open spec fn dec_map_object(j: JsonM) -> Option<MapObjectM> {
    if !(j is Obj) {
        None
    } else {
        let s = j->Obj_0;
        let family = crate::codec::dec_field_family(s);
        let table = crate::codec::dec_req_str(s, "table"@);
        let name = crate::codec::dec_req_str(s, "name"@);
        let handle = crate::codec::dec_opt_u32(s, "handle"@);
        let set_type = match crate::json::lookup_entries(s, "type"@) {
            Some(v) => dec_set_type_value(v),
            None => None,
        };
        let map = match crate::json::lookup_entries(s, "map"@) {
            Some(v) => dec_set_type_value(v),
            None => None,
        };
        let policy = crate::codec::dec_opt_enum(s, "policy"@, |t2| crate::schema::set_policy_inv(t2));
        let flags = crate::codec::dec_opt_val(s, "flags"@, |v| crate::codec::dec_set_flags(v));
        let elem = dec_opt_expr_list(s, "elem"@);
        let timeout = crate::codec::dec_opt_u32(s, "timeout"@);
        let gc_interval = crate::codec::dec_opt_u32(s, "gc-interval"@);
        let size = crate::codec::dec_opt_u32(s, "size"@);
        let comment = crate::codec::dec_opt_str(s, "comment"@);
        if family is Some && table is Some && name is Some && handle is Some && set_type is Some
            && map is Some && policy is Some && flags is Some && elem is Some && timeout is Some
            && gc_interval is Some && size is Some && comment is Some {
            Some(
                MapObjectM {
                    family: family->0,
                    table: table->0,
                    name: name->0,
                    handle: handle->0,
                    set_type: set_type->0,
                    map: map->0,
                    policy: policy->0,
                    flags: flags->0,
                    elem: elem->0,
                    timeout: timeout->0,
                    gc_interval: gc_interval->0,
                    size: size->0,
                    comment: comment->0,
                },
            )
        } else {
            None
        }
    }
}

/// Encodes a named map.
#[verifier::rlimit(100)]
#[verifier::spinoff_prover]
pub fn encode_map_object(t: &MapObject) -> (r: Json)
    ensures
        r@ == enc_map_object(map_object_m(*t)),
{
    let ghost m = map_object_m(*t);
    let ghost f1 = crate::codec::fone("family"@, JsonM::Str(crate::types::family_tok(m.family)));
    let ghost f2 = crate::codec::fone("table"@, JsonM::Str(m.table));
    let ghost f3 = crate::codec::fone("name"@, JsonM::Str(m.name));
    let ghost f4 = crate::codec::fopt_u32("handle"@, m.handle);
    let ghost f5 = crate::codec::fone("type"@, enc_set_type_value(m.set_type));
    let ghost f6 = crate::codec::fone("map"@, enc_set_type_value(m.map));
    let ghost f7 = crate::codec::fopt_str("policy"@, (match m.policy {
            Some(x) => Some(crate::schema::set_policy_tok(x)),
            None => None,
        }));
    let ghost f8 = crate::codec::fopt_val("flags"@, (match m.flags {
            Some(fs) => Some(crate::codec::enc_set_flags(fs)),
            None => None,
        }));
    let ghost f9 = crate::codec::fopt_val("elem"@, (match m.elem {
            Some(es) => Some(JsonM::Arr(crate::codec::enc_exprs_at(es, 0))),
            None => None,
        }));
    let ghost f10 = crate::codec::fopt_u32("timeout"@, m.timeout);
    let ghost f11 = crate::codec::fopt_u32("gc-interval"@, m.gc_interval);
    let ghost f12 = crate::codec::fopt_u32("size"@, m.size);
    let ghost f13 = crate::codec::fopt_str("comment"@, m.comment);
    let ghost g13 = f13 + Seq::<(Seq<char>, JsonM)>::empty();
    let ghost g12 = f12 + g13;
    let ghost g11 = f11 + g12;
    let ghost g10 = f10 + g11;
    let ghost g9 = f9 + g10;
    let ghost g8 = f8 + g9;
    let ghost g7 = f7 + g8;
    let ghost g6 = f6 + g7;
    let ghost g5 = f5 + g6;
    let ghost g4 = f4 + g5;
    let ghost g3 = f3 + g4;
    let ghost g2 = f2 + g3;
    let ghost g1 = f1 + g2;
    let mut es: Vec<(String, Json)> = Vec::new();
    proof {
        assert(crate::json::entries_m(es@) + g1 =~= g1);
    }
    crate::codec::push_field(
        &mut es,
        "family",
        Json::Str(crate::types::family_to_wire(t.family).to_owned()),
    );
    proof {
        assert(crate::json::entries_m(es@) + g2 =~= g1);
    }
    crate::codec::push_field(&mut es, "table", Json::Str(t.table.clone()));
    proof {
        assert(crate::json::entries_m(es@) + g3 =~= g1);
    }
    crate::codec::push_field(&mut es, "name", Json::Str(t.name.clone()));
    proof {
        assert(crate::json::entries_m(es@) + g4 =~= g1);
    }
    crate::codec::push_opt_u32_field(&mut es, "handle", t.handle);
    proof {
        assert(crate::json::entries_m(es@) + g5 =~= g1);
    }
    crate::codec::push_field(&mut es, "type", encode_set_type_value(&t.set_type));
    proof {
        assert(crate::json::entries_m(es@) + g6 =~= g1);
    }
    crate::codec::push_field(&mut es, "map", encode_set_type_value(&t.map));
    proof {
        assert(crate::json::entries_m(es@) + g7 =~= g1);
    }
    push_opt_set_policy_field(&mut es, t.policy);
    proof {
        assert(crate::json::entries_m(es@) + g8 =~= g1);
    }
    push_opt_set_flags_field(&mut es, &t.flags);
    proof {
        assert(crate::json::entries_m(es@) + g9 =~= g1);
    }
    push_opt_elem_field(&mut es, &t.elem);
    proof {
        assert(crate::json::entries_m(es@) + g10 =~= g1);
    }
    crate::codec::push_opt_u32_field(&mut es, "timeout", t.timeout);
    proof {
        assert(crate::json::entries_m(es@) + g11 =~= g1);
    }
    crate::codec::push_opt_u32_field(&mut es, "gc-interval", t.gc_interval);
    proof {
        assert(crate::json::entries_m(es@) + g12 =~= g1);
    }
    crate::codec::push_opt_u32_field(&mut es, "size", t.size);
    proof {
        assert(crate::json::entries_m(es@) + g13 =~= g1);
    }
    crate::codec::push_opt_str_field(&mut es, "comment", &t.comment);
    proof {
        assert(crate::json::entries_m(es@) =~= g1);
    }
    let r = crate::codec::finish_obj(es);
    proof {
        assert(enc_map_object(m)->Obj_0 =~= g1);
        assert(r@->Obj_0 =~= g1);
    }
    r
}

/// Decodes a named map.
#[verifier::rlimit(100)]
#[verifier::spinoff_prover]
pub fn decode_map_object(j: &Json) -> (r: Result<MapObject, DecodeError>)
    ensures
        r matches Ok(v) ==> dec_map_object(j@) == Some(map_object_m(v)),
        r is Err ==> dec_map_object(j@) is None,
{
    proof {
        reveal(dec_map_object);
    }
    let entries = crate::codec::get_entries(j)?;
    let family = crate::codec::get_family(entries)?;
    let table = crate::codec::get_req_str(entries, "table")?;
    let name = crate::codec::get_req_str(entries, "name")?;
    let handle = crate::codec::get_opt_u32(entries, "handle")?;
    let set_type = match crate::json::obj_lookup(entries, "type") {
        Some(v) => match decode_set_type_value(v) {
            Ok(x) => x,
            Err(e) => {
                return Err(e.in_key("type"));
            },
        },
        None => {
            return Err(DecodeError::at_key("type", "missing required property"));
        },
    };
    let map = match crate::json::obj_lookup(entries, "map") {
        Some(v) => match decode_set_type_value(v) {
            Ok(x) => x,
            Err(e) => {
                return Err(e.in_key("map"));
            },
        },
        None => {
            return Err(DecodeError::at_key("map", "missing required property"));
        },
    };
    let policy = match crate::codec::get_opt_str(entries, "policy")? {
        Some(tk) => match crate::schema::set_policy_from_wire(tk.as_str()) {
            Some(x) => Some(x),
            None => {
                return Err(DecodeError::at_key("policy", "unknown enum value"));
            },
        },
        None => None,
    };
    let flags = match crate::json::obj_lookup(entries, "flags") {
        None => None,
        Some(Json::Null) => None,
        Some(v) => match crate::codec::decode_set_flags(v) {
            Ok(fs) => Some(fs),
            Err(e) => {
                return Err(e.in_key("flags"));
            },
        },
    };
    let elem = get_opt_expr_list(entries, "elem")?;
    let timeout = crate::codec::get_opt_u32(entries, "timeout")?;
    let gc_interval = crate::codec::get_opt_u32(entries, "gc-interval")?;
    let size = crate::codec::get_opt_u32(entries, "size")?;
    let comment = crate::codec::get_opt_str(entries, "comment")?;
    Ok(
        MapObject {
            family,
            table,
            name,
            handle,
            set_type,
            map,
            policy,
            flags,
            elem,
            timeout,
            gc_interval,
            size,
            comment,
        },
    )
}

// ---------------------------------------------------------------------
// Named meters
// ---------------------------------------------------------------------

/// Abstraction of a named meter.
pub open spec fn meter_obj_m(t: Meter) -> MeterM {
    MeterM {
        name: t.name@,
        key: crate::codec::expr_m(t.key),
        stmt: Box::new(crate::codec::stmt_m(*t.stmt)),
    }
}

/// The wire form of a named meter.
pub open spec fn enc_meter_obj(t: MeterM) -> JsonM {
    JsonM::Obj(
        crate::codec::fone("name"@, JsonM::Str(t.name)) + (crate::codec::fone(
            "key"@,
            crate::codec::enc_expr(t.key),
        ) + crate::codec::fone("stmt"@, crate::codec::enc_stmt_m(*t.stmt))),
    )
}

/// The named meter a wire value stands for, if any.
pub open spec fn dec_meter_obj(j: JsonM) -> Option<MeterM> {
    match crate::codec::dec_meter_stmt(j) {
        Some(m) => Some(MeterM { name: m.name, key: m.key, stmt: m.stmt }),
        None => None,
    }
}

/// Encodes a named meter.
pub fn encode_meter_obj(t: &Meter) -> (r: Json)
    ensures
        r@ == enc_meter_obj(meter_obj_m(*t)),
{
    let mut es: Vec<(String, Json)> = Vec::new();
    crate::codec::push_field(&mut es, "name", Json::Str(t.name.clone()));
    crate::codec::push_field(&mut es, "key", crate::codec::encode_expr(&t.key));
    crate::codec::push_field(&mut es, "stmt", crate::codec::encode_stmt(&t.stmt));
    let r = crate::codec::finish_obj(es);
    proof {
        assert(r@->Obj_0 =~= enc_meter_obj(meter_obj_m(*t))->Obj_0);
    }
    r
}

/// Decodes a named meter.
pub fn decode_meter_obj(j: &Json) -> (r: Result<Meter, DecodeError>)
    ensures
        r matches Ok(v) ==> dec_meter_obj(j@) == Some(meter_obj_m(v)),
        r is Err ==> dec_meter_obj(j@) is None,
{
    match crate::codec::decode_meter_stmt(j) {
        Ok(m) => Ok(Meter { name: m.name, key: m.key, stmt: m.stmt }),
        Err(e) => Err(e),
    }
}
// ---------------------------------------------------------------------
// Ruleset elements, commands, and whole documents
// ---------------------------------------------------------------------

/// Abstraction of a ruleset element.
pub open spec fn list_obj_m(t: NfListObject) -> NfListObjectM {
    match t {
        NfListObject::Table(x) => NfListObjectM::Table(crate::codec::table_m(x)),
        NfListObject::Chain(x) => NfListObjectM::Chain(crate::codec::chain_m(x)),
        NfListObject::Rule(x) => NfListObjectM::Rule(rule_m(x)),
        NfListObject::SetObj(x) => NfListObjectM::SetObj(Box::new(set_object_m(*x))),
        NfListObject::MapObj(x) => NfListObjectM::MapObj(Box::new(map_object_m(*x))),
        NfListObject::Element(x) => NfListObjectM::Element(element_m(x)),
        NfListObject::FlowTable(x) => NfListObjectM::FlowTable(flow_table_m(x)),
        NfListObject::Counter(x) => NfListObjectM::Counter(crate::codec::counter_obj_m(x)),
        NfListObject::Quota(x) => NfListObjectM::Quota(crate::codec::quota_obj_m(x)),
        NfListObject::CTHelper(x) => NfListObjectM::CTHelper(crate::codec::cthelper_m(x)),
        NfListObject::Limit(x) => NfListObjectM::Limit(crate::codec::limit_obj_m(x)),
        NfListObject::MetainfoObject(x) => NfListObjectM::MetainfoObject(
            crate::codec::metainfo_m(x),
        ),
        NfListObject::CTTimeout(x) => NfListObjectM::CTTimeout(crate::codec::cttimeout_m(x)),
        NfListObject::CTExpectation(x) => NfListObjectM::CTExpectation(
            crate::codec::ctexpectation_m(x),
        ),
        NfListObject::SynProxy(x) => NfListObjectM::SynProxy(crate::codec::synproxy_obj_m(x)),
    }
}

/// The wire form of a ruleset element: a single-property object whose
/// name identifies the element kind.
pub open spec fn enc_list_obj(t: NfListObjectM) -> JsonM {
    match t {
        NfListObjectM::Table(x) => JsonM::Obj(crate::codec::fone("table"@, crate::codec::enc_table(x))),
        NfListObjectM::Chain(x) => JsonM::Obj(crate::codec::fone("chain"@, crate::codec::enc_chain(x))),
        NfListObjectM::Rule(x) => JsonM::Obj(crate::codec::fone("rule"@, enc_rule(x))),
        NfListObjectM::SetObj(x) => JsonM::Obj(crate::codec::fone("set"@, enc_set_object(*x))),
        NfListObjectM::MapObj(x) => JsonM::Obj(crate::codec::fone("map"@, enc_map_object(*x))),
        NfListObjectM::Element(x) => JsonM::Obj(crate::codec::fone("element"@, enc_element(x))),
        NfListObjectM::FlowTable(x) => JsonM::Obj(
            crate::codec::fone("flowtable"@, enc_flow_table(x)),
        ),
        NfListObjectM::Counter(x) => JsonM::Obj(
            crate::codec::fone("counter"@, crate::codec::enc_counter_obj(x)),
        ),
        NfListObjectM::Quota(x) => JsonM::Obj(
            crate::codec::fone("quota"@, crate::codec::enc_quota_obj(x)),
        ),
        NfListObjectM::CTHelper(x) => JsonM::Obj(
            crate::codec::fone("ct helper"@, crate::codec::enc_cthelper(x)),
        ),
        NfListObjectM::Limit(x) => JsonM::Obj(
            crate::codec::fone("limit"@, crate::codec::enc_limit_obj(x)),
        ),
        NfListObjectM::MetainfoObject(x) => JsonM::Obj(
            crate::codec::fone("metainfo"@, crate::codec::enc_metainfo(x)),
        ),
        NfListObjectM::CTTimeout(x) => JsonM::Obj(
            crate::codec::fone("ct timeout"@, crate::codec::enc_cttimeout(x)),
        ),
        NfListObjectM::CTExpectation(x) => JsonM::Obj(
            crate::codec::fone("ct expectation"@, crate::codec::enc_ctexpectation(x)),
        ),
        NfListObjectM::SynProxy(x) => JsonM::Obj(
            crate::codec::fone("synproxy"@, crate::codec::enc_synproxy_obj(x)),
        ),
    }
}

/// Whether a property name selects a ruleset element kind.
pub open spec fn is_list_obj_key(k: Seq<char>) -> bool {
    ||| k == "table"@
    ||| k == "chain"@
    ||| k == "rule"@
    ||| k == "set"@
    ||| k == "map"@
    ||| k == "element"@
    ||| k == "flowtable"@
    ||| k == "counter"@
    ||| k == "quota"@
    ||| k == "ct helper"@
    ||| k == "limit"@
    ||| k == "metainfo"@
    ||| k == "ct timeout"@
    ||| k == "ct expectation"@
    ||| k == "synproxy"@
}

/// The ruleset element a single-property wire object stands for, if
/// any; `k` is the property name and `v` its value.
#[verifier::opaque]
pub open spec fn dec_list_obj_kv(k: Seq<char>, v: JsonM) -> Option<NfListObjectM> {
    if k == "table"@ {
        match crate::codec::dec_table(v) {
            Some(x) => Some(NfListObjectM::Table(x)),
            None => None,
        }
    } else if k == "chain"@ {
        match crate::codec::dec_chain(v) {
            Some(x) => Some(NfListObjectM::Chain(x)),
            None => None,
        }
    } else if k == "rule"@ {
        match dec_rule(v) {
            Some(x) => Some(NfListObjectM::Rule(x)),
            None => None,
        }
    } else if k == "set"@ {
        match dec_set_object(v) {
            Some(x) => Some(NfListObjectM::SetObj(Box::new(x))),
            None => None,
        }
    } else if k == "map"@ {
        match dec_map_object(v) {
            Some(x) => Some(NfListObjectM::MapObj(Box::new(x))),
            None => None,
        }
    } else if k == "element"@ {
        match dec_element(v) {
            Some(x) => Some(NfListObjectM::Element(x)),
            None => None,
        }
    } else if k == "flowtable"@ {
        match dec_flow_table(v) {
            Some(x) => Some(NfListObjectM::FlowTable(x)),
            None => None,
        }
    } else if k == "counter"@ {
        match crate::codec::dec_counter_obj(v) {
            Some(x) => Some(NfListObjectM::Counter(x)),
            None => None,
        }
    } else if k == "quota"@ {
        match crate::codec::dec_quota_obj(v) {
            Some(x) => Some(NfListObjectM::Quota(x)),
            None => None,
        }
    } else if k == "ct helper"@ {
        match crate::codec::dec_cthelper(v) {
            Some(x) => Some(NfListObjectM::CTHelper(x)),
            None => None,
        }
    } else if k == "limit"@ {
        match crate::codec::dec_limit_obj(v) {
            Some(x) => Some(NfListObjectM::Limit(x)),
            None => None,
        }
    } else if k == "metainfo"@ {
        match crate::codec::dec_metainfo(v) {
            Some(x) => Some(NfListObjectM::MetainfoObject(x)),
            None => None,
        }
    } else if k == "ct timeout"@ {
        match crate::codec::dec_cttimeout(v) {
            Some(x) => Some(NfListObjectM::CTTimeout(x)),
            None => None,
        }
    } else if k == "ct expectation"@ {
        match crate::codec::dec_ctexpectation(v) {
            Some(x) => Some(NfListObjectM::CTExpectation(x)),
            None => None,
        }
    } else if k == "synproxy"@ {
        match crate::codec::dec_synproxy_obj(v) {
            Some(x) => Some(NfListObjectM::SynProxy(x)),
            None => None,
        }
    } else {
        None
    }
}

/// Encodes a ruleset element.
pub fn encode_list_obj(t: &NfListObject) -> (r: Json)
    ensures
        r@ == enc_list_obj(list_obj_m(*t)),
{
    match t {
        NfListObject::Table(x) => crate::codec::single_obj("table", crate::codec::encode_table(x)),
        NfListObject::Chain(x) => crate::codec::single_obj("chain", crate::codec::encode_chain(x)),
        NfListObject::Rule(x) => crate::codec::single_obj("rule", encode_rule(x)),
        NfListObject::SetObj(x) => crate::codec::single_obj("set", encode_set_object(x)),
        NfListObject::MapObj(x) => crate::codec::single_obj("map", encode_map_object(x)),
        NfListObject::Element(x) => crate::codec::single_obj("element", encode_element(x)),
        NfListObject::FlowTable(x) => crate::codec::single_obj("flowtable", encode_flow_table(x)),
        NfListObject::Counter(x) => crate::codec::single_obj(
            "counter",
            crate::codec::encode_counter_obj(x),
        ),
        NfListObject::Quota(x) => crate::codec::single_obj(
            "quota",
            crate::codec::encode_quota_obj(x),
        ),
        NfListObject::CTHelper(x) => crate::codec::single_obj(
            "ct helper",
            crate::codec::encode_cthelper(x),
        ),
        NfListObject::Limit(x) => crate::codec::single_obj(
            "limit",
            crate::codec::encode_limit_obj(x),
        ),
        NfListObject::MetainfoObject(x) => crate::codec::single_obj(
            "metainfo",
            crate::codec::encode_metainfo(x),
        ),
        NfListObject::CTTimeout(x) => crate::codec::single_obj(
            "ct timeout",
            crate::codec::encode_cttimeout(x),
        ),
        NfListObject::CTExpectation(x) => crate::codec::single_obj(
            "ct expectation",
            crate::codec::encode_ctexpectation(x),
        ),
        NfListObject::SynProxy(x) => crate::codec::single_obj(
            "synproxy",
            crate::codec::encode_synproxy_obj(x),
        ),
    }
}

/// Decodes a ruleset element given its dispatch property and value.
#[verifier::rlimit(100)]
#[verifier::spinoff_prover]
pub fn decode_list_obj_kv(key: &String, v: &Json) -> (r: Result<NfListObject, DecodeError>)
    ensures
        r matches Ok(t) ==> dec_list_obj_kv(key@, v@) == Some(list_obj_m(t)),
        r is Err ==> dec_list_obj_kv(key@, v@) is None,
{
    proof {
        reveal(dec_list_obj_kv);
    }
    if crate::json::str_eq(key.as_str(), "table") {
        match crate::codec::decode_table(v) {
            Ok(x) => Ok(NfListObject::Table(x)),
            Err(e) => Err(e.in_key("table")),
        }
    } else if crate::json::str_eq(key.as_str(), "chain") {
        match crate::codec::decode_chain(v) {
            Ok(x) => Ok(NfListObject::Chain(x)),
            Err(e) => Err(e.in_key("chain")),
        }
    } else if crate::json::str_eq(key.as_str(), "rule") {
        match decode_rule(v) {
            Ok(x) => Ok(NfListObject::Rule(x)),
            Err(e) => Err(e.in_key("rule")),
        }
    } else if crate::json::str_eq(key.as_str(), "set") {
        match decode_set_object(v) {
            Ok(x) => Ok(NfListObject::SetObj(Box::new(x))),
            Err(e) => Err(e.in_key("set")),
        }
    } else if crate::json::str_eq(key.as_str(), "map") {
        match decode_map_object(v) {
            Ok(x) => Ok(NfListObject::MapObj(Box::new(x))),
            Err(e) => Err(e.in_key("map")),
        }
    } else if crate::json::str_eq(key.as_str(), "element") {
        match decode_element(v) {
            Ok(x) => Ok(NfListObject::Element(x)),
            Err(e) => Err(e.in_key("element")),
        }
    } else if crate::json::str_eq(key.as_str(), "flowtable") {
        match decode_flow_table(v) {
            Ok(x) => Ok(NfListObject::FlowTable(x)),
            Err(e) => Err(e.in_key("flowtable")),
        }
    } else if crate::json::str_eq(key.as_str(), "counter") {
        match crate::codec::decode_counter_obj(v) {
            Ok(x) => Ok(NfListObject::Counter(x)),
            Err(e) => Err(e.in_key("counter")),
        }
    } else if crate::json::str_eq(key.as_str(), "quota") {
        match crate::codec::decode_quota_obj(v) {
            Ok(x) => Ok(NfListObject::Quota(x)),
            Err(e) => Err(e.in_key("quota")),
        }
    } else if crate::json::str_eq(key.as_str(), "ct helper") {
        match crate::codec::decode_cthelper(v) {
            Ok(x) => Ok(NfListObject::CTHelper(x)),
            Err(e) => Err(e.in_key("ct helper")),
        }
    } else if crate::json::str_eq(key.as_str(), "limit") {
        match crate::codec::decode_limit_obj(v) {
            Ok(x) => Ok(NfListObject::Limit(x)),
            Err(e) => Err(e.in_key("limit")),
        }
    } else if crate::json::str_eq(key.as_str(), "metainfo") {
        match crate::codec::decode_metainfo(v) {
            Ok(x) => Ok(NfListObject::MetainfoObject(x)),
            Err(e) => Err(e.in_key("metainfo")),
        }
    } else if crate::json::str_eq(key.as_str(), "ct timeout") {
        match crate::codec::decode_cttimeout(v) {
            Ok(x) => Ok(NfListObject::CTTimeout(x)),
            Err(e) => Err(e.in_key("ct timeout")),
        }
    } else if crate::json::str_eq(key.as_str(), "ct expectation") {
        match crate::codec::decode_ctexpectation(v) {
            Ok(x) => Ok(NfListObject::CTExpectation(x)),
            Err(e) => Err(e.in_key("ct expectation")),
        }
    } else if crate::json::str_eq(key.as_str(), "synproxy") {
        match crate::codec::decode_synproxy_obj(v) {
            Ok(x) => Ok(NfListObject::SynProxy(x)),
            Err(e) => Err(e.in_key("synproxy")),
        }
    } else {
        Err(DecodeError::here("unrecognized ruleset element"))
    }
}
/// Abstraction of a command.
pub open spec fn cmd_m(t: NfCmd) -> NfCmdM {
    match t {
        NfCmd::Add(x) => NfCmdM::Add(list_obj_m(x)),
        NfCmd::Replace(x) => NfCmdM::Replace(rule_m(x)),
        NfCmd::Create(x) => NfCmdM::Create(list_obj_m(x)),
        NfCmd::Insert(x) => NfCmdM::Insert(list_obj_m(x)),
        NfCmd::Delete(x) => NfCmdM::Delete(list_obj_m(x)),
        NfCmd::List(x) => NfCmdM::List(list_obj_m(x)),
        NfCmd::Reset(x) => NfCmdM::Reset(reset_obj_m(x)),
        NfCmd::Flush(x) => NfCmdM::Flush(flush_obj_m(x)),
        NfCmd::Rename(x) => NfCmdM::Rename(crate::codec::chain_m(x)),
    }
}

/// Abstraction of a reset target.
pub open spec fn reset_obj_m(t: ResetObject) -> ResetObjectM {
    match t {
        ResetObject::Counter(x) => ResetObjectM::Counter(crate::codec::counter_obj_m(x)),
        ResetObject::Counters(xs) => ResetObjectM::Counters(
            Seq::new(xs@.len(), |i: int| crate::codec::counter_obj_m(xs[i])),
        ),
        ResetObject::Quota(x) => ResetObjectM::Quota(crate::codec::quota_obj_m(x)),
        ResetObject::Quotas(xs) => ResetObjectM::Quotas(
            Seq::new(xs@.len(), |i: int| crate::codec::quota_obj_m(xs[i])),
        ),
    }
}

/// Abstraction of a flush target.
pub open spec fn flush_obj_m(t: FlushObject) -> FlushObjectM {
    match t {
        FlushObject::Table(x) => FlushObjectM::Table(crate::codec::table_m(x)),
        FlushObject::Chain(x) => FlushObjectM::Chain(crate::codec::chain_m(x)),
        FlushObject::SetObj(x) => FlushObjectM::SetObj(Box::new(set_object_m(*x))),
        FlushObject::MapObj(x) => FlushObjectM::MapObj(Box::new(map_object_m(*x))),
        FlushObject::Meter(x) => FlushObjectM::Meter(meter_obj_m(x)),
        FlushObject::Ruleset(o) => FlushObjectM::Ruleset(o),
    }
}

/// The wire form of a command: a single-property object whose name is
/// the verb.
pub open spec fn enc_cmd(t: NfCmdM) -> JsonM {
    match t {
        NfCmdM::Add(x) => JsonM::Obj(crate::codec::fone("add"@, enc_list_obj(x))),
        NfCmdM::Replace(x) => JsonM::Obj(crate::codec::fone("replace"@, enc_rule(x))),
        NfCmdM::Create(x) => JsonM::Obj(crate::codec::fone("create"@, enc_list_obj(x))),
        NfCmdM::Insert(x) => JsonM::Obj(crate::codec::fone("insert"@, enc_list_obj(x))),
        NfCmdM::Delete(x) => JsonM::Obj(crate::codec::fone("delete"@, enc_list_obj(x))),
        NfCmdM::List(x) => JsonM::Obj(crate::codec::fone("list"@, enc_list_obj(x))),
        NfCmdM::Reset(x) => JsonM::Obj(crate::codec::fone("reset"@, enc_reset_obj(x))),
        NfCmdM::Flush(x) => JsonM::Obj(crate::codec::fone("flush"@, enc_flush_obj(x))),
        NfCmdM::Rename(x) => JsonM::Obj(crate::codec::fone("rename"@, crate::codec::enc_chain(x))),
    }
}

/// The wire form of a reset target.
pub open spec fn enc_reset_obj(t: ResetObjectM) -> JsonM {
    match t {
        ResetObjectM::Counter(x) => JsonM::Obj(
            crate::codec::fone("counter"@, crate::codec::enc_counter_obj(x)),
        ),
        ResetObjectM::Counters(xs) => JsonM::Obj(
            crate::codec::fone(
                "counters"@,
                JsonM::Arr(Seq::new(xs.len(), |i: int| crate::codec::enc_counter_obj(xs[i]))),
            ),
        ),
        ResetObjectM::Quota(x) => JsonM::Obj(
            crate::codec::fone("quota"@, crate::codec::enc_quota_obj(x)),
        ),
        ResetObjectM::Quotas(xs) => JsonM::Obj(
            crate::codec::fone(
                "quotas"@,
                JsonM::Arr(Seq::new(xs.len(), |i: int| crate::codec::enc_quota_obj(xs[i]))),
            ),
        ),
    }
}

/// The wire form of a flush target.
pub open spec fn enc_flush_obj(t: FlushObjectM) -> JsonM {
    match t {
        FlushObjectM::Table(x) => JsonM::Obj(
            crate::codec::fone("table"@, crate::codec::enc_table(x)),
        ),
        FlushObjectM::Chain(x) => JsonM::Obj(
            crate::codec::fone("chain"@, crate::codec::enc_chain(x)),
        ),
        FlushObjectM::SetObj(x) => JsonM::Obj(crate::codec::fone("set"@, enc_set_object(*x))),
        FlushObjectM::MapObj(x) => JsonM::Obj(crate::codec::fone("map"@, enc_map_object(*x))),
        FlushObjectM::Meter(x) => JsonM::Obj(crate::codec::fone("meter"@, enc_meter_obj(x))),
        FlushObjectM::Ruleset(o) => JsonM::Obj(
            crate::codec::fone("ruleset"@, crate::codec::enc_empty_payload(o is Some)),
        ),
    }
}

/// Whether a property name is a command verb.
pub open spec fn is_cmd_key(k: Seq<char>) -> bool {
    ||| k == "add"@
    ||| k == "replace"@
    ||| k == "create"@
    ||| k == "insert"@
    ||| k == "delete"@
    ||| k == "list"@
    ||| k == "reset"@
    ||| k == "flush"@
    ||| k == "rename"@
}

/// The command a single-property wire object stands for, if any.
#[verifier::opaque]
pub open spec fn dec_cmd_kv(k: Seq<char>, v: JsonM) -> Option<NfCmdM> {
    if k == "add"@ {
        match dec_list_obj_payload(v) {
            Some(x) => Some(NfCmdM::Add(x)),
            None => None,
        }
    } else if k == "replace"@ {
        match dec_rule(v) {
            Some(x) => Some(NfCmdM::Replace(x)),
            None => None,
        }
    } else if k == "create"@ {
        match dec_list_obj_payload(v) {
            Some(x) => Some(NfCmdM::Create(x)),
            None => None,
        }
    } else if k == "insert"@ {
        match dec_list_obj_payload(v) {
            Some(x) => Some(NfCmdM::Insert(x)),
            None => None,
        }
    } else if k == "delete"@ {
        match dec_list_obj_payload(v) {
            Some(x) => Some(NfCmdM::Delete(x)),
            None => None,
        }
    } else if k == "list"@ {
        match dec_list_obj_payload(v) {
            Some(x) => Some(NfCmdM::List(x)),
            None => None,
        }
    } else if k == "reset"@ {
        match dec_reset_obj(v) {
            Some(x) => Some(NfCmdM::Reset(x)),
            None => None,
        }
    } else if k == "flush"@ {
        match dec_flush_obj(v) {
            Some(x) => Some(NfCmdM::Flush(x)),
            None => None,
        }
    } else if k == "rename"@ {
        match crate::codec::dec_chain(v) {
            Some(x) => Some(NfCmdM::Rename(x)),
            None => None,
        }
    } else {
        None
    }
}

/// The ruleset element a command payload stands for, if any: a
/// single-property object dispatched on the element kind.
pub open spec fn dec_list_obj_payload(v: JsonM) -> Option<NfListObjectM> {
    if v is Obj && v->Obj_0.len() == 1 {
        dec_list_obj_kv(v->Obj_0[0].0, v->Obj_0[0].1)
    } else {
        None
    }
}

/// The reset target a wire value stands for, if any.
#[verifier::opaque]
pub open spec fn dec_reset_obj(v: JsonM) -> Option<ResetObjectM> {
    if v is Obj && v->Obj_0.len() == 1 {
        let k = v->Obj_0[0].0;
        let w = v->Obj_0[0].1;
        if k == "counter"@ {
            match crate::codec::dec_counter_obj(w) {
                Some(x) => Some(ResetObjectM::Counter(x)),
                None => None,
            }
        } else if k == "counters"@ {
            match dec_counter_list(w) {
                Some(xs) => Some(ResetObjectM::Counters(xs)),
                None => None,
            }
        } else if k == "quota"@ {
            match crate::codec::dec_quota_obj(w) {
                Some(x) => Some(ResetObjectM::Quota(x)),
                None => None,
            }
        } else if k == "quotas"@ {
            match dec_quota_list(w) {
                Some(xs) => Some(ResetObjectM::Quotas(xs)),
                None => None,
            }
        } else {
            None
        }
    } else {
        None
    }
}

/// The counter list a wire value stands for, if any.
pub open spec fn dec_counter_list(j: JsonM) -> Option<Seq<CounterM>> {
    if !(j is Arr) {
        None
    } else {
        let s = j->Arr_0;
        if forall|i: int| 0 <= i < s.len() ==> (#[trigger] crate::codec::dec_counter_obj(
            s[i],
        )) is Some {
            Some(Seq::new(s.len(), |i: int| crate::codec::dec_counter_obj(s[i])->0))
        } else {
            None
        }
    }
}

/// The quota list a wire value stands for, if any.
pub open spec fn dec_quota_list(j: JsonM) -> Option<Seq<QuotaM>> {
    if !(j is Arr) {
        None
    } else {
        let s = j->Arr_0;
        if forall|i: int| 0 <= i < s.len() ==> (#[trigger] crate::codec::dec_quota_obj(
            s[i],
        )) is Some {
            Some(Seq::new(s.len(), |i: int| crate::codec::dec_quota_obj(s[i])->0))
        } else {
            None
        }
    }
}

/// The flush target a wire value stands for, if any.
#[verifier::opaque]
pub open spec fn dec_flush_obj(v: JsonM) -> Option<FlushObjectM> {
    if v is Obj && v->Obj_0.len() == 1 {
        let k = v->Obj_0[0].0;
        let w = v->Obj_0[0].1;
        if k == "table"@ {
            match crate::codec::dec_table(w) {
                Some(x) => Some(FlushObjectM::Table(x)),
                None => None,
            }
        } else if k == "chain"@ {
            match crate::codec::dec_chain(w) {
                Some(x) => Some(FlushObjectM::Chain(x)),
                None => None,
            }
        } else if k == "set"@ {
            match dec_set_object(w) {
                Some(x) => Some(FlushObjectM::SetObj(Box::new(x))),
                None => None,
            }
        } else if k == "map"@ {
            match dec_map_object(w) {
                Some(x) => Some(FlushObjectM::MapObj(Box::new(x))),
                None => None,
            }
        } else if k == "meter"@ {
            match dec_meter_obj(w) {
                Some(x) => Some(FlushObjectM::Meter(x)),
                None => None,
            }
        } else if k == "ruleset"@ {
            match crate::codec::dec_unit_payload(w) {
                Some(p) => Some(
                    FlushObjectM::Ruleset(
                        if p {
                            Some(Ruleset {  })
                        } else {
                            None
                        },
                    ),
                ),
                None => None,
            }
        } else {
            None
        }
    } else {
        None
    }
}

/// Abstraction of a document item.
pub open spec fn obj_m(t: NfObject) -> NfObjectM {
    match t {
        NfObject::CmdObject(c) => NfObjectM::CmdObject(cmd_m(c)),
        NfObject::ListObject(l) => NfObjectM::ListObject(list_obj_m(l)),
    }
}

/// The wire form of a document item.
pub open spec fn enc_obj(t: NfObjectM) -> JsonM {
    match t {
        NfObjectM::CmdObject(c) => enc_cmd(c),
        NfObjectM::ListObject(l) => enc_list_obj(l),
    }
}

/// The document item a wire value stands for, if any: a command when
/// the single property is a verb, a bare ruleset element when it is an
/// element kind, and nothing otherwise.
#[verifier::opaque]
pub open spec fn dec_obj(j: JsonM) -> Option<NfObjectM> {
    if j is Obj && j->Obj_0.len() == 1 {
        let k = j->Obj_0[0].0;
        if is_cmd_key(k) {
            match dec_cmd_kv(k, j->Obj_0[0].1) {
                Some(c) => Some(NfObjectM::CmdObject(c)),
                None => None,
            }
        } else {
            match dec_list_obj_kv(k, j->Obj_0[0].1) {
                Some(l) => Some(NfObjectM::ListObject(l)),
                None => None,
            }
        }
    } else {
        None
    }
}

/// Abstraction of a document.
pub open spec fn doc_m(t: Nftables) -> NftablesM {
    NftablesM { objects: Seq::new(t.objects@.len(), |i: int| obj_m(t.objects[i])) }
}

/// The wire form of a document: a single-property object named
/// `nftables` holding the array of items.
pub open spec fn enc_doc(t: NftablesM) -> JsonM {
    JsonM::Obj(
        crate::codec::fone(
            "nftables"@,
            JsonM::Arr(Seq::new(t.objects.len(), |i: int| enc_obj(t.objects[i]))),
        ),
    )
}

/// The document a wire value stands for, if any.
pub open spec fn dec_doc(j: JsonM) -> Option<NftablesM> {
    if j is Obj && j->Obj_0.len() == 1 && j->Obj_0[0].0 == "nftables"@ && j->Obj_0[0].1 is Arr {
        let items = j->Obj_0[0].1->Arr_0;
        if forall|i: int| 0 <= i < items.len() ==> (#[trigger] dec_obj(items[i])) is Some {
            Some(NftablesM { objects: Seq::new(items.len(), |i: int| dec_obj(items[i])->0) })
        } else {
            None
        }
    } else {
        None
    }
}
/// Encodes a command.
pub fn encode_cmd(t: &NfCmd) -> (r: Json)
    ensures
        r@ == enc_cmd(cmd_m(*t)),
{
    match t {
        NfCmd::Add(x) => crate::codec::single_obj("add", encode_list_obj(x)),
        NfCmd::Replace(x) => crate::codec::single_obj("replace", encode_rule(x)),
        NfCmd::Create(x) => crate::codec::single_obj("create", encode_list_obj(x)),
        NfCmd::Insert(x) => crate::codec::single_obj("insert", encode_list_obj(x)),
        NfCmd::Delete(x) => crate::codec::single_obj("delete", encode_list_obj(x)),
        NfCmd::List(x) => crate::codec::single_obj("list", encode_list_obj(x)),
        NfCmd::Reset(x) => crate::codec::single_obj("reset", encode_reset_obj(x)),
        NfCmd::Flush(x) => crate::codec::single_obj("flush", encode_flush_obj(x)),
        NfCmd::Rename(x) => crate::codec::single_obj("rename", crate::codec::encode_chain(x)),
    }
}

/// Encodes a reset target.
pub fn encode_reset_obj(t: &ResetObject) -> (r: Json)
    ensures
        r@ == enc_reset_obj(reset_obj_m(*t)),
{
    match t {
        ResetObject::Counter(x) => crate::codec::single_obj(
            "counter",
            crate::codec::encode_counter_obj(x),
        ),
        ResetObject::Counters(xs) => {
            let mut out: Vec<Json> = Vec::new();
            let mut i: usize = 0;
            while i < xs.len()
                invariant
                    0 <= i <= xs@.len(),
                    out@.len() == i,
                    forall|k: int|
                        0 <= k < i ==> json_m(out@[k]) == crate::codec::enc_counter_obj(
                            crate::codec::counter_obj_m(xs@[k]),
                        ),
                decreases xs@.len() - i,
            {
                out.push(crate::codec::encode_counter_obj(&xs[i]));
                i += 1;
            }
            let arr = crate::codec::finish_arr(out);
            proof {
                assert(arr@->Arr_0 =~= Seq::new(
                    reset_obj_m(*t)->Counters_0.len(),
                    |k: int| crate::codec::enc_counter_obj(reset_obj_m(*t)->Counters_0[k]),
                ));
            }
            crate::codec::single_obj("counters", arr)
        },
        ResetObject::Quota(x) => crate::codec::single_obj(
            "quota",
            crate::codec::encode_quota_obj(x),
        ),
        ResetObject::Quotas(xs) => {
            let mut out: Vec<Json> = Vec::new();
            let mut i: usize = 0;
            while i < xs.len()
                invariant
                    0 <= i <= xs@.len(),
                    out@.len() == i,
                    forall|k: int|
                        0 <= k < i ==> json_m(out@[k]) == crate::codec::enc_quota_obj(
                            crate::codec::quota_obj_m(xs@[k]),
                        ),
                decreases xs@.len() - i,
            {
                out.push(crate::codec::encode_quota_obj(&xs[i]));
                i += 1;
            }
            let arr = crate::codec::finish_arr(out);
            proof {
                assert(arr@->Arr_0 =~= Seq::new(
                    reset_obj_m(*t)->Quotas_0.len(),
                    |k: int| crate::codec::enc_quota_obj(reset_obj_m(*t)->Quotas_0[k]),
                ));
            }
            crate::codec::single_obj("quotas", arr)
        },
    }
}

/// Encodes a flush target.
pub fn encode_flush_obj(t: &FlushObject) -> (r: Json)
    ensures
        r@ == enc_flush_obj(flush_obj_m(*t)),
{
    match t {
        FlushObject::Table(x) => crate::codec::single_obj("table", crate::codec::encode_table(x)),
        FlushObject::Chain(x) => crate::codec::single_obj("chain", crate::codec::encode_chain(x)),
        FlushObject::SetObj(x) => crate::codec::single_obj("set", encode_set_object(x)),
        FlushObject::MapObj(x) => crate::codec::single_obj("map", encode_map_object(x)),
        FlushObject::Meter(x) => crate::codec::single_obj("meter", encode_meter_obj(x)),
        FlushObject::Ruleset(o) => crate::codec::single_obj(
            "ruleset",
            crate::codec::encode_unit_payload(o.is_some()),
        ),
    }
}

/// Decodes a command given its dispatch property and value.
#[verifier::rlimit(100)]
#[verifier::spinoff_prover]
pub fn decode_cmd_kv(key: &String, v: &Json) -> (r: Result<NfCmd, DecodeError>)
    ensures
        r matches Ok(t) ==> dec_cmd_kv(key@, v@) == Some(cmd_m(t)),
        r is Err ==> dec_cmd_kv(key@, v@) is None,
{
    proof {
        reveal(dec_cmd_kv);
    }
    if crate::json::str_eq(key.as_str(), "add") {
        match decode_list_obj_payload(v) {
            Ok(x) => Ok(NfCmd::Add(x)),
            Err(e) => Err(e.in_key("add")),
        }
    } else if crate::json::str_eq(key.as_str(), "replace") {
        match decode_rule(v) {
            Ok(x) => Ok(NfCmd::Replace(x)),
            Err(e) => Err(e.in_key("replace")),
        }
    } else if crate::json::str_eq(key.as_str(), "create") {
        match decode_list_obj_payload(v) {
            Ok(x) => Ok(NfCmd::Create(x)),
            Err(e) => Err(e.in_key("create")),
        }
    } else if crate::json::str_eq(key.as_str(), "insert") {
        match decode_list_obj_payload(v) {
            Ok(x) => Ok(NfCmd::Insert(x)),
            Err(e) => Err(e.in_key("insert")),
        }
    } else if crate::json::str_eq(key.as_str(), "delete") {
        match decode_list_obj_payload(v) {
            Ok(x) => Ok(NfCmd::Delete(x)),
            Err(e) => Err(e.in_key("delete")),
        }
    } else if crate::json::str_eq(key.as_str(), "list") {
        match decode_list_obj_payload(v) {
            Ok(x) => Ok(NfCmd::List(x)),
            Err(e) => Err(e.in_key("list")),
        }
    } else if crate::json::str_eq(key.as_str(), "reset") {
        match decode_reset_obj(v) {
            Ok(x) => Ok(NfCmd::Reset(x)),
            Err(e) => Err(e.in_key("reset")),
        }
    } else if crate::json::str_eq(key.as_str(), "flush") {
        match decode_flush_obj(v) {
            Ok(x) => Ok(NfCmd::Flush(x)),
            Err(e) => Err(e.in_key("flush")),
        }
    } else if crate::json::str_eq(key.as_str(), "rename") {
        match crate::codec::decode_chain(v) {
            Ok(x) => Ok(NfCmd::Rename(x)),
            Err(e) => Err(e.in_key("rename")),
        }
    } else {
        Err(DecodeError::here("unrecognized command"))
    }
}

/// Decodes a command payload that must be a single-property ruleset
/// element object.
pub fn decode_list_obj_payload(v: &Json) -> (r: Result<NfListObject, DecodeError>)
    ensures
        r matches Ok(t) ==> dec_list_obj_payload(v@) == Some(list_obj_m(t)),
        r is Err ==> dec_list_obj_payload(v@) is None,
{
    let entries = crate::codec::get_entries(v)?;
    if entries.len() != 1 {
        return Err(DecodeError::here("expected a single-property object"));
    }
    proof {
        assert(crate::json::entries_m(entries@)[0] == (entries@[0].0@, json_m(entries@[0].1)));
    }
    decode_list_obj_kv(&entries[0].0, &entries[0].1)
}

/// Decodes a reset target.
pub fn decode_reset_obj(v: &Json) -> (r: Result<ResetObject, DecodeError>)
    ensures
        r matches Ok(t) ==> dec_reset_obj(v@) == Some(reset_obj_m(t)),
        r is Err ==> dec_reset_obj(v@) is None,
{
    proof {
        reveal(dec_reset_obj);
    }
    let entries = crate::codec::get_entries(v)?;
    if entries.len() != 1 {
        return Err(DecodeError::here("expected a single-property object"));
    }
    proof {
        assert(crate::json::entries_m(entries@)[0] == (entries@[0].0@, json_m(entries@[0].1)));
    }
    let key = &entries[0].0;
    let w = &entries[0].1;
    if crate::json::str_eq(key.as_str(), "counter") {
        match crate::codec::decode_counter_obj(w) {
            Ok(x) => Ok(ResetObject::Counter(x)),
            Err(e) => Err(e.in_key("counter")),
        }
    } else if crate::json::str_eq(key.as_str(), "counters") {
        let items = match w {
            Json::Arr(items) => items,
            _ => {
                return Err(DecodeError::at_key("counters", "expected an array"));
            },
        };
        proof {
            crate::json::lemma_arr_m_at(*items, 0);
            assert(crate::json::arr_m_at(*items, 0) =~= crate::codec::jsons_m(items@));
        }
        let ghost s = crate::codec::jsons_m(items@);
        let mut out: Vec<Counter> = Vec::new();
        let mut i: usize = 0;
        while i < items.len()
            invariant
                0 <= i <= items@.len(),
                s == crate::codec::jsons_m(items@),
                s.len() == items@.len(),
                w@ == JsonM::Arr(s),
                out@.len() == i,
                dec_reset_obj(v@) == (match dec_counter_list(w@) {
                    Some(xs) => Some(ResetObjectM::Counters(xs)),
                    None => None::<ResetObjectM>,
                }),
                forall|k: int|
                    0 <= k < i ==> (#[trigger] crate::codec::dec_counter_obj(s[k])) == Some(
                        crate::codec::counter_obj_m(out@[k]),
                    ),
            decreases items@.len() - i,
        {
            proof {
                assert(s[i as int] == json_m(items@[i as int]));
            }
            match crate::codec::decode_counter_obj(&items[i]) {
                Ok(c) => {
                    out.push(c);
                },
                Err(e) => {
                    proof {
                        assert(crate::codec::dec_counter_obj(s[i as int]) is None);
                        assert(dec_counter_list(w@) is None);
                    }
                    return Err(e.in_index(i).in_key("counters"));
                },
            }
            i += 1;
        }
        proof {
            assert(dec_counter_list(json_m(*w)) == Some(
                Seq::new(out@.len(), |k: int| crate::codec::counter_obj_m(out@[k])),
            )) by {
                assert(Seq::new(s.len(), |k: int| crate::codec::dec_counter_obj(s[k])->0) =~=
                    Seq::new(out@.len(), |k: int| crate::codec::counter_obj_m(out@[k])));
            }
            assert(reset_obj_m(ResetObject::Counters(out)) == ResetObjectM::Counters(
                Seq::new(out@.len(), |k: int| crate::codec::counter_obj_m(out@[k])),
            ));
        }
        Ok(ResetObject::Counters(out))
    } else if crate::json::str_eq(key.as_str(), "quota") {
        match crate::codec::decode_quota_obj(w) {
            Ok(x) => Ok(ResetObject::Quota(x)),
            Err(e) => Err(e.in_key("quota")),
        }
    } else if crate::json::str_eq(key.as_str(), "quotas") {
        let items = match w {
            Json::Arr(items) => items,
            _ => {
                return Err(DecodeError::at_key("quotas", "expected an array"));
            },
        };
        proof {
            crate::json::lemma_arr_m_at(*items, 0);
            assert(crate::json::arr_m_at(*items, 0) =~= crate::codec::jsons_m(items@));
        }
        let ghost s = crate::codec::jsons_m(items@);
        let mut out: Vec<Quota> = Vec::new();
        let mut i: usize = 0;
        while i < items.len()
            invariant
                0 <= i <= items@.len(),
                s == crate::codec::jsons_m(items@),
                s.len() == items@.len(),
                w@ == JsonM::Arr(s),
                out@.len() == i,
                dec_reset_obj(v@) == (match dec_quota_list(w@) {
                    Some(xs) => Some(ResetObjectM::Quotas(xs)),
                    None => None::<ResetObjectM>,
                }),
                forall|k: int|
                    0 <= k < i ==> (#[trigger] crate::codec::dec_quota_obj(s[k])) == Some(
                        crate::codec::quota_obj_m(out@[k]),
                    ),
            decreases items@.len() - i,
        {
            proof {
                assert(s[i as int] == json_m(items@[i as int]));
            }
            match crate::codec::decode_quota_obj(&items[i]) {
                Ok(c) => {
                    out.push(c);
                },
                Err(e) => {
                    proof {
                        assert(crate::codec::dec_quota_obj(s[i as int]) is None);
                        assert(dec_quota_list(w@) is None);
                    }
                    return Err(e.in_index(i).in_key("quotas"));
                },
            }
            i += 1;
        }
        proof {
            assert(dec_quota_list(json_m(*w)) == Some(
                Seq::new(out@.len(), |k: int| crate::codec::quota_obj_m(out@[k])),
            )) by {
                assert(Seq::new(s.len(), |k: int| crate::codec::dec_quota_obj(s[k])->0) =~=
                    Seq::new(out@.len(), |k: int| crate::codec::quota_obj_m(out@[k])));
            }
            assert(reset_obj_m(ResetObject::Quotas(out)) == ResetObjectM::Quotas(
                Seq::new(out@.len(), |k: int| crate::codec::quota_obj_m(out@[k])),
            ));
        }
        Ok(ResetObject::Quotas(out))
    } else {
        Err(DecodeError::here("unrecognized reset target"))
    }
}

/// Decodes a flush target.
pub fn decode_flush_obj(v: &Json) -> (r: Result<FlushObject, DecodeError>)
    ensures
        r matches Ok(t) ==> dec_flush_obj(v@) == Some(flush_obj_m(t)),
        r is Err ==> dec_flush_obj(v@) is None,
{
    proof {
        reveal(dec_flush_obj);
    }
    let entries = crate::codec::get_entries(v)?;
    if entries.len() != 1 {
        return Err(DecodeError::here("expected a single-property object"));
    }
    proof {
        assert(crate::json::entries_m(entries@)[0] == (entries@[0].0@, json_m(entries@[0].1)));
    }
    let key = &entries[0].0;
    let w = &entries[0].1;
    if crate::json::str_eq(key.as_str(), "table") {
        match crate::codec::decode_table(w) {
            Ok(x) => Ok(FlushObject::Table(x)),
            Err(e) => Err(e.in_key("table")),
        }
    } else if crate::json::str_eq(key.as_str(), "chain") {
        match crate::codec::decode_chain(w) {
            Ok(x) => Ok(FlushObject::Chain(x)),
            Err(e) => Err(e.in_key("chain")),
        }
    } else if crate::json::str_eq(key.as_str(), "set") {
        match decode_set_object(w) {
            Ok(x) => Ok(FlushObject::SetObj(Box::new(x))),
            Err(e) => Err(e.in_key("set")),
        }
    } else if crate::json::str_eq(key.as_str(), "map") {
        match decode_map_object(w) {
            Ok(x) => Ok(FlushObject::MapObj(Box::new(x))),
            Err(e) => Err(e.in_key("map")),
        }
    } else if crate::json::str_eq(key.as_str(), "meter") {
        match decode_meter_obj(w) {
            Ok(x) => Ok(FlushObject::Meter(x)),
            Err(e) => Err(e.in_key("meter")),
        }
    } else if crate::json::str_eq(key.as_str(), "ruleset") {
        match crate::codec::decode_unit_payload(w) {
            Ok(p) => Ok(
                FlushObject::Ruleset(
                    if p {
                        Some(Ruleset {  })
                    } else {
                        None
                    },
                ),
            ),
            Err(e) => Err(e.in_key("ruleset")),
        }
    } else {
        Err(DecodeError::here("unrecognized flush target"))
    }
}

/// Decodes a document item.
pub fn decode_obj(j: &Json) -> (r: Result<NfObject, DecodeError>)
    ensures
        r matches Ok(t) ==> dec_obj(j@) == Some(obj_m(t)),
        r is Err ==> dec_obj(j@) is None,
{
    proof {
        reveal(dec_obj);
    }
    let entries = crate::codec::get_entries(j)?;
    if entries.len() != 1 {
        return Err(DecodeError::here("expected a single-property object"));
    }
    proof {
        assert(crate::json::entries_m(entries@)[0] == (entries@[0].0@, json_m(entries@[0].1)));
    }
    let key = &entries[0].0;
    let v = &entries[0].1;
    let cmd_key = crate::json::str_eq(key.as_str(), "add") || crate::json::str_eq(
        key.as_str(),
        "replace",
    ) || crate::json::str_eq(key.as_str(), "create") || crate::json::str_eq(
        key.as_str(),
        "insert",
    ) || crate::json::str_eq(key.as_str(), "delete") || crate::json::str_eq(
        key.as_str(),
        "list",
    ) || crate::json::str_eq(key.as_str(), "reset") || crate::json::str_eq(
        key.as_str(),
        "flush",
    ) || crate::json::str_eq(key.as_str(), "rename");
    if cmd_key {
        match decode_cmd_kv(key, v) {
            Ok(c) => Ok(NfObject::CmdObject(c)),
            Err(e) => Err(e),
        }
    } else {
        match decode_list_obj_kv(key, v) {
            Ok(l) => Ok(NfObject::ListObject(l)),
            Err(e) => Err(e),
        }
    }
}

/// Encodes a whole document.
pub fn encode_nftables(t: &Nftables) -> (r: Json)
    ensures
        r@ == enc_doc(doc_m(*t)),
{
    let mut out: Vec<Json> = Vec::new();
    let mut i: usize = 0;
    while i < t.objects.len()
        invariant
            0 <= i <= t.objects@.len(),
            out@.len() == i,
            forall|k: int| 0 <= k < i ==> json_m(out@[k]) == enc_obj(obj_m(t.objects@[k])),
        decreases t.objects@.len() - i,
    {
        out.push(encode_obj_item(&t.objects[i]));
        i += 1;
    }
    let arr = crate::codec::finish_arr(out);
    proof {
        assert(arr@->Arr_0 =~= Seq::new(
            doc_m(*t).objects.len(),
            |k: int| enc_obj(doc_m(*t).objects[k]),
        ));
    }
    crate::codec::single_obj("nftables", arr)
}

/// Encodes a document item.
pub fn encode_obj_item(t: &NfObject) -> (r: Json)
    ensures
        r@ == enc_obj(obj_m(*t)),
{
    match t {
        NfObject::CmdObject(c) => encode_cmd(c),
        NfObject::ListObject(l) => encode_list_obj(l),
    }
}

/// Decodes a whole document.
#[verifier::rlimit(100)]
#[verifier::spinoff_prover]
pub fn decode_nftables(j: &Json) -> (r: Result<Nftables, DecodeError>)
    ensures
        r matches Ok(t) ==> dec_doc(j@) == Some(doc_m(t)),
        r is Err ==> dec_doc(j@) is None,
{
    let entries = crate::codec::get_entries(j)?;
    if entries.len() != 1 {
        return Err(DecodeError::here("expected a single-property object"));
    }
    proof {
        assert(crate::json::entries_m(entries@)[0] == (entries@[0].0@, json_m(entries@[0].1)));
    }
    if !crate::json::str_eq(entries[0].0.as_str(), "nftables") {
        return Err(DecodeError::here("expected the nftables property"));
    }
    let items = match &entries[0].1 {
        Json::Arr(items) => items,
        _ => {
            return Err(DecodeError::at_key("nftables", "expected an array"));
        },
    };
    proof {
        crate::json::lemma_arr_m_at(*items, 0);
        assert(crate::json::arr_m_at(*items, 0) =~= crate::codec::jsons_m(items@));
    }
    let ghost s = crate::codec::jsons_m(items@);
    let mut out: Vec<NfObject> = Vec::new();
    let mut i: usize = 0;
    while i < items.len()
        invariant
            0 <= i <= items@.len(),
            s == crate::codec::jsons_m(items@),
            s.len() == items@.len(),
            j@ is Obj && j@->Obj_0.len() == 1 && j@->Obj_0[0].0 == "nftables"@ && j@->Obj_0[0].1
                == JsonM::Arr(s),
            out@.len() == i,
            forall|k: int| 0 <= k < i ==> (#[trigger] dec_obj(s[k])) == Some(obj_m(out@[k])),
        decreases items@.len() - i,
    {
        proof {
            assert(s[i as int] == json_m(items@[i as int]));
        }
        match decode_obj(&items[i]) {
            Ok(o) => {
                out.push(o);
            },
            Err(e) => {
                proof {
                    assert(dec_obj(s[i as int]) is None);
                }
                return Err(e.in_index(i).in_key("nftables"));
            },
        }
        i += 1;
    }
    proof {
        assert(dec_doc(json_m(*j)) == Some(doc_m(Nftables { objects: out }))) by {
            assert(Seq::new(s.len(), |k: int| dec_obj(s[k])->0) =~= Seq::new(
                out@.len(),
                |k: int| obj_m(out@[k]),
            ));
        }
    }
    Ok(Nftables { objects: out })
}

} // verus!
