use nftables::doc::{decode_nftables, encode_nftables, encode_list_obj};
use nftables::codec::encode_stmt;
use nftables::expr::{Expression, Meta, MetaKey, NamedExpression, Payload, PayloadBase, PayloadField, PayloadRaw};
use nftables::json::Json;
use nftables::schema::{Chain, NfCmd, NfListObject, NfObject, Nftables, Rule, Table};
use nftables::stmt::{Counter, Match, Operator, Queue, Statement};
use nftables::text::render_json;
use nftables::types::{NfChainPolicy, NfChainType, NfFamily, NfHook};

fn s(x: &str) -> Json {
    Json::Str(x.to_string())
}

fn n(x: i64) -> Json {
    Json::Num(x)
}

fn a(items: Vec<Json>) -> Json {
    Json::Arr(items)
}

fn o(pairs: Vec<(&str, Json)>) -> Json {
    Json::Obj(pairs.into_iter().map(|(k, v)| (k.to_string(), v)).collect())
}

fn doc_text(d: &Nftables) -> String {
    render_json(&encode_nftables(d))
}

#[test]
fn test_chain_table_rule_inet() {
    let expected: Nftables = Nftables {
        objects: vec![
            NfObject::CmdObject(NfCmd::Add(NfListObject::Table(Table {
                family: NfFamily::INet,
                name: "some_inet_table".to_string(),
                handle: None,
            }))),
            NfObject::CmdObject(NfCmd::Add(NfListObject::Chain(Chain {
                family: NfFamily::INet,
                table: "some_inet_table".to_string(),
                name: "some_inet_chain".to_string(),
                newname: None,
                handle: None,
                _type: Some(NfChainType::Filter),
                hook: Some(NfHook::Forward),
                prio: None,
                dev: None,
                policy: Some(NfChainPolicy::Accept),
            }))),
        ],
    };
    let json = o(vec![("nftables", a(vec![
        o(vec![("add", o(vec![("table", o(vec![
            ("family", s("inet")),
            ("name", s("some_inet_table")),
        ]))]))]),
        o(vec![("add", o(vec![("chain", o(vec![
            ("family", s("inet")),
            ("table", s("some_inet_table")),
            ("name", s("some_inet_chain")),
            ("type", s("filter")),
            ("hook", s("forward")),
            ("policy", s("accept")),
        ]))]))]),
    ]))]);
    let parsed = decode_nftables(&json).unwrap();
    assert_eq!(doc_text(&parsed), doc_text(&expected));
}

#[test]
fn test_insert() {
    let expected: Nftables = Nftables {
        objects: vec![NfObject::CmdObject(NfCmd::Insert(NfListObject::Rule(Rule {
            family: NfFamily::INet,
            table: "some_inet_table".to_string(),
            chain: "some_inet_chain".to_string(),
            expr: vec![
                Statement::Match(Match {
                    left: Expression::Named(NamedExpression::Meta(Meta {
                        key: MetaKey::Iifname,
                    })),
                    right: Expression::String("br-lan".to_string()),
                    op: Operator::EQ,
                }),
                Statement::Match(Match {
                    left: Expression::Named(NamedExpression::Meta(Meta {
                        key: MetaKey::Oifname,
                    })),
                    right: Expression::String("wg_exit".to_string()),
                    op: Operator::EQ,
                }),
                Statement::Counter(Counter::Anonymous(None)),
                Statement::Accept(None),
            ],
            handle: None,
            index: Some(0),
            comment: None,
        })))],
    };
    let json = o(vec![("nftables", a(vec![o(vec![("insert", o(vec![("rule", o(vec![
        ("family", s("inet")),
        ("table", s("some_inet_table")),
        ("chain", s("some_inet_chain")),
        ("expr", a(vec![
            o(vec![("match", o(vec![
                ("left", o(vec![("meta", o(vec![("key", s("iifname"))]))])),
                ("right", s("br-lan")),
                ("op", s("==")),
            ]))]),
            o(vec![("match", o(vec![
                ("left", o(vec![("meta", o(vec![("key", s("oifname"))]))])),
                ("right", s("wg_exit")),
                ("op", s("==")),
            ]))]),
            o(vec![("counter", Json::Null)]),
            o(vec![("accept", Json::Null)]),
        ])),
        ("index", n(0)),
        ("comment", Json::Null),
    ]))]))])]))]);
    let parsed = decode_nftables(&json).unwrap();
    assert_eq!(doc_text(&parsed), doc_text(&expected));
}

#[test]
fn test_parsing_of_queue_without_flags() {
    let expected = Nftables {
        objects: vec![NfObject::ListObject(NfListObject::Rule(Rule {
            family: NfFamily::IP,
            table: "test_table".to_string(),
            chain: "test_chain".to_string(),
            expr: vec![
                Statement::Match(Match {
                    left: Expression::Named(NamedExpression::Payload(Payload::PayloadField(
                        PayloadField {
                            protocol: "udp".to_string(),
                            field: "dport".to_string(),
                        },
                    ))),
                    right: Expression::Number(20000),
                    op: Operator::EQ,
                }),
                Statement::Queue(Queue { num: Expression::Number(0), flags: None }),
            ],
            handle: Some(2),
            index: None,
            comment: None,
        }))],
    };
    let json = o(vec![("nftables", a(vec![o(vec![("rule", o(vec![
        ("family", s("ip")),
        ("table", s("test_table")),
        ("chain", s("test_chain")),
        ("handle", n(2)),
        ("expr", a(vec![
            o(vec![("match", o(vec![
                ("op", s("==")),
                ("left", o(vec![("payload", o(vec![
                    ("protocol", s("udp")),
                    ("field", s("dport")),
                ]))])),
                ("right", n(20000)),
            ]))]),
            o(vec![("queue", o(vec![("num", n(0))]))]),
        ])),
    ]))])]))]);
    let parsed = decode_nftables(&json).unwrap();
    // The second statement's optional flags field is absent, and
    // re-encoding omits it entirely rather than writing null.
    match &parsed.objects[0] {
        NfObject::ListObject(NfListObject::Rule(r)) => match &r.expr[1] {
            Statement::Queue(q) => assert!(q.flags.is_none()),
            _ => panic!("expected a queue statement"),
        },
        _ => panic!("expected a rule"),
    }
    let text = doc_text(&parsed);
    assert!(!text.contains("flags"));
    assert_eq!(text, doc_text(&expected));
}

#[test]
fn test_queue_json_serialisation() {
    let queue = Statement::Queue(Queue { num: Expression::Number(0), flags: None });
    let expected_json = String::from(r#"{"queue":{"num":0}}"#);
    assert_eq!(expected_json, render_json(&encode_stmt(&queue)));
}

#[test]
fn test_parse_payload() {
    let expected = Nftables {
        objects: vec![NfObject::ListObject(NfListObject::Rule(Rule {
            family: NfFamily::IP,
            table: "test_table".to_string(),
            chain: "test_chain".to_string(),
            expr: vec![
                Statement::Match(Match {
                    left: Expression::Named(NamedExpression::Payload(Payload::PayloadField(
                        PayloadField {
                            protocol: "udp".to_string(),
                            field: "dport".to_string(),
                        },
                    ))),
                    right: Expression::Number(20000),
                    op: Operator::EQ,
                }),
                Statement::Match(Match {
                    left: Expression::Named(NamedExpression::Payload(Payload::PayloadRaw(
                        PayloadRaw { base: PayloadBase::TH, offset: 10, len: 4 },
                    ))),
                    right: Expression::Number(20),
                    op: Operator::EQ,
                }),
            ],
            handle: Some(2),
            index: None,
            comment: None,
        }))],
    };
    let json = o(vec![("nftables", a(vec![o(vec![("rule", o(vec![
        ("family", s("ip")),
        ("table", s("test_table")),
        ("chain", s("test_chain")),
        ("handle", n(2)),
        ("expr", a(vec![
            o(vec![("match", o(vec![
                ("op", s("==")),
                ("left", o(vec![("payload", o(vec![
                    ("protocol", s("udp")),
                    ("field", s("dport")),
                ]))])),
                ("right", n(20000)),
            ]))]),
            o(vec![("match", o(vec![
                ("op", s("==")),
                ("left", o(vec![("payload", o(vec![
                    ("base", s("th")),
                    ("offset", n(10)),
                    ("len", n(4)),
                ]))])),
                ("right", n(20)),
            ]))]),
        ])),
    ]))])]))]);
    let parsed = decode_nftables(&json).unwrap();
    assert_eq!(doc_text(&parsed), doc_text(&expected));
}

#[test]
fn test_add_command_bytes() {
    // Encoding an add-command for `table ip filter` gives exactly this
    // wire text, and decoding it reproduces the command.
    let d = Nftables {
        objects: vec![NfObject::CmdObject(NfCmd::Add(NfListObject::Table(Table {
            family: NfFamily::IP,
            name: "filter".to_string(),
            handle: None,
        })))],
    };
    let text = doc_text(&d);
    assert_eq!(text, r#"{"nftables":[{"add":{"table":{"family":"ip","name":"filter"}}}]}"#);
    let json = o(vec![("nftables", a(vec![o(vec![("add", o(vec![("table", o(vec![
        ("family", s("ip")),
        ("name", s("filter")),
    ]))]))])]))]);
    let parsed = decode_nftables(&json).unwrap();
    assert_eq!(doc_text(&parsed), text);
}

#[test]
fn test_dispatch_exclusivity() {
    // Zero or two recognized properties fail; exactly one succeeds.
    let two = o(vec![("nftables", a(vec![o(vec![
        ("add", o(vec![("table", o(vec![("family", s("ip")), ("name", s("t"))]))])),
        ("delete", o(vec![("table", o(vec![("family", s("ip")), ("name", s("t"))]))])),
    ])]))]);
    assert!(decode_nftables(&two).is_err());
    let zero = o(vec![("nftables", a(vec![o(vec![])]))]);
    assert!(decode_nftables(&zero).is_err());
    let unknown = o(vec![("nftables", a(vec![o(vec![("frobnicate", Json::Null)])]))]);
    assert!(decode_nftables(&unknown).is_err());
    let one = o(vec![("nftables", a(vec![o(vec![
        ("add", o(vec![("table", o(vec![("family", s("ip")), ("name", s("t"))]))])),
    ])]))]);
    assert!(decode_nftables(&one).is_ok());
}

#[test]
fn test_range_arity() {
    // A range with one or three elements fails; with exactly two it
    // succeeds.
    let wrap = |range: Json| {
        o(vec![("nftables", a(vec![o(vec![("rule", o(vec![
            ("family", s("ip")),
            ("table", s("t")),
            ("chain", s("c")),
            ("expr", a(vec![o(vec![("match", o(vec![
                ("left", range),
                ("right", n(5)),
                ("op", s("==")),
            ]))])])),
        ]))])]))])
    };
    let one = wrap(o(vec![("range", a(vec![n(1)]))]));
    assert!(decode_nftables(&one).is_err());
    let three = wrap(o(vec![("range", a(vec![n(1), n(2), n(3)]))]));
    assert!(decode_nftables(&three).is_err());
    let two = wrap(o(vec![("range", a(vec![n(1), n(2)]))]));
    assert!(decode_nftables(&two).is_ok());
}

#[test]
fn test_flowtable() {
    // A device list given as a bare string, as null, or as a
    // one-element array always decodes to the same collection, and
    // re-encoding always emits the array-or-absent shape.
    let wrap = |dev: Json| {
        o(vec![("nftables", a(vec![o(vec![("flowtable", o(vec![
            ("family", s("inet")),
            ("table", s("some_inet_table")),
            ("name", s("flowed")),
            ("hook", s("ingress")),
            ("prio", n(0)),
            ("dev", dev),
        ]))])]))])
    };
    let from_str = decode_nftables(&wrap(s("lo"))).unwrap();
    let from_arr = decode_nftables(&wrap(a(vec![s("lo")]))).unwrap();
    assert_eq!(doc_text(&from_str), doc_text(&from_arr));
    assert!(doc_text(&from_str).contains(r#""dev":["lo"]"#));
    let from_null = decode_nftables(&wrap(Json::Null)).unwrap();
    let from_empty = decode_nftables(&wrap(a(vec![]))).unwrap();
    assert_eq!(doc_text(&from_null), doc_text(&from_empty));
    assert!(!doc_text(&from_null).contains("dev"));
}

#[test]
fn test_path_precision() {
    // A corrupted leaf deep inside a rule is reported with the full
    // path of keys and indexes down to it.
    let json = o(vec![("nftables", a(vec![o(vec![("rule", o(vec![
        ("family", s("ip")),
        ("table", s("t")),
        ("chain", s("c")),
        ("expr", a(vec![o(vec![("match", o(vec![
            ("left", o(vec![("meta", o(vec![("key", s("nonsense"))]))])),
            ("right", n(5)),
            ("op", s("==")),
        ]))])])),
    ]))])]))]);
    let err = decode_nftables(&json).unwrap_err();
    let path = err.path;
    let names: Vec<String> = path
        .iter()
        .map(|seg| match seg {
            nftables::codec::PathSeg::Key(k) => k.clone(),
            nftables::codec::PathSeg::Index(i) => format!("{}", i),
        })
        .collect();
    assert_eq!(names, vec!["nftables", "0", "rule", "expr", "0", "match", "left", "meta", "key"]);
}

#[test]
fn test_list_object_kinds() {
    let obj = NfListObject::Table(Table {
        family: NfFamily::ARP,
        name: "lowlevel".to_string(),
        handle: Some(7),
    });
    assert_eq!(
        render_json(&encode_list_obj(&obj)),
        r#"{"table":{"family":"arp","name":"lowlevel","handle":7}}"#
    );
}

#[test]
fn test_parse_json_text() {
    // The byte-exact add-table text parses back to the same tree, so
    // the command round-trips through the wire bytes.
    let text = r#"{"nftables":[{"add":{"table":{"family":"ip","name":"filter"}}}]}"#;
    let tree = nftables::parse::parse_json(text).unwrap();
    let parsed = decode_nftables(&tree).unwrap();
    assert_eq!(doc_text(&parsed), text);

    // Whitespace, escapes, negative numbers and booleans are accepted.
    let fancy = " { \"a\" : [ 1 , -20 , true , null , \"x\\n\\\"y\\\"\" ] } ";
    let t2 = nftables::parse::parse_json(fancy).unwrap();
    assert_eq!(render_json(&t2), "{\"a\":[1,-20,true,null,\"x\\n\\\"y\\\"\"]}");

    // Malformed text is rejected.
    assert!(nftables::parse::parse_json("{\"a\":").is_err());
    assert!(nftables::parse::parse_json("[1,]").is_err());
    assert!(nftables::parse::parse_json("01").is_err());
    assert!(nftables::parse::parse_json("{} {}").is_err());
}

#[test]
fn test_log_flags_one_vocabulary() {
    // The flags field accepts the same wire tokens whether given as a
    // bare string or as an array.
    let wrap = |flags: Json| {
        o(vec![("nftables", a(vec![o(vec![("rule", o(vec![
            ("family", s("ip")),
            ("table", s("t")),
            ("chain", s("c")),
            ("expr", a(vec![o(vec![("log", o(vec![("flags", flags)]))])])),
        ]))])]))])
    };
    let bare = decode_nftables(&wrap(s("tcp sequence"))).unwrap();
    let arr = decode_nftables(&wrap(a(vec![s("tcp sequence")]))).unwrap();
    assert_eq!(doc_text(&bare), doc_text(&arr));
    assert!(doc_text(&bare).contains(r#""flags":["tcp sequence"]"#));
    assert!(decode_nftables(&wrap(s("tcpsequence"))).is_err());
    // An empty flag list is a flexible field: it encodes as absent.
    let empty = decode_nftables(&wrap(a(vec![]))).unwrap();
    assert!(!doc_text(&empty).contains("flags"));
}

#[test]
fn test_notrack_single_key_object() {
    // Every statement is a single-key dispatch object; notrack carries
    // a null payload.
    let st = Statement::Notrack;
    assert_eq!(render_json(&encode_stmt(&st)), r#"{"notrack":null}"#);
    let json = o(vec![("nftables", a(vec![o(vec![("rule", o(vec![
        ("family", s("ip")),
        ("table", s("t")),
        ("chain", s("c")),
        ("expr", a(vec![o(vec![("notrack", Json::Null)])])),
    ]))])]))]);
    let parsed = decode_nftables(&json).unwrap();
    match &parsed.objects[0] {
        NfObject::ListObject(NfListObject::Rule(r)) => {
            assert!(matches!(r.expr[0], Statement::Notrack));
        },
        _ => panic!("expected a rule"),
    }
}

#[test]
fn test_absent_fields_omitted() {
    // Absent optional fields are omitted entirely, never written as
    // null: a flow table without a priority, a counter without bytes,
    // a limit without inv.
    let ft = nftables::schema::FlowTable {
        family: NfFamily::INet,
        table: "t".to_string(),
        name: "f".to_string(),
        handle: None,
        hook: None,
        prio: None,
        dev: None,
    };
    let text = render_json(&nftables::doc::encode_flow_table(&ft));
    assert_eq!(text, r#"{"family":"inet","table":"t","name":"f"}"#);
    let c = nftables::schema::Counter {
        family: NfFamily::IP,
        table: "t".to_string(),
        name: "c".to_string(),
        handle: None,
        packets: None,
        bytes: None,
    };
    let text = render_json(&nftables::codec::encode_counter_obj(&c));
    assert!(!text.contains("null"));
    let l = nftables::schema::Limit {
        family: NfFamily::IP,
        table: "t".to_string(),
        name: "l".to_string(),
        handle: None,
        rate: Some(5),
        per: None,
        burst: None,
        unit: None,
        inv: None,
    };
    let text = render_json(&nftables::codec::encode_limit_obj(&l));
    assert_eq!(text, r#"{"family":"ip","table":"t","name":"l","rate":5}"#);
}

#[test]
fn test_string_escapes() {
    // The printer escapes every control character; the parser accepts
    // the named escapes and basic-plane unicode escapes.
    let t = Json::Str("a\u{1}b\u{8}c".to_string());
    assert_eq!(render_json(&t), "\"a\\u0001b\\bc\"");
    let parsed = nftables::parse::parse_json("\"\\u0041\\u00e9\\b\\f\\/\"").unwrap();
    match parsed {
        Json::Str(sv) => assert_eq!(sv, "A\u{e9}\u{8}\u{c}/".to_string()),
        _ => panic!("expected a string"),
    }
    // A lone surrogate escape is rejected.
    assert!(nftables::parse::parse_json("\"\\ud800\"").is_err());
}
