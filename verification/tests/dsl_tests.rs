use nftables::schema::{Chain, Table};
use nftables::types::{
    chain_policy_from_wire, chain_type_from_wire, family_from_wire, hook_from_wire, NfChainPolicy,
    NfChainType, NfFamily, NfHook,
};

#[test]
fn test_dsl() {
    // A table written as `table arp lowlevel`.
    let t = Table {
        family: family_from_wire("arp").unwrap(),
        name: "lowlevel".to_string(),
        handle: None,
    };
    assert_eq!(t.family, NfFamily::ARP);
    assert_eq!(t.name, "lowlevel".to_string());
    assert!(t.handle.is_none());

    // A chain written as `chain inet filter foobar`.
    let c = Chain {
        family: family_from_wire("inet").unwrap(),
        table: "filter".to_string(),
        name: "foobar".to_string(),
        newname: None,
        handle: None,
        _type: None,
        hook: None,
        prio: None,
        dev: None,
        policy: None,
    };
    assert_eq!(c.family, NfFamily::INet);
    assert_eq!(c.table, "filter".to_string());
    assert_eq!(c.name, "foobar".to_string());
    assert!(c._type.is_none() && c.hook.is_none() && c.prio.is_none());
    assert!(c.dev.is_none() && c.policy.is_none() && c.newname.is_none() && c.handle.is_none());

    // A chain written as `chain ip foo input { type filter hook input
    // device eth0 priority 300 ; policy accept }`.
    let c2 = Chain {
        family: family_from_wire("ip").unwrap(),
        table: "foo".to_string(),
        name: "input".to_string(),
        newname: None,
        handle: None,
        _type: Some(chain_type_from_wire("filter").unwrap()),
        hook: Some(hook_from_wire("input").unwrap()),
        prio: Some(300),
        dev: Some("eth0".to_string()),
        policy: Some(chain_policy_from_wire("accept").unwrap()),
    };
    assert_eq!(c2.family, NfFamily::IP);
    assert_eq!(c2._type, Some(NfChainType::Filter));
    assert_eq!(c2.hook, Some(NfHook::Input));
    assert_eq!(c2.prio, Some(300));
    assert_eq!(c2.dev, Some("eth0".to_string()));
    assert_eq!(c2.policy, Some(NfChainPolicy::Accept));

    // The same chain with every optional part written as `null`.
    let c3 = Chain {
        family: family_from_wire("ip").unwrap(),
        table: "foo".to_string(),
        name: "input".to_string(),
        newname: None,
        handle: None,
        _type: None,
        hook: None,
        prio: None,
        dev: None,
        policy: None,
    };
    assert_eq!(c3.family, NfFamily::IP);
    assert!(c3._type.is_none() && c3.hook.is_none() && c3.prio.is_none());
    assert!(c3.dev.is_none() && c3.policy.is_none());
}
