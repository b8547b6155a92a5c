use nftables::batch::Batch;
use nftables::helper::{apply_ruleset_raw, get_current_ruleset_raw, ExecOutcome, NftablesError};
use nftables::schema::{FlushObject, NfCmd, NfListObject, NfObject, Table};
use nftables::types::NfFamily;

#[test]
fn test_boundary_failure_preserves_streams() {
    // The external process exits with status 1 and nonempty stderr;
    // the failure report carries that exact stderr text and an
    // operation hint, and nothing is retried.
    let outcome = ExecOutcome::Finished {
        ok: false,
        stdout: "partial".to_string(),
        stderr: "Error: No such file or directory".to_string(),
    };
    match apply_ruleset_raw("nft".to_string(), outcome) {
        Err(NftablesError::NftFailed { program, hint, stdout, stderr }) => {
            assert_eq!(program, "nft".to_string());
            assert_eq!(hint, "applying ruleset".to_string());
            assert_eq!(stdout, "partial".to_string());
            assert_eq!(stderr, "Error: No such file or directory".to_string());
        },
        _ => panic!("expected a failure report"),
    }
}

#[test]
fn test_boundary_launch_failure() {
    let outcome = ExecOutcome::LaunchFailed { msg: "no such binary".to_string() };
    match get_current_ruleset_raw("/dev/null/nft".to_string(), outcome) {
        Err(NftablesError::NftExecution { program, msg }) => {
            assert_eq!(program, "/dev/null/nft".to_string());
            assert_eq!(msg, "no such binary".to_string());
        },
        _ => panic!("expected a launch failure"),
    }
}

#[test]
fn test_boundary_success_returns_stdout() {
    let outcome = ExecOutcome::Finished {
        ok: true,
        stdout: "{\"nftables\":[]}".to_string(),
        stderr: String::new(),
    };
    let out = get_current_ruleset_raw("nft".to_string(), outcome).unwrap();
    assert_eq!(out, "{\"nftables\":[]}".to_string());
}

#[test]
fn test_batch_ordering() {
    // Appending items A then B then C and finalizing yields a document
    // whose items are exactly [A, B, C].
    let mut batch = Batch::new();
    batch.add(NfListObject::Table(Table {
        family: NfFamily::IP,
        name: "a".to_string(),
        handle: None,
    }));
    batch.delete(NfListObject::Table(Table {
        family: NfFamily::IP6,
        name: "b".to_string(),
        handle: None,
    }));
    batch.add_cmd(NfCmd::Flush(FlushObject::Ruleset(None)));
    let doc = batch.to_nftables();
    assert_eq!(doc.objects.len(), 3);
    match &doc.objects[0] {
        NfObject::CmdObject(NfCmd::Add(NfListObject::Table(t))) => {
            assert_eq!(t.name, "a".to_string())
        },
        _ => panic!("first item is not the add command"),
    }
    match &doc.objects[1] {
        NfObject::CmdObject(NfCmd::Delete(NfListObject::Table(t))) => {
            assert_eq!(t.name, "b".to_string())
        },
        _ => panic!("second item is not the delete command"),
    }
    match &doc.objects[2] {
        NfObject::CmdObject(NfCmd::Flush(FlushObject::Ruleset(None))) => {},
        _ => panic!("third item is not the flush command"),
    }
    let text = nftables::text::render_json(&nftables::doc::encode_nftables(&doc));
    let expected = r#"{"nftables":[{"add":{"table":{"family":"ip","name":"a"}}},{"delete":{"table":{"family":"ip6","name":"b"}}},{"flush":{"ruleset":null}}]}"#;
    assert_eq!(text, expected.to_string());
}

#[test]
fn test_get_current_ruleset_decodes_reply() {
    // A successful engine run hands back the decoded document.
    let outcome = ExecOutcome::Finished {
        ok: true,
        stdout: r#"{"nftables":[{"table":{"family":"ip","name":"filter"}}]}"#.to_string(),
        stderr: String::new(),
    };
    let doc = nftables::helper::get_current_ruleset("nft".to_string(), outcome).unwrap();
    assert_eq!(doc.objects.len(), 1);
    match &doc.objects[0] {
        NfObject::ListObject(NfListObject::Table(t)) => {
            assert_eq!(t.family, NfFamily::IP);
            assert_eq!(t.name, "filter".to_string());
        },
        _ => panic!("expected a bare table element"),
    }
    // Invalid JSON in the reply is an invalid-json error.
    let bad = ExecOutcome::Finished {
        ok: true,
        stdout: "{\"nftables\":".to_string(),
        stderr: String::new(),
    };
    match nftables::helper::get_current_ruleset("nft".to_string(), bad) {
        Err(NftablesError::NftInvalidJson { .. }) => {},
        _ => panic!("expected an invalid-json error"),
    }
}
