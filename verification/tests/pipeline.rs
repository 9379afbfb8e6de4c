use arx::compile::{compile, extract_target, script, Run};
use arx::manifest::{Cmd, Code, Manifest};
use arx::parser::{load, manifest_of, Node, ParseError};
use arx::sources::{Cache, ExtractAction, PrepareAction, Source};

fn load_manifest(text: &str) -> Manifest {
    let doc = load(text).expect("manifest should load");
    manifest_of(&doc).expect("manifest should validate")
}

#[test]
fn empty_manifest_is_a_trivial_success() {
    let m = load_manifest("code: []\ndata: []\n");
    assert_eq!(m.code.len(), 0);
    assert_eq!(m.data.len(), 0);
    let s = script(&m);
    assert_eq!(s, "#!/bin/sh\n");
    let plan = compile(&m);
    let run = Run::new(plan.argvs);
    assert!(run.next_command().is_none());
    assert_eq!(run.outcome(), Some(0));
}

#[test]
fn absent_sections_default_to_empty() {
    let m = load_manifest("label_like_key_is_ignored: x\n");
    assert_eq!(m.code.len(), 0);
    assert_eq!(m.data.len(), 0);
    assert_eq!(script(&m), "#!/bin/sh\n");
}

#[test]
fn mixed_manifest_extracts_then_runs() {
    // {data: ["a", {"b": "dest/b"}], code: ["echo hi"]}
    let m = load_manifest("data:\n  - a\n  - b: dest/b\ncode:\n  - echo hi\n");
    assert_eq!(m.data.len(), 2);
    assert_eq!(m.code.len(), 1);

    let plan = compile(&m);
    let workdir = "/tmp/run";

    // First entry has no destination: it targets the working directory.
    let d0 = &plan.data[0];
    assert!(d0.destination.is_none());
    assert_eq!(extract_target(&d0.destination, workdir), "/tmp/run");
    match d0.source.extract(&extract_target(&d0.destination, workdir)) {
        ExtractAction::Unpack { dir, key, target } => {
            assert_eq!(dir.as_deref(), Some("/tmp"));
            assert_eq!(key, "a");
            assert_eq!(target, "/tmp/run");
        },
        _ => panic!("a bare data entry is link-addressed"),
    }

    // Second entry targets exactly its destination.
    let d1 = &plan.data[1];
    assert_eq!(d1.destination.as_deref(), Some("dest/b"));
    assert_eq!(extract_target(&d1.destination, workdir), "dest/b");

    // Then the one command runs and the whole manifest succeeds.
    assert_eq!(plan.argvs.len(), 1);
    assert_eq!(plan.argvs[0], vec!["echo hi".to_string()]);
    let mut run = Run::new(plan.argvs);
    assert!(run.next_command().is_some());
    run.report(0);
    assert!(run.next_command().is_none());
    assert_eq!(run.outcome(), Some(0));
}

#[test]
fn first_failure_stops_the_run() {
    // {code: ["false", "echo never"]}
    let m = load_manifest("code:\n  - \"false\"\n  - echo never\n");
    let plan = compile(&m);
    assert_eq!(plan.argvs.len(), 2);

    let mut run = Run::new(plan.argvs);
    let first = run.next_command().expect("first entry must be offered");
    assert_eq!(first[0], "false");
    run.report(1);
    // The failing entry stops the run: `echo never` is never offered.
    assert!(run.next_command().is_none());
    assert_eq!(run.outcome(), Some(1));
}

#[test]
fn array_root_is_rejected_before_any_preparation() {
    match load("- a\n- b\n") {
        Err(ParseError::NotADict) => {},
        other => panic!("an array root must be a shape error, got {:?}", other.is_ok()),
    }
}

#[test]
fn empty_text_is_rejected() {
    assert!(matches!(load(""), Err(ParseError::NotADict)));
}

#[test]
fn unscannable_text_is_a_scan_error() {
    assert!(matches!(load("{unclosed"), Err(ParseError::Scan)));
}

#[test]
fn malformed_entries_are_shape_errors() {
    let doc = load("code:\n  - []\n").expect("scans fine");
    assert!(matches!(manifest_of(&doc), Err(ParseError::BadEntry)));
    let doc = load("code: notalist\n").expect("scans fine");
    assert!(matches!(manifest_of(&doc), Err(ParseError::BadEntry)));
    let doc = load("data:\n  - 7\n").expect("scans fine");
    assert!(matches!(manifest_of(&doc), Err(ParseError::BadEntry)));
}

#[test]
fn array_code_entry_carries_its_arguments() {
    let m = load_manifest("code:\n  - [tar, xf, payload.tar]\n");
    assert_eq!(m.code.len(), 1);
    match &m.code[0].cmd {
        Cmd::Word(w) => assert_eq!(w, "tar"),
        _ => panic!("a plain word is not source-backed"),
    }
    assert_eq!(m.code[0].args, vec!["xf".to_string(), "payload.tar".to_string()]);
    let plan = compile(&m);
    assert_eq!(plan.argvs[0], vec!["tar".to_string(), "xf".to_string(), "payload.tar".to_string()]);
}

#[test]
fn url_command_is_resolved_through_its_source() {
    let m = load_manifest("code:\n  - [\"http://example.com/tool\", \"-v\"]\n");
    match &m.code[0].cmd {
        Cmd::Source(Source::Link(l)) => assert_eq!(l.url, "http://example.com/tool"),
        _ => panic!("a URL command word must be link-addressed"),
    }
    let plan = compile(&m);
    assert_eq!(plan.code_sources.len(), 1);
    assert_eq!(plan.code_sources[0].1, "http___example.com_tool");
    assert_eq!(
        plan.argvs[0],
        vec!["./http___example.com_tool".to_string(), "-v".to_string()]
    );
}

#[test]
fn preparing_twice_caches_once() {
    let m = load_manifest("data:\n  - http://example.com/d.tar\n");
    let src = &m.data[0].source;
    let mut cache = Cache::new();
    match src.prepare(&mut cache) {
        PrepareAction::Fetch { url, key } => {
            assert_eq!(url, "http://example.com/d.tar");
            assert_eq!(key, "http___example.com_d.tar");
        },
        PrepareAction::Ready => panic!("a cold cache must fetch"),
    }
    // The second call does not re-fetch, and there is still one artifact.
    assert!(matches!(src.prepare(&mut cache), PrepareAction::Ready));
    assert_eq!(cache.entries.len(), 1);
}

#[test]
fn a_dictionary_document_loads_as_nodes() {
    let doc = load("code:\n  - a\n").expect("loads");
    match &doc {
        Node::Dict(pairs) => {
            assert_eq!(pairs.len(), 1);
            match &pairs[0].0 {
                Node::Scalar(k) => assert_eq!(k, "code"),
                _ => panic!("key must be a scalar"),
            }
            match &pairs[0].1 {
                Node::List(items) => assert_eq!(items.len(), 1),
                _ => panic!("section must be a list"),
            }
        },
        _ => panic!("root must be a dictionary"),
    }
}

#[test]
fn parse_error_descriptions() {
    assert_eq!(ParseError::NotADict.description(), "Root YAML was not a dictionary.");
    assert_eq!(ParseError::BadEntry.description(), "Malformed manifest entry.");
    assert_eq!(ParseError::Scan.description(), "Manifest text could not be scanned.");
}
