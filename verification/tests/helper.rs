use git_remote_opendal::helper::{
    capabilities_lines, determine_head, import_stream, list_lines, local_ref, option_response,
    PushAction, PushRun, Session, SessionAction,
};
use git_remote_opendal::protocol::Command;
use git_remote_opendal::storage::RefsStore;

fn store(refs: &[(&str, &str)], bundles: &[&str]) -> RefsStore {
    let mut s = RefsStore::new();
    for (k, v) in refs {
        s.refs.insert(k.to_string(), v.to_string());
    }
    s.bundles = bundles.iter().map(|b| b.to_string()).collect();
    s
}

fn push(src: &str, dst: &str) -> (String, String) {
    (src.to_string(), dst.to_string())
}

#[test]
fn progress_option_is_unsupported() {
    assert_eq!(option_response("progress"), "unsupported");
}

#[test]
fn verbosity_option_is_supported() {
    assert_eq!(option_response("verbosity"), "ok");
}

#[test]
fn capabilities_advertise_import_push_option_and_refspecs() {
    assert_eq!(
        capabilities_lines(),
        vec![
            "import",
            "push",
            "option",
            "refspec refs/heads/*:refs/heads/*",
            "refspec refs/tags/*:refs/tags/*",
            ""
        ]
    );
}

#[test]
fn head_prefers_main_then_master_then_first() {
    assert_eq!(determine_head(&store(&[], &[])), None);
    let s = store(&[("refs/heads/dev", "1"), ("refs/heads/master", "2")], &[]);
    assert_eq!(determine_head(&s).as_deref(), Some("refs/heads/master"));
    let s = store(&[("refs/heads/master", "2"), ("refs/heads/main", "3")], &[]);
    assert_eq!(determine_head(&s).as_deref(), Some("refs/heads/main"));
    let s = store(&[("refs/tags/v1", "4"), ("refs/heads/dev", "5")], &[]);
    assert_eq!(determine_head(&s).as_deref(), Some("refs/tags/v1"));
}

#[test]
fn list_reports_refs_then_head_then_blank() {
    assert_eq!(list_lines(&store(&[], &[])), vec![""]);
    let s = store(&[("refs/heads/main", "aaa"), ("refs/tags/v1", "bbb")], &["objects/x.bundle"]);
    assert_eq!(
        list_lines(&s),
        vec!["aaa refs/heads/main", "bbb refs/tags/v1", "@refs/heads/main HEAD", ""]
    );
}

#[test]
fn import_stream_resets_known_refs_only() {
    let s = store(&[("refs/heads/main", "aaa")], &["objects/1.bundle"]);
    let wanted = vec!["refs/heads/main".to_string(), "refs/heads/missing".to_string()];
    assert_eq!(
        import_stream(&s, &wanted),
        "feature done\nreset refs/heads/main\nfrom aaa\n\ndone\n"
    );
    let empty = store(&[("refs/heads/main", "aaa")], &[]);
    assert_eq!(import_stream(&empty, &wanted), "feature done\ndone\n");
}

#[test]
fn session_batches_imports_until_blank() {
    let mut s = Session::new();
    assert!(matches!(s.step(Some(Command::Capabilities)), SessionAction::Capabilities));
    assert!(matches!(
        s.step(Some(Command::Import(vec!["refs/heads/a".to_string()]))),
        SessionAction::ReadNext
    ));
    assert!(matches!(
        s.step(Some(Command::Import(vec!["refs/heads/b".to_string()]))),
        SessionAction::ReadNext
    ));
    match s.step(Some(Command::Blank)) {
        SessionAction::Import(refs) => assert_eq!(refs, vec!["refs/heads/a", "refs/heads/b"]),
        other => panic!("unexpected {:?}", other),
    }
    assert!(matches!(s.step(Some(Command::Blank)), SessionAction::ReadNext));
    assert!(matches!(s.step(None), SessionAction::Exit));
}

#[test]
fn session_batches_pushes_and_closes_on_eof() {
    let mut s = Session::new();
    assert!(matches!(s.step(Some(Command::ListForPush)), SessionAction::List { for_push: true }));
    s.step(Some(Command::Push { src: "refs/heads/a".into(), dst: "refs/heads/a".into() }));
    s.step(Some(Command::Push { src: "+refs/heads/b".into(), dst: "refs/heads/c".into() }));
    match s.step(None) {
        SessionAction::Push(p) => assert_eq!(
            p,
            vec![push("refs/heads/a", "refs/heads/a"), push("+refs/heads/b", "refs/heads/c")]
        ),
        other => panic!("unexpected {:?}", other),
    }
    assert!(matches!(s.step(None), SessionAction::Exit));
}

#[test]
fn session_refuses_other_commands_inside_a_batch() {
    let mut s = Session::new();
    s.step(Some(Command::Import(vec!["refs/heads/a".to_string()])));
    assert!(matches!(s.step(Some(Command::List)), SessionAction::UnexpectedInImport(Command::List)));
    let mut s = Session::new();
    s.step(Some(Command::Push { src: "a".into(), dst: "b".into() }));
    assert!(matches!(
        s.step(Some(Command::Import(vec![]))),
        SessionAction::UnexpectedInPush(Command::Import(_))
    ));
    let mut s = Session::new();
    match s.step(Some(Command::Option("verbosity".into(), "1".into()))) {
        SessionAction::Option { key, value, reply } => {
            assert_eq!((key.as_str(), value.as_str(), reply), ("verbosity", "1", "ok"))
        }
        other => panic!("unexpected {:?}", other),
    }
    assert!(matches!(
        s.step(Some(Command::Unknown("fetch".into()))),
        SessionAction::IgnoreUnknown(_)
    ));
}

#[test]
fn local_ref_drops_force_marker() {
    assert_eq!(local_ref("+refs/heads/x"), "refs/heads/x");
    assert_eq!(local_ref("refs/heads/x"), "refs/heads/x");
}

#[test]
fn push_to_new_repository_records_refs_and_bundle() {
    let (mut run, act) = PushRun::start(RefsStore::new(), vec![push("refs/heads/main", "refs/heads/main")]);
    match act {
        PushAction::ResolveRef(r) => assert_eq!(r, "refs/heads/main"),
        other => panic!("unexpected {:?}", other),
    }
    match run.on_resolved("c1".to_string()) {
        PushAction::CreateBundle(args) => assert_eq!(args, vec!["refs/heads/main"]),
        other => panic!("unexpected {:?}", other),
    }
    match run.on_bundle_created("n1") {
        PushAction::Upload(key) => assert_eq!(key, "objects/n1.bundle"),
        other => panic!("unexpected {:?}", other),
    }
    assert!(matches!(run.on_uploaded(), PushAction::SaveRefs));
    assert_eq!(run.store().refs.get("refs/heads/main").unwrap(), "c1");
    assert!(list_lines(run.store()).contains(&"c1 refs/heads/main".to_string()));
    assert_eq!(
        import_stream(run.store(), &vec!["refs/heads/main".to_string()]),
        "feature done\nreset refs/heads/main\nfrom c1\n\ndone\n"
    );
    assert_eq!(run.store().bundles, vec!["objects/n1.bundle"]);
    match run.on_saved() {
        PushAction::Finish(lines) => assert_eq!(lines, vec!["ok refs/heads/main", ""]),
        other => panic!("unexpected {:?}", other),
    }
}

#[test]
fn push_checks_fast_forward_and_rejects_non_ff() {
    let s = store(&[("refs/heads/main", "old"), ("refs/heads/dev", "d0")], &["objects/a.bundle"]);
    let (mut run, _) = PushRun::start(
        s,
        vec![push("refs/heads/main", "refs/heads/main"), push(":", "refs/heads/x")],
    );
    match run.on_resolved("new".to_string()) {
        PushAction::CheckAncestor { old, new } => assert_eq!((old.as_str(), new.as_str()), ("old", "new")),
        other => panic!("unexpected {:?}", other),
    }
    match run.on_ancestry(false) {
        PushAction::Reply(l) => assert_eq!(l, "error refs/heads/main non-fast-forward"),
        other => panic!("unexpected {:?}", other),
    }
    match run.resume() {
        PushAction::ResolveRef(r) => assert_eq!(r, ":"),
        other => panic!("unexpected {:?}", other),
    }
}

#[test]
fn push_deletion_is_refused_and_nothing_is_bundled() {
    let s = store(&[("refs/heads/main", "old")], &["objects/a.bundle"]);
    let (mut run, act) = PushRun::start(s, vec![push("", "refs/heads/main")]);
    match act {
        PushAction::Reply(l) => assert_eq!(l, "error refs/heads/main deletion not supported"),
        other => panic!("unexpected {:?}", other),
    }
    match run.resume() {
        PushAction::Finish(lines) => assert_eq!(lines, vec![""]),
        other => panic!("unexpected {:?}", other),
    }
    assert_eq!(run.store().refs.get("refs/heads/main").unwrap(), "old");
    assert_eq!(run.store().bundles.len(), 1);
}

#[test]
fn forced_push_skips_ancestry_and_bundle_excludes_known_shas() {
    let s = store(&[("refs/heads/main", "old"), ("refs/heads/dev", "d0")], &["objects/a.bundle"]);
    let (mut run, act) = PushRun::start(
        s,
        vec![push("+refs/heads/topic", "refs/heads/main"), push("refs/heads/dev", "refs/heads/dev")],
    );
    assert!(matches!(act, PushAction::ResolveRef(ref r) if r == "refs/heads/topic"));
    assert!(matches!(run.on_resolved("t1".into()), PushAction::ResolveRef(ref r) if r == "refs/heads/dev"));
    assert!(matches!(run.on_resolved("d1".into()), PushAction::CheckAncestor { .. }));
    match run.on_ancestry(true) {
        PushAction::CreateBundle(args) => {
            assert_eq!(args, vec!["refs/heads/topic", "refs/heads/dev", "^old", "^d0"])
        }
        other => panic!("unexpected {:?}", other),
    }
    run.on_bundle_created("n2");
    run.on_uploaded();
    assert_eq!(run.store().refs.get("refs/heads/main").unwrap(), "t1");
    assert_eq!(run.store().refs.get("refs/heads/dev").unwrap(), "d1");
    assert_eq!(run.store().bundles, vec!["objects/a.bundle", "objects/n2.bundle"]);
    match run.on_saved() {
        PushAction::Finish(lines) => {
            assert_eq!(lines, vec!["ok refs/heads/main", "ok refs/heads/dev", ""])
        }
        other => panic!("unexpected {:?}", other),
    }
}
