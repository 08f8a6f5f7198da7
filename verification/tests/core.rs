use wright::config::{InputSpec, SessionConfig, SourceKind};
use wright::diag::{Diagnostic, Origin, Stage};
use wright::input::{
    InputTarget, ResolvedInput,
    detect_directory_kind, kind_from_extension, resolve_directory, sha256_hex, DirectoryListing,
    DirectoryResolution,
};
use wright::hir::{SourceFile, Span};
use wright::input_identity;
use wright::ir::Position;
use wright::result::{exit_code_from, version_info};
use wright::session::{
    check_entry, load_operation, load_route, provider_target, reuses_loaded, LoadRoute,
    ProviderOperation,
};
use wright::source_provider::SourceBackend;
use wright::settings::{enum_name, hero_name, lookup, mode_name, path_string, team_name, PathPart};

fn listing(files: &[&str]) -> DirectoryListing {
    DirectoryListing {
        has_opy_main: files.iter().any(|f| f.ends_with("/main.opy")),
        has_ds_toml: false,
        files: files.iter().map(|f| f.to_string()).collect(),
    }
}

#[test]
fn directory_detection_reports_workshop_and_opy_as_ambiguous() {
    let directory = "/tmp/wright-input-mixed";
    let files = listing(&[
        "/tmp/wright-input-mixed/main.opy",
        "/tmp/wright-input-mixed/generated.txt",
        "/tmp/wright-input-mixed/another.txt",
    ]);
    let mut config = SessionConfig::default();
    config.input = InputSpec::Path(directory.to_string());
    config.kind = SourceKind::Auto;
    let error = match resolve_directory(directory, &config, "/tmp", directory.to_string(), &files) {
        Err(e) => e,
        Ok(_) => panic!("mixed source kinds must be ambiguous"),
    };
    assert_eq!(error.code, "input-kind-ambiguous");
    assert!(error.message.contains("opy"));
    assert!(error.message.contains("workshop"));

    config.kind = SourceKind::Workshop;
    let error = match resolve_directory(directory, &config, "/tmp", directory.to_string(), &files) {
        Err(e) => e,
        Ok(_) => panic!("multiple Workshop files must be ambiguous"),
    };
    assert_eq!(error.code, "input-kind-ambiguous");
}

#[test]
fn a_workshop_directory_with_one_file_resolves_to_that_file() {
    let files = listing(&["/w/only.ws", "/w/notes.md"]);
    let mut config = SessionConfig::default();
    config.kind = SourceKind::Auto;
    match resolve_directory("/w", &config, "/", "/w".to_string(), &files) {
        Ok(DirectoryResolution::File(f)) => assert_eq!(f, "/w/only.ws"),
        _ => panic!("one Workshop file is the input"),
    }
    assert_eq!(detect_directory_kind("/w", &files).ok(), Some(SourceKind::Workshop));
    let empty = listing(&["/e/readme.md"]);
    assert_eq!(detect_directory_kind("/e", &empty).unwrap_err().code, "input-kind-unknown");
}

#[test]
fn extensions_decide_the_source_kind() {
    assert_eq!(kind_from_extension("game.OPY").ok(), Some(SourceKind::Opy));
    assert_eq!(kind_from_extension("mode.del").ok(), Some(SourceKind::Ostw));
    assert_eq!(kind_from_extension("mode.ws").ok(), Some(SourceKind::Workshop));
    assert_eq!(kind_from_extension("hir.json").ok(), Some(SourceKind::Protocol));
    assert!(kind_from_extension("notes.md").is_err());
}

#[test]
fn identities_are_sha256_hex_digests() {
    assert_eq!(
        sha256_hex(b"abc"),
        "ba7816bf8f01cfea414140de5dae2223b00361a396177a9cb410ff61f20015ad"
    );
    assert_eq!(
        input_identity(""),
        "e3b0c44298fc1c149afbf4c8996fb92427ae41e4649b934ca495991b7852b855"
    );
    assert_ne!(input_identity("a"), input_identity("a\n"));
}

#[test]
fn exit_codes_follow_the_most_severe_error() {
    assert_eq!(exit_code_from(&[]), 0);
    assert_eq!(exit_code_from(&[Diagnostic::warning("w", Stage::Analysis, "note")]), 0);
    assert_eq!(exit_code_from(&[Diagnostic::error("e", Stage::Frontend, "bad")]), 1);
    assert_eq!(
        exit_code_from(&[
            Diagnostic::error("e", Stage::Frontend, "bad"),
            Diagnostic::error("i", Stage::Internal, "broken"),
        ]),
        4
    );
    assert_eq!(
        exit_code_from(&[Diagnostic::error("source-provider-unsupported", Stage::Frontend, "no")]),
        3
    );
}

#[test]
fn the_result_contract_is_versioned() {
    let v = version_info();
    assert_eq!(v.contract, "wright-result/v1");
    assert_eq!(v.version, "0.1.0");
}

#[test]
fn settings_paths_resolve_to_workshop_names() {
    let entry = lookup(&[PathPart::Part("main"), PathPart::Part("modeName")]).expect("known key");
    assert_eq!(entry.workshop_name, "Mode Name");
    let entry = lookup(&[
        PathPart::Part("heroes"),
        PathPart::Team,
        PathPart::Hero,
        PathPart::Part("health%"),
    ])
    .expect("hero key");
    assert_eq!(entry.workshop_name, "Health");
    assert!(lookup(&[PathPart::Part("main"), PathPart::Part("nothing")]).is_none());
    assert_eq!(
        path_string(&[PathPart::Part("gamemodes"), PathPart::Part("assault"), PathPart::Part("enabled")]),
        "gamemodes.assault.enabled"
    );
}

#[test]
fn settings_slots_have_localized_names() {
    assert_eq!(mode_name("assault"), Some("Assault"));
    assert_eq!(hero_name("dva"), Some("D.Va"));
    assert_eq!(team_name("allTeams"), Some("General"));
    assert_eq!(team_name("team9"), None);
    assert_eq!(enum_name("heroLimit", "off"), Some("Off"));
    assert_eq!(enum_name("heroLimit", "on"), None);
}

#[test]
fn adapter_main_file_is_the_input_file_name() {
    assert_eq!(wright::opy::adapter_main_file("/work/game/main.opy"), "main.opy");
    assert_eq!(wright::opy::adapter_main_file("/work/game/arena.opy"), "arena.opy");
    assert_eq!(wright::opy::adapter_main_file("/"), "main.opy");
}

#[test]
fn adapter_failures_are_classified_by_their_error_output() {
    let d = wright::opy::adapter_failure("  error: unsupported construct `switch`\n", "exit status: 1");
    assert_eq!(d.code, "unsupported-construct");
    assert_eq!(d.stage, Stage::Frontend);
    assert_eq!(d.message, "error: unsupported construct `switch` (adapter exit exit status: 1)");
    let d = wright::opy::adapter_failure("boom", "exit status: 2");
    assert_eq!(d.code, "adapter-failed");
    assert_eq!(d.message, "boom (adapter exit exit status: 2)");
    let d = wright::opy::adapter_failure(" \n", "exit status: 3");
    assert_eq!(d.code, "adapter-failed");
    assert_eq!(d.message, "the `.opy` adapter bridge failed with exit exit status: 3");
}

#[test]
fn ir_spans_become_diagnostic_spans_with_registry_paths() {
    let files = vec![SourceFile::new("main.opy")];
    let span = Span::new(0, Position::new(2, 3), Position::new(2, 9));
    let d = wright::diag::span_from_ir(Some(span), &files).unwrap();
    assert_eq!(d.file, 0);
    assert_eq!(d.path, "main.opy");
    assert_eq!((d.start.line, d.start.col, d.end.line, d.end.col), (2, 3, 2, 9));
    let stray = Span::new(4, Position::new(1, 1), Position::new(1, 2));
    assert_eq!(wright::diag::span_from_ir(Some(stray), &files).unwrap().path, "<file 4>");
    assert!(wright::diag::span_from_ir(None, &files).is_none());
}

#[test]
fn load_operation_follows_the_backend() {
    let e = load_operation(SourceBackend::Provider, None).unwrap_err();
    assert_eq!(e.code, "source-provider-unsupported");
    assert_eq!(e.stage, Stage::Frontend);
    assert!(load_operation(SourceBackend::Provider, Some(ProviderOperation::Check)).is_err());
    assert_eq!(
        load_operation(SourceBackend::Provider, Some(ProviderOperation::Compile)),
        Ok(ProviderOperation::Compile)
    );
    assert_eq!(load_operation(SourceBackend::Native, None), Ok(ProviderOperation::Check));
    assert_eq!(load_operation(SourceBackend::Auto, None), Ok(ProviderOperation::Compile));
}

#[test]
fn loaded_programs_are_reused_unless_a_provider_must_run_again() {
    let (check, compile) = (ProviderOperation::Check, ProviderOperation::Compile);
    assert!(reuses_loaded(SourceBackend::Native, SourceKind::Opy, Some(check), compile));
    assert!(reuses_loaded(SourceBackend::Auto, SourceKind::Workshop, Some(check), compile));
    assert!(!reuses_loaded(SourceBackend::Auto, SourceKind::Opy, Some(check), compile));
    assert!(reuses_loaded(SourceBackend::Auto, SourceKind::Opy, Some(compile), check));
    assert!(reuses_loaded(SourceBackend::Provider, SourceKind::Opy, Some(check), check));
}

#[test]
fn provider_loads_need_an_entry_path() {
    let e = check_entry(SourceBackend::Provider, &InputSpec::Stdin).unwrap_err();
    assert_eq!(e.code, "source-provider-unsupported");
    assert!(check_entry(SourceBackend::Auto, &InputSpec::Stdin).is_ok());
    assert!(check_entry(SourceBackend::Provider, &InputSpec::Path("a.opy".to_string())).is_ok());
}

#[test]
fn resolved_inputs_are_routed_by_backend_and_kind() {
    assert_eq!(load_route(SourceBackend::Native, SourceKind::Workshop), Ok(LoadRoute::Workshop));
    assert_eq!(load_route(SourceBackend::Auto, SourceKind::Opy), Ok(LoadRoute::Provider));
    assert_eq!(
        load_route(SourceBackend::Native, SourceKind::Opy).unwrap_err().code,
        "source-provider-unavailable"
    );
    assert_eq!(
        load_route(SourceBackend::Auto, SourceKind::Ostw).unwrap_err().code,
        "source-provider-unavailable"
    );
    let e = load_route(SourceBackend::Provider, SourceKind::Workshop).unwrap_err();
    assert_eq!(e.code, "source-provider-kind");
    assert_eq!(e.message, "the provider backend currently supports only OPY input; got 'workshop'");
    assert_eq!(
        load_route(SourceBackend::Native, SourceKind::Protocol).unwrap_err().code,
        "input-kind-unsupported"
    );
    assert_eq!(
        load_route(SourceBackend::Native, SourceKind::Auto).unwrap_err().code,
        "input-kind-unknown"
    );
}

fn resolved_opy(path: Option<&str>, target: InputTarget) -> ResolvedInput {
    ResolvedInput {
        kind: SourceKind::Opy,
        text: String::new(),
        path: path.map(|p| p.to_string()),
        target,
        root: "/work/game".to_string(),
        cwd: "/work".to_string(),
        display: "game/main.opy".to_string(),
        identity: String::new(),
        origin: Origin { kind: "opy".to_string(), locale: None },
    }
}

#[test]
fn provider_targets_carry_entry_kind_and_root() {
    let t = provider_target(&resolved_opy(Some("game/main.opy"), InputTarget::File)).unwrap();
    assert_eq!(t.entry, "/work/game/main.opy");
    assert!(!t.is_directory());
    assert_eq!(t.project_root.as_deref(), Some("/work/game"));
    let d = provider_target(&resolved_opy(Some("/abs/game"), InputTarget::Directory)).unwrap();
    assert_eq!(d.entry, "/abs/game");
    assert!(d.is_directory());
    let s = provider_target(&resolved_opy(None, InputTarget::File)).unwrap();
    assert_eq!(s.entry, "/work/<stdin>");
    let mut workshop = resolved_opy(Some("a.ow"), InputTarget::File);
    workshop.kind = SourceKind::Workshop;
    assert_eq!(provider_target(&workshop).unwrap_err().code, "source-provider-kind");
}
