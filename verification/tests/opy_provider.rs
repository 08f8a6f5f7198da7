use wright::opy_provider::{accept_download, MAX_DOWNLOAD_BYTES};
use wright::paths::{display_relative, project_markers};
use wright::input::sha256_hex;
use wright::opy_provider::{
    archive_entry, default_store_dir, install_plan, normalize_version, target_for, verify_checksum, HostPlatform,
    OpyProviderConfig, OpyProviderResolver, PointerRead, ResolvedOpyProvider, ResolverAction,
    ResolverEvent, ResolverPhase,
};

const TARGET: &str = "x86_64-unknown-linux-gnu";
const STORE: &str = "/store/opy";

fn host() -> HostPlatform {
    HostPlatform { os: "linux".to_string(), arch: "x86_64".to_string() }
}

fn resolver() -> OpyProviderResolver {
    OpyProviderResolver::new(STORE)
        .with_target(TARGET)
        .with_release_urls("http://127.0.0.1:9/api", "http://127.0.0.1:9/download")
}

fn archive_name(version: &str) -> String {
    format!("opy-provider-{version}-{TARGET}.tar.gz")
}

/// Drives a resolution to its end, answering each action from `answer`.
fn finish(
    resolver: &OpyProviderResolver,
    mut phase: ResolverPhase,
    mut action: ResolverAction,
    mut answer: impl FnMut(&ResolverAction) -> ResolverEvent,
    trace: &mut Vec<String>,
) -> Result<ResolvedOpyProvider, String> {
    loop {
        trace.push(match &action {
            ResolverAction::CheckExecutable(p) => format!("check {p}"),
            ResolverAction::ReadPointer(p) => format!("read {p}"),
            ResolverAction::Fetch(u) => format!("fetch {u}"),
            ResolverAction::Install { version, .. } => format!("install {version}"),
            ResolverAction::Finish(_) => "finish".to_string(),
        });
        if let ResolverAction::Finish(result) = action {
            return result.map_err(|e| e.code().to_string());
        }
        let event = answer(&action);
        let (next_phase, next_action) = resolver.step(phase, event);
        phase = next_phase;
        action = next_action;
    }
}

#[test]
fn explicit_provider_wins_without_target_or_network_access() {
    let config = OpyProviderConfig::with_executable("/opt/opy-provider");
    let (resolver, phase, action) = config.resolve(STORE, &HostPlatform {
        os: "plan9".to_string(),
        arch: "mips".to_string(),
    });
    let mut trace = Vec::new();
    let resolved = finish(&resolver, phase, action, |_| ResolverEvent::Executable(true), &mut trace)
        .expect("explicit provider");
    assert_eq!(resolved.executable, "/opt/opy-provider");
    assert_eq!(resolved.version, None);
    assert_eq!(trace, vec!["check /opt/opy-provider", "finish"]);
}

#[test]
fn installed_provider_is_reused_without_network_access() {
    let r = resolver();
    let (phase, action) = r.resolve(None, &host());
    let mut trace = Vec::new();
    let resolved = finish(
        &r,
        phase,
        action,
        |action| match action {
            ResolverAction::ReadPointer(_) => ResolverEvent::Pointer(PointerRead::Text("1.0.0\n".to_string())),
            _ => ResolverEvent::Executable(true),
        },
        &mut trace,
    )
    .expect("installed provider");
    assert_eq!(resolved.version.as_deref(), Some("1.0.0"));
    assert_eq!(resolved.executable, format!("{STORE}/1.0.0/{TARGET}/opy-provider"));
    assert!(trace.iter().all(|step| !step.starts_with("fetch")), "{trace:?}");
}

#[test]
fn missing_provider_bootstraps_from_release_api_and_artifacts() {
    let r = resolver();
    let version = "1.2.3";
    let archive = b"bootstrapped archive".to_vec();
    let checksum = format!("{}  {}\n", sha256_hex(&archive), archive_name(version));
    let (phase, action) = r.resolve(None, &host());
    let mut trace = Vec::new();
    let resolved = finish(
        &r,
        phase,
        action,
        |action| match action {
            ResolverAction::ReadPointer(_) => ResolverEvent::Pointer(PointerRead::Absent),
            ResolverAction::Fetch(url) if url.ends_with("/api") => {
                ResolverEvent::Fetched(Ok(br#"{"tag_name":"v1.2.3"}"#.to_vec()))
            }
            ResolverAction::Fetch(url) if url.ends_with(".sha256") => {
                ResolverEvent::Fetched(Ok(checksum.clone().into_bytes()))
            }
            ResolverAction::Fetch(_) => ResolverEvent::Fetched(Ok(archive.clone())),
            ResolverAction::Install { .. } => ResolverEvent::Installed(Ok(())),
            _ => ResolverEvent::Executable(true),
        },
        &mut trace,
    )
    .expect("bootstrapped provider");
    assert_eq!(resolved.version.as_deref(), Some(version));
    let fetches = trace.iter().filter(|step| step.starts_with("fetch")).count();
    assert_eq!(fetches, 3, "{trace:?}");
    assert!(trace.contains(&format!(
        "fetch http://127.0.0.1:9/download/v{version}/{}",
        archive_name(version)
    )));
    assert!(trace.contains(&"install 1.2.3".to_string()));
}

#[test]
fn clean_install_and_failed_integrity_update_preserve_active_provider() {
    let r = resolver();
    let archive = b"release archive".to_vec();
    let good = format!("{}  {}\n", sha256_hex(&archive), archive_name("1.0.0"));
    let (phase, action) = r.update(Some("1.0.0"), &host());
    let mut trace = Vec::new();
    let installed = finish(
        &r,
        phase,
        action,
        |action| match action {
            ResolverAction::Fetch(url) if url.ends_with(".sha256") => {
                ResolverEvent::Fetched(Ok(good.clone().into_bytes()))
            }
            ResolverAction::Fetch(_) => ResolverEvent::Fetched(Ok(archive.clone())),
            _ => ResolverEvent::Installed(Ok(())),
        },
        &mut trace,
    )
    .expect("clean install");
    assert_eq!(installed.version.as_deref(), Some("1.0.0"));

    let bad = format!("{}  {}\n", "0".repeat(64), archive_name("1.1.0"));
    let (phase, action) = r.update(Some("v1.1.0"), &host());
    let mut trace = Vec::new();
    let error = finish(
        &r,
        phase,
        action,
        |action| match action {
            ResolverAction::Fetch(url) if url.ends_with(".sha256") => {
                ResolverEvent::Fetched(Ok(bad.clone().into_bytes()))
            }
            ResolverAction::Fetch(_) => ResolverEvent::Fetched(Ok(archive.clone())),
            _ => ResolverEvent::Installed(Ok(())),
        },
        &mut trace,
    )
    .unwrap_err();
    assert_eq!(error, "provider-integrity");
    assert!(
        trace.iter().all(|step| !step.starts_with("install")),
        "a failed integrity check never installs or activates: {trace:?}"
    );
}

#[test]
fn unsupported_target_is_structured() {
    let r = OpyProviderResolver::new(STORE).with_target("mips-unknown-linux-gnu");
    let (_, action) = r.update(Some("1.0.0"), &host());
    match action {
        ResolverAction::Finish(Err(error)) => assert_eq!(error.code(), "provider-unsupported-platform"),
        other => panic!("unexpected {other:?}"),
    }
    let error = target_for("windows", "x86_64").unwrap_err();
    assert_eq!(error.code(), "provider-unsupported-platform");
}

#[test]
fn supported_hosts_map_to_release_targets() {
    assert_eq!(target_for("linux", "x86_64").unwrap(), "x86_64-unknown-linux-gnu");
    assert_eq!(target_for("macos", "x86_64").unwrap(), "x86_64-apple-darwin");
    assert_eq!(target_for("macos", "aarch64").unwrap(), "aarch64-apple-darwin");
}

#[test]
fn release_versions_are_three_numeric_parts() {
    assert_eq!(normalize_version("v1.2.3").unwrap(), "1.2.3");
    assert_eq!(normalize_version("10.0.7").unwrap(), "10.0.7");
    for bad in ["1.2", "1.2.3.4", "1..3", "1.2.x", ""] {
        assert_eq!(normalize_version(bad).unwrap_err().code(), "provider-download", "{bad}");
    }
}

#[test]
fn checksums_must_match_the_archive() {
    let archive = b"abc";
    let name = "opy-provider-1.0.0-x86_64-unknown-linux-gnu.tar.gz";
    let digest = sha256_hex(archive);
    assert!(verify_checksum(archive, &format!("{digest}  {name}\n"), name).is_ok());
    assert!(verify_checksum(archive, &format!("{}\n", digest.to_uppercase()), name).is_ok());
    let error = verify_checksum(archive, &format!("{}  {name}\n", "1".repeat(64)), name).unwrap_err();
    assert_eq!(error.code(), "provider-integrity");
}

#[test]
fn the_default_store_follows_the_platform_conventions() {
    assert_eq!(default_store_dir("linux", Some("/data"), None, None, None), "/data/providers/opy");
    assert_eq!(
        default_store_dir("macos", None, Some("/Users/me"), None, None),
        "/Users/me/Library/Application Support/wright/providers/opy"
    );
    assert_eq!(
        default_store_dir("linux", None, Some("/home/me"), None, None),
        "/home/me/.local/wright/providers/opy"
    );
    assert_eq!(
        default_store_dir("linux", None, Some("/home/me"), None, Some("/xdg")),
        "/xdg/wright/providers/opy"
    );
    assert_eq!(default_store_dir("linux", None, None, None, None), "./wright/providers/opy");
}

#[test]
fn archive_entries_are_the_root_and_the_provider_only() {
    let root = format!("opy-provider-1.0.0-{TARGET}");
    assert_eq!(archive_entry(&[root.clone()], false, "1.0.0", TARGET).ok(), Some(false));
    assert_eq!(
        archive_entry(&[root.clone(), "opy-provider".to_string()], true, "1.0.0", TARGET).ok(),
        Some(true)
    );
    let error = archive_entry(&[root.clone(), "opy-provider".to_string()], false, "1.0.0", TARGET).unwrap_err();
    assert_eq!(error.code(), "provider-install");
    assert_eq!(error.message(), "OPY provider archive executable is not a regular file");
    let error = archive_entry(&[root, "..".to_string()], true, "1.0.0", TARGET).unwrap_err();
    assert_eq!(error.message(), "OPY provider archive contains an unexpected path");
}

#[test]
fn installs_reuse_an_executable_and_refuse_a_broken_target() {
    assert_eq!(install_plan(STORE, "1.0.0", TARGET, true, true, true).ok(), Some(true));
    assert_eq!(install_plan(STORE, "1.0.0", TARGET, false, false, false).ok(), Some(false));
    let error = install_plan(STORE, "1.0.0", TARGET, true, false, true).unwrap_err();
    assert_eq!(
        error.message(),
        &format!("installed OPY provider '{STORE}/1.0.0/{TARGET}/opy-provider' is not executable")
    );
    let error = install_plan(STORE, "1.0.0", TARGET, false, false, true).unwrap_err();
    assert_eq!(
        error.message(),
        &format!("cannot install OPY provider: target directory '{STORE}/1.0.0/{TARGET}' already exists without a valid executable")
    );
}

#[test]
fn each_phase_accepts_only_the_event_it_waits_for() {
    let explicit = ResolverPhase::Explicit { path: "/bin/opy".to_string() };
    assert!(explicit.accepts(&ResolverEvent::Executable(true)));
    assert!(!explicit.accepts(&ResolverEvent::Pointer(PointerRead::Absent)));
    let pointer = ResolverPhase::ActivePointer { target: TARGET.to_string() };
    assert!(pointer.accepts(&ResolverEvent::Pointer(PointerRead::Absent)));
    assert!(!pointer.accepts(&ResolverEvent::Executable(false)));
    assert!(!ResolverPhase::Finished.accepts(&ResolverEvent::Executable(true)));
}

fn tar_gz(entries: &[(&str, &[u8], u32)]) -> Vec<u8> {
    let encoder = flate2::write::GzEncoder::new(Vec::new(), flate2::Compression::default());
    let mut builder = tar::Builder::new(encoder);
    for (path, bytes, mode) in entries {
        let mut header = tar::Header::new_gnu();
        header.set_size(bytes.len() as u64);
        header.set_mode(*mode);
        header.set_entry_type(tar::EntryType::Regular);
        header.set_cksum();
        builder.append_data(&mut header, path, *bytes).expect("appends");
    }
    builder.into_inner().expect("finishes").finish().expect("compresses")
}

#[test]
fn the_provider_payload_is_the_provider_entry_with_execute_bits() {
    let root = format!("opy-provider-1.2.3-{TARGET}/opy-provider");
    let archive = tar_gz(&[(root.as_str(), b"#!binary", 0o644)]);
    let (bytes, mode) = wright::opy_provider::provider_payload(&archive, "1.2.3", TARGET, "/stage/opy-provider")
        .expect("the provider is found");
    assert_eq!(bytes, b"#!binary".to_vec());
    assert_eq!(mode, 0o755);
}

#[test]
fn an_unexpected_archive_path_is_refused() {
    let archive = tar_gz(&[("elsewhere/tool", b"x", 0o755)]);
    let e = wright::opy_provider::provider_payload(&archive, "1.2.3", TARGET, "/stage/opy-provider")
        .expect_err("refused");
    assert_eq!(e.message().as_str(), "OPY provider archive contains an unexpected path");
}

#[test]
fn garbage_is_not_an_archive() {
    let e = wright::opy_provider::provider_payload(b"not gzip", "1.2.3", TARGET, "/stage/opy-provider")
        .expect_err("refused");
    assert_eq!(e.code(), "provider-install");
    assert!(e.message().starts_with("cannot read OPY provider archive"));
}

#[test]
fn an_archive_without_the_provider_is_refused() {
    let entries: Vec<wright::opy_provider::ArchiveEntry> = vec![];
    let e = wright::opy_provider::payload_of_entries(&entries, &None, "1.2.3", TARGET, "/o")
        .expect_err("refused");
    assert_eq!(e.message().as_str(), "OPY provider archive does not contain an executable provider");
}

#[test]
fn downloads_are_checked_for_status_and_size() {
    let url = "https://example.invalid/a.tar.gz";
    assert_eq!(accept_download(url, 200, Ok(vec![1, 2])).expect("accepted"), vec![1, 2]);
    let e = accept_download(url, 404, Ok(vec![])).expect_err("refused");
    assert_eq!(e.message().as_str(), format!("GET {url} failed with HTTP 404"));
    let e = accept_download(url, 200, Err("reset".to_string())).expect_err("refused");
    assert_eq!(e.message().as_str(), format!("cannot read response from {url}: reset"));
    let big = vec![0u8; MAX_DOWNLOAD_BYTES as usize + 1];
    let e = accept_download(url, 200, Ok(big)).expect_err("refused");
    assert_eq!(e.message().as_str(), format!("response from {url} exceeds the 128 MiB provider artifact limit"));
}

#[test]
fn display_paths_are_relative_below_the_working_directory() {
    assert_eq!(display_relative("/work/src/a.opy", Some("/work")), "src/a.opy");
    assert_eq!(display_relative("/other/a.opy", Some("/work")), "/other/a.opy");
    assert_eq!(display_relative("/work", Some("/work")), "/work");
    assert_eq!(display_relative("/work/a.opy", None), "/work/a.opy");
    let (opy, ds) = project_markers("/proj");
    assert_eq!(opy, vec!["/proj/main.opy".to_string(), "/proj/src/main.opy".to_string()]);
    assert_eq!(ds, "/proj/ds.toml");
}
