use strata_poc::drops::{dropped_files_action, DropAction};
use strata_poc::project_models::{
    default_project_file_name, derived_session_path, is_local_project_path, locator_from_path,
    normalized_project_path, project_dialog_parent, resolve_locator, session_file_name,
    validate_locator,
    validate_optional_locator, LocalProjectFile, LocalSignaturePack, ProjectPreferences,
    LOCAL_PROJECT_VERSION,
};

fn digest() -> String {
    "a".repeat(64)
}

#[test]
fn invalid_persisted_preferences_fail_closed() {
    let preferences = ProjectPreferences {
        reopen_last_project: true,
        last_project_path: String::new(),
        ..ProjectPreferences::default()
    };
    assert!(preferences.validate().is_err());
}

#[test]
fn project_filename_uses_stable_suffix() {
    assert_eq!(
        default_project_file_name(None),
        "strata-investigation.strata-project"
    );
}

#[test]
fn derived_session_path_is_stable() -> Result<(), String> {
    let project = "/tmp/research.strata-project";
    assert_eq!(derived_session_path(project)?, "/tmp/research.strata-session");
    assert_eq!(normalized_project_path("/tmp/research"), project);
    Ok(())
}

#[test]
fn invalid_signature_digest_is_rejected() -> Result<(), String> {
    let project = LocalProjectFile::new(
        "/tmp/test.strata-project",
        "/tmp/test.strata-session",
        "/usr/bin/file",
        None,
        "/",
    )?;
    let mut invalid = project;
    invalid.signature_pack = Some(LocalSignaturePack {
        path: "/tmp/signatures.json".to_owned(),
        sha256: "xyz".to_owned(),
    });
    assert!(invalid.validate().is_err());
    Ok(())
}

#[test]
fn new_project_writes_locators_relative_to_its_directory() -> Result<(), String> {
    let digest = digest();
    let project = LocalProjectFile::new(
        "/work/firmware.strata-project",
        "/work/firmware.strata-session",
        "/usr/bin/file",
        Some(("/work/packs/signatures.json", digest.as_str())),
        "/",
    )?;
    assert_eq!(project.kind, "strata_local_project");
    assert_eq!(project.version, LOCAL_PROJECT_VERSION);
    assert_eq!(project.session_bundle, "firmware.strata-session");
    assert_eq!(project.source, "/usr/bin/file");
    let pack = project.signature_pack.clone().ok_or("missing pack")?;
    assert_eq!(pack.path, "packs/signatures.json");
    assert_eq!(pack.sha256, digest);
    assert!(project.validate().is_ok());
    assert_eq!(
        project.resolved_session_bundle("/work/firmware.strata-project"),
        "/work/firmware.strata-session"
    );
    assert_eq!(project.resolved_source("/work/firmware.strata-project"), "/usr/bin/file");
    assert_eq!(
        project.resolved_signature_pack("/work/firmware.strata-project"),
        Some("/work/packs/signatures.json".to_owned())
    );
    Ok(())
}

#[test]
fn relative_paths_resolve_against_the_working_directory() -> Result<(), String> {
    let project = LocalProjectFile::new(
        "case.strata-project",
        "case.strata-session",
        "data/source.bin",
        None,
        "/home/analyst",
    )?;
    assert_eq!(project.session_bundle, "case.strata-session");
    assert_eq!(project.source, "data/source.bin");
    assert!(project.signature_pack.is_none());
    Ok(())
}

#[test]
fn new_project_refuses_a_bad_digest_and_an_unsafe_locator() {
    let result = LocalProjectFile::new(
        "/work/a.strata-project",
        "/work/a.strata-session",
        "/work/a.bin",
        Some(("/work/s.json", "00")),
        "/",
    );
    assert_eq!(
        result.err(),
        Some("signature-pack SHA-256 must contain 64 hexadecimal digits".to_owned())
    );
    let result = LocalProjectFile::new(
        "/work/a.strata-project",
        "/work/line\nbreak",
        "/work/a.bin",
        None,
        "/",
    );
    assert_eq!(
        result.err(),
        Some("project locator is empty, oversized, or unsafe".to_owned())
    );
}

#[test]
fn validation_reports_each_fault_in_order() {
    let valid = LocalProjectFile {
        kind: "strata_local_project".to_owned(),
        version: 1,
        session_bundle: "a.strata-session".to_owned(),
        source: "a.bin".to_owned(),
        signature_pack: Some(LocalSignaturePack {
            path: "s.json".to_owned(),
            sha256: "0123456789abcdefABCDEF0123456789abcdefABCDEF0123456789abcdef0123".to_owned(),
        }),
    };
    assert_eq!(valid.validate(), Ok(()));
    let mut wrong_kind = valid.clone();
    wrong_kind.kind = "other".to_owned();
    assert_eq!(wrong_kind.validate(), Err("not a Strata local project".to_owned()));
    let mut wrong_version = valid.clone();
    wrong_version.version = 7;
    assert_eq!(
        wrong_version.validate(),
        Err("unsupported local project version 7".to_owned())
    );
    let mut blank_session = valid.clone();
    blank_session.session_bundle = " \t".to_owned();
    assert_eq!(
        blank_session.validate(),
        Err("session bundle locator is empty, oversized, or unsafe".to_owned())
    );
    let mut nul_source = valid.clone();
    nul_source.source = "a\0b".to_owned();
    assert_eq!(
        nul_source.validate(),
        Err("source locator is empty, oversized, or unsafe".to_owned())
    );
    let mut bad_pack = valid.clone();
    bad_pack.signature_pack = Some(LocalSignaturePack {
        path: "x\r".to_owned(),
        sha256: digest(),
    });
    assert_eq!(
        bad_pack.validate(),
        Err("signature pack locator is empty, oversized, or unsafe".to_owned())
    );
    let mut non_hex = valid;
    non_hex.signature_pack = Some(LocalSignaturePack {
        path: "s.json".to_owned(),
        sha256: "g".repeat(64),
    });
    assert_eq!(
        non_hex.validate(),
        Err("signature-pack SHA-256 must contain 64 hexadecimal digits".to_owned())
    );
}

#[test]
fn locator_limit_counts_utf8_bytes() {
    assert_eq!(validate_locator(&"a".repeat(8192), "x"), Ok(()));
    assert_eq!(
        validate_locator(&"a".repeat(8193), "x"),
        Err("x locator is empty, oversized, or unsafe".to_owned())
    );
    assert_eq!(validate_locator(&"\u{20ac}".repeat(2730), "x"), Ok(()));
    assert!(validate_locator(&"\u{20ac}".repeat(2731), "x").is_err());
    assert!(validate_locator("", "x").is_err());
    assert!(validate_locator("a\nb", "x").is_err());
    assert_eq!(validate_optional_locator("  ", "x"), Ok(()));
    assert!(validate_optional_locator(" a\n", "x").is_err());
}

#[test]
fn preferences_validate_version_locators_and_reopen() {
    let defaults = ProjectPreferences::default();
    assert_eq!(defaults.version, LOCAL_PROJECT_VERSION);
    assert!(!defaults.reopen_last_project);
    assert_eq!(defaults.validate(), Ok(()));
    let mut wrong_version = ProjectPreferences::default();
    wrong_version.version = 2;
    assert_eq!(
        wrong_version.validate(),
        Err("unsupported project preferences version 2".to_owned())
    );
    let mut unsafe_last = ProjectPreferences::default();
    unsafe_last.last_project_path = "a\0".to_owned();
    assert_eq!(
        unsafe_last.validate(),
        Err("last project locator is empty, oversized, or unsafe".to_owned())
    );
    let mut unsafe_pack = ProjectPreferences::default();
    unsafe_pack.default_signature_pack_path = "p\n".to_owned();
    assert_eq!(
        unsafe_pack.validate(),
        Err("default signature pack locator is empty, oversized, or unsafe".to_owned())
    );
    let mut reopen = ProjectPreferences::default();
    reopen.reopen_last_project = true;
    reopen.last_project_path = "   ".to_owned();
    assert_eq!(
        reopen.validate(),
        Err("reopen-last-project requires a project path".to_owned())
    );
    reopen.last_project_path = "/tmp/research.strata-project".to_owned();
    assert_eq!(reopen.validate(), Ok(()));
}

#[test]
fn project_paths_are_recognized_normalized_and_derived() {
    assert!(is_local_project_path("/tmp/a.strata-project"));
    assert!(!is_local_project_path("/tmp/a.strata-session"));
    assert!(!is_local_project_path("/"));
    assert_eq!(
        normalized_project_path("/tmp/a.strata-project"),
        "/tmp/a.strata-project"
    );
    assert_eq!(normalized_project_path("notes"), "notes.strata-project");
    assert_eq!(
        derived_session_path("/tmp/case"),
        Ok("/tmp/case.strata-session".to_owned())
    );
    assert_eq!(
        derived_session_path("/tmp/"),
        Err("local project filename is missing its project name".to_owned())
    );
    assert_eq!(
        default_project_file_name(Some("/data/firmware.bin")),
        "firmware.strata-project"
    );
}

#[test]
fn locators_and_dialog_parents() {
    assert_eq!(locator_from_path("/a/b/c.bin", "/a"), Ok("b/c.bin".to_owned()));
    assert_eq!(locator_from_path("/x/c.bin", "/a"), Ok("/x/c.bin".to_owned()));
    assert_eq!(resolve_locator("/a/p.strata-project", "b/c.bin"), "/a/b/c.bin");
    assert_eq!(resolve_locator("/a/p.strata-project", "/abs/c.bin"), "/abs/c.bin");
    assert_eq!(resolve_locator("p.strata-project", "c.bin"), "./c.bin");
    assert_eq!(
        project_dialog_parent("  /tmp/research.strata-project \n"),
        Some("/tmp".to_owned())
    );
    assert_eq!(project_dialog_parent("/"), None);
}

#[test]
fn session_file_names_swap_the_suffix() {
    assert_eq!(
        session_file_name("case.strata-project"),
        Ok("case.strata-session".to_owned())
    );
    assert_eq!(
        session_file_name(".strata-project"),
        Err("local project filename is missing its project name".to_owned())
    );
    assert_eq!(
        session_file_name("case.strata-session"),
        Err("local project filename is missing its project name".to_owned())
    );
}

#[test]
fn dropped_files_pick_project_then_session_then_sources() {
    let paths = |items: &[&str]| items.iter().map(|item| (*item).to_owned()).collect::<Vec<_>>();
    assert_eq!(dropped_files_action(&[], false, false), DropAction::Ignore);
    assert_eq!(
        dropped_files_action(&paths(&["/tmp/case.strata-project", "/tmp/b.bin"]), true, true),
        DropAction::OpenProject
    );
    assert_eq!(dropped_files_action(&paths(&["/tmp/bundle"]), true, false), DropAction::OpenSession);
    assert_eq!(
        dropped_files_action(&paths(&["/tmp/a.bin", "/tmp/b.bin"]), false, false),
        DropAction::LoadPair
    );
    assert_eq!(dropped_files_action(&paths(&["/tmp/a.bin"]), false, true), DropAction::LoadComparison);
    assert_eq!(dropped_files_action(&paths(&["/tmp/a.bin"]), false, false), DropAction::LoadPrimary);
}

#[test]
fn locators_resolve_back_to_their_paths() {
    let project = "/home/analyst/case/capture.strata-project";
    for path in ["/home/analyst/case/bundle", "/home/analyst/case/in/source.bin", "/srv/other.bin"] {
        let locator = locator_from_path(path, "/home/analyst/case").expect("locator");
        assert_eq!(resolve_locator(project, &locator), path);
    }
    assert_eq!(locator_from_path("/x/y", "/").as_deref(), Ok("x/y"));
    assert_eq!(resolve_locator("/top.strata-project", "x/y"), "/x/y");
}

#[test]
fn normalized_project_paths_name_projects() {
    for path in ["/tmp/case", "/tmp/case/", "relative", "", "/tmp/..", "/tmp/case.strata-project"] {
        let normalized = normalized_project_path(path);
        assert!(is_local_project_path(&normalized), "{normalized}");
        assert_eq!(normalized_project_path(&normalized), normalized);
    }
}

#[test]
fn plain_paths_resolve_to_their_directories() {
    assert_eq!(derived_session_path("/tmp/p/case").as_deref(), Ok("/tmp/p/case.strata-session"));
    assert_eq!(derived_session_path("/case.strata-project").as_deref(), Ok("/case.strata-session"));
    assert_eq!(project_dialog_parent("  /tmp/p/a.bin "), Some("/tmp/p".to_owned()));
    assert_eq!(project_dialog_parent("/a.bin"), Some("/".to_owned()));
    assert_eq!(project_dialog_parent("/"), None);
    assert_eq!(resolve_locator("/tmp/p/case.strata-project", "b.bin"), "/tmp/p/b.bin");
}
