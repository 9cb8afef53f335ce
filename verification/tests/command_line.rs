use strata_poc::cli::{help_text, parse_command, poc_identity, production_identity, Command};

fn args(values: &[&str]) -> Vec<String> {
    values.iter().map(|value| (*value).to_owned()).collect()
}

#[test]
fn modes_are_selected_by_the_first_argument() {
    assert!(matches!(parse_command(&args(&[])), Ok(Command::Workbench(None))));
    assert!(matches!(
        parse_command(&args(&["firmware.bin"])),
        Ok(Command::Workbench(Some(path))) if path == "firmware.bin"
    ));
    assert!(matches!(
        parse_command(&args(&["--render-program", "p.json"])),
        Ok(Command::RenderProgram(path)) if path == "p.json"
    ));
    assert!(matches!(
        parse_command(&args(&["--write-video-preset", "hilbert", "out.json"])),
        Ok(Command::WriteVideoPreset { id, path }) if id == "hilbert" && path == "out.json"
    ));
    assert!(matches!(parse_command(&args(&["--help"])), Ok(Command::Help)));
    assert!(matches!(parse_command(&args(&["--gpu-self-test"])), Ok(Command::GpuSelfTest)));
    assert!(matches!(parse_command(&args(&["--list-video-presets"])), Ok(Command::ListVideoPresets)));
}

#[test]
fn missing_paths_are_refused() {
    assert_eq!(
        parse_command(&args(&["--validate-program"])).err(),
        Some("--validate-program requires a JSON path".to_owned())
    );
    assert_eq!(
        parse_command(&args(&["--write-example-program"])).err(),
        Some("--write-example-program requires a JSON path".to_owned())
    );
    assert_eq!(
        parse_command(&args(&["--write-video-preset"])).err(),
        Some("--write-video-preset requires a preset id".to_owned())
    );
    assert_eq!(
        parse_command(&args(&["--write-video-preset", "id"])).err(),
        Some("--write-video-preset requires an output JSON path".to_owned())
    );
}

#[test]
fn help_lists_every_mode_for_the_executable() {
    let text = help_text(poc_identity());
    assert!(text.starts_with("Strata POC\n\nstrata-poc [SOURCE | PROJECT.strata-project | SESSION_DIRECTORY]\n"));
    assert!(text.ends_with("strata-poc --gpu-self-test"));
    assert_eq!(text.lines().count(), 9);
    assert!(help_text(production_identity()).contains("strata-app-macos --list-video-presets"));
}
