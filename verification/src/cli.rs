//! The workbench's command line: which mode the arguments select, and the
//! help text.

use vstd::prelude::*;

use crate::text::push_str;

verus! {

/// Product identity supplied by a thin native composition root.
#[derive(Clone, Copy, Debug, PartialEq, Eq)]
pub struct ApplicationIdentity {
    /// Native window and help heading.
    pub title: &'static str,
    /// Executable name shown in command-line help.
    pub executable: &'static str,
}

/// Identity of the compatibility executable.
pub fn poc_identity() -> (identity: ApplicationIdentity)
    ensures
        identity.title@ == "Strata POC"@,
        identity.executable@ == "strata-poc"@,
{
    ApplicationIdentity { title: "Strata POC", executable: "strata-poc" }
}

/// Identity of the promoted macOS application host.
pub fn production_identity() -> (identity: ApplicationIdentity)
    ensures
        identity.title@ == "Strata"@,
        identity.executable@ == "strata-app-macos"@,
{
    ApplicationIdentity { title: "Strata", executable: "strata-app-macos" }
}

/// What the command line asks for.
#[derive(Clone, Debug)]
pub enum Command {
    /// Render an animation program to frames.
    RenderProgram(String),
    /// Check an animation program and report its frame count.
    ValidateProgram(String),
    /// Write the example animation program.
    WriteExampleProgram(String),
    /// List the built-in video presets.
    ListVideoPresets,
    /// Write the program of one video preset.
    WriteVideoPreset { id: String, path: String },
    /// Check the GPU backend against the CPU reference.
    GpuSelfTest,
    /// Print the help text.
    Help,
    /// Open the workbench, optionally on a source, project or session.
    Workbench(Option<String>),
}

/// The command as plain values: a tag, and up to two texts.
pub open spec fn command_view(command: Command) -> (int, Seq<char>, Seq<char>) {
    match command {
        Command::RenderProgram(path) => (0, path@, Seq::empty()),
        Command::ValidateProgram(path) => (1, path@, Seq::empty()),
        Command::WriteExampleProgram(path) => (2, path@, Seq::empty()),
        Command::ListVideoPresets => (3, Seq::empty(), Seq::empty()),
        Command::WriteVideoPreset { id, path } => (4, id@, path@),
        Command::GpuSelfTest => (5, Seq::empty(), Seq::empty()),
        Command::Help => (6, Seq::empty(), Seq::empty()),
        Command::Workbench(None) => (7, Seq::empty(), Seq::empty()),
        Command::Workbench(Some(path)) => (8, path@, Seq::empty()),
    }
}

/// What the arguments (after the program name) select, or why they are
/// refused: the first argument names a mode, and the modes that write or
/// read a file take the next argument as its path.
pub open spec fn command_spec(args: Seq<Seq<char>>) -> Result<(int, Seq<char>, Seq<char>), Seq<char>> {
    if args.len() == 0 {
        Ok((7, Seq::empty(), Seq::empty()))
    } else if args[0] == "--render-program"@ {
        if args.len() >= 2 {
            Ok((0, args[1], Seq::empty()))
        } else {
            Err("--render-program requires a JSON path"@)
        }
    } else if args[0] == "--validate-program"@ {
        if args.len() >= 2 {
            Ok((1, args[1], Seq::empty()))
        } else {
            Err("--validate-program requires a JSON path"@)
        }
    } else if args[0] == "--write-example-program"@ {
        if args.len() >= 2 {
            Ok((2, args[1], Seq::empty()))
        } else {
            Err("--write-example-program requires a JSON path"@)
        }
    } else if args[0] == "--list-video-presets"@ {
        Ok((3, Seq::empty(), Seq::empty()))
    } else if args[0] == "--write-video-preset"@ {
        if args.len() < 2 {
            Err("--write-video-preset requires a preset id"@)
        } else if args.len() < 3 {
            Err("--write-video-preset requires an output JSON path"@)
        } else {
            Ok((4, args[1], args[2]))
        }
    } else if args[0] == "--gpu-self-test"@ {
        Ok((5, Seq::empty(), Seq::empty()))
    } else if args[0] == "--help"@ {
        Ok((6, Seq::empty(), Seq::empty()))
    } else {
        Ok((8, args[0], Seq::empty()))
    }
}

/// The arguments as plain texts.
pub open spec fn args_view(args: Seq<String>) -> Seq<Seq<char>> {
    args.map_values(|a: String| a@)
}

fn second_argument(args: &Vec<String>, message: &str) -> (result: Result<String, String>)
    ensures
        args.len() >= 2 ==> (result matches Ok(path) && path@ == args@[1]@),
        args.len() < 2 ==> (result matches Err(m) && m@ == message@),
{
    if args.len() >= 2 {
        Ok(args[1].clone())
    } else {
        Err(message.to_owned())
    }
}

/// Reads the arguments that follow the program name.
pub fn parse_command(args: &Vec<String>) -> (result: Result<Command, String>)
    ensures
        match (result, command_spec(args_view(args@))) {
            (Ok(command), Ok(expected)) => command_view(command) == expected,
            (Err(message), Err(expected)) => message@ == expected,
            _ => false,
        },
{
    let ghost view = args_view(args@);
    if args.len() == 0 {
        return Ok(Command::Workbench(None));
    }
    let first = args[0].as_str();
    assert(first@ == view[0]);
    if crate::text::text_equals(first, "--render-program") {
        return match second_argument(args, "--render-program requires a JSON path") {
            Ok(path) => Ok(Command::RenderProgram(path)),
            Err(message) => Err(message),
        };
    }
    if crate::text::text_equals(first, "--validate-program") {
        return match second_argument(args, "--validate-program requires a JSON path") {
            Ok(path) => Ok(Command::ValidateProgram(path)),
            Err(message) => Err(message),
        };
    }
    if crate::text::text_equals(first, "--write-example-program") {
        return match second_argument(args, "--write-example-program requires a JSON path") {
            Ok(path) => Ok(Command::WriteExampleProgram(path)),
            Err(message) => Err(message),
        };
    }
    if crate::text::text_equals(first, "--list-video-presets") {
        return Ok(Command::ListVideoPresets);
    }
    if crate::text::text_equals(first, "--write-video-preset") {
        if args.len() < 2 {
            return Err("--write-video-preset requires a preset id".to_owned());
        }
        if args.len() < 3 {
            return Err("--write-video-preset requires an output JSON path".to_owned());
        }
        return Ok(Command::WriteVideoPreset { id: args[1].clone(), path: args[2].clone() });
    }
    if crate::text::text_equals(first, "--gpu-self-test") {
        return Ok(Command::GpuSelfTest);
    }
    if crate::text::text_equals(first, "--help") {
        return Ok(Command::Help);
    }
    Ok(Command::Workbench(Some(args[0].clone())))
}

/// The help text for an executable with the given title and name.
pub open spec fn help_text_spec(title: Seq<char>, executable: Seq<char>) -> Seq<char> {
    title + "\n\n"@ + executable + " [SOURCE | PROJECT.strata-project | SESSION_DIRECTORY]\n"@
        + executable + " --render-program PROGRAM.json\n"@ + executable
        + " --validate-program PROGRAM.json\n"@ + executable
        + " --write-example-program PROGRAM.json\n"@ + executable + " --list-video-presets\n"@
        + executable + " --write-video-preset PRESET_ID PROGRAM.json\n"@ + executable
        + " --gpu-self-test"@
}

/// The command-line help: the title, then one usage line per mode.
pub fn help_text(identity: ApplicationIdentity) -> (text: String)
    ensures
        text@ == help_text_spec(identity.title@, identity.executable@),
{
    let mut text = identity.title.to_owned();
    push_str(&mut text, "\n\n");
    push_str(&mut text, identity.executable);
    push_str(&mut text, " [SOURCE | PROJECT.strata-project | SESSION_DIRECTORY]\n");
    push_str(&mut text, identity.executable);
    push_str(&mut text, " --render-program PROGRAM.json\n");
    push_str(&mut text, identity.executable);
    push_str(&mut text, " --validate-program PROGRAM.json\n");
    push_str(&mut text, identity.executable);
    push_str(&mut text, " --write-example-program PROGRAM.json\n");
    push_str(&mut text, identity.executable);
    push_str(&mut text, " --list-video-presets\n");
    push_str(&mut text, identity.executable);
    push_str(&mut text, " --write-video-preset PRESET_ID PROGRAM.json\n");
    push_str(&mut text, identity.executable);
    push_str(&mut text, " --gpu-self-test");
    assert(text@ =~= help_text_spec(identity.title@, identity.executable@));
    text
}

} // verus!
