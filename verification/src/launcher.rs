//! Building the command that opens a coding tool: an application through
//! `open -a`, a command-line tool in a terminal inside a project folder.
use crate::text::push_char;
use crate::types::{ToolInfo, ToolInfoView, ToolType};
use vstd::prelude::*;
use vstd::std_specs::iter::IteratorSpec;

verus! {

broadcast use vstd::string::group_string_axioms;

/// The characters of `value` with each `'` written as `'\''`.
pub open spec fn shell_escaped(value: Seq<char>) -> Seq<char>
    decreases value.len(),
{
    if value.len() == 0 {
        Seq::empty()
    } else {
        let rest = shell_escaped(value.drop_last());
        if value.last() == '\'' {
            rest + seq!['\'', '\\', '\'', '\'']
        } else {
            rest.push(value.last())
        }
    }
}

/// Wraps `value` in single quotes so that a POSIX shell reads it as one word.
pub fn shell_quote(value: &str) -> (quoted: String)
    ensures
        quoted@ == seq!['\''] + shell_escaped(value@) + seq!['\''],
{
    let mut out = String::new();
    push_char(&mut out, '\'');
    let ghost mut done: Seq<char> = Seq::empty();
    let mut chars = value.chars();
    loop
        invariant
            done + chars.remaining() == value@,
            chars.decrease() is Some,
            out@ == seq!['\''] + shell_escaped(done),
        ensures
            out@ == seq!['\''] + shell_escaped(value@),
        decreases chars.decrease()->0,
    {
        match chars.next() {
            Some(c) => {
                proof { assert(done.push(c).drop_last() =~= done); }
                if c == '\'' {
                    push_char(&mut out, '\'');
                    push_char(&mut out, '\\');
                    push_char(&mut out, '\'');
                    push_char(&mut out, '\'');
                } else {
                    push_char(&mut out, c);
                }
                proof { done = done.push(c); }
            },
            None => {
                proof { assert(done =~= value@); }
                break;
            },
        }
    }
    let ghost body = out@;
    push_char(&mut out, '\'');
    assert(out@ =~= body + seq!['\'']);
    out
}


/// The characters of `value` with each `\` and `"` escaped by a backslash.
pub open spec fn applescript_escaped(value: Seq<char>) -> Seq<char>
    decreases value.len(),
{
    if value.len() == 0 {
        Seq::empty()
    } else {
        let rest = applescript_escaped(value.drop_last());
        if value.last() == '\\' || value.last() == '"' {
            rest + seq!['\\', value.last()]
        } else {
            rest.push(value.last())
        }
    }
}

/// Writes `value` as an AppleScript string literal.
pub fn applescript_string(value: &str) -> (literal: String)
    ensures
        literal@ == seq!['"'] + applescript_escaped(value@) + seq!['"'],
{
    let mut out = String::new();
    push_char(&mut out, '"');
    let ghost mut done: Seq<char> = Seq::empty();
    let mut chars = value.chars();
    loop
        invariant
            done + chars.remaining() == value@,
            chars.decrease() is Some,
            out@ == seq!['"'] + applescript_escaped(done),
        ensures
            out@ == seq!['"'] + applescript_escaped(value@),
        decreases chars.decrease()->0,
    {
        match chars.next() {
            Some(c) => {
                proof { assert(done.push(c).drop_last() =~= done); }
                if c == '\\' || c == '"' {
                    push_char(&mut out, '\\');
                }
                push_char(&mut out, c);
                proof {
                    done = done.push(c);
                }
            },
            None => {
                proof { assert(done =~= value@); }
                break;
            },
        }
    }
    let ghost body = out@;
    push_char(&mut out, '"');
    assert(out@ =~= body + seq!['"']);
    out
}

/// How a tool is opened.
#[derive(Debug, Clone, Copy, PartialEq, Eq, Structural)]
pub enum LaunchKind {
    IdeApp,
    Cli,
}

/// A tool together with the command that opens it.
#[derive(Debug, Clone, PartialEq, Eq)]
pub struct ResolvedLaunch {
    pub tool: ToolInfo,
    pub command: Vec<String>,
}

/// The views of a list of strings.
pub open spec fn string_views(v: Seq<String>) -> Seq<Seq<char>> {
    v.map_values(|s: String| s@)
}

/// The shell command that enters `project_dir` and runs `binary` there.
pub open spec fn cli_shell_command(project_dir: Seq<char>, binary: Seq<char>) -> Seq<char> {
    "cd "@ + (seq!['\''] + shell_escaped(project_dir) + seq!['\'']) + " && exec "@ + (seq!['\'']
        + shell_escaped(binary) + seq!['\''])
}

/// The application name an application tool is opened by.
pub open spec fn app_name(tool: ToolInfoView) -> Seq<char> {
    match tool.launch_as {
        Some(name) => name,
        None => tool.name,
    }
}

/// The command that opens `tool`, or the reason it cannot be opened.
/// `binary_is_file` tells whether the tool's install path is a file;
/// `ghostty_exists` whether Ghostty is installed.
pub open spec fn launch_command(
    tool: ToolInfoView,
    project_dir: Option<Seq<char>>,
    ghostty_exists: bool,
    binary_is_file: bool,
) -> Result<Seq<Seq<char>>, Seq<char>> {
    match tool.tool_type {
        ToolType::IDE => Ok(seq!["open"@, "-a"@, app_name(tool)]),
        ToolType::CLI => match tool.install_path {
            None => Err(tool.name + " has no executable path"@),
            Some(binary) => if !binary_is_file {
                Err(binary + " is not an executable file"@)
            } else {
                match project_dir {
                    None => Err("Project folder is required"@),
                    Some(dir) => {
                        let shell = cli_shell_command(dir, binary);
                        if ghostty_exists {
                            Ok(
                                seq![
                                    "open"@,
                                    "-na"@,
                                    "Ghostty.app"@,
                                    "--args"@,
                                    "-e"@,
                                    "/bin/zsh"@,
                                    "-lc"@,
                                    shell,
                                ],
                            )
                        } else {
                            Ok(
                                seq![
                                    "osascript"@,
                                    "-e"@,
                                    "tell application \"Terminal\" to do script "@ + (seq!['"']
                                        + applescript_escaped(shell) + seq!['"']),
                                ],
                            )
                        }
                    },
                }
            },
        },
    }
}

/// The view of an optional string slice.
pub open spec fn opt_view(o: Option<&str>) -> Option<Seq<char>> {
    match o {
        Some(s) => Some(s@),
        None => None,
    }
}

/// Whether `resolved` is what opening `tool` gives: the tool with the
/// command of `launch_command`, or its error.
pub open spec fn launch_matches(
    tool: ToolInfoView,
    project_dir: Option<Seq<char>>,
    ghostty_exists: bool,
    binary_is_file: bool,
    resolved: Result<ResolvedLaunch, String>,
) -> bool {
    match resolved {
        Ok(r) => r.tool@ == tool && launch_command(tool, project_dir, ghostty_exists, binary_is_file)
            == Ok::<Seq<Seq<char>>, Seq<char>>(string_views(r.command@)),
        Err(e) => launch_command(tool, project_dir, ghostty_exists, binary_is_file) == Err::<
            Seq<Seq<char>>,
            Seq<char>,
        >(e@),
    }
}

/// Whether the file check `is_file` answered `answer` for `path`.
pub open spec fn file_check_answered<F: Fn(&str) -> bool>(is_file: F, path: Seq<char>, answer: bool) -> bool {
    exists|s: &str| s@ == path && #[trigger] call_ensures(is_file, (s,), answer)
}

/// Whether opening `tool` checks a file on disk: a command-line tool with an
/// install path.
pub open spec fn checks_install_path(tool: ToolInfoView) -> bool {
    tool.tool_type == ToolType::CLI && tool.install_path is Some
}

/// A list of strings built one by one.
fn strings(parts: &[&str]) -> (v: Vec<String>)
    ensures
        string_views(v@) == parts@.map_values(|p: &str| p@),
{
    let mut v: Vec<String> = Vec::new();
    let mut i: usize = 0;
    while i < parts.len()
        invariant
            i <= parts@.len(),
            string_views(v@) == parts@.take(i as int).map_values(|p: &str| p@),
        decreases parts@.len() - i,
    {
        let s = String::from_str(parts[i]);
        proof {
            assert(string_views(v@.push(s)) =~= string_views(v@).push(s@));
            assert(parts@.take(i + 1).map_values(|p: &str| p@) =~= parts@.take(i as int).map_values(
                |p: &str| p@,
            ).push(parts@[i as int]@));
        }
        v.push(s);
        i += 1;
    }
    proof {
        assert(parts@.take(parts@.len() as int) =~= parts@);
    }
    v
}

/// An application is opened with `open -a` and its launch name, or its
/// display name when it has none; whatever the project folder, Ghostty or
/// the file check, this never fails.
pub proof fn an_app_opens_by_its_launch_name_or_display_name(
    tool: ToolInfoView,
    project_dir: Option<Seq<char>>,
    ghostty_exists: bool,
    binary_is_file: bool,
)
    requires
        tool.tool_type == ToolType::IDE,
    ensures
        tool.launch_as is None ==> launch_command(tool, project_dir, ghostty_exists, binary_is_file)
            == Ok::<Seq<Seq<char>>, Seq<char>>(seq!["open"@, "-a"@, tool.name]),
        tool.launch_as is Some ==> launch_command(tool, project_dir, ghostty_exists, binary_is_file)
            == Ok::<Seq<Seq<char>>, Seq<char>>(seq!["open"@, "-a"@, tool.launch_as->0]),
{
}

/// The command that opens `tool`, given whether its install path is a file.
pub fn resolve_launch_given(
    tool: &ToolInfo,
    project_dir: Option<&str>,
    ghostty_exists: bool,
    binary_is_file: bool,
) -> (resolved: Result<ResolvedLaunch, String>)
    ensures
        launch_matches(tool@, opt_view(project_dir), ghostty_exists, binary_is_file, resolved),
        tool@.tool_type == ToolType::IDE && tool@.launch_as is None ==> (resolved matches Ok(r)
            && string_views(r.command@) == seq!["open"@, "-a"@, tool@.name]),
        tool@.tool_type == ToolType::IDE && tool@.launch_as is Some ==> (resolved matches Ok(r)
            && string_views(r.command@) == seq!["open"@, "-a"@, tool@.launch_as->0]),
{

    match tool.tool_type {
        ToolType::IDE => {
            let launch_name = match &tool.launch_as {
                Some(name) => name.as_str(),
                None => tool.name.as_str(),
            };
            let command = strings(&["open", "-a", launch_name]);
            proof {
                assert(string_views(command@) =~= seq!["open"@, "-a"@, launch_name@]);
            }
            let r = ResolvedLaunch { tool: tool.duplicate(), command };
            assert(launch_name@ == app_name(tool@));
            Ok(r)
        },
        ToolType::CLI => {
            let binary = match &tool.install_path {
                Some(binary) => binary,
                None => {
                    let mut message = tool.name.clone();
                    message.append(" has no executable path");
                    return Err(message);
                },
            };
            if !binary_is_file {
                let mut message = binary.clone();
                message.append(" is not an executable file");
                return Err(message);
            }
            let project_dir = match project_dir {
                Some(dir) => dir,
                None => return Err(String::from_str("Project folder is required")),
            };
            let mut shell = String::from_str("cd ");
            shell.append(shell_quote(project_dir).as_str());
            shell.append(" && exec ");
            shell.append(shell_quote(binary.as_str()).as_str());
            proof {
                assert(shell@ =~= cli_shell_command(project_dir@, binary@));
            }
            let command = if ghostty_exists {
                strings(&["open", "-na", "Ghostty.app", "--args", "-e", "/bin/zsh", "-lc", shell.as_str()])
            } else {
                let mut script = String::from_str("tell application \"Terminal\" to do script ");
                script.append(applescript_string(shell.as_str()).as_str());
                let command = strings(&["osascript", "-e", script.as_str()]);
                proof {
                    assert(string_views(command@) =~= seq!["osascript"@, "-e"@, script@]);
                }
                command
            };
            proof {
                if ghostty_exists {
                    assert(string_views(command@) =~= seq![
                        "open"@,
                        "-na"@,
                        "Ghostty.app"@,
                        "--args"@,
                        "-e"@,
                        "/bin/zsh"@,
                        "-lc"@,
                        shell@,
                    ]);
                }
            }
            Ok(ResolvedLaunch { tool: tool.duplicate(), command })
        },
    }
}

/// The command that opens `tool`. A command-line tool's install path must be
/// a file: `is_file` is asked about that path, and only about it.
pub fn resolve_launch<F: Fn(&str) -> bool>(
    tool: &ToolInfo,
    project_dir: Option<&str>,
    ghostty_exists: bool,
    is_file: F,
) -> (resolved: Result<ResolvedLaunch, String>)
    requires
        forall|s: &str| #[trigger] call_requires(is_file, (s,)),
    ensures
        checks_install_path(tool@) ==> exists|binary_is_file: bool|
            #[trigger] file_check_answered(is_file, tool@.install_path.unwrap(), binary_is_file)
                && launch_matches(tool@, opt_view(project_dir), ghostty_exists, binary_is_file, resolved),
        !checks_install_path(tool@) ==> launch_matches(
            tool@,
            opt_view(project_dir),
            ghostty_exists,
            false,
            resolved,
        ),
{
    let binary_is_file = match tool.tool_type {
        ToolType::CLI => match &tool.install_path {
            Some(path) => {
                let answer = is_file(path.as_str());
                proof {
                    assert(tool@.install_path == Some(path@));
                    assert(file_check_answered(is_file, path@, answer));
                }
                answer
            },
            None => false,
        },
        ToolType::IDE => false,
    };
    let resolved = resolve_launch_given(tool, project_dir, ghostty_exists, binary_is_file);
    proof {
        if checks_install_path(tool@) {
            assert(file_check_answered(is_file, tool@.install_path.unwrap(), binary_is_file));
        } else {
            assert(launch_command(tool@, opt_view(project_dir), ghostty_exists, binary_is_file)
                == launch_command(tool@, opt_view(project_dir), ghostty_exists, false));
        }
    }
    resolved
}

/// The shell command that runs `command` in `folder`.
pub open spec fn folder_shell_command(folder: Seq<char>, command: Seq<char>) -> Seq<char> {
    "cd "@ + (seq!['\''] + shell_escaped(folder) + seq!['\'']) + " && "@ + (seq!['\'']
        + shell_escaped(command) + seq!['\''])
}

/// How the classic menu runs a command-line tool in a picked folder: a new
/// Ghostty window through zsh when Ghostty is installed, else a Terminal
/// window through AppleScript.
pub open spec fn folder_launch_command(folder: Seq<char>, command: Seq<char>, ghostty_exists: bool) -> Seq<
    Seq<char>,
> {
    let shell = folder_shell_command(folder, command);
    if ghostty_exists {
        seq!["open"@, "-a"@, "Ghostty"@, "--args"@, "-e"@, "/bin/zsh"@, "-c"@, shell]
    } else {
        seq![
            "osascript"@,
            "-e"@,
            "tell application \"Terminal\" to do script "@ + (seq!['"'] + applescript_escaped(
                shell,
            ) + seq!['"']),
        ]
    }
}

/// The program and arguments that run `command` in `folder` from the classic
/// menu.
pub fn cli_folder_command(folder: &str, command: &str, ghostty_exists: bool) -> (argv: Vec<String>)
    ensures
        string_views(argv@) == folder_launch_command(folder@, command@, ghostty_exists),
{
    let mut shell = String::from_str("cd ");
    shell.append(shell_quote(folder).as_str());
    shell.append(" && ");
    shell.append(shell_quote(command).as_str());
    proof {
        assert(shell@ =~= folder_shell_command(folder@, command@));
    }
    if ghostty_exists {
        let argv = strings(&["open", "-a", "Ghostty", "--args", "-e", "/bin/zsh", "-c", shell.as_str()]);
        proof {
            assert(string_views(argv@) =~= folder_launch_command(folder@, command@, ghostty_exists));
        }
        argv
    } else {
        let mut script = String::from_str("tell application \"Terminal\" to do script ");
        script.append(applescript_string(shell.as_str()).as_str());
        let argv = strings(&["osascript", "-e", script.as_str()]);
        proof {
            assert(string_views(argv@) =~= folder_launch_command(folder@, command@, ghostty_exists));
        }
        argv
    }
}

} // verus!
