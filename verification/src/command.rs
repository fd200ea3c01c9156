//! The commands that the host runs: terminals with an editor inside, and pandoc.

use crate::text::{escape_quotes, same_text};
use vstd::prelude::*;

verus! {

/// Where a standard stream of a command leads.
#[derive(Clone, Copy, Debug, PartialEq, Eq, Structural)]
pub enum Stream {
    /// Nowhere.
    Null,
    /// To the host.
    Piped,
}

/// An argument of a command.
#[derive(Debug)]
pub enum Arg {
    /// A text.
    Text(String),
    /// The path of the file that the command works on.
    File,
}

/// A command with its arguments and streams.
#[derive(Debug)]
pub struct CommandLine {
    pub program: String,
    pub args: Vec<Arg>,
    pub stdin: Stream,
    pub stdout: Stream,
    pub stderr: Stream,
}

/// What an argument is.
pub enum ArgView {
    Text(Seq<char>),
    File,
}

/// What a command is.
pub struct CommandView {
    pub program: Seq<char>,
    pub args: Seq<ArgView>,
    pub stdin: Stream,
    pub stdout: Stream,
    pub stderr: Stream,
}

impl View for Arg {
    type V = ArgView;

    open spec fn view(&self) -> ArgView {
        match self {
            Arg::Text(text) => ArgView::Text(text@),
            Arg::File => ArgView::File,
        }
    }
}

impl View for CommandLine {
    type V = CommandView;

    open spec fn view(&self) -> CommandView {
        CommandView {
            program: self.program@,
            args: self.args@.map_values(|arg: Arg| arg@),
            stdin: self.stdin,
            stdout: self.stdout,
            stderr: self.stderr,
        }
    }
}

/// A terminal that can run an editor.
#[derive(Clone, Copy, Debug, PartialEq, Eq, Structural)]
pub enum Terminal {
    Gnome,
    Alacritty,
    Iterm2,
}

impl Terminal {
    /// The terminal in which the editor is opened on an operating system, given by
    /// the name that the compiler has for it.
    pub fn for_os(os: &str) -> (terminal: Terminal)
        ensures
            terminal == (if os@ == "macos"@ {
                Terminal::Alacritty
            } else {
                Terminal::Gnome
            }),
    {
        if same_text(os, "macos") {
            Terminal::Alacritty
        } else {
            Terminal::Gnome
        }
    }
}

/// The line that leaves the process id of the shell in the temporary file.
pub open spec fn echo_line(tmp_pid_path: Seq<char>) -> Seq<char> {
    "echo $$ > '"@ + tmp_pid_path + "'"@
}

/// The line that moves the temporary file to where the host looks for it.
pub open spec fn move_line(tmp_pid_path: Seq<char>, pid_path: Seq<char>) -> Seq<char> {
    "mv '"@ + tmp_pid_path + "' '"@ + pid_path + "'"@
}

/// The line that replaces the shell by the editor.
pub open spec fn exec_line(src_path: Seq<char>) -> Seq<char> {
    "exec vim '"@ + src_path + "'"@
}

/// The script that a terminal runs: it publishes the process id of its shell in one
/// step and then becomes the editor, under the same process id.
pub open spec fn shell_script(
    src_path: Seq<char>,
    tmp_pid_path: Seq<char>,
    pid_path: Seq<char>,
) -> Seq<char> {
    echo_line(tmp_pid_path) + "\n"@ + move_line(tmp_pid_path, pid_path) + "\n"@ + exec_line(
        src_path,
    ) + "\n"@
}

/// The script that opens an iTerm2 window with a shell command in it.
pub open spec fn apple_script_text(shell_command: Seq<char>) -> Seq<char> {
    "tell application \"iTerm2\"\n            create window with default profile command \""@
        + crate::text::quotes_escaped(shell_command) + "\"\n        end tell"@
}

/// A command with all its streams closed.
pub open spec fn detached(program: Seq<char>, args: Seq<ArgView>) -> CommandView {
    CommandView {
        program,
        args,
        stdin: Stream::Null,
        stdout: Stream::Null,
        stderr: Stream::Null,
    }
}

/// The command that opens a terminal with the editor in it.
pub open spec fn editor_command_line(
    terminal: Terminal,
    src_path: Seq<char>,
    tmp_pid_path: Seq<char>,
    pid_path: Seq<char>,
) -> CommandView {
    let script = shell_script(src_path, tmp_pid_path, pid_path);
    match terminal {
        Terminal::Gnome => detached(
            "gnome-terminal"@,
            seq![
                ArgView::Text("--wait"@),
                ArgView::Text("--hide-menubar"@),
                ArgView::Text("--"@),
                ArgView::Text("sh"@),
                ArgView::Text("-c"@),
                ArgView::Text(script),
            ],
        ),
        Terminal::Alacritty => detached(
            "/Applications/Alacritty.app/Contents/MacOS/alacritty"@,
            seq![
                ArgView::Text("-e"@),
                ArgView::Text("sh"@),
                ArgView::Text("-c"@),
                ArgView::Text(script),
            ],
        ),
        Terminal::Iterm2 => detached(
            "osascript"@,
            seq![ArgView::Text("-e"@), ArgView::Text(apple_script_text(script))],
        ),
    }
}

/// The command that turns the HTML on its input into a Markdown file.
pub open spec fn html_to_markdown_line() -> CommandView {
    CommandView {
        program: "pandoc"@,
        args: seq![
            ArgView::Text("-"@),
            ArgView::Text("--sandbox"@),
            ArgView::Text("--output"@),
            ArgView::File,
            ArgView::Text("--from"@),
            ArgView::Text("html"@),
            ArgView::Text("--to"@),
            ArgView::Text("gfm"@),
        ],
        stdin: Stream::Piped,
        stdout: Stream::Null,
        stderr: Stream::Null,
    }
}

/// The command that prints a Markdown file as HTML.
pub open spec fn markdown_to_html_line() -> CommandView {
    CommandView {
        program: "pandoc"@,
        args: seq![
            ArgView::File,
            ArgView::Text("--sandbox"@),
            ArgView::Text("--output"@),
            ArgView::Text("-"@),
            ArgView::Text("--from"@),
            ArgView::Text("gfm"@),
            ArgView::Text("--to"@),
            ArgView::Text("html"@),
        ],
        stdin: Stream::Null,
        stdout: Stream::Piped,
        stderr: Stream::Null,
    }
}

/// A text argument.
fn text_arg(text: &str) -> (arg: Arg)
    ensures
        arg@ == ArgView::Text(text@),
{
    Arg::Text(text.to_owned())
}

/// The script that a terminal runs to become the editor.
pub fn shell_command(src_path: &str, tmp_pid_path: &str, pid_path: &str) -> (script: String)
    ensures
        script@ == shell_script(src_path@, tmp_pid_path@, pid_path@),
{
    let mut script = String::new();
    script.append("echo $$ > '");
    script.append(tmp_pid_path);
    script.append("'");
    script.append("\n");
    script.append("mv '");
    script.append(tmp_pid_path);
    script.append("' '");
    script.append(pid_path);
    script.append("'");
    script.append("\n");
    script.append("exec vim '");
    script.append(src_path);
    script.append("'");
    script.append("\n");
    proof {
        assert(script@ =~= shell_script(src_path@, tmp_pid_path@, pid_path@));
    }
    script
}

/// The script that opens an iTerm2 window with a shell command in it. The command
/// stands between double quotes, so its own are escaped.
pub fn apple_script(shell_command: &str) -> (script: String)
    ensures
        script@ == apple_script_text(shell_command@),
{
    let mut script =
        "tell application \"iTerm2\"\n            create window with default profile command \"".to_owned();
    script.append(escape_quotes(shell_command).as_str());
    script.append("\"\n        end tell");
    script
}

/// The command that opens a terminal with the editor in it.
pub fn editor_command(
    terminal: Terminal,
    src_path: &str,
    tmp_pid_path: &str,
    pid_path: &str,
) -> (command: CommandLine)
    ensures
        command@ == editor_command_line(terminal, src_path@, tmp_pid_path@, pid_path@),
{
    let script = shell_command(src_path, tmp_pid_path, pid_path);
    let (program, args): (&str, Vec<Arg>) = match terminal {
        Terminal::Gnome => (
            "gnome-terminal",
            vec![
                text_arg("--wait"),
                text_arg("--hide-menubar"),
                text_arg("--"),
                text_arg("sh"),
                text_arg("-c"),
                Arg::Text(script),
            ],
        ),
        Terminal::Alacritty => (
            "/Applications/Alacritty.app/Contents/MacOS/alacritty",
            vec![text_arg("-e"), text_arg("sh"), text_arg("-c"), Arg::Text(script)],
        ),
        Terminal::Iterm2 => (
            "osascript",
            vec![text_arg("-e"), Arg::Text(apple_script(script.as_str()))],
        ),
    };
    let command = CommandLine {
        program: program.to_owned(),
        args,
        stdin: Stream::Null,
        stdout: Stream::Null,
        stderr: Stream::Null,
    };
    proof {
        assert(command@.args =~= editor_command_line(
            terminal,
            src_path@,
            tmp_pid_path@,
            pid_path@,
        ).args);
    }
    command
}

/// The command that turns the HTML on its input into a Markdown file.
pub fn html_to_markdown_command() -> (command: CommandLine)
    ensures
        command@ == html_to_markdown_line(),
{
    let command = CommandLine {
        program: "pandoc".to_owned(),
        args: vec![
            text_arg("-"),
            text_arg("--sandbox"),
            text_arg("--output"),
            Arg::File,
            text_arg("--from"),
            text_arg("html"),
            text_arg("--to"),
            text_arg("gfm"),
        ],
        stdin: Stream::Piped,
        stdout: Stream::Null,
        stderr: Stream::Null,
    };
    proof {
        assert(command@.args =~= html_to_markdown_line().args);
    }
    command
}

/// The command that prints a Markdown file as HTML.
pub fn markdown_to_html_command() -> (command: CommandLine)
    ensures
        command@ == markdown_to_html_line(),
{
    let command = CommandLine {
        program: "pandoc".to_owned(),
        args: vec![
            Arg::File,
            text_arg("--sandbox"),
            text_arg("--output"),
            text_arg("-"),
            text_arg("--from"),
            text_arg("gfm"),
            text_arg("--to"),
            text_arg("html"),
        ],
        stdin: Stream::Null,
        stdout: Stream::Piped,
        stderr: Stream::Null,
    };
    proof {
        assert(command@.args =~= markdown_to_html_line().args);
    }
    command
}

/// Law: the script names the process id, publishes it and becomes the editor, in this
/// order, whatever the paths are.
pub proof fn law_script_publishes_then_edits(
    src_path: Seq<char>,
    tmp_pid_path: Seq<char>,
    pid_path: Seq<char>,
)
    ensures
        ({
            let script = shell_script(src_path, tmp_pid_path, pid_path);
            &&& script.take(echo_line(tmp_pid_path).len() as int) == echo_line(tmp_pid_path)
            &&& crate::text::occurs_in(echo_line(tmp_pid_path), script)
            &&& crate::text::occurs_in(move_line(tmp_pid_path, pid_path), script)
            &&& crate::text::occurs_in(exec_line(src_path), script)
            &&& script.skip(script.len() - (exec_line(src_path) + "\n"@).len()) == exec_line(src_path)
                + "\n"@
        }),
{
    let script = shell_script(src_path, tmp_pid_path, pid_path);
    let echo = echo_line(tmp_pid_path);
    let mv = move_line(tmp_pid_path, pid_path);
    let exec = exec_line(src_path);
    let nl = "\n"@;
    assert(script.take(echo.len() as int) =~= echo);
    assert(script.skip(script.len() - (exec + nl).len()) =~= exec + nl);
    assert(script =~= Seq::empty() + echo + (nl + mv + nl + exec + nl));
    assert(script =~= (echo + nl) + mv + (nl + exec + nl));
    assert(script =~= (echo + nl + mv + nl) + exec + nl);
}

/// Law: what a shell command holds, its AppleScript holds with the quotes escaped;
/// where it holds no quotes, as it is.
pub proof fn law_apple_script_holds_command(part: Seq<char>, shell_command: Seq<char>)
    requires
        crate::text::occurs_in(part, shell_command),
    ensures
        crate::text::occurs_in(
            crate::text::quotes_escaped(part),
            apple_script_text(shell_command),
        ),
        !part.contains('"') ==> crate::text::occurs_in(part, apple_script_text(shell_command)),
{
    let (before, after) = choose|before: Seq<char>, after: Seq<char>|
        shell_command == #[trigger] (before + part + after);
    crate::text::law_escape_joins(before + part, after);
    crate::text::law_escape_joins(before, part);
    let start = "tell application \"iTerm2\"\n            create window with default profile command \""@;
    let end = "\"\n        end tell"@;
    let escaped = crate::text::quotes_escaped(part);
    assert(apple_script_text(shell_command) =~= (start + crate::text::quotes_escaped(before))
        + escaped + (crate::text::quotes_escaped(after) + end));
    if !part.contains('"') {
        crate::text::law_escape_without_quotes(part);
    }
}

/// Law: in the AppleScript, each double quote between the two that enclose the shell
/// command has a backslash before it.
pub proof fn law_quotes_in_command_are_escaped(shell_command: Seq<char>)
    ensures
        ({
            let script = apple_script_text(shell_command);
            let start =
                "tell application \"iTerm2\"\n            create window with default profile command \""@.len();
            let end = script.len() - "\"\n        end tell"@.len();
            &&& script[start - 1] == '"'
            &&& script[end] == '"'
            &&& forall|i: int|
                start <= i < end && #[trigger] script[i] == '"' ==> start < i && script[i - 1] == '\\'
        }),
{
    reveal_strlit("tell application \"iTerm2\"\n            create window with default profile command \"");
    reveal_strlit("\"\n        end tell");
    let script = apple_script_text(shell_command);
    let start =
        "tell application \"iTerm2\"\n            create window with default profile command \""@.len();
    let end = script.len() - "\"\n        end tell"@.len();
    let escaped = crate::text::quotes_escaped(shell_command);
    crate::text::law_no_bare_quote(shell_command);
    assert forall|i: int| start <= i < end && #[trigger] script[i] == '"' implies start < i
        && script[i - 1] == '\\' by {
        assert(script[i] == escaped[i - start]);
        assert(script[i - 1] == escaped[i - start - 1]);
    }
}

/// Law: a command is seen as it is: its program, each argument in its place, and its
/// streams.
pub proof fn law_command_is_seen_as_it_is(command: CommandLine)
    ensures
        command@.program == command.program@,
        command@.args.len() == command.args@.len(),
        forall|i: int|
            0 <= i < command.args@.len() ==> (#[trigger] command@.args[i] == (match command.args@[i] {
                Arg::Text(text) => ArgView::Text(text@),
                Arg::File => ArgView::File,
            })),
        command@.stdin == command.stdin,
        command@.stdout == command.stdout,
        command@.stderr == command.stderr,
{
}

/// Law: whatever the paths are, the script has these lines and no others.
pub proof fn law_script_line_by_line(
    src_path: &str,
    tmp_pid_path: &str,
    pid_path: &str,
    script: String,
)
    requires
        call_ensures(shell_command, (src_path, tmp_pid_path, pid_path), script),
    ensures
        script@ == "echo $$ > '"@ + tmp_pid_path@ + "'\nmv '"@ + tmp_pid_path@ + "' '"@ + pid_path@
            + "'\nexec vim '"@ + src_path@ + "'\n"@,
{
    lemma_script_text(src_path@, tmp_pid_path@, pid_path@);
}

proof fn lemma_script_text(src_path: Seq<char>, tmp_pid_path: Seq<char>, pid_path: Seq<char>)
    ensures
        shell_script(src_path, tmp_pid_path, pid_path) == "echo $$ > '"@ + tmp_pid_path
            + "'\nmv '"@ + tmp_pid_path + "' '"@ + pid_path + "'\nexec vim '"@ + src_path + "'\n"@,
{
    reveal_strlit("'");
    reveal_strlit("\n");
    reveal_strlit("mv '");
    reveal_strlit("exec vim '");
    reveal_strlit("'\nmv '");
    reveal_strlit("'\nexec vim '");
    reveal_strlit("'\n");
    assert("'\nmv '"@ =~= "'"@ + "\n"@ + "mv '"@);
    assert("'\nexec vim '"@ =~= "'"@ + "\n"@ + "exec vim '"@);
    assert("'\n"@ =~= "'"@ + "\n"@);
    assert(shell_script(src_path, tmp_pid_path, pid_path) =~= "echo $$ > '"@ + tmp_pid_path
        + "'\nmv '"@ + tmp_pid_path + "' '"@ + pid_path + "'\nexec vim '"@ + src_path + "'\n"@);
}

/// Law: the AppleScript asks iTerm2 for one window, with the escaped command in it and
/// nothing else.
pub proof fn law_apple_script_around_command(command: &str, script: String)
    requires
        call_ensures(apple_script, (command,), script),
    ensures
        script@
            == "tell application \"iTerm2\"\n            create window with default profile command \""@
            + crate::text::quotes_escaped(command@) + "\"\n        end tell"@,
{
}

/// Law: each terminal is started by its own program, in the background, and is told to
/// run the script for the paths that were given.
pub proof fn law_terminal_runs_the_script(
    terminal: Terminal,
    src_path: &str,
    tmp_pid_path: &str,
    pid_path: &str,
    command: CommandLine,
)
    requires
        call_ensures(editor_command, (terminal, src_path, tmp_pid_path, pid_path), command),
    ensures
        command.stdin == Stream::Null,
        command.stdout == Stream::Null,
        command.stderr == Stream::Null,
        ({
            let script = "echo $$ > '"@ + tmp_pid_path@ + "'\nmv '"@ + tmp_pid_path@ + "' '"@
                + pid_path@ + "'\nexec vim '"@ + src_path@ + "'\n"@;
            let args = command.args@;
            match terminal {
                Terminal::Gnome => {
                    &&& command.program@ == "gnome-terminal"@
                    &&& args.len() == 6
                    &&& args[0] matches Arg::Text(text) && text@ == "--wait"@
                    &&& args[1] matches Arg::Text(text) && text@ == "--hide-menubar"@
                    &&& args[2] matches Arg::Text(text) && text@ == "--"@
                    &&& args[3] matches Arg::Text(text) && text@ == "sh"@
                    &&& args[4] matches Arg::Text(text) && text@ == "-c"@
                    &&& args[5] matches Arg::Text(text) && text@ == script
                },
                Terminal::Alacritty => {
                    &&& command.program@ == "/Applications/Alacritty.app/Contents/MacOS/alacritty"@
                    &&& args.len() == 4
                    &&& args[0] matches Arg::Text(text) && text@ == "-e"@
                    &&& args[1] matches Arg::Text(text) && text@ == "sh"@
                    &&& args[2] matches Arg::Text(text) && text@ == "-c"@
                    &&& args[3] matches Arg::Text(text) && text@ == script
                },
                Terminal::Iterm2 => {
                    &&& command.program@ == "osascript"@
                    &&& args.len() == 2
                    &&& args[0] matches Arg::Text(text) && text@ == "-e"@
                    &&& args[1] matches Arg::Text(text) && text@
                        == "tell application \"iTerm2\"\n            create window with default profile command \""@
                        + crate::text::quotes_escaped(script) + "\"\n        end tell"@
                },
            }
        }),
{
    law_command_is_seen_as_it_is(command);
    lemma_script_text(src_path@, tmp_pid_path@, pid_path@);
    let seen = command@.args;
    match terminal {
        Terminal::Gnome => {
            assert(seen[0] == ArgView::Text("--wait"@));
            assert(seen[1] == ArgView::Text("--hide-menubar"@));
            assert(seen[2] == ArgView::Text("--"@));
            assert(seen[3] == ArgView::Text("sh"@));
            assert(seen[4] == ArgView::Text("-c"@));
            assert(seen[5] is Text);
        },
        Terminal::Alacritty => {
            assert(seen[0] == ArgView::Text("-e"@));
            assert(seen[1] == ArgView::Text("sh"@));
            assert(seen[2] == ArgView::Text("-c"@));
            assert(seen[3] is Text);
        },
        Terminal::Iterm2 => {
            assert(seen[0] == ArgView::Text("-e"@));
            assert(seen[1] is Text);
        },
    }
}

/// Law: on its way to Markdown, HTML goes in by the input of pandoc, and Markdown comes
/// out in the file.
pub proof fn law_pandoc_writes_markdown(command: CommandLine)
    requires
        call_ensures(html_to_markdown_command, (), command),
    ensures
        command@ == (CommandView {
            program: "pandoc"@,
            args: seq![
                ArgView::Text("-"@),
                ArgView::Text("--sandbox"@),
                ArgView::Text("--output"@),
                ArgView::File,
                ArgView::Text("--from"@),
                ArgView::Text("html"@),
                ArgView::Text("--to"@),
                ArgView::Text("gfm"@),
            ],
            stdin: Stream::Piped,
            stdout: Stream::Null,
            stderr: Stream::Null,
        }),
{
}

/// Law: on its way back, Markdown is read from the file, and HTML comes out by the output
/// of pandoc.
pub proof fn law_pandoc_prints_html(command: CommandLine)
    requires
        call_ensures(markdown_to_html_command, (), command),
    ensures
        command@ == (CommandView {
            program: "pandoc"@,
            args: seq![
                ArgView::File,
                ArgView::Text("--sandbox"@),
                ArgView::Text("--output"@),
                ArgView::Text("-"@),
                ArgView::Text("--from"@),
                ArgView::Text("gfm"@),
                ArgView::Text("--to"@),
                ArgView::Text("html"@),
            ],
            stdin: Stream::Null,
            stdout: Stream::Piped,
            stderr: Stream::Null,
        }),
{
}

/// Law: the editor is opened in Alacritty on macOS, and in the terminal of GNOME on every
/// other operating system.
pub proof fn law_terminal_by_os(os: &str, terminal: Terminal)
    requires
        call_ensures(Terminal::for_os, (os,), terminal),
    ensures
        terminal == Terminal::Alacritty <==> os@ == "macos"@,
        terminal == Terminal::Gnome <==> os@ != "macos"@,
{
}

} // verus!
