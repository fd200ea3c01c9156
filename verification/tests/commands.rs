use std::path::Path;
use tempfile::TempDir;
use vim_compose_host::command::{
    apple_script, editor_command, html_to_markdown_command, markdown_to_html_command,
    shell_command, Arg, CommandLine, Stream, Terminal,
};
use vim_compose_host::text::escape_quotes;

fn texts(command: &CommandLine) -> Vec<String> {
    command
        .args
        .iter()
        .map(|arg| match arg {
            Arg::Text(text) => text.clone(),
            Arg::File => "<file>".to_string(),
        })
        .collect()
}

#[test]
fn test_spawn_editor_gnome_command_structure() {
    let temp_dir = TempDir::new().unwrap();
    let src_path = temp_dir.path().join("test-file.txt");
    let src_path_disp = src_path.display().to_string();
    let pid_dir = temp_dir.path().join("pid-dir");
    let tmp_pid_path_disp = pid_dir.join("pid-tmp").display().to_string();
    let pid_path_disp = pid_dir.join("pid").display().to_string();

    let command = editor_command(
        Terminal::Gnome,
        &src_path_disp,
        &tmp_pid_path_disp,
        &pid_path_disp,
    );
    let shell_command = texts(&command)[5].clone();

    assert!(shell_command.contains(&format!("exec vim '{}'", src_path_disp)));
    assert!(shell_command.contains(&format!("echo $$ > '{}'", tmp_pid_path_disp)));
    assert!(shell_command.contains(&format!("mv '{}' '{}'", tmp_pid_path_disp, pid_path_disp)));
}

#[test]
fn test_spawn_editor_iterm2_applescript_structure() {
    let temp_dir = TempDir::new().unwrap();
    let src_path_disp = temp_dir.path().join("test-file.txt").display().to_string();
    let tmp_pid_path_disp = temp_dir.path().join("pid-tmp").display().to_string();
    let pid_path_disp = temp_dir.path().join("pid").display().to_string();

    let shell_command = shell_command(&src_path_disp, &tmp_pid_path_disp, &pid_path_disp);
    let apple_script = apple_script(&shell_command);

    assert!(apple_script.contains("tell application \"iTerm2\""));
    assert!(apple_script.contains("create window with default profile command"));
    assert!(apple_script.contains(&format!("exec vim '{}'", src_path_disp)));
}

#[test]
fn test_spawn_editor_platform_selection() {
    let is_macos = Path::new("/System/Library/CoreServices").exists();
    let is_linux = Path::new("/proc/self").exists();

    assert!(
        is_macos || is_linux,
        "spawn_editor should be tested on macOS or Linux"
    );
    let (os, expected) = if is_macos {
        ("macos", Terminal::Alacritty)
    } else {
        ("linux", Terminal::Gnome)
    };
    assert_eq!(Terminal::for_os(os), expected);
}

#[test]
fn test_spawn_editor_iterm2_escaped_quotes() {
    let temp_dir = TempDir::new().unwrap();
    let src_path_disp = temp_dir.path().join("test-\"quote\".txt").display().to_string();
    let tmp_pid_path_disp = temp_dir.path().join("pid-tmp").display().to_string();
    let pid_path_disp = temp_dir.path().join("pid").display().to_string();

    let shell_command = shell_command(&src_path_disp, &tmp_pid_path_disp, &pid_path_disp);
    let apple_script = apple_script(&shell_command);

    assert!(!apple_script.contains(r#"test-"quote".txt"#));
    assert!(apple_script.contains(r#"test-\"quote\".txt"#));
}

#[test]
fn test_spawn_editor_gnome_command_arguments() {
    let temp_dir = TempDir::new().unwrap();
    let src_path_disp = temp_dir.path().join("test.txt").display().to_string();
    let pid_dir = TempDir::new().unwrap();
    let tmp_pid_path_disp = pid_dir.path().join("pid-tmp").display().to_string();
    let pid_path_disp = pid_dir.path().join("pid").display().to_string();

    let shell_command = shell_command(&src_path_disp, &tmp_pid_path_disp, &pid_path_disp);

    assert!(shell_command.contains("exec"));
    assert!(shell_command.contains("vim"));
    assert!(shell_command.contains(&src_path_disp));
}

#[test]
fn shell_command_is_three_lines() {
    assert_eq!(
        shell_command("/s/input", "/p/pid-tmp", "/p/pid"),
        "echo $$ > '/p/pid-tmp'\nmv '/p/pid-tmp' '/p/pid'\nexec vim '/s/input'\n"
    );
}

#[test]
fn apple_script_is_exact() {
    assert_eq!(
        apple_script("say \"hi\"\n"),
        "tell application \"iTerm2\"\n            create window with default profile command \"say \\\"hi\\\"\n\"\n        end tell"
    );
}

#[test]
fn gnome_command_is_exact() {
    let command = editor_command(Terminal::Gnome, "/s", "/t", "/p");
    assert_eq!(command.program, "gnome-terminal");
    assert_eq!(
        texts(&command),
        vec![
            "--wait",
            "--hide-menubar",
            "--",
            "sh",
            "-c",
            "echo $$ > '/t'\nmv '/t' '/p'\nexec vim '/s'\n"
        ]
    );
    assert_eq!(
        (command.stdin, command.stdout, command.stderr),
        (Stream::Null, Stream::Null, Stream::Null)
    );
}

#[test]
fn alacritty_command_is_exact() {
    let command = editor_command(Terminal::Alacritty, "/s", "/t", "/p");
    assert_eq!(
        command.program,
        "/Applications/Alacritty.app/Contents/MacOS/alacritty"
    );
    assert_eq!(
        texts(&command),
        vec!["-e", "sh", "-c", "echo $$ > '/t'\nmv '/t' '/p'\nexec vim '/s'\n"]
    );
}

#[test]
fn iterm2_command_is_exact() {
    let command = editor_command(Terminal::Iterm2, "/\"s\"", "/t", "/p");
    assert_eq!(command.program, "osascript");
    assert_eq!(
        texts(&command),
        vec![
            "-e".to_string(),
            apple_script(&shell_command("/\"s\"", "/t", "/p"))
        ]
    );
}

#[test]
fn pandoc_commands_are_exact() {
    let to_markdown = html_to_markdown_command();
    assert_eq!(to_markdown.program, "pandoc");
    assert_eq!(
        texts(&to_markdown),
        vec!["-", "--sandbox", "--output", "<file>", "--from", "html", "--to", "gfm"]
    );
    assert_eq!(
        (to_markdown.stdin, to_markdown.stdout, to_markdown.stderr),
        (Stream::Piped, Stream::Null, Stream::Null)
    );
    let to_html = markdown_to_html_command();
    assert_eq!(to_html.program, "pandoc");
    assert_eq!(
        texts(&to_html),
        vec!["<file>", "--sandbox", "--output", "-", "--from", "gfm", "--to", "html"]
    );
    assert_eq!(
        (to_html.stdin, to_html.stdout, to_html.stderr),
        (Stream::Null, Stream::Piped, Stream::Null)
    );
}

#[test]
fn terminal_depends_on_macos_alone() {
    assert_eq!(Terminal::for_os("macos"), Terminal::Alacritty);
    assert_eq!(Terminal::for_os("linux"), Terminal::Gnome);
    assert_eq!(Terminal::for_os("freebsd"), Terminal::Gnome);
    assert_eq!(Terminal::for_os(""), Terminal::Gnome);
}

#[test]
fn escaping_agrees_with_replace() {
    for text in ["", "\"", "\\\"", "a\"b\"", "no quotes", "\"\"", "\u{fc}\"\u{1f600}"] {
        assert_eq!(escape_quotes(text), text.replace('"', "\\\""));
    }
}

#[test]
fn escaping_works_piece_by_piece() {
    let (a, b) = ("say \"hi", "\" twice");
    assert_eq!(
        escape_quotes(&format!("{}{}", a, b)),
        format!("{}{}", escape_quotes(a), escape_quotes(b))
    );
}

#[test]
fn no_quote_is_left_bare() {
    let escaped: Vec<char> = escape_quotes("\"a\" \\\" \"\"").chars().collect();
    for i in 0..escaped.len() {
        if escaped[i] == '"' {
            assert!(i > 0 && escaped[i - 1] == '\\');
        }
    }
}
