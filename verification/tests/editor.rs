use vim_compose_host::command::Terminal;
use vim_compose_host::error::{HostError, PidParseError};
use vim_compose_host::pid::{parse_pid, PidWait};

#[test]
fn pids_agree_with_std() {
    let cases = [
        "", " ", "\n", "12345", "12345\n", " \t12345\r\n", "+7", "-7", "+", "-", "--1", "+-1", "0",
        "-0", "007", "1 2", "12a", "a12", "2147483647", "2147483648", "-2147483648",
        "-2147483649", "99999999999999999999", "-99999999999999999999", "99999999999x",
        "-99999999999x", "2147483648x", "214748364x", "1_000", "\u{a0}5\u{3000}", "\u{200b}5",
        "\u{b}5\u{c}", "\u{663}", "1.0", "0x10", "\u{85}42\u{2029}", "\u{feff}1",
    ];
    for text in cases {
        match text.trim().parse::<i32>() {
            Ok(n) => assert_eq!(parse_pid(text), Ok(n), "{:?}", text),
            Err(e) => match parse_pid(text) {
                Ok(n) => panic!("{:?} was read as {}", text, n),
                Err(ours) => assert_eq!(ours.message(), e.to_string(), "{:?}", text),
            },
        }
    }
}

#[test]
fn white_space_agrees_with_std() {
    for n in 0u32..0x11_0000 {
        if let Some(c) = char::from_u32(n) {
            if c.is_ascii_digit() {
                continue;
            }
            let text: String = [c, '5', c].iter().collect();
            assert_eq!(parse_pid(&text).is_ok(), c.is_whitespace(), "{:x}", n);
        }
    }
}

#[test]
fn pid_errors_are_told_apart() {
    assert_eq!(parse_pid("\n"), Err(PidParseError::Empty));
    assert_eq!(parse_pid("12a"), Err(PidParseError::InvalidDigit));
    assert_eq!(parse_pid("2147483648"), Err(PidParseError::TooLarge));
    assert_eq!(parse_pid("-2147483649"), Err(PidParseError::TooSmall));
}

#[test]
fn printed_pids_are_read_back() {
    for n in [0, 1, 9, 10, 12345, i32::MAX, -1, i32::MIN] {
        assert_eq!(parse_pid(&format!(" {}\n", n)), Ok(n));
    }
}

#[test]
fn gnome_and_alacritty_wait_on() {
    for terminal in [Terminal::Gnome, Terminal::Alacritty] {
        let mut wait = PidWait::new(terminal);
        for _ in 0..1000 {
            assert!(wait.is_waiting());
            assert_eq!(wait.observe(None), Some(5));
        }
        assert!(wait.is_waiting());
        assert_eq!(wait.observe(Some(String::new())), None);
        assert!(wait.is_waiting());
        assert_eq!(wait.observe(Some("12345\n".to_string())), None);
        assert!(!wait.is_waiting());
        assert_eq!(wait.finish(), Ok(12345));
    }
}

#[test]
fn iterm2_gives_up_after_a_hundred_misses() {
    let mut wait = PidWait::new(Terminal::Iterm2);
    for _ in 0..100 {
        assert!(wait.is_waiting());
        assert_eq!(wait.observe(Some(String::new())), None);
        assert!(wait.is_waiting());
        assert_eq!(wait.observe(None), Some(50));
    }
    assert!(!wait.is_waiting());
    assert_eq!(wait.finish(), Err(HostError::PidTimeout));
}

#[test]
fn iterm2_takes_a_late_pid() {
    let mut wait = PidWait::new(Terminal::Iterm2);
    for _ in 0..99 {
        wait.observe(None);
    }
    assert!(wait.is_waiting());
    wait.observe(Some("77".to_string()));
    assert_eq!(wait.finish(), Ok(77));
}

#[test]
fn a_wait_refuses_what_is_no_pid() {
    let mut wait = PidWait::new(Terminal::Iterm2);
    wait.observe(Some("\n".to_string()));
    assert!(!wait.is_waiting());
    assert_eq!(wait.finish(), Err(HostError::PidInvalid(PidParseError::Empty)));
}
