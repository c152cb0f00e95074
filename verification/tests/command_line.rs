use vedit::command_line::{Command, CommandLine};

fn typed(s: &str) -> CommandLine {
    let mut c = CommandLine::new();
    for ch in s.chars() {
        c.push(ch);
    }
    c
}

#[test]
fn parse_commands() {
    assert_eq!(typed("w").parse(), Command::Save);
    assert_eq!(typed("q").parse(), Command::Quit);
    assert_eq!(typed("wq").parse(), Command::SaveQuit);
    assert_eq!(typed("qw").parse(), Command::SaveQuit);
    assert_eq!(typed("").parse(), Command::Unknown);
    assert_eq!(typed("wqq").parse(), Command::Unknown);
    assert_eq!(typed("x").parse(), Command::Unknown);
}

#[test]
fn push_pop_clear() {
    let mut c = CommandLine::new();
    assert!(c.is_empty());
    c.push('w');
    c.push('é');
    assert!(!c.is_empty());
    c.pop();
    assert_eq!(c.parse(), Command::Save);
    c.pop();
    assert!(c.is_empty());
    c.pop();
    assert!(c.is_empty());
    c.push('q');
    c.clear();
    assert!(c.is_empty());
    assert_eq!(c.chars(), Vec::<char>::new());
}
