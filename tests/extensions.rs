use espanso_core::extension::dummy::DummyExtension;
use espanso_core::extension::random::RandomExtension;
use espanso_core::extension::shell::ShellExtension;
use espanso_core::params::{ParamValue, Params};
use espanso_core::Platform;

fn text(s: &str) -> ParamValue {
    ParamValue::Str(s.to_owned())
}

fn list(items: &[&str]) -> ParamValue {
    ParamValue::List(items.iter().map(|s| Some(s.to_string())).collect())
}

#[test]
fn test_random_basic() {
    let mut params = Params::new();
    let choices = vec!["first", "second", "third"];
    params.insert("choices".to_owned(), list(&choices));

    let extension = RandomExtension::new();
    let output = extension.calculate(&params, &vec![]);

    assert!(output.is_some());

    let output = output.unwrap();

    assert!(choices.iter().any(|x| x == &output));
}

#[test]
fn test_random_with_args() {
    let mut params = Params::new();
    let choices = vec!["first $0$", "second $0$", "$0$ third"];
    params.insert("choices".to_owned(), list(&choices));

    let extension = RandomExtension::new();
    let output = extension.calculate(&params, &vec!["test".to_owned()]);

    assert!(output.is_some());

    let output = output.unwrap();

    let rendered_choices = vec!["first test", "second test", "test third"];

    assert!(rendered_choices.iter().any(|x| x == &output));
}

#[test]
fn random_both_choices_appear() {
    let mut params = Params::new();
    params.insert("choices".to_owned(), list(&["a $0", "b $0"]));
    let extension = RandomExtension::new();
    let args = vec!["z".to_owned()];
    let mut seen_a = false;
    let mut seen_b = false;
    for _ in 0..500 {
        let out = extension.calculate(&params, &args).unwrap();
        assert!(out == "a z" || out == "b z", "unexpected {}", out);
        seen_a |= out == "a z";
        seen_b |= out == "b z";
    }
    assert!(seen_a && seen_b);
}

#[test]
fn random_without_choices_gives_none() {
    let extension = RandomExtension::new();
    assert_eq!(extension.calculate(&Params::new(), &vec![]), None);
    let mut params = Params::new();
    params.insert("choices".to_owned(), list(&[]));
    assert_eq!(extension.calculate(&params, &vec![]), None);
    let mut params = Params::new();
    params.insert("choices".to_owned(), text("one"));
    assert_eq!(extension.calculate(&params, &vec![]), None);
}

#[test]
fn random_non_string_item_counts_as_empty() {
    let mut params = Params::new();
    params.insert("choices".to_owned(), ParamValue::List(vec![None]));
    let extension = RandomExtension::new();
    assert_eq!(extension.calculate(&params, &vec![]), Some(String::new()));
}

#[test]
fn dummy_echoes_its_parameter() {
    let extension = DummyExtension::new();
    assert_eq!(extension.name(), "dummy");
    let mut params = Params::new();
    assert_eq!(extension.calculate(&params, &vec![]), None);
    params.insert("echo".to_owned(), text("hi there"));
    assert_eq!(extension.calculate(&params, &vec![]), Some("hi there".to_owned()));
    params.insert("echo".to_owned(), ParamValue::Bool(true));
    assert_eq!(extension.calculate(&params, &vec![]), Some(String::new()));
}

#[test]
fn test_shell_basic() {
    let mut params = Params::new();
    params.insert("cmd".to_owned(), text("echo hello world"));

    let extension = ShellExtension::new(Platform::Linux);
    let cmd = extension.prepare_command(&params, &vec![]);

    assert_eq!(cmd, Some("echo hello world".to_owned()));
    assert_eq!(extension.process_output(&params, &"hello world\n".to_owned()), "hello world\n");
}

#[test]
fn test_shell_trimmed() {
    let mut params = Params::new();
    params.insert("cmd".to_owned(), text("echo hello world"));
    params.insert("trim".to_owned(), ParamValue::Bool(true));

    let extension = ShellExtension::new(Platform::Linux);
    assert_eq!(extension.prepare_command(&params, &vec![]), Some("echo hello world".to_owned()));
    assert_eq!(extension.process_output(&params, &"hello world\n".to_owned()), "hello world");
}

#[test]
fn test_shell_trimmed_2() {
    let mut params = Params::new();
    params.insert("cmd".to_owned(), text("echo \"   hello world     \""));
    params.insert("trim".to_owned(), ParamValue::Bool(true));

    let extension = ShellExtension::new(Platform::Linux);
    assert_eq!(extension.prepare_command(&params, &vec![]), Some("echo \"   hello world     \"".to_owned()));
    assert_eq!(extension.process_output(&params, &"   hello world     \n".to_owned()), "hello world");
}

#[test]
fn test_shell_trimmed_malformed() {
    let mut params = Params::new();
    params.insert("cmd".to_owned(), text("echo hello world"));
    params.insert("trim".to_owned(), text("error"));

    let extension = ShellExtension::new(Platform::Linux);
    assert!(extension.prepare_command(&params, &vec![]).is_some());
    assert_eq!(extension.process_output(&params, &"hello world\n".to_owned()), "hello world\n");
}

#[test]
fn test_shell_pipes() {
    let mut params = Params::new();
    params.insert("cmd".to_owned(), text("echo hello world | cat"));
    params.insert("trim".to_owned(), ParamValue::Bool(true));

    let extension = ShellExtension::new(Platform::Linux);
    assert_eq!(extension.prepare_command(&params, &vec![]), Some("echo hello world | cat".to_owned()));
    assert_eq!(extension.process_output(&params, &"hello world\n".to_owned()), "hello world");
}

#[test]
fn test_shell_args_unix() {
    let mut params = Params::new();
    params.insert("cmd".to_owned(), text("echo $0"));

    let extension = ShellExtension::new(Platform::Linux);
    let cmd = extension.prepare_command(&params, &vec!["hello".to_owned()]);

    assert_eq!(cmd, Some("echo hello".to_owned()));
    assert_eq!(extension.process_output(&params, &"hello\n".to_owned()), "hello\n");
}

#[test]
fn test_shell_args_windows() {
    let mut params = Params::new();
    params.insert("cmd".to_owned(), text("echo %0"));

    let extension = ShellExtension::new(Platform::Windows);
    let cmd = extension.prepare_command(&params, &vec!["hello".to_owned()]);

    assert_eq!(cmd, Some("echo hello".to_owned()));
    assert_eq!(extension.process_output(&params, &"hello\r\n".to_owned()), "hello\r\n");
}

#[test]
fn shell_trim_of_echo_output() {
    let mut params = Params::new();
    params.insert("cmd".to_owned(), text("echo hello"));
    params.insert("trim".to_owned(), ParamValue::Bool(true));
    let extension = ShellExtension::new(Platform::Linux);
    assert_eq!(extension.prepare_command(&params, &vec![]), Some("echo hello".to_owned()));
    assert_eq!(extension.process_output(&params, &"hello\n".to_owned()), "hello");
}

#[test]
fn shell_missing_or_bad_command() {
    let extension = ShellExtension::new(Platform::Linux);
    assert_eq!(extension.prepare_command(&Params::new(), &vec![]), None);
    let mut params = Params::new();
    params.insert("cmd".to_owned(), ParamValue::Bool(false));
    assert_eq!(extension.prepare_command(&params, &vec![]), None);
}

#[test]
fn shell_out_of_range_argument_is_empty() {
    let mut params = Params::new();
    params.insert("cmd".to_owned(), text("echo $1 $0 $12"));
    let extension = ShellExtension::new(Platform::Linux);
    assert_eq!(extension.prepare_command(&params, &vec!["a".to_owned()]), Some("echo  a ".to_owned()));
    let windows = ShellExtension::new(Platform::Windows);
    assert_eq!(windows.prepare_command(&params, &vec!["a".to_owned()]), Some("echo $1 $0 $12".to_owned()));
}

#[test]
fn shell_trim_keeps_inner_space_and_handles_blank() {
    let mut params = Params::new();
    params.insert("trim".to_owned(), ParamValue::Bool(true));
    let extension = ShellExtension::new(Platform::Linux);
    assert_eq!(extension.process_output(&params, &" \t a  b \r\n".to_owned()), "a  b");
    assert_eq!(extension.process_output(&params, &" \n\t".to_owned()), "");
    assert_eq!(extension.process_output(&params, &"\u{3000}x\u{a0}".to_owned()), "x");
}

#[test]
fn params_newest_value_wins() {
    let mut params = Params::new();
    params.insert("k".to_owned(), text("old"));
    params.insert("j".to_owned(), text("other"));
    params.insert("k".to_owned(), text("new"));
    assert!(matches!(params.get("k"), Some(ParamValue::Str(s)) if s == "new"));
    assert!(matches!(params.get("j"), Some(ParamValue::Str(s)) if s == "other"));
    assert!(params.get("missing").is_none());
}
