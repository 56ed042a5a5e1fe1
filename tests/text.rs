use espanso_core::matcher::{x11_event, x11_modifier, KeyEvent, KeyModifier, Matcher};
use espanso_core::model::{ExtensionKind, Match, MatchContent, RenderResult, Variable};
use espanso_core::params::{ParamValue, Params};
use espanso_core::render::{Evaluation, Renderer};
use espanso_core::text::{extract_cursor_hint, normalize, substitute_positional, white_space};
use espanso_core::Platform;

fn chars(s: &str) -> Vec<char> {
    s.chars().collect()
}

fn string(v: &[char]) -> String {
    v.iter().collect()
}

fn matcher_of(triggers: &[(&str, bool)]) -> Matcher {
    let matches: Vec<Match> = triggers
        .iter()
        .map(|(t, w)| Match {
            trigger: t.to_string(),
            content: MatchContent::Text { template: String::new(), vars: Vec::new() },
            word: *w,
        })
        .collect();
    Matcher::new(&matches)
}

fn feed(m: &mut Matcher, s: &str) -> Vec<(usize, usize, Option<char>)> {
    let mut found = Vec::new();
    for (i, c) in s.chars().enumerate() {
        let out = m.on_event(&KeyEvent::Char(c.to_string()));
        assert_eq!(out.len(), 1);
        if let Some((k, sep)) = out[0] {
            found.push((i, k, sep));
        }
    }
    found
}

#[test]
fn normalize_crlf() {
    assert_eq!(string(&normalize(&chars("a\r\nb\rc\n"))), "a\nb\rc\n");
    let once = normalize(&chars("x\r\n\r\ny"));
    assert_eq!(normalize(&once), once);
    assert_eq!(string(&normalize(&chars("\r\r\n"))), "\r\n");
}

#[test]
fn cursor_hint_first_only() {
    let (t, back) = extract_cursor_hint(&chars("<p>$|$</p>")).unwrap();
    assert_eq!(string(&t), "<p></p>");
    assert_eq!(back, 4);
    let (t, back) = extract_cursor_hint(&chars("a$|$b$|$c")).unwrap();
    assert_eq!(string(&t), "ab$|$c");
    assert_eq!(back, 5);
    assert!(extract_cursor_hint(&chars("no hint $|")).is_none());
}

#[test]
fn positional_arguments() {
    let args = vec!["x".to_owned(), "y".to_owned()];
    assert_eq!(string(&substitute_positional(&chars("$1-$0$-$7 $ $a"), &args, '$', true)), "y-x- $ $a");
    assert_eq!(string(&substitute_positional(&chars("$0$"), &args, '$', false)), "x$");
    assert_eq!(string(&substitute_positional(&chars("$99999999999999999999999"), &args, '$', false)), "");
}

#[test]
fn template_variables_are_substituted() {
    let bindings = vec![("name".to_owned(), "Ann".to_owned()), ("n2".to_owned(), "2".to_owned())];
    let out = Renderer::render_text(&"Hi {{name}}, {{ n2 }} {{unknown}} {{ name}\r\n".to_owned(), &bindings);
    assert_eq!(out, "Hi Ann, 2 {{unknown}} {{ name}\n");
}

#[test]
fn variables_through_their_extensions() {
    let renderer = Renderer::new(Platform::Linux);
    let mut params = Params::new();
    params.insert("echo".to_owned(), ParamValue::Str("hey".to_owned()));
    let var = Variable { name: "v".to_owned(), kind: ExtensionKind::Dummy, params };
    let value = match renderer.evaluate(&var, &vec![]) {
        Evaluation::Ready(v) => v,
        Evaluation::RunShell(_) => panic!("no command expected"),
    };
    let binding = Renderer::bind(&var.name, value);
    let m = Match {
        trigger: ":v".to_owned(),
        content: MatchContent::Text { template: "<{{v}}>".to_owned(), vars: vec![var] },
        word: false,
    };
    assert_eq!(Renderer::render_match(&m, &vec![binding]), RenderResult::Text("<hey>".to_owned()));

    let mut params = Params::new();
    params.insert("cmd".to_owned(), ParamValue::Str("date $0".to_owned()));
    let var = Variable { name: "d".to_owned(), kind: ExtensionKind::Shell, params };
    assert!(matches!(renderer.evaluate(&var, &vec!["+%s".to_owned()]), Evaluation::RunShell(c) if c == "date +%s"));
    assert_eq!(Renderer::bind(&"d".to_owned(), None), ("d".to_owned(), String::new()));
}

#[test]
fn matcher_plain_trigger() {
    let mut m = matcher_of(&[(":hello", false)]);
    assert_eq!(feed(&mut m, "xx:hello"), vec![(7, 0, None)]);
    assert!(m.buffer.is_empty());
}

#[test]
fn matcher_word_trigger_needs_separator() {
    let mut m = matcher_of(&[(":br", true)]);
    assert_eq!(feed(&mut m, ":br "), vec![(3, 0, Some(' '))]);
    let mut m = matcher_of(&[(":br", true)]);
    assert!(feed(&mut m, ":brave ").is_empty());
    let mut m = matcher_of(&[(":br", true)]);
    assert_eq!(feed(&mut m, ":br,"), vec![(3, 0, Some(','))]);
}

#[test]
fn matcher_prefers_longest_then_first() {
    let mut m = matcher_of(&[("lo", false), ("hello", false), ("xlo", false)]);
    assert_eq!(feed(&mut m, "hello"), vec![(4, 1, None)]);
    let mut m = matcher_of(&[("ab", false), ("ab", false)]);
    assert_eq!(feed(&mut m, "ab"), vec![(1, 0, None)]);
}

#[test]
fn matcher_modifiers() {
    let mut m = matcher_of(&[(":hi", false)]);
    feed(&mut m, ":hx");
    assert!(m.on_event(&KeyEvent::Modifier(KeyModifier::Backspace)).is_empty());
    assert_eq!(feed(&mut m, "i"), vec![(0, 0, None)]);
    feed(&mut m, ":h");
    m.on_event(&KeyEvent::Modifier(KeyModifier::Shift));
    assert_eq!(feed(&mut m, "i"), vec![(0, 0, None)]);
    feed(&mut m, ":h");
    m.on_event(&KeyEvent::Modifier(KeyModifier::Ctrl));
    assert!(feed(&mut m, "i").is_empty());
}

#[test]
fn matcher_window_is_bounded() {
    let mut m = matcher_of(&[("abc", false)]);
    assert_eq!(m.window, 4);
    feed(&mut m, "zzzzzzzzzzab");
    assert_eq!(m.buffer.len(), 4);
    assert_eq!(feed(&mut m, "c"), vec![(0, 0, None)]);
}

#[test]
fn x11_key_codes() {
    assert_eq!(x11_modifier(133), Some(KeyModifier::Meta));
    assert_eq!(x11_modifier(50), Some(KeyModifier::Shift));
    assert_eq!(x11_modifier(64), Some(KeyModifier::Alt));
    assert_eq!(x11_modifier(37), Some(KeyModifier::Ctrl));
    assert_eq!(x11_modifier(22), Some(KeyModifier::Backspace));
    assert_eq!(x11_modifier(1), None);
    assert!(matches!(x11_event(Some("é".to_owned()), false, 0), Some(KeyEvent::Char(s)) if s == "é"));
    assert!(x11_event(None, false, 0).is_none());
    assert!(matches!(x11_event(None, true, 22), Some(KeyEvent::Modifier(KeyModifier::Backspace))));
    assert!(x11_event(None, true, 99).is_none());
}

#[test]
fn passive_text_is_rendered_without_variables() {
    assert_eq!(
        Renderer::render_passive(&"a\r\nb {{x}}".to_owned()),
        RenderResult::Text("a\nb {{x}}".to_owned())
    );
}

#[test]
fn matcher_key_with_several_characters_reports_each() {
    let mut m = matcher_of(&[("ab", false), ("c", false)]);
    let out = m.on_event(&KeyEvent::Char("abcd".to_owned()));
    assert_eq!(out, vec![None, Some((0, None)), Some((1, None)), None]);
    assert_eq!(m.buffer, vec!['d']);
}

#[test]
fn white_space_agrees_with_std() {
    for u in 0..=0x10FFFFu32 {
        if let Some(c) = char::from_u32(u) {
            assert_eq!(white_space(c), c.is_whitespace(), "{:?}", c);
        }
    }
}
