use langrustang::dispatch::DispatchArm;
use langrustang::error::ResolutionError;
use langrustang::format_t::{_format_t, format_into, Rendering, Verb};
use langrustang::i18n::BuildSession;
use langrustang::lang_yaml::{LangYaml, LocalizedText};
use langrustang::print_t::{_print_t, format_into_print};
use langrustang::println_t::{_println_t, format_into_println};
use langrustang::resolve::{MacroArg, ResolutionResult};
use langrustang::text::{
    char_is_digit, char_is_lower, char_is_upper, char_lower, char_upper, chars_of, compare,
    same_text, string_of, LexOrder,
};

fn formatted(verb: Verb) -> Rendering<&'static str> {
    Rendering {
        verb,
        result: ResolutionResult::Dispatch {
            selector: "format",
            arms: vec![
                DispatchArm { variant: "En".to_string(), text: "format {}".to_string() },
                DispatchArm { variant: "Ja".to_string(), text: "おはよう".to_string() },
            ],
            args: Some(vec!["format", "format!(\"{}\", x)"]),
        },
    }
}

fn session() -> BuildSession {
    let mut all = LocalizedText::new();
    all.insert("all".to_string(), "Hi, {}! ".to_string());
    let mut both = LocalizedText::new();
    both.insert("ja".to_string(), "{}, おはよう!".to_string());
    both.insert("en".to_string(), "{}, Hello!".to_string());
    let mut d = LangYaml::new();
    d.insert("format_t_ex1".to_string(), all);
    d.insert("format_t_ex2".to_string(), both);
    let mut s = BuildSession::new();
    s.register_dataset("lang.yaml", d).unwrap();
    s
}

fn call(key: &str, rest: &[&'static str]) -> Vec<MacroArg<&'static str>> {
    let mut args = vec![MacroArg { literal: Some(key.to_string()), expr: "key" }];
    for expr in rest {
        args.push(MacroArg { literal: None, expr: *expr });
    }
    args
}

#[test]
fn format_becomes_print_and_nothing_else_changes() {
    assert_eq!(format_into_print(formatted(Verb::Format)), formatted(Verb::Print));
}

#[test]
fn format_becomes_println_and_nothing_else_changes() {
    assert_eq!(format_into_println(formatted(Verb::Format)), formatted(Verb::Println));
}

#[test]
fn other_verbs_stay() {
    assert_eq!(format_into_print(formatted(Verb::Println)), formatted(Verb::Println));
    assert_eq!(format_into_println(formatted(Verb::Print)), formatted(Verb::Print));
    assert_eq!(format_into_print(formatted(Verb::Print)), formatted(Verb::Print));
    assert_eq!(format_into(formatted(Verb::Format), Verb::Format), formatted(Verb::Format));
    assert_eq!(format_into(formatted(Verb::Print), Verb::Format), formatted(Verb::Print));
}

#[test]
fn verb_names() {
    assert_eq!(Verb::Format.name(), "format");
    assert_eq!(Verb::Print.name(), "print");
    assert_eq!(Verb::Println.name(), "println");
}

#[test]
fn the_three_calls_differ_in_the_verb_only() {
    let s = session();
    let f = _format_t(&s, call("format_t_ex1", &["name"])).unwrap();
    let p = _print_t(&s, call("format_t_ex1", &["name"])).unwrap();
    let l = _println_t(&s, call("format_t_ex1", &["name"])).unwrap();
    assert_eq!(f.verb, Verb::Format);
    assert_eq!(p.verb, Verb::Print);
    assert_eq!(l.verb, Verb::Println);
    let expected = ResolutionResult::FormattedLiteral("Hi, {}! ".to_string(), vec!["name"]);
    assert_eq!(f.result, expected);
    assert_eq!(p.result, expected);
    assert_eq!(l.result, expected);
    let p = _println_t(&s, call("format_t_ex2", &["lang_ja", "name"])).unwrap();
    assert_eq!(p.verb, Verb::Println);
    assert_eq!(
        p.result,
        ResolutionResult::Dispatch {
            selector: "lang_ja",
            arms: vec![
                DispatchArm { variant: "En".to_string(), text: "{}, Hello!".to_string() },
                DispatchArm { variant: "Ja".to_string(), text: "{}, おはよう!".to_string() },
            ],
            args: Some(vec!["name"]),
        }
    );
}

#[test]
fn the_three_calls_fail_alike() {
    let s = session();
    let f = _format_t(&s, call("format_t_ex2", &[])).unwrap_err();
    let p = _print_t(&s, call("format_t_ex2", &[])).unwrap_err();
    let l = _println_t(&s, call("format_t_ex2", &[])).unwrap_err();
    assert_eq!(f, ResolutionError::MissingLanguageSelector);
    assert_eq!(p, ResolutionError::MissingLanguageSelector);
    assert_eq!(l, ResolutionError::MissingLanguageSelector);
    let unregistered = BuildSession::new();
    assert_eq!(
        _print_t(&unregistered, call("format_t_ex1", &[])),
        Err(ResolutionError::SourceNotRegistered)
    );
}

#[test]
fn ascii_case_of_characters() {
    assert_eq!(char_upper('a'), 'A');
    assert_eq!(char_upper('z'), 'Z');
    assert_eq!(char_upper('A'), 'A');
    assert_eq!(char_upper('5'), '5');
    assert_eq!(char_upper('_'), '_');
    assert_eq!(char_upper('é'), 'é');
    assert_eq!(char_upper('`'), '`');
    assert_eq!(char_upper('{'), '{');
    assert_eq!(char_lower('A'), 'a');
    assert_eq!(char_lower('Z'), 'z');
    assert_eq!(char_lower('a'), 'a');
    assert_eq!(char_lower('@'), '@');
    assert_eq!(char_lower('['), '[');
    assert_eq!(char_lower('É'), 'É');
    for c in ['a', 'Z', '0', '_', 'é', '你'] {
        assert_eq!(char_upper(c), c.to_ascii_uppercase());
        assert_eq!(char_lower(c), c.to_ascii_lowercase());
        assert_eq!(char_is_lower(c), c.is_ascii_lowercase());
        assert_eq!(char_is_upper(c), c.is_ascii_uppercase());
        assert_eq!(char_is_digit(c), c.is_ascii_digit());
    }
}

#[test]
fn strings_and_characters() {
    assert_eq!(chars_of("aé你"), vec!['a', 'é', '你']);
    assert_eq!(chars_of(""), Vec::<char>::new());
    assert_eq!(string_of(&vec!['a', 'é', '你']), "aé你");
    assert!(same_text("おはよう", "おはよう"));
    assert!(!same_text("en", "e"));
    assert!(!same_text("en", "em"));
    assert!(same_text("", ""));
}

#[test]
fn lexicographic_order() {
    let cases = ["", "a", "A1", "A1z", "AB", "Ab", "a_1", "a1z", "zh", "z", "你好", "é"];
    for a in cases {
        for b in cases {
            let expected = match a.cmp(b) {
                std::cmp::Ordering::Less => LexOrder::Before,
                std::cmp::Ordering::Equal => LexOrder::Same,
                std::cmp::Ordering::Greater => LexOrder::After,
            };
            assert_eq!(compare(&chars_of(a), &chars_of(b)), expected);
        }
    }
}
