use langrustang::dispatch::DispatchArm;
use langrustang::error::{ResolutionError, ShapeDefect};
use langrustang::format_t::create_literal::{allkey_only, not_allkey_only};
use langrustang::format_t::format_t_parse;
use langrustang::i18n::languages::LanguageSet;
use langrustang::i18n::BuildSession;
use langrustang::lang_yaml::{LangYaml, LocalizedText};
use langrustang::resolve::{MacroArg, ResolutionResult};

fn entry(pairs: &[(&str, &str)]) -> LocalizedText {
    let mut e = LocalizedText::new();
    for (k, v) in pairs {
        e.insert(k.to_string(), v.to_string());
    }
    e
}

fn test_file() -> LangYaml {
    let mut d = LangYaml::new();
    d.insert("example1".to_string(), entry(&[("all", "ALL_EXAMPLE")]));
    d.insert(
        "example2".to_string(),
        entry(&[("ja", "おはよう"), ("en", "hello!"), ("zh", "你好"), ("test1", "TEST1")]),
    );
    d.insert("example4".to_string(), entry(&[("all", "ALL"), ("ja", "おはよう")]));
    d.insert("example5".to_string(), entry(&[("ja", "おはよう"), ("en", "hello!")]));
    d
}

fn session() -> BuildSession {
    let mut s = BuildSession::new();
    s.register_dataset("files/test_file.yaml", test_file()).unwrap();
    s
}

fn lit(text: &str, expr: &'static str) -> MacroArg<&'static str> {
    MacroArg { literal: Some(text.to_string()), expr }
}

fn arg(expr: &'static str) -> MacroArg<&'static str> {
    MacroArg { literal: None, expr }
}

fn arm(variant: &str, text: &str) -> DispatchArm {
    DispatchArm { variant: variant.to_string(), text: text.to_string() }
}

#[test]
fn allonly_arg_1() {
    let s = session();
    let r = format_t_parse(&s, vec![lit("example1", "\"example1\"")]);
    assert_eq!(r, Ok(ResolutionResult::FormattedLiteral("ALL_EXAMPLE".to_string(), vec![])));
}

#[test]
fn allonly_arg_2to() {
    let s = session();
    let r = format_t_parse(&s, vec![lit("example1", "\"example1\""), arg("arg1"), arg("arg2")]);
    assert_eq!(
        r,
        Ok(ResolutionResult::FormattedLiteral("ALL_EXAMPLE".to_string(), vec!["arg1", "arg2"]))
    );
}

#[test]
fn lang_arg_1_not_all() {
    let s = session();
    let r = format_t_parse(&s, vec![lit("example5", "\"example5\""), arg("lang")]);
    let e = r.unwrap_err();
    assert!(e.message().contains("Missing language key"));
    assert_eq!(
        e,
        ResolutionError::MissingLanguageKey {
            missing: vec!["test1".to_string(), "zh".to_string()]
        }
    );
}

#[test]
fn lang_arg_1_all() {
    let s = session();
    let r = format_t_parse(&s, vec![lit("example4", "\"example4\""), arg("lang")]);
    assert_eq!(
        r,
        Ok(ResolutionResult::Dispatch {
            selector: "lang",
            arms: vec![
                arm("En", "ALL"),
                arm("Ja", "おはよう"),
                arm("Test1", "ALL"),
                arm("Zh", "ALL"),
            ],
            args: Some(vec![]),
        })
    );
}

#[test]
fn lang_arg_2to_all() {
    let s = session();
    let r = format_t_parse(
        &s,
        vec![lit("example4", "\"example4\""), arg("lang"), arg("arg1"), arg("arg2")],
    );
    assert_eq!(
        r,
        Ok(ResolutionResult::Dispatch {
            selector: "lang",
            arms: vec![
                arm("En", "ALL"),
                arm("Ja", "おはよう"),
                arm("Test1", "ALL"),
                arm("Zh", "ALL"),
            ],
            args: Some(vec!["arg1", "arg2"]),
        })
    );
}

#[test]
fn lang_arg_2to_not_all() {
    let s = session();
    let r = format_t_parse(
        &s,
        vec![lit("example2", "\"example2\""), arg("lang"), arg("arg1"), arg("arg2")],
    );
    assert_eq!(
        r,
        Ok(ResolutionResult::Dispatch {
            selector: "lang",
            arms: vec![
                arm("En", "hello!"),
                arm("Ja", "おはよう"),
                arm("Test1", "TEST1"),
                arm("Zh", "你好"),
            ],
            args: Some(vec!["arg1", "arg2"]),
        })
    );
}

#[test]
fn expect_str() {
    let s = session();
    let r = format_t_parse::<&'static str>(&s, vec![]);
    let e = r.unwrap_err();
    assert!(e.message().contains("Expected string literal"));
    assert_eq!(e, ResolutionError::MalformedQueryShape(ShapeDefect::NoArguments));
}

#[test]
fn expect_lang() {
    let s = session();
    let r = format_t_parse(&s, vec![lit("example2", "\"example2\"")]);
    let e = r.unwrap_err();
    assert!(e.message().contains("Expected lang"));
    assert_eq!(e, ResolutionError::MissingLanguageSelector);
}

#[test]
fn format_t_before_registration() {
    let s = BuildSession::new();
    let r = format_t_parse(&s, vec![lit("example1", "\"example1\"")]);
    assert_eq!(r, Err(ResolutionError::SourceNotRegistered));
    let r = format_t_parse::<&'static str>(&s, vec![]);
    assert_eq!(r, Err(ResolutionError::SourceNotRegistered));
}

#[test]
fn format_t_key_must_be_literal() {
    let s = session();
    let r = format_t_parse(&s, vec![arg("example1")]);
    assert_eq!(r, Err(ResolutionError::MalformedQueryShape(ShapeDefect::KeyNotLiteral)));
}

#[test]
fn format_t_unknown_key() {
    let s = session();
    let r = format_t_parse(&s, vec![lit("nothing", "\"nothing\""), arg("lang")]);
    assert_eq!(r, Err(ResolutionError::UnknownKey("nothing".to_string())));
    assert_eq!(r.unwrap_err().message(), "Unknown Key: nothing");
}

#[test]
fn allkey_only_takes_every_later_argument() {
    let e = entry(&[("all", "Hi, {}! ")]);
    let r = allkey_only(vec![lit("k", "\"k\""), arg("name"), arg("x"), arg("y")], &e);
    assert_eq!(
        r,
        Ok(ResolutionResult::FormattedLiteral("Hi, {}! ".to_string(), vec!["name", "x", "y"]))
    );
}

#[test]
fn allkey_only_without_fallback() {
    let e = entry(&[("en", "hello")]);
    let r = allkey_only(vec![lit("k", "\"k\"")], &e);
    assert_eq!(r, Err(ResolutionError::MissingFallback));
    assert_eq!(r.unwrap_err().message(), "Failed to get all key");
}

#[test]
fn allkey_only_without_arguments() {
    let e = entry(&[("all", "x")]);
    let r = allkey_only::<&'static str>(vec![], &e);
    assert_eq!(r, Err(ResolutionError::MalformedQueryShape(ShapeDefect::NoArguments)));
}

#[test]
fn not_allkey_only_shapes() {
    let mut langs = LanguageSet::new();
    langs.insert("en").unwrap();
    let e = entry(&[("en", "{} hello")]);
    let r = not_allkey_only::<&'static str>(vec![], &e, &langs);
    assert_eq!(r, Err(ResolutionError::MalformedQueryShape(ShapeDefect::NoArguments)));
    let r = not_allkey_only(vec![lit("k", "\"k\"")], &e, &langs);
    assert_eq!(r, Err(ResolutionError::MissingLanguageSelector));
    let r = not_allkey_only(vec![lit("k", "\"k\""), arg("lang")], &e, &langs);
    assert_eq!(
        r,
        Ok(ResolutionResult::Dispatch {
            selector: "lang",
            arms: vec![arm("En", "{} hello")],
            args: Some(vec![]),
        })
    );
    let r = not_allkey_only(vec![lit("k", "\"k\""), arg("lang"), arg("a"), arg("b")], &e, &langs);
    assert_eq!(
        r,
        Ok(ResolutionResult::Dispatch {
            selector: "lang",
            arms: vec![arm("En", "{} hello")],
            args: Some(vec!["a", "b"]),
        })
    );
}
