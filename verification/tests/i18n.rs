use langrustang::error::{RegistrationError, ValidationError};
use langrustang::i18n::check_yaml::{check_key, check_yaml, to_enumval_format, KeyDefect};
use langrustang::i18n::languages::{collect_languages, LanguageSet};
use langrustang::i18n::update_yaml::if_update_reload_yaml;
use langrustang::i18n::{i18n_parse, is_all, is_yaml_path, BuildSession, SourceLoad};
use langrustang::lang_yaml::{LangYaml, LocalizedText};

fn entry(pairs: &[(&str, &str)]) -> LocalizedText {
    let mut e = LocalizedText::new();
    for (k, v) in pairs {
        e.insert(k.to_string(), v.to_string());
    }
    e
}

fn dataset(entries: &[(&str, &[(&str, &str)])]) -> LangYaml {
    let mut d = LangYaml::new();
    for (k, pairs) in entries {
        d.insert(k.to_string(), entry(pairs));
    }
    d
}

fn keys_of(set: &LanguageSet) -> Vec<String> {
    (0..set.len()).map(|i| set.key_at(i).clone()).collect()
}

fn invalid(key: &str, reason: KeyDefect) -> ValidationError {
    ValidationError::InvalidLanguageKey { key: key.to_string(), reason }
}

#[test]
fn check_no_exists() {
    let mut s = BuildSession::new();
    let r = i18n_parse(&mut s, "../files/no_exists.yaml", SourceLoad::Missing);
    let e = r.unwrap_err();
    assert!(e.message().contains("File is not found"));
    assert_eq!(e, RegistrationError::FileNotFound);
    assert!(!s.is_registered());
}

#[test]
fn check_not_yaml() {
    let mut s = BuildSession::new();
    let r = i18n_parse(&mut s, "./not_yaml.jpg", SourceLoad::Parsed(LangYaml::new()));
    let e = r.unwrap_err();
    assert!(e.message().contains("expected .yaml file path"));
    assert_eq!(e, RegistrationError::ExpectedYamlPath);
    assert!(!s.is_registered());
}

#[test]
fn yaml_path_is_checked_before_the_load() {
    let mut s = BuildSession::new();
    assert_eq!(
        i18n_parse(&mut s, "lang.yml", SourceLoad::Missing),
        Err(RegistrationError::ExpectedYamlPath)
    );
    assert_eq!(
        i18n_parse(&mut s, "lang.yaml", SourceLoad::Unreadable),
        Err(RegistrationError::FailedToOpen)
    );
    assert_eq!(
        i18n_parse(&mut s, "lang.yaml", SourceLoad::Malformed),
        Err(RegistrationError::MalformedSource)
    );
    assert_eq!(RegistrationError::FailedToOpen.message(), "Failed to open file");
    assert_eq!(RegistrationError::MalformedSource.message(), "Failed to parse yaml");
}

#[test]
fn yaml_path_suffix() {
    assert!(is_yaml_path("lang.yaml"));
    assert!(is_yaml_path(".yaml"));
    assert!(is_yaml_path("dir/ファイル.yaml"));
    assert!(!is_yaml_path("yaml"));
    assert!(!is_yaml_path("lang.yaml.bak"));
    assert!(!is_yaml_path("lang.YAML"));
    assert!(!is_yaml_path(""));
}

#[test]
fn registration_lists_variants_in_order() {
    let d = dataset(&[
        ("lang_t_ex1", &[("all", "ALL_EXAMPLE")]),
        (
            "lang_t_ex2",
            &[
                ("ja", "おはよう"),
                ("en", "hello!"),
                ("zh", "你好"),
                ("anykey1", "Any?"),
                ("some_key_2", "Some!"),
            ],
        ),
        ("lang_t_ex3", &[("all", "ALL"), ("ja", "おはよう"), ("en", "hello!"), ("zh", "你好")]),
    ]);
    let mut s = BuildSession::new();
    let names = i18n_parse(&mut s, "lang.yaml", SourceLoad::Parsed(d)).unwrap();
    assert_eq!(names, vec!["Anykey1", "En", "Ja", "SomeKey2", "Zh"]);
    assert!(s.is_registered());
    assert_eq!(s.path(), "lang.yaml");
    assert_eq!(keys_of(s.langs()), vec!["anykey1", "en", "ja", "some_key_2", "zh"]);
    assert_eq!(s.variants(), vec!["Anykey1", "En", "Ja", "SomeKey2", "Zh"]);
    assert_eq!(s.data().unwrap().len(), 3);
}

#[test]
fn variants_follow_the_names_not_the_keys() {
    let d = dataset(&[("k", &[("a1z", "x"), ("a_1", "y")])]);
    let mut s = BuildSession::new();
    let names = s.register_dataset("lang.yaml", d).unwrap();
    assert_eq!(names, vec!["A1", "A1z"]);
    assert_eq!(keys_of(s.langs()), vec!["a_1", "a1z"]);
}

#[test]
fn registration_is_all_or_nothing() {
    let mut s = BuildSession::new();
    s.register_dataset("first.yaml", dataset(&[("k", &[("en", "x")])])).unwrap();
    let bad = dataset(&[("k", &[("ja", "x"), ("Bad", "y")])]);
    let r = s.register_dataset("second.yaml", bad);
    assert_eq!(r, Err(invalid("Bad", KeyDefect::UpperCase)));
    assert_eq!(s.path(), "first.yaml");
    assert_eq!(keys_of(s.langs()), vec!["en"]);
    let r = i18n_parse(
        &mut s,
        "third.yaml",
        SourceLoad::Parsed(dataset(&[("k", &[("_bad", "y")])])),
    );
    assert_eq!(r, Err(RegistrationError::Invalid(invalid("_bad", KeyDefect::FirstCharacter))));
    assert_eq!(s.path(), "first.yaml");
}

#[test]
fn leading_underscore_is_invalid() {
    let d = dataset(&[("greet", &[("_bad", "x")])]);
    assert_eq!(check_yaml(&d), Err(invalid("_bad", KeyDefect::FirstCharacter)));
    assert_eq!(check_key("_bad"), Some(KeyDefect::FirstCharacter));
}

#[test]
fn uppercase_is_invalid() {
    let d = dataset(&[("greet", &[("Bad", "x")])]);
    assert_eq!(check_yaml(&d), Err(invalid("Bad", KeyDefect::UpperCase)));
    assert_eq!(check_key("Bad"), Some(KeyDefect::UpperCase));
}

#[test]
fn every_defect_of_a_key() {
    assert_eq!(check_key(""), Some(KeyDefect::Empty));
    assert_eq!(check_key("1a"), Some(KeyDefect::FirstCharacter));
    assert_eq!(check_key("あ"), Some(KeyDefect::FirstCharacter));
    assert_eq!(check_key("a-b"), Some(KeyDefect::BodyCharacter));
    assert_eq!(check_key("aé"), Some(KeyDefect::BodyCharacter));
    assert_eq!(check_key("a b"), Some(KeyDefect::BodyCharacter));
    assert_eq!(check_key("aB"), Some(KeyDefect::UpperCase));
    assert_eq!(check_key("Ab-"), Some(KeyDefect::BodyCharacter));
    assert_eq!(check_key("a_"), Some(KeyDefect::TrailingUnderscore));
    assert_eq!(check_key("A_"), Some(KeyDefect::UpperCase));
    assert_eq!(check_key("a"), None);
    assert_eq!(check_key("all"), None);
    assert_eq!(check_key("some_key_2"), None);
    assert_eq!(check_key("a__b9"), None);
}

#[test]
fn defect_messages() {
    assert_eq!(KeyDefect::Empty.message(), "Failed to get char");
    assert_eq!(
        KeyDefect::FirstCharacter.message(),
        "The first character of the language key contains something other than ascii_alphabet."
    );
    assert_eq!(
        KeyDefect::BodyCharacter.message(),
        "Language keys cannot be anything other than ascii_alphabet or ascii_discrit."
    );
    assert_eq!(KeyDefect::UpperCase.message(), "The language key must be in all lowercase.");
    assert_eq!(
        KeyDefect::TrailingUnderscore.message(),
        "The last character of the language key cannot be an underscore."
    );
    assert_eq!(
        invalid("a_", KeyDefect::TrailingUnderscore).message(),
        "The last character of the language key cannot be an underscore."
    );
    let dup = ValidationError::DuplicateCanonicalKey { a: "a1".to_string(), b: "a_1".to_string() };
    assert_eq!(dup.message(), "The same key exists in yaml.");
    assert_eq!(RegistrationError::Invalid(dup).message(), "The same key exists in yaml.");
}

#[test]
fn first_violation_in_walk_order_decides() {
    let d = dataset(&[("k1", &[("en", "x"), ("a_", "y")]), ("k2", &[("Bad", "z")])]);
    assert_eq!(check_yaml(&d), Err(invalid("a_", KeyDefect::TrailingUnderscore)));
    let d = dataset(&[("k1", &[("en", "x")]), ("k2", &[("Bad", "z"), ("a_", "y")])]);
    assert_eq!(check_yaml(&d), Err(invalid("Bad", KeyDefect::UpperCase)));
}

#[test]
fn keys_with_one_variant_name_collide() {
    let d = dataset(&[("k", &[("a1", "x"), ("a_1", "y")])]);
    assert_eq!(
        check_yaml(&d),
        Err(ValidationError::DuplicateCanonicalKey { a: "a1".to_string(), b: "a_1".to_string() })
    );
    let d = dataset(&[("k1", &[("some_key", "x")]), ("k2", &[("en", "y"), ("some__key", "z")])]);
    assert_eq!(
        check_yaml(&d),
        Err(ValidationError::DuplicateCanonicalKey {
            a: "some_key".to_string(),
            b: "some__key".to_string()
        })
    );
}

#[test]
fn accepted_keys_have_different_variant_names() {
    let d = dataset(&[
        ("k1", &[("en", "x"), ("ja", "y"), ("all", "z")]),
        ("k2", &[("some_key_2", "x"), ("somekey2", "y"), ("en", "again")]),
    ]);
    assert_eq!(check_yaml(&d), Ok(()));
    let set = collect_languages(&d).unwrap();
    let keys = keys_of(&set);
    assert_eq!(keys, vec!["en", "ja", "some_key_2", "somekey2"]);
    for (i, a) in keys.iter().enumerate() {
        for b in keys.iter().skip(i + 1) {
            assert_ne!(to_enumval_format(a), to_enumval_format(b));
        }
    }
}

#[test]
fn the_reserved_key_is_no_language() {
    let d = dataset(&[("k1", &[("all", "x")]), ("k2", &[("all", "y"), ("en", "z")])]);
    let set = collect_languages(&d).unwrap();
    assert_eq!(keys_of(&set), vec!["en"]);
    assert!(!set.contains("all"));
    assert!(set.contains("en"));
    assert!(is_all("all"));
    assert!(!is_all("All"));
    assert!(!is_all("al"));
    assert!(!is_all("alll"));
}

#[test]
fn empty_dataset_has_no_languages() {
    let d = LangYaml::new();
    assert_eq!(check_yaml(&d), Ok(()));
    let mut s = BuildSession::new();
    assert_eq!(s.register_dataset("lang.yaml", d), Ok(vec![]));
    assert!(s.is_registered());
    assert_eq!(s.langs().len(), 0);
}

#[test]
fn language_set_insert() {
    let mut set = LanguageSet::new();
    assert_eq!(set.insert("zh"), Ok(()));
    assert_eq!(set.insert("en"), Ok(()));
    assert_eq!(set.insert("zh"), Ok(()));
    assert_eq!(set.insert("all"), Ok(()));
    assert_eq!(set.insert("ja"), Ok(()));
    assert_eq!(keys_of(&set), vec!["en", "ja", "zh"]);
    assert_eq!(set.variant_at(0), "En");
    assert_eq!(set.variant_at(2), "Zh");
    assert_eq!(set.insert("z_h"), Ok(()));
    assert_eq!(keys_of(&set), vec!["en", "ja", "z_h", "zh"]);
    assert_eq!(
        set.insert("e_n_"),
        Err(invalid("e_n_", KeyDefect::TrailingUnderscore))
    );
    assert_eq!(
        set.insert("z__h"),
        Err(ValidationError::DuplicateCanonicalKey { a: "z_h".to_string(), b: "z__h".to_string() })
    );
    assert_eq!(keys_of(&set), vec!["en", "ja", "z_h", "zh"]);
    assert!(set.contains("z_h"));
    assert!(!set.contains("z__h"));
    assert!(!set.contains("fr"));
}

#[test]
fn variant_names() {
    assert_eq!(to_enumval_format("zh"), "Zh");
    assert_eq!(to_enumval_format("some_key_2"), "SomeKey2");
    assert_eq!(to_enumval_format("anykey1"), "Anykey1");
    assert_eq!(to_enumval_format("a__b"), "AB");
    assert_eq!(to_enumval_format("a_"), "A");
    assert_eq!(to_enumval_format("_bad"), "_bad");
    assert_eq!(to_enumval_format("_"), "_");
    assert_eq!(to_enumval_format("__x"), "_X");
    assert_eq!(to_enumval_format("aBC_dEF"), "AbcDef");
    assert_eq!(to_enumval_format("a_1b"), "A1b");
    assert_eq!(to_enumval_format("éa_é"), "éaé");
    assert_eq!(to_enumval_format(""), "");
    assert_eq!(to_enumval_format("all"), "All");
}

#[test]
fn reload_only_when_stale() {
    let mut s = BuildSession::new();
    s.register_dataset("lang.yaml", dataset(&[("k", &[("en", "x")])])).unwrap();
    assert!(s.is_stale(10));
    let fresh = dataset(&[("k", &[("en", "x"), ("ja", "y")])]);
    assert_eq!(if_update_reload_yaml(&mut s, 10, SourceLoad::Parsed(fresh)), Ok(true));
    assert_eq!(keys_of(s.langs()), vec!["en", "ja"]);
    assert!(!s.is_stale(10));
    assert!(s.is_stale(11));
    let other = dataset(&[("k", &[("zh", "x")])]);
    assert_eq!(if_update_reload_yaml(&mut s, 10, SourceLoad::Parsed(other)), Ok(false));
    assert_eq!(keys_of(s.langs()), vec!["en", "ja"]);
    assert_eq!(if_update_reload_yaml(&mut s, 10, SourceLoad::Missing), Ok(false));
    assert_eq!(s.path(), "lang.yaml");
}

#[test]
fn reload_errors_leave_the_session() {
    let mut s = BuildSession::new();
    s.register_dataset("lang.yaml", dataset(&[("k", &[("en", "x")])])).unwrap();
    assert_eq!(
        if_update_reload_yaml(&mut s, 5, SourceLoad::Missing),
        Err(RegistrationError::FileNotFound)
    );
    assert_eq!(
        if_update_reload_yaml(&mut s, 5, SourceLoad::Unreadable),
        Err(RegistrationError::FailedToOpen)
    );
    assert_eq!(
        if_update_reload_yaml(&mut s, 5, SourceLoad::Malformed),
        Err(RegistrationError::MalformedSource)
    );
    let bad = dataset(&[("k", &[("a_", "x")])]);
    assert_eq!(
        if_update_reload_yaml(&mut s, 5, SourceLoad::Parsed(bad)),
        Err(RegistrationError::Invalid(invalid("a_", KeyDefect::TrailingUnderscore)))
    );
    assert!(s.is_stale(5));
    assert_eq!(keys_of(s.langs()), vec!["en"]);
}

#[test]
fn reload_without_a_dataset_notes_the_time() {
    let mut s = BuildSession::new();
    let d = dataset(&[("k", &[("en", "x")])]);
    assert_eq!(if_update_reload_yaml(&mut s, 7, SourceLoad::Parsed(d)), Ok(true));
    assert!(!s.is_registered());
    assert!(!s.is_stale(7));
    assert_eq!(if_update_reload_yaml(&mut s, 8, SourceLoad::Malformed), Ok(true));
    assert!(!s.is_registered());
    assert!(!s.is_stale(8));
}
