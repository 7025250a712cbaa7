use quest_core::class::Class;
use quest_core::error::RuntimeError;
use quest_core::object::Object;
use quest_core::object::Payload;
use quest_core::regexp::Flag;
use quest_core::regexp::Flags;
use quest_core::regexp::Regex;
use quest_core::runtime::Runtime;
use quest_core::text::Text;

fn ready() -> Runtime {
    let mut rt = Runtime::new(64);
    for class in [Class::Pristine, Class::Function, Class::BoundFunction, Class::Regex] {
        rt.initialize(class).unwrap();
    }
    rt
}

fn regex(rt: &mut Runtime, pattern: &str, flags: Flags) -> Object {
    let r = Regex::new_with_options(pattern, flags).unwrap();
    rt.instantiate(Class::Regex, Payload::Regex(r))
}

fn text(rt: &mut Runtime, s: &str) -> Object {
    rt.instantiate(Class::Text, Payload::Text(Text::from_str(s)))
}

fn text_of(rt: &Runtime, o: Object) -> String {
    match rt.payload(o) {
        Payload::Text(t) => t.as_str().to_string(),
        other => panic!("not a text: {:?}", other),
    }
}

fn bool_of(rt: &Runtime, o: Object) -> bool {
    match rt.payload(o) {
        Payload::Boolean(b) => *b,
        other => panic!("not a boolean: {:?}", other),
    }
}

fn groups_of(rt: &Runtime, o: Object) -> Vec<Option<String>> {
    match rt.payload(o) {
        Payload::List(items) => items
            .iter()
            .map(|item| match rt.payload(*item) {
                Payload::Text(t) => Some(t.as_str().to_string()),
                Payload::Null => None,
                other => panic!("neither text nor null: {:?}", other),
            })
            .collect(),
        other => panic!("not a list: {:?}", other),
    }
}

#[test]
fn patterns_compile_or_are_refused() {
    assert!(Regex::new("a+b").is_ok());
    assert!(Regex::new("").is_ok());
    assert!(Regex::new("(unclosed").is_err());
    assert!(Regex::new_with_options("[", Flags::default()).is_err());
    let r = Regex::new(r"\d+").unwrap();
    assert_eq!(r.as_str(), r"\d+");
    assert_eq!(r.flags(), Flags::default());
    let error = Regex::new("(unclosed").unwrap_err();
    assert!(format!("{}", error.source).contains("unclosed"));
}

#[test]
fn flags_are_kept_and_rendered() {
    let flags = Flags::default().with(Flag::IgnoreWhitespace).with(Flag::CaseInsensitive);
    assert!(flags.contains(Flag::CaseInsensitive));
    assert!(flags.contains(Flag::IgnoreWhitespace));
    assert!(!flags.contains(Flag::MultiLine));
    assert!(!flags.contains(Flag::SwapGreed));
    assert!(!flags.contains(Flag::DotMatchesNewLine));
    let r = Regex::new_with_options("ab", flags).unwrap();
    assert_eq!(r.flags(), flags);
    assert_eq!(r.to_text(), "/ab/ix");
    let all = flags.with(Flag::MultiLine).with(Flag::DotMatchesNewLine).with(Flag::SwapGreed);
    assert_eq!(Regex::new_with_options("", all).unwrap().to_text(), "//imsUx");
    assert_eq!(Regex::new("a/b").unwrap().to_text(), "/a/b/");
}

#[test]
fn matching_goes_by_the_pattern() {
    let r = Regex::new(r"^\d{3}$").unwrap();
    assert!(r.is_match("123"));
    assert!(!r.is_match("1234"));
    assert!(!r.is_match(r"^\d{3}$"));
    let plain = Regex::new("rex").unwrap();
    assert!(!plain.is_match("REX"));
    let either = Regex::new_with_options("rex", Flags::default().with(Flag::CaseInsensitive)).unwrap();
    assert!(either.is_match("REX"));
    let dot = Regex::new("a.b").unwrap();
    assert!(!dot.is_match("a\nb"));
    let dot_all = Regex::new_with_options("a.b", Flags::default().with(Flag::DotMatchesNewLine)).unwrap();
    assert!(dot_all.is_match("a\nb"));
    let line = Regex::new_with_options("^b$", Flags::default().with(Flag::MultiLine)).unwrap();
    assert!(line.is_match("a\nb\nc"));
    assert!(!Regex::new("^b$").unwrap().is_match("a\nb\nc"));
    let spaced = Regex::new_with_options("a b", Flags::default().with(Flag::IgnoreWhitespace)).unwrap();
    assert!(spaced.is_match("ab"));
    assert!(!spaced.is_match("a b"));
}

#[test]
fn captures_give_each_group() {
    let r = Regex::new(r"(\w)(\d)?(\w)").unwrap();
    assert_eq!(
        r.captures("AZ"),
        Some(vec![Some("AZ".to_string()), Some("A".to_string()), None, Some("Z".to_string())])
    );
    assert_eq!(r.captures("-"), None);
    let greedy = Regex::new("a+").unwrap();
    assert_eq!(greedy.captures("caaat"), Some(vec![Some("aaa".to_string())]));
    let lazy = Regex::new_with_options("a+", Flags::default().with(Flag::SwapGreed)).unwrap();
    assert_eq!(lazy.captures("caaat"), Some(vec![Some("a".to_string())]));
}

#[test]
fn regex_equality_is_by_pattern_and_flags() {
    let a = Regex::new("ab").unwrap();
    let b = Regex::new("ab").unwrap();
    let c = Regex::new("abc").unwrap();
    let d = Regex::new_with_options("ab", Flags::default().with(Flag::MultiLine)).unwrap();
    assert!(a == b);
    assert!(a != c);
    assert!(a != d);
    assert!(a == a.clone());
    // by the text of the pattern, not by what it matches
    let plus = Regex::new("a+").unwrap();
    let star = Regex::new("aa*").unwrap();
    assert!(plus != star);
    assert!(plus == plus.clone());
}

#[test]
fn match_gives_a_list_where_does_match_is_true() {
    let mut rt = ready();
    let r = regex(&mut rt, "b+", Flags::default());
    for hay in ["abba", "aaa", "", "b"] {
        let t = text(&mut rt, hay);
        let matched = Regex::qs_does_match(&mut rt, r, &vec![t]).unwrap();
        let found = Regex::qs_match(&mut rt, r, &vec![t]).unwrap();
        assert_eq!(bool_of(&rt, matched), matches!(rt.payload(found), Payload::List(_)));
        if bool_of(&rt, matched) {
            assert!(groups_of(&rt, found)[0].is_some());
        }
    }
}

#[test]
fn qs_at_text_and_inspect_render_the_regex() {
    let mut rt = ready();
    let r = regex(&mut rt, "a+b", Flags::default().with(Flag::CaseInsensitive));
    let shown = Regex::qs_at_text(&mut rt, r, &vec![]).unwrap();
    assert_eq!(text_of(&rt, shown), "/a+b/i");
    let shown = Regex::qs_inspect(&mut rt, r, &vec![]).unwrap();
    assert_eq!(text_of(&rt, shown), "/a+b/i");
    let five = rt.instantiate(Class::Number, Payload::Number(5));
    assert_eq!(
        Regex::qs_at_text(&mut rt, five, &vec![]),
        Err(RuntimeError::DowncastFailure { object: five, expected: Class::Regex })
    );
    // through the class: `inspect` of a regex hides that of the base class
    let inspect = rt.intern("inspect");
    let shown = rt.call_attr(r, inspect, &vec![]).unwrap();
    assert_eq!(text_of(&rt, shown), "/a+b/i");
}

#[test]
fn qs_eql_compares_two_regexes() {
    let mut rt = ready();
    let a = regex(&mut rt, "ab", Flags::default());
    let b = regex(&mut rt, "ab", Flags::default());
    let c = regex(&mut rt, "ab", Flags::default().with(Flag::SwapGreed));
    let same = Regex::qs_eql(&mut rt, a, &vec![b]).unwrap();
    assert!(bool_of(&rt, same));
    let different = Regex::qs_eql(&mut rt, a, &vec![c]).unwrap();
    assert!(!bool_of(&rt, different));
    assert_eq!(
        Regex::qs_eql(&mut rt, a, &vec![]),
        Err(RuntimeError::ArityOrIndexError { index: 0, len: 0 })
    );
    let t = text(&mut rt, "ab");
    assert_eq!(
        Regex::qs_eql(&mut rt, a, &vec![t]),
        Err(RuntimeError::DowncastFailure { object: t, expected: Class::Regex })
    );
    assert_eq!(
        Regex::qs_eql(&mut rt, t, &vec![a]),
        Err(RuntimeError::DowncastFailure { object: t, expected: Class::Regex })
    );
    let eq = rt.intern("==");
    let same = rt.call_attr(a, eq, &vec![b]).unwrap();
    assert!(bool_of(&rt, same));
}

#[test]
fn qs_does_match_answers_with_a_boolean() {
    let mut rt = ready();
    let r = regex(&mut rt, r"^\d+$", Flags::default());
    let digits = text(&mut rt, "2024");
    let word = text(&mut rt, "year");
    let yes = Regex::qs_does_match(&mut rt, r, &vec![digits]).unwrap();
    assert!(bool_of(&rt, yes));
    let no = Regex::qs_does_match(&mut rt, r, &vec![word]).unwrap();
    assert!(!bool_of(&rt, no));
    assert_eq!(
        Regex::qs_does_match(&mut rt, r, &vec![]),
        Err(RuntimeError::ArityOrIndexError { index: 0, len: 0 })
    );
    assert_eq!(
        Regex::qs_does_match(&mut rt, digits, &vec![digits]),
        Err(RuntimeError::DowncastFailure { object: digits, expected: Class::Regex })
    );
}

#[test]
fn qs_does_match_converts_its_argument_to_text() {
    let mut rt = ready();
    // a regex as argument is matched by its text
    let slashes = regex(&mut rt, "^/ab/$", Flags::default());
    let other = regex(&mut rt, "ab", Flags::default());
    let yes = Regex::qs_does_match(&mut rt, slashes, &vec![other]).unwrap();
    assert!(bool_of(&rt, yes));
    // a value without `@text` cannot be converted
    let five = rt.instantiate(Class::Number, Payload::Number(5));
    let at_text = rt.intern("@text");
    assert_eq!(
        Regex::qs_does_match(&mut rt, slashes, &vec![five]),
        Err(RuntimeError::MissingAttribute { key: at_text, receiver: five })
    );
}

#[test]
fn qs_match_lists_the_groups() {
    let mut rt = ready();
    let r = regex(&mut rt, r"(\w)(\d)?(\w)", Flags::default());
    let hay = text(&mut rt, "AZ");
    let found = Regex::qs_match(&mut rt, r, &vec![hay]).unwrap();
    assert_eq!(
        groups_of(&rt, found),
        vec![Some("AZ".to_string()), Some("A".to_string()), None, Some("Z".to_string())]
    );
    let none = text(&mut rt, "-");
    let missed = Regex::qs_match(&mut rt, r, &vec![none]).unwrap();
    assert!(matches!(rt.payload(missed), Payload::Null));
    assert_eq!(
        Regex::qs_match(&mut rt, r, &vec![]),
        Err(RuntimeError::ArityOrIndexError { index: 0, len: 0 })
    );
    let by_name = rt.intern("match");
    let found = rt.call_attr(r, by_name, &vec![hay]).unwrap();
    assert_eq!(groups_of(&rt, found).len(), 4);
}
