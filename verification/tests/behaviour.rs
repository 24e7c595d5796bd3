use json_generator::error::{GenError, GenErrorKind, GenErrorType};
use json_generator::files::Files;
use json_generator::generator::from_string::{trim_spaces, FromStringTo};
use json_generator::generator::generators::{
    delimiter_of, process_string, CurrentDateTime, RandomArray, RandomBool, RandomFromFile,
    Sequence,
};
use json_generator::generator::{Func, Generator};
use json_generator::json_template::JsonTemplate;
use json_generator::parser::generator::{
    atomic_generator, generator, malformed, paths, trim_text,
};
use json_generator::sources::Instant;
use json_generator::parser::{parse, Call};
use json_generator::text::{chars_of, same_text, split, text_of};
use json_generator::value::{JsonValue, Number};
use json_generator::{generate, try_generate};

fn none() -> Files {
    Files::new()
}

fn kind_of(expression: &str, files: &Files) -> GenErrorKind {
    match generator(expression, files) {
        Ok(_) => panic!("{} gives a generator", expression),
        Err(e) => e.kind(),
    }
}

fn built(expression: &str) -> Generator {
    match generator(expression, &none()) {
        Ok(g) => g,
        Err(e) => panic!("{}", e.to_string()),
    }
}

fn text(v: JsonValue) -> String {
    match v {
        JsonValue::String(s) => s,
        other => panic!("{:?} is no text", other),
    }
}

fn pieces(content: &str, delim: &str) -> Vec<String> {
    split(&chars_of(content), &chars_of(delim))
}

fn whole(i: i64) -> JsonValue {
    JsonValue::Number(Number::Int(i))
}

#[test]
fn sequence_adds_its_step_at_every_call() {
    let mut g = built("seq(1,2)");
    assert_eq!(g.next(), whole(3));
    assert_eq!(g.next(), whole(5));
    assert_eq!(g.next(), whole(7));
}

#[test]
fn sequence_defaults() {
    let mut g = built("seq()");
    assert_eq!(g.next(), whole(1));
    assert_eq!(g.next(), whole(2));
    let mut g = built("seq(,5)");
    assert_eq!(g.next(), whole(5));
    let mut g = built("seq(7,)");
    assert_eq!(g.next(), whole(8));
    let mut g = built("seq( 1 , 2 )");
    assert_eq!(g.next(), whole(3));
}

#[test]
fn uuid_has_the_canonical_form() {
    let mut g = built("uuid()");
    let mut seen: Vec<String> = Vec::new();
    for _ in 0..100 {
        let id = text(g.next());
        assert_eq!(id.len(), 36);
        for (i, c) in id.chars().enumerate() {
            if i == 8 || i == 13 || i == 18 || i == 23 {
                assert_eq!(c, '-');
            } else {
                assert!(c.is_ascii_digit() || ('a'..='f').contains(&c));
            }
        }
        assert_eq!(id.chars().nth(14), Some('4'));
        assert!("89ab".contains(id.chars().nth(19).unwrap()));
        assert!(!seen.contains(&id));
        seen.push(id);
    }
}

#[test]
fn random_string_stands_between_prefix_and_suffix() {
    let mut g = built("str(10, abc, cba)");
    for _ in 0..50 {
        let s = text(g.next());
        assert_eq!(s.len(), 16);
        assert!(s.starts_with("abc"));
        assert!(s.ends_with("cba"));
        assert!(s[3..13].chars().all(|c| c.is_ascii_alphanumeric()));
    }
}

#[test]
fn random_int_stays_in_its_range() {
    let mut g = built("int(0,10)");
    for _ in 0..1000 {
        let n = g.next().as_i64().unwrap();
        assert!(0 <= n && n < 10);
    }
    let mut g = built("int()");
    for _ in 0..1000 {
        let n = g.next().as_i64().unwrap();
        assert!(0 <= n && n < 1000);
    }
    let mut g = built("int(7,8)");
    assert_eq!(g.next(), whole(7));
}

#[test]
fn array_takes_in_what_stands_before_it() {
    let mut g = built("int_from_list(1,2,3,4) -> array(3)");
    for _ in 0..20 {
        match g.next() {
            JsonValue::Array(items) => {
                assert_eq!(items.len(), 3);
                for item in items.iter() {
                    assert!([1, 2, 3, 4].contains(&item.as_i64().unwrap()));
                }
            }
            other => panic!("{:?} is no array", other),
        }
    }
}

#[test]
fn array_asks_its_delegate_for_every_item() {
    let mut g = built("seq(0,1) -> array(2)");
    assert_eq!(g.next(), JsonValue::Array(vec![whole(1), whole(2)]));
    assert_eq!(g.next(), JsonValue::Array(vec![whole(3), whole(4)]));
    let mut g = built("array(2)");
    assert_eq!(g.next(), JsonValue::Array(vec![JsonValue::Null, JsonValue::Null]));
    let mut g = built("seq() -> array(0)");
    assert_eq!(g.next(), JsonValue::Array(vec![]));
}

#[test]
fn marked_field_loses_its_indicator() {
    let mut t = JsonTemplate::from_str(r#"{"|id": "uuid()"}"#, "|", &none()).unwrap();
    let first = generate(&mut t, 1);
    let second = generate(&mut t, 1);
    assert_eq!(first[0].as_object().unwrap().len(), 1);
    assert_eq!(first[0].as_object().unwrap()[0].0, "id");
    let a = first[0].get("id").unwrap().as_str().unwrap().to_string();
    let b = second[0].get("id").unwrap().as_str().unwrap().to_string();
    assert_eq!(a.len(), 36);
    assert_eq!(b.len(), 36);
    assert_ne!(a, b);
    assert!(first[0].get("|id").is_none());
}

#[test]
fn indicator_is_the_callers_choice() {
    let mut t = JsonTemplate::from_str(r#"{"$$n": "seq(4)", "|n": "seq(4)"}"#, "$$", &none()).unwrap();
    let out = generate(&mut t, 1);
    assert_eq!(
        out[0],
        JsonValue::Object(vec![
            ("n".to_string(), whole(5)),
            ("|n".to_string(), JsonValue::String("seq(4)".to_string())),
        ])
    );
}

#[test]
fn marked_field_must_hold_a_text() {
    let e = JsonTemplate::from_str(r#"{"|id": 5}"#, "|", &none()).err().unwrap();
    assert_eq!(e.kind(), GenErrorKind::GeneratorMustBeString);
    assert!(e.reason().ends_with("|id"));
    let e = JsonTemplate::from_str(r#"{"a": [{"|id": null}]}"#, "|", &none()).err().unwrap();
    assert_eq!(e.kind(), GenErrorKind::GeneratorMustBeString);
}

#[test]
fn text_that_is_no_document() {
    let e = JsonTemplate::from_str(r#"{"a": "#, "|", &none()).err().unwrap();
    assert_eq!(e.kind(), GenErrorKind::Json);
    assert_eq!(e.tpe(), GenErrorType::Common);
}

#[test]
fn pick_from_a_file() {
    let mut files = Files::new();
    files.add("cities", "Berlin\nPrague\nMoscow");
    let mut g = generator(r#"str_from_file(cities, \n)"#, &files).unwrap();
    for _ in 0..100 {
        let city = text(g.next());
        assert!(city == "Berlin" || city == "Prague" || city == "Moscow");
    }
    let mut g = Generator::new(RandomFromFile::<String>::new("cities", "\n", &files).ok().unwrap());
    for _ in 0..100 {
        let city = text(g.next());
        assert!(city == "Berlin" || city == "Prague" || city == "Moscow");
    }
}

#[test]
fn fixed_values_never_change() {
    let body = r#"{"a": 1, "b": [true, null, "x", 1.5], "c": {"d": "e", "|id": "uuid()"}}"#;
    let mut t = JsonTemplate::from_str(body, "|", &none()).unwrap();
    let out = generate(&mut t, 5);
    assert_eq!(out.len(), 5);
    for doc in out.iter() {
        assert_eq!(doc.get("a"), Some(&whole(1)));
        assert_eq!(
            doc.get("b"),
            Some(&JsonValue::Array(vec![
                JsonValue::Bool(true),
                JsonValue::Null,
                JsonValue::String("x".to_string()),
                JsonValue::Number(Number::Decimal("1.5".to_string())),
            ]))
        );
        assert_eq!(doc.get("c").unwrap().get("d"), Some(&JsonValue::String("e".to_string())));
        assert_eq!(doc.get("c").unwrap().get("id").unwrap().as_str().unwrap().len(), 36);
    }
}

#[test]
fn fields_keep_their_order() {
    let mut t = JsonTemplate::from_str(r#"{"z": 1, "|a": "seq()", "m": 2}"#, "|", &none()).unwrap();
    let out = generate(&mut t, 2);
    let names: Vec<&str> = out[1].as_object().unwrap().iter().map(|f| f.0.as_str()).collect();
    assert_eq!(names, vec!["z", "a", "m"]);
    assert_eq!(out[0].get("a"), Some(&whole(1)));
    assert_eq!(out[1].get("a"), Some(&whole(2)));
}

#[test]
fn errors_by_kind() {
    let files = none();
    assert_eq!(kind_of("", &files), GenErrorKind::Syntax);
    assert_eq!(kind_of("uuid", &files), GenErrorKind::Syntax);
    assert_eq!(kind_of("uuid(", &files), GenErrorKind::Syntax);
    assert_eq!(kind_of("uuid() junk", &files), GenErrorKind::Syntax);
    assert_eq!(kind_of("uuid() ->", &files), GenErrorKind::Syntax);
    assert_eq!(kind_of("str('a'b)", &files), GenErrorKind::Syntax);
    assert_eq!(kind_of("uuidds()", &files), GenErrorKind::UnknownFunction);
    assert_eq!(kind_of("uuid() -> foo()", &files), GenErrorKind::UnknownFunction);
    assert_eq!(kind_of("int(10,5)", &files), GenErrorKind::InvalidArguments);
    assert_eq!(kind_of("int(5,5)", &files), GenErrorKind::InvalidArguments);
    assert_eq!(kind_of("array(x)", &files), GenErrorKind::InvalidArguments);
    assert_eq!(kind_of("array(-1)", &files), GenErrorKind::InvalidArguments);
    assert_eq!(kind_of("int_from_list(1,,2)", &files), GenErrorKind::InvalidArguments);
    assert_eq!(kind_of("str_from_file()", &files), GenErrorKind::InvalidArguments);
    assert_eq!(kind_of("str_from_file(a)", &files), GenErrorKind::Construction);
    assert_eq!(kind_of("str_from_file(a,,,)", &files), GenErrorKind::InvalidArguments);
    assert_eq!(kind_of("seq(x)", &files), GenErrorKind::InvalidArguments);
    assert_eq!(kind_of("seq(1,y)", &files), GenErrorKind::InvalidArguments);
    assert_eq!(kind_of("seq(2147483648)", &files), GenErrorKind::InvalidArguments);
    assert_eq!(kind_of("str(abc)", &files), GenErrorKind::InvalidArguments);
    assert_eq!(kind_of("str(-1)", &files), GenErrorKind::InvalidArguments);
    assert_eq!(kind_of("int(a)", &files), GenErrorKind::InvalidArguments);
    assert_eq!(kind_of("int(1,b)", &files), GenErrorKind::InvalidArguments);
    assert_eq!(kind_of("uuid(1)", &files), GenErrorKind::InvalidArguments);
    assert_eq!(kind_of("uuid(,)", &files), GenErrorKind::InvalidArguments);
    assert_eq!(kind_of("bool(x)", &files), GenErrorKind::InvalidArguments);
    assert_eq!(kind_of("seq(1,2,3)", &files), GenErrorKind::InvalidArguments);
    assert_eq!(kind_of("str(1,a,b,c)", &files), GenErrorKind::InvalidArguments);
    assert_eq!(kind_of("int(1,2,3)", &files), GenErrorKind::InvalidArguments);
    assert_eq!(kind_of("dt(a,b)", &files), GenErrorKind::InvalidArguments);
    assert_eq!(kind_of("array(1,2)", &files), GenErrorKind::InvalidArguments);
    assert_eq!(kind_of("array(,)", &files), GenErrorKind::InvalidArguments);
    assert_eq!(kind_of("str_from_file(a,b,c)", &files), GenErrorKind::InvalidArguments);
    assert_eq!(kind_of("str_from_file(a,b)", &files), GenErrorKind::Construction);
    assert_eq!(kind_of("uuid() -> seq()", &files), GenErrorKind::Unsupported);
    assert_eq!(kind_of("array() -> uuid()", &files), GenErrorKind::Unsupported);
    let mut files = Files::new();
    files.add("cities", "Berlin,Prague");
    assert_eq!(kind_of("int_from_file(cities,,)", &files), GenErrorKind::Construction);
    assert!(generator("str_from_file(cities,,)", &files).is_ok());
}

#[test]
fn error_names_the_expression() {
    let e = generator("uuidds()", &none()).err().unwrap();
    assert_eq!(e.reason(), "unknown function uuidds in the expression: uuidds()");
    assert_eq!(e.tpe(), GenErrorType::Parser);
    assert_eq!(
        e.to_string(),
        "error while parsing a generator func, reason: unknown function uuidds in the expression: uuidds() and type: Parser"
    );
    let e = generator("str_from_file(nowhere, x)", &none()).err().unwrap();
    assert!(e.reason().starts_with("the file is not available: nowhere"));
}

#[test]
fn unknown_date_format_is_refused() {
    assert_eq!(kind_of("dt(%Q)", &none()), GenErrorKind::InvalidArguments);
    assert_eq!(kind_of("dt(%#z)", &none()), GenErrorKind::InvalidArguments);
    assert!(!Generator::new(CurrentDateTime { format: "%#z".to_string() }).is_ready());
    assert_eq!(Generator::new(CurrentDateTime { format: "%#z".to_string() }).try_next(), None);
    assert_eq!(CurrentDateTime { format: "%#z".to_string() }.produce(), JsonValue::Null);
    assert!(Generator::new(CurrentDateTime { format: "%z".to_string() }).is_ready());
    assert!(generator("dt(%H:%M)", &none()).is_ok());
    assert_eq!(text(built("dt(%H:%M)").next()).len(), 5);
    assert!(text(built("dt(' ')").next()).len() > 19);
}

#[test]
fn error_constructors() {
    let e = GenError::new_with("a");
    assert_eq!((e.reason(), e.tpe(), e.kind()), ("a", GenErrorType::Common, GenErrorKind::Other));
    let e = GenError::new_with_in_parser("b");
    assert_eq!((e.reason(), e.tpe()), ("b", GenErrorType::Parser));
    let e = GenError::new_with_in_sender("c");
    assert_eq!((e.reason(), e.tpe()), ("c", GenErrorType::Sender));
    assert_eq!(
        e.to_string(),
        "error while parsing a generator func, reason: c and type: Sender"
    );
    let e = GenError::new_with_in_generator("d");
    assert_eq!((e.reason(), e.tpe()), ("d", GenErrorType::Generator));
    let e = e.with_kind(GenErrorKind::Syntax);
    assert_eq!((e.reason(), e.kind()), ("d", GenErrorKind::Syntax));
}

#[test]
fn quoted_arguments() {
    assert_eq!(text(built("str(0,'a,b','c)d')").next()), "a,bc)d");
    assert_eq!(text(built(r#"str(0, \'x,y'\ , 'z' )"#).next()), "x,yz");
    assert_eq!(text(built(r#"str(0,'it\'s')"#).next()), r#"it\'s"#);
    assert_eq!(text(built("str(0,'',b)").next()), "''b");
    assert_eq!(text(built("str(0,'a b ', c d )").next()), "a b c d");
}

#[test]
fn calls_of_an_expression() {
    let calls: Vec<Call> = parse(" a ( 1 , 'x y' ) -> b() ->c(,)").unwrap();
    assert_eq!(calls.len(), 3);
    assert_eq!(calls[0].name, "a");
    assert_eq!(calls[0].args, vec!["1".to_string(), "x y".to_string()]);
    assert_eq!(calls[1].name, "b");
    assert_eq!(calls[1].args, vec!["".to_string()]);
    assert_eq!(calls[2].name, "c");
    assert_eq!(calls[2].args, vec!["".to_string(), "".to_string()]);
    assert!(parse("a() b()").is_none());
    assert!(parse("()").is_none());
    let g = atomic_generator(&calls[0], &none());
    assert_eq!(g.err().unwrap().kind(), GenErrorKind::UnknownFunction);
}

#[test]
fn only_an_array_takes_a_generator_in() {
    let array = Generator::new(RandomArray::new_size(2));
    let merged = array.merge(Generator::new(Sequence { val: 0, step: 5 })).ok().unwrap();
    let mut merged = merged;
    assert_eq!(merged.next(), JsonValue::Array(vec![whole(5), whole(10)]));
    let plain = Generator::new(RandomBool::new());
    let e = plain.merge(Generator::new(RandomBool::new())).err().unwrap();
    assert_eq!(e.kind(), GenErrorKind::Unsupported);
    let a = RandomArray::new(3, Generator::new(RandomBool::new()));
    assert_eq!(a.len(), 3);
    assert!(!a.is_empty());
    assert!(RandomArray::new_size(0).is_empty());
}

#[test]
fn sequence_stops_at_the_end_of_its_range() {
    let mut g = Generator::new(Sequence { val: i32::MAX - 1, step: 1 });
    assert!(g.fits(1));
    assert!(!g.fits(2));
    assert_eq!(g.try_next(), Some(whole(i32::MAX as i64)));
    assert_eq!(g.try_next(), None);
    match &g.function {
        Func::Sequence(s) => assert_eq!((s.val, s.step), (i32::MAX, 1)),
        _ => panic!("no sequence"),
    }
    let g = Generator::new(Sequence { val: i32::MIN, step: 0 });
    assert!(g.is_steady());
    assert!(g.fits(usize::MAX));
    let g = built("seq(0,1) -> array(1000) -> array(1000000)");
    assert!(g.fits(2));
    assert!(!g.fits(3));
    assert!(!g.fits(usize::MAX));
    assert!(!g.is_steady());
    let g = built("seq(0,1) -> array(0) -> array(5)");
    assert!(g.is_steady());
    assert!(g.fits(usize::MAX));
    let g = built("seq(5,-1)");
    assert!(g.fits(2147483653));
    assert!(!g.fits(2147483654));
}

#[test]
fn template_that_cannot_go_on_is_left_alone() {
    let mut t = JsonTemplate::new(
        JsonValue::Object(vec![("|n".to_string(), JsonValue::String("seq(2147483645)".to_string()))]),
        "|",
        &none(),
    )
    .ok()
    .unwrap();
    assert!(t.is_ready());
    assert!(t.fits(2));
    assert!(!t.fits(3));
    assert_eq!(try_generate(&mut t, 3), None);
    let out = try_generate(&mut t, 2).unwrap();
    assert_eq!(out[0].get("n"), Some(&whole(2147483646)));
    assert_eq!(out[1].get("n"), Some(&whole(2147483647)));
    assert_eq!(try_generate(&mut t, 1), None);
    assert_eq!(try_generate(&mut t, 0), Some(vec![]));
}

#[test]
fn cutting_a_text() {
    assert_eq!(pieces("a,b,,c", ","), vec!["a", "b", "", "c"]);
    assert_eq!(pieces("", ","), vec![""]);
    assert_eq!(pieces(",", ","), vec!["", ""]);
    assert_eq!(pieces("abc", ""), vec!["", "a", "b", "c", ""]);
    assert_eq!(pieces("a--b-c", "--"), vec!["a", "b-c"]);
    assert_eq!(pieces("aaa", "aa"), vec!["", "a"]);
    assert_eq!(pieces("ab", "abc"), vec!["ab"]);
}

#[test]
fn delimiters_and_entries() {
    assert_eq!(delimiter_of("\\n"), vec!['\n']);
    assert_eq!(delimiter_of(" \\r\\n "), vec!['\r', '\n']);
    assert_eq!(delimiter_of("\\r"), vec!['\r']);
    assert_eq!(delimiter_of("\\n\\r"), vec!['\n', '\r']);
    assert_eq!(delimiter_of(" ; "), vec![' ', ';', ' ']);
    assert_eq!(process_string::<String>("a b\nc".to_string(), "\\n").ok().unwrap(), vec!["ab", "c"]);
    assert_eq!(process_string::<String>("a b c".to_string(), " ").ok().unwrap(), vec!["a", "b", "c"]);
    assert_eq!(process_string::<String>("a b::c".to_string(), "::").ok().unwrap(), vec!["ab", "c"]);
    let e = process_string::<i64>("1,,2".to_string(), ",").err().unwrap();
    assert_eq!(e.kind(), GenErrorKind::Construction);
    assert_eq!(e.tpe(), GenErrorType::Parser);
    assert_eq!(
        e.reason(),
        "impossible to convert string to i64 due to cannot parse integer from empty string"
    );
}

#[test]
fn reading_numbers() {
    assert_eq!(<i64 as FromStringTo>::parse("+5", false).ok(), Some(5));
    assert_eq!(<i64 as FromStringTo>::parse("-9223372036854775808", false).ok(), Some(i64::MIN));
    assert!(<i64 as FromStringTo>::parse("9223372036854775808", false).is_err());
    assert!(<i64 as FromStringTo>::parse(" 5", false).is_err());
    assert_eq!(<i64 as FromStringTo>::parse(" 5 ", true).ok(), Some(5));
    assert!(<i64 as FromStringTo>::parse("-", false).is_err());
    assert!(<i64 as FromStringTo>::parse("", false).is_err());
    assert_eq!(<i32 as FromStringTo>::parse("2147483647", false).ok(), Some(i32::MAX));
    assert!(<i32 as FromStringTo>::parse("2147483648", false).is_err());
    assert_eq!(<usize as FromStringTo>::parse("+0", false).ok(), Some(0));
    assert!(<usize as FromStringTo>::parse("-0", false).is_err());
    assert_eq!(<String as FromStringTo>::parse(" a b ", true).ok(), Some("ab".to_string()));
    assert_eq!(<String as FromStringTo>::parse(" a b ", false).ok(), Some(" a b ".to_string()));
    assert_eq!(trim_spaces(" a  b\tc "), "ab\tc");
}

#[test]
fn texts() {
    assert_eq!(chars_of("héllo"), vec!['h', 'é', 'l', 'l', 'o']);
    assert_eq!(text_of(&chars_of("héllo"), 1, 3), "él");
    assert!(same_text("abc", "abc"));
    assert!(!same_text("abc", "abd"));
    assert!(!same_text("abc", "ab"));
    assert_eq!(trim_text(" \t\u{a0}a b\u{2003}\n"), "a b");
    assert_eq!(trim_text("   "), "");
}

#[test]
fn files_by_path() {
    let mut files = Files::new();
    assert_eq!(files.get("a"), None);
    files.add("a", "first");
    files.add("b", "other");
    files.add("a", "second");
    assert_eq!(files.get("a"), Some("first"));
    assert_eq!(files.get("b"), Some("other"));
    assert_eq!(files.get("c"), None);
}

#[test]
fn documents() {
    let t = JsonTemplate::from_str(r#"[1, -2, 18446744073709551615, 2.50, "é", {"k": [], "k": 3}]"#, "|", &none());
    let mut t = t.ok().unwrap();
    let v = t.next_value();
    assert_eq!(
        v,
        JsonValue::Array(vec![
            whole(1),
            whole(-2),
            JsonValue::Number(Number::Decimal("18446744073709551615".to_string())),
            JsonValue::Number(Number::Decimal("2.5".to_string())),
            JsonValue::String("é".to_string()),
            JsonValue::Object(vec![("k".to_string(), whole(3))]),
        ])
    );
    assert_eq!(v.clone(), v);
    assert_eq!(v.as_array().unwrap().len(), 6);
    assert_eq!(v.as_array().unwrap()[0].as_i64(), Some(1));
    assert_eq!(v.as_array().unwrap()[2].as_i64(), None);
    assert_eq!(v.as_array().unwrap()[4].as_str(), Some("é"));
    assert_eq!(JsonValue::Bool(true).as_bool(), Some(true));
    assert_eq!(JsonValue::Null.as_bool(), None);
    assert!(JsonValue::Null.is_null());
    assert!(!whole(0).is_null());
    assert!(v.get("k").is_none());
}

#[test]
fn booleans_come_both_ways() {
    let mut g = built("bool()");
    let mut yes = 0;
    for _ in 0..1000 {
        if g.next().as_bool().unwrap() {
            yes += 1;
        }
    }
    assert!(yes > 250 && yes < 550);
}

#[test]
fn files_that_expressions_read() {
    assert_eq!(paths("str_from_file(a/b, ;) -> array(2)"), vec!["a/b"]);
    assert_eq!(paths("int_from_file('c d',,)"), vec!["c d"]);
    assert_eq!(paths("int_from_file(x)"), vec!["x"]);
    assert_eq!(paths("int_from_file()"), Vec::<String>::new());
    assert_eq!(paths("int_from_file(x,y,z)"), Vec::<String>::new());
    assert_eq!(paths("uuid()"), Vec::<String>::new());
    assert_eq!(paths("str_from_file(a,b"), Vec::<String>::new());
    let body = r#"{"|a": "str_from_file(one,,)", "b": [{"|c": "int_from_file(two, -)"}, {"|d": 1}],
                   "e": "str_from_file(three,,)", "|f": "seq() -> str_from_file(four,,)"}"#;
    assert_eq!(JsonTemplate::paths_in(body, "|").ok().unwrap(), vec!["one", "two", "four"]);
    assert_eq!(JsonTemplate::paths_in(body, "#").ok().unwrap(), Vec::<String>::new());
    assert_eq!(JsonTemplate::paths_in("[", "|").err().unwrap().kind(), GenErrorKind::Json);
    let mut files = Files::new();
    files.add("one", "x,y");
    files.add("two", "1-2");
    let e = JsonTemplate::from_str(body, "|", &files).err().unwrap();
    assert_eq!(e.kind(), GenErrorKind::GeneratorMustBeString);
}

#[test]
fn random_bool_by_default() {
    let mut g = Generator::new(RandomBool::default());
    assert!(g.next().is_boolean());
    assert!(g.is_ready());
    assert!(g.is_steady());
}

#[test]
fn date_and_time_at_a_point_in_time() {
    let at = Instant { secs: 1431648000, nanos: 0 };
    let dt = CurrentDateTime { format: "%Y-%m-%d %H:%M:%S".to_string() };
    assert_eq!(dt.value_at(at), Some(JsonValue::String("2015-05-15 00:00:00".to_string())));
    let dt = CurrentDateTime { format: "%d/%m/%Y at %H h".to_string() };
    assert_eq!(dt.value_at(at), Some(JsonValue::String("15/05/2015 at 00 h".to_string())));
    let dt = CurrentDateTime { format: String::new() };
    assert_eq!(dt.value_at(at), Some(JsonValue::String("2015-05-15 00:00:00 UTC".to_string())));
    let dt = CurrentDateTime { format: "%Y-%m-%d %H:%M:%S".to_string() };
    let before = Instant { secs: -1, nanos: 500 };
    assert_eq!(dt.value_at(before), Some(JsonValue::String("1969-12-31 23:59:59".to_string())));
    let start = Instant { secs: 0, nanos: 0 };
    assert_eq!(dt.value_at(start), Some(JsonValue::String("1970-01-01 00:00:00".to_string())));
    let reading_only = CurrentDateTime { format: "%Y %#z".to_string() };
    assert_eq!(reading_only.value_at(at), None);
    assert!(!reading_only.is_ready());
    assert!(dt.is_ready());
    let nowhere = Instant { secs: 0, nanos: 2_000_000_000 };
    assert_eq!(dt.value_at(nowhere), None);
    let too_far = Instant { secs: i64::MAX, nanos: 0 };
    assert_eq!(dt.value_at(too_far), None);
}

#[test]
fn date_and_time_of_the_call() {
    let dt = CurrentDateTime { format: "%Y".to_string() };
    let year = text(dt.produce());
    assert_eq!(year.len(), 4);
    assert!(year.as_str() >= "2015");
    let plain = text(CurrentDateTime { format: String::new() }.produce());
    assert!(plain.starts_with(year.as_str()));
    assert!(plain.ends_with(" UTC"));
}

#[test]
fn malformed_expression() {
    let e = malformed();
    assert_eq!(e.reason(), "malformed expression");
    assert_eq!(e.kind(), GenErrorKind::Syntax);
    assert_eq!(e.tpe(), GenErrorType::Parser);
    let e = generator("uuid(", &none()).err().unwrap();
    assert_eq!(e.reason(), "malformed expression in the expression: uuid(");
}

#[test]
fn a_comma_parts_the_entries_by_default() {
    let mut files = Files::new();
    files.add("p", "a,b");
    files.add("n", "4,5");
    let mut g = generator("str_from_file(p)", &files).unwrap();
    for _ in 0..50 {
        let s = text(g.next());
        assert!(s == "a" || s == "b");
    }
    let mut g = generator("int_from_file( n )", &files).unwrap();
    for _ in 0..50 {
        let n = g.next().as_i64().unwrap();
        assert!(n == 4 || n == 5);
    }
    let mut g = generator("str_from_file(p,,)", &files).unwrap();
    let s = text(g.next());
    assert!(s == "a" || s == "b");
    let mut g = generator("str_from_file(p,;)", &files).unwrap();
    assert_eq!(text(g.next()), "a,b");
}

#[test]
fn errors_of_a_template_name_what_is_wrong() {
    let e = JsonTemplate::from_str(r#"{"a": {"|id": 5, "|x": true}}"#, "|", &none()).err().unwrap();
    assert_eq!(e.kind(), GenErrorKind::GeneratorMustBeString);
    assert_eq!(e.reason(), "a generator function should be a string, in the field: |id");
    let e = JsonTemplate::from_str(r#"[{"|n": "seq(x)"}, {"|id": 5}]"#, "|", &none()).err().unwrap();
    assert_eq!(e.kind(), GenErrorKind::InvalidArguments);
    assert!(e.reason().ends_with("seq(x)"));
}

#[test]
fn entry_that_is_no_number() {
    let e = <i64 as FromStringTo>::parse(" - 1 ", false).err().unwrap();
    assert_eq!(
        e.to_string(),
        "error while parsing a generator func, reason: impossible to convert string to i64 due to invalid digit found in string and type: Parser"
    );
    assert_eq!(<i64 as FromStringTo>::parse(" - 1 ", true).ok(), Some(-1));
    let e = <usize as FromStringTo>::parse("", false).err().unwrap();
    assert_eq!(
        e.reason(),
        "impossible to convert string to usize due to cannot parse integer from empty string"
    );
    let e = <i32 as FromStringTo>::parse("99999999999", false).err().unwrap();
    assert_eq!(
        e.reason(),
        "impossible to convert string to i32 due to number too large to fit in target type"
    );
}

#[test]
fn values_as_text() {
    assert_eq!(JsonValue::Null.to_string(), "null");
    assert_eq!(JsonValue::Bool(true).to_string(), "true");
    assert_eq!(JsonValue::Bool(false).to_string(), "false");
    assert_eq!(whole(0).to_string(), "0");
    assert_eq!(whole(7).to_string(), "7");
    assert_eq!(whole(1203).to_string(), "1203");
    assert_eq!(whole(-45).to_string(), "-45");
    assert_eq!(whole(i64::MAX).to_string(), "9223372036854775807");
    assert_eq!(whole(i64::MIN).to_string(), "-9223372036854775808");
    assert_eq!(JsonValue::Number(Number::Decimal("2.5".to_string())).to_string(), "2.5");
    assert_eq!(JsonValue::String("a".to_string()).to_string(), "\"a\"");
    assert_eq!(
        JsonValue::String("q\"b\\n\nr\rt\tb\u{8}f\u{c}c\u{1}d\u{1f}é ".to_string()).to_string(),
        r#""q\"b\\n\nr\rt\tb\bf\fc\u0001d\u001fé ""#
    );
    assert_eq!(JsonValue::Array(vec![]).to_string(), "[]");
    assert_eq!(JsonValue::Object(vec![]).to_string(), "{}");
    let v = JsonValue::Object(vec![
        ("a".to_string(), JsonValue::Array(vec![whole(1), JsonValue::Null, JsonValue::Array(vec![])])),
        ("b c".to_string(), JsonValue::Object(vec![("d".to_string(), JsonValue::Bool(true))])),
    ]);
    assert_eq!(v.to_string(), r#"{"a":[1,null,[]],"b c":{"d":true}}"#);
}

#[test]
fn text_of_a_value_reads_back() {
    let body = r#"{"a":[1,-2,2.5,"x\"y\\z\n\u0001é",true,null],"b":{"c":[]},"d":18446744073709551615}"#;
    let mut t = JsonTemplate::from_str(body, "|", &none()).ok().unwrap();
    let v = t.next_value();
    assert_eq!(v.to_string(), body);
    let read: serde_json::Value = serde_json::from_str(v.to_string().as_str()).unwrap();
    assert_eq!(serde_json::to_string(&read).unwrap(), v.to_string());
}

#[test]
fn generators_and_templates_in_words() {
    assert_eq!(built("seq(1)").to_string(), "Generator[Sequence]");
    assert_eq!(built("uuid()").to_string(), "Generator[UUID]");
    assert_eq!(built("bool()").to_string(), "Generator[RandomBool]");
    assert_eq!(built("int()").to_string(), "Generator[RandomInt]");
    assert_eq!(built("str()").to_string(), "Generator[RandomString]");
    assert_eq!(built("dt()").to_string(), "Generator[CurrentDateTime]");
    assert_eq!(built("str_from_list(a)").to_string(), "Generator[RandomFromList]");
    assert_eq!(built("int_from_list(1)").to_string(), "Generator[RandomFromList]");
    assert_eq!(built("seq() -> array(2)").to_string(), "Generator[RandomArray]");
    let t = JsonTemplate::from_str(r#"{"|field": "uuid()","num" : 1}"#, "|", &none()).ok().unwrap();
    assert_eq!(t.to_string(), "{field:Generator[UUID],num:1,}");
    let t = JsonTemplate::from_str(r#"[{"a": ["x", {}]}, [], null]"#, "|", &none()).ok().unwrap();
    assert_eq!(t.to_string(), r#"[{a:["x",{},],},[],null,]"#);
}
