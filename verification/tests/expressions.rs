use json_generator::error::{GenError, GenErrorKind};
use json_generator::files::Files;
use json_generator::generator::Generator;
use json_generator::parser::generator::generator;
use json_generator::value::{JsonValue, Number};

const CITIES: &str = "BerlinPragueMoscowLondonHelsinkiRomeBarcelonaViennaAmsterdamDublin";

fn files() -> Files {
    let mut files = Files::new();
    files.add("jsons/numbers", "1,2,3,4,5,6,7,8,9");
    files.add("jsons/numbers_negate", "-3,-2,-1,1,2,3");
    files.add("jsons/cities", CITIES);
    files
}

fn gen(i: &str) -> Result<Generator, GenError> {
    generator(i, &files())
}

fn ok(i: &str) -> Generator {
    match gen(i) {
        Ok(g) => g,
        Err(e) => panic!("the epr {} is not equal to expected one", e.to_string()),
    }
}

fn failed(i: &str) -> GenError {
    match gen(i) {
        Ok(_) => panic!("the initial epr is not equal to expected one"),
        Err(e) => e,
    }
}

fn text(v: JsonValue) -> String {
    match v {
        JsonValue::String(el) => el,
        _ => panic!("the initial epr is not equal to expected one"),
    }
}

fn items(v: JsonValue) -> Vec<JsonValue> {
    match v {
        JsonValue::Array(elems) => elems,
        _ => panic!("the initial epr is not equal to expected one"),
    }
}

#[test]
fn current_dt_test() {
    assert_eq!(19, text(ok("dt()").next()).len());
    assert_eq!(19, text(ok(" dt (  ) ").next()).len());
    let el = text(ok("dt( %Y-%m-%d )").next());
    println!("{}", el);
    assert_eq!(10, el.len());
}

#[test]
fn uuid_test() {
    assert_eq!(text(ok("uuid()").next()).len(), 36);
    assert_eq!(text(ok(" uuid ( ) ").next()).len(), 36);
}

#[test]
fn generator_bool_test() {
    assert!(ok("bool()").next().is_boolean());
}

#[test]
fn seq_test() {
    let mut g = ok("seq(1)");
    assert_eq!(Some(2), g.next().as_i64());
    assert_eq!(Some(3), g.next().as_i64());
    assert_eq!(Some(4), g.next().as_i64());

    let mut g = ok("seq(-1)");
    assert_eq!(Some(0), g.next().as_i64());
    assert_eq!(Some(1), g.next().as_i64());
    assert_eq!(Some(2), g.next().as_i64());

    let mut g = ok("seq(-1,-1)");
    assert_eq!(Some(-2), g.next().as_i64());
    assert_eq!(Some(-3), g.next().as_i64());
    assert_eq!(Some(-4), g.next().as_i64());

    let mut g = ok("seq(10,-10)");
    assert_eq!(Some(0), g.next().as_i64());
    assert_eq!(Some(-10), g.next().as_i64());
    assert_eq!(Some(-20), g.next().as_i64());
}

#[test]
fn generator_random_string_test() {
    assert_eq!(text(ok("str(10)").next()).len(), 10);
    assert_eq!(failed("str(abc)").kind(), GenErrorKind::InvalidArguments);

    let el = text(ok("str(10,abc)").next());
    assert_eq!(el.len(), 13);
    assert!(el.starts_with("abc"));

    let el = text(ok("str(10,,abc)").next());
    assert_eq!(el.len(), 13);
    assert!(el.ends_with("abc"));

    let el = text(ok("str(10,cba,abc)").next());
    assert_eq!(el.len(), 16);
    assert!(el.ends_with("abc"));
    assert!(el.starts_with("cba"));

    assert_eq!(text(ok("str(0,jimmy_smith,@gmail.com)").next()), "jimmy_smith@gmail.com");
    assert_eq!(text(ok("str(0,'jimmy_smith',@gmail.com)").next()), "jimmy_smith@gmail.com");
}

#[test]
fn generator_random_int_test() {
    let mut g = ok("int(0,10)");
    for _ in (0..1000).into_iter() {
        let n = g.next().as_i64().unwrap();
        assert!(n > -1 && n < 11)
    }

    let mut g = ok("int(-10,11)");
    for _ in (0..1000).into_iter() {
        let n = g.next().as_i64().unwrap();
        assert!(n > -11 && n < 11)
    }

    let mut g = ok("int(-10)");
    for _ in (0..1000).into_iter() {
        let n = g.next().as_i64().unwrap();
        assert!(n > -11 && n < 1000)
    }

    let mut g = ok("int()");
    for _ in (0..1000).into_iter() {
        let n = g.next().as_i64().unwrap();
        assert!(n > -1 && n < 1000)
    }

    let mut g = ok("int(,10)");
    for _ in (0..1000).into_iter() {
        let n = g.next().as_i64().unwrap();
        assert!(n > -1 && n < 10)
    }
}

#[test]
fn random_str_from_list_test() {
    let el = text(ok(r#"str_from_list(a,b,c,d)"#).next());
    assert_eq!("abcd".contains(el.as_str()), true);

    let el = text(ok(r#"str_from_list(,,,)"#).next());
    assert_eq!("".contains(el.as_str()), true);

    let el = text(ok(r#"str_from_list(abc , bca , cdb)"#).next());
    assert_eq!("abcbcacdb".contains(el.as_str()), true);

    let el = text(ok(r#"str_from_list( )"#).next());
    assert_eq!(el, "");
}

#[test]
fn random_int_from_list_test() {
    let n = ok(r#"int_from_list(1,2,3)"#).next().as_i64().unwrap();
    assert!(vec![1, 2, 3].contains(&n));

    assert_eq!(ok(r#"int_from_list()"#).next(), JsonValue::Null);

    let e = failed(r#"int_from_list(a,b,c)"#);
    assert!(e.to_string().contains("int_from_list(a,b,c)"));
}

#[test]
fn random_str_from_file_test() {
    let el = text(ok(r#"str_from_file(jsons/cities, \n)"#).next());
    assert_eq!(
        "BerlinPragueMoscowLondonHelsinkiRomeBarcelonaViennaAmsterdamDublin".contains(el.as_str()),
        true
    );

    let el = text(ok(r#"str_from_file(jsons/numbers,,)"#).next());
    assert_eq!("123456789".contains(el.as_str()), true);

    let el = failed(r#"str_from_file()"#);
    assert!(el.to_string().contains("str_from_file"));
    let el = failed(r#"str_from_file(f,)"#);
    assert!(el.to_string().contains("str_from_file"));
}

#[test]
fn random_int_from_file_test() {
    let mut g = ok(r#"int_from_file(jsons/numbers_negate,,)"#);
    for _ in (1..100).into_iter() {
        let n = g.next().as_i64().unwrap();
        assert!(n > -4 && n < 4)
    }

    let n = ok(r#"int_from_file(jsons/numbers,,)"#).next().as_i64().unwrap();
    assert!(n > 0 && n < 10);

    let e = failed(r#"int_from_file(jsons/cities, \n)"#);
    assert!(e.to_string().contains("int_from_file"));
    let el = failed(r#"int_from_file()"#);
    assert!(el.to_string().contains("int_from_file"));
}

#[test]
fn random_array_test() {
    let elems = items(ok(r#"int_from_list(1,2,3,4) -> array()"#).next());
    assert_eq!(elems.len(), 1);
    assert!(!elems.get(0).unwrap().is_null());
    elems.iter().flat_map(|e| e.as_i64()).for_each(|e| assert!(e > 0 && e < 5));

    let elems = items(ok(r#"int_from_list(1,2,3,4) -> array(3)"#).next());
    assert!(!elems.get(0).unwrap().is_null());
    assert_eq!(elems.len(), 3);
    elems.iter().flat_map(|e| e.as_i64()).for_each(|e| assert!(e > 0 && e < 5));

    let elems = items(ok(r#"str_from_list(aaa,'bbb',ccc) -> array(3)"#).next());
    elems.iter().flat_map(|e| e.as_str()).for_each(|e| assert!("aaa'bbb'ccc".contains(e)));

    let elems = items(ok(r#"seq(1) -> array(3) -> array()"#).next());
    assert_eq!(elems.len(), 1);
    assert!(!elems.get(0).unwrap().is_null());
    let expected = vec![
        JsonValue::Number(Number::Int(2)),
        JsonValue::Number(Number::Int(3)),
        JsonValue::Number(Number::Int(4)),
    ];
    elems.iter().flat_map(|e| e.as_array()).for_each(|e| {
        assert_eq!(e.len(), 3);
        assert_eq!(e, &expected);
    });
}
