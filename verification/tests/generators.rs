use json_generator::files::Files;
use json_generator::generator::generators::{
    process_string, CurrentDateTime, Null, RandomArray, RandomFromFile, RandomFromList, RandomInt,
    RandomString, Sequence, UUID,
};
use json_generator::generator::{Generator, GeneratorFunc};
use json_generator::value::JsonValue;

const CITIES: &str = "BerlinPragueMoscowLondonHelsinkiRomeBarcelonaViennaAmsterdamDublin";

fn gen<T: GeneratorFunc>(f: T) -> Generator {
    Generator::new(f)
}

fn files() -> Files {
    let mut files = Files::new();
    files.add("jsons/numbers", "1,2,3,4,5,6,7,8,9");
    files.add("jsons/cities", CITIES);
    files
}

#[test]
fn null_test() {
    match gen(Null {}).next() {
        JsonValue::Null => (),
        _ => panic!("the initial epr is not equal to expected one"),
    }
}

#[test]
fn random_uuid_test() {
    match gen(UUID {}).next() {
        JsonValue::String(el) => assert_eq!(el.len(), 36),
        _ => panic!("the initial epr is not equal to expected one"),
    }
}

#[test]
fn sequence_test() {
    let mut g1 = gen(Sequence { val: 1, step: 2 });

    assert_eq!(g1.next().as_i64(), Some(3));
    assert_eq!(g1.next().as_i64(), Some(5));

    let mut g1 = gen(Sequence { val: 1, step: -1 });

    assert_eq!(g1.next().as_i64(), Some(0));
    assert_eq!(g1.next().as_i64(), Some(-1));
}

#[test]
fn generators_random_int_test() {
    let mut g = gen(RandomInt::new(-1000, 1000));

    for _ in 0..3 {
        match g.next().as_i64() {
            Some(el) => assert!(el >= -1000 && el <= 1000),
            None => panic!("the initial epr is not equal to expected one"),
        }
    }
}

#[test]
fn generators_random_string_test() {
    match gen(RandomString::new(10)).next() {
        JsonValue::String(el) => assert_eq!(el.len(), 10),
        _ => panic!("the initial epr is not equal to expected one"),
    }
    let mut g = gen(RandomString::new_with(10, "abc".to_string(), "cba".to_string()));
    match g.next() {
        JsonValue::String(el) => {
            assert_eq!(el.len(), 16);
            assert!(el.starts_with("abc"));
            assert!(el.ends_with("cba"));
        }
        _ => panic!("the initial epr is not equal to expected one"),
    }
}

#[test]
fn current_ts_test() {
    let mut x = gen(CurrentDateTime { format: "%Y-%m-%d".to_string() });
    let first = x.next();
    let second = x.next();
    assert_eq!(first, second);

    let mut x = CurrentDateTime { format: "%Y-%m-%d %H:%M:%S".to_string() };
    match x.next_value() {
        JsonValue::String(el) => {
            println!("{}", el);
            assert_eq!(el.len(), 19);
        }
        _ => panic!("the initial epr is not equal to expected one"),
    }
}

#[test]
fn random_from_list_test() {
    let mut gn = gen(RandomFromList::new((1..10).collect::<Vec<i64>>()));
    match gn.next().as_i64() {
        Some(el) => assert_eq!(el > 0, el < 10),
        None => panic!("the initial epr is not equal to expected one"),
    }

    let gf: RandomFromList<i64> = RandomFromList::new(vec![]);
    let mut gen = gen(gf);
    assert_eq!(gen.next(), JsonValue::Null);
}

#[test]
fn from_file_test() {
    let files = files();
    let g = RandomFromFile::<i64>::new(r#"jsons/numbers"#, ",", &files).map(|f| Generator::new(f));

    match g {
        Ok(mut g) => match g.next().as_i64() {
            Some(el) => assert!(el > 0 && el < 10),
            None => panic!("the initial epr is not equal to expected one"),
        },
        Err(_) => panic!("the initial epr is not equal to expected one"),
    }

    let g = RandomFromFile::<String>::new(r#"jsons/cities"#, "\n", &files).map(|f| Generator::new(f));

    match g {
        Ok(mut g) => match g.next() {
            JsonValue::String(city) => assert!(
                "BerlinPragueMoscowLondonHelsinkiRomeBarcelonaViennaAmsterdamDublin".contains(&city)
            ),
            _ => panic!("the initial epr is not equal to expected one"),
        },
        Err(_) => panic!("the initial epr is not equal to expected one"),
    }
}

#[test]
fn from_string_test() {
    let vec = process_string::<String>("a,b,c".to_string(), ",").unwrap();
    assert_eq!(vec, vec!["a".to_string(), "b".to_string(), "c".to_string()]);

    let vec = process_string::<i32>("1,2,3".to_string(), ",").unwrap();
    assert_eq!(vec, vec![1, 2, 3]);

    let err = process_string::<i32>("1,c,3".to_string(), ",");
    assert_eq!(
        err.err().unwrap().to_string(),
        "error while parsing a generator func, reason: impossible to convert string to i32 due to invalid digit found in string and type: Parser"
    );

    let vec = process_string::<i64>("-1,-2,-3".to_string(), ",").unwrap();
    assert_eq!(vec, vec![-1, -2, -3]);

    let vec = process_string::<i64>(" -1 , -2 , -3 ".to_string(), ",").unwrap();
    assert_eq!(vec, vec![-1, -2, -3]);
    let vec = process_string::<i64>(" - 1  , - 2 , - 3 ".to_string(), ",").unwrap();
    assert_eq!(vec, vec![-1, -2, -3]);

    let vec = process_string::<i64>("-1 -2 -3".to_string(), " ").unwrap();
    assert_eq!(vec, vec![-1, -2, -3]);
}

#[test]
fn generators_array_test() {
    let g_int = gen(RandomInt::new(1, 100));
    let mut gen = gen(RandomArray::new(3, g_int));

    match gen.next() {
        JsonValue::Array(elems) => {
            assert_eq!(elems.len(), 3);
            for e in elems.into_iter() {
                match e.as_i64() {
                    Some(el) => assert_eq!(el > 0 && el < 100, true),
                    None => panic!("the initial epr is not equal to expected one"),
                }
            }
        }
        _ => panic!("the initial epr is not equal to expected one"),
    }
}

#[test]
fn to_string_test() {
    let mut f = Generator::new(Null {});
    let first = f.next();
    let second = f.next();
    assert_eq!(first, second);
    assert_eq!(f.next(), JsonValue::Null);
}

#[test]
fn tools_simple_test() {
    match RandomInt::new(10, 20).next_value().as_i64() {
        Some(el) => assert_eq!(el > 9, el < 20),
        None => panic!("the initial epr is not equal to expected one"),
    }
}
