use chrono::Utc;
use json_generator::files::Files;
use json_generator::generate;
use json_generator::json_template::JsonTemplate;
use json_generator::value::{JsonValue, Number};

const CITIES: &str = "BerlinPragueMoscowLondonHelsinkiRomeBarcelonaViennaAmsterdamDublin";

fn marked(expression: &str) -> JsonValue {
    JsonValue::Object(vec![
        ("|field".to_string(), JsonValue::String(expression.to_string())),
        ("num".to_string(), JsonValue::Number(Number::Int(1))),
    ])
}

fn text<'a>(v: Option<&'a JsonValue>) -> &'a str {
    match v {
        Some(JsonValue::String(el)) => el.as_str(),
        _ => panic!("the initial epr is not equal to expected one"),
    }
}

fn field<'a>(v: &'a JsonValue, name: &str) -> &'a JsonValue {
    match v.get(name) {
        Some(el) => el,
        None => panic!("the initial epr is not equal to expected one"),
    }
}

#[test]
fn json_template_simple_test() {
    let res = JsonTemplate::new(marked("uuid()"), "|", &Files::new());
    assert!(res.is_ok());
    println!("{}", res.unwrap().to_string());
}

#[test]
fn json_template_simple_failed_test() {
    let res = JsonTemplate::new(marked("uuidds()"), "|", &Files::new());
    println!("{}", res.err().unwrap().to_string());
}

#[test]
fn json_template_from_str_test() {
    let res = JsonTemplate::from_str(r#"{"|field": "uuid()","num" : 1}"#, "|", &Files::new());
    assert!(res.is_ok());
    println!("{}", res.unwrap().to_string());
}

#[test]
fn structure_simple_test() {
    let res = JsonTemplate::new(marked("uuid()"), "|", &Files::new());
    assert!(res.is_ok());
    println!("{}", res.unwrap().to_string());
}

#[test]
fn structure_simple_failed_test() {
    let res = JsonTemplate::new(marked("uuidds()"), "|", &Files::new());
    println!("{}", res.err().unwrap().to_string());
}

#[test]
fn structure_from_str_test() {
    let res = JsonTemplate::from_str(r#"{"|field": "uuid()","num" : 1}"#, "|", &Files::new());
    assert!(res.is_ok());
    println!("{}", res.unwrap().to_string());
}

#[test]
fn base_test() {
    let jt_body = r#"{"|id": "uuid()"}"#;
    let mut js_template = JsonTemplate::from_str(jt_body, "|", &Files::new()).unwrap();
    let out = generate(&mut js_template, 1);
    match out.get(0) {
        Some(JsonValue::Object(_)) => {
            assert!(out[0].get("id").and_then(|e| e.as_str()).unwrap().len() == 36)
        }
        _ => panic!("the initial epr is not equal to expected one"),
    }
}

#[test]
fn full_test() {
    let jt_body = r#"
{
  "description": "the example how to create a json template to generate new jsons",
  "note": "the prefix | in a field name signals that the field carries a function to generate data.",
  "record": {
    "|type": "str_from_list(business,technical,analytical)",
    "technical":{
      "|id": "uuid()",
      "|index": "seq()",
      "|update_tm": "dt()",
      "|created_tm": "dt(%Y-%m-%d %H:%M:%S)"
    },
    "|is_active": "bool()",
    "|name": "str(10,customer)",
    "|email": "str(5,,@gmail.com)",
    "|code": "str(5,,'(code)')",
    "|dsc": "str(20)",
    "geo": {
      "|country": "str_from_file(jsons/countries,,)",
      "|city": "str_from_file(jsons/cities,\n)",
      "|street": "str(10,,-street)",
      "|house": "int(1,1000)"
    },
    "|id_parent": "int_from_list(1,2,3,4,5,6,7)",
    "|related_records": "int(1,1000) -> array(5)"

  }
}
            "#;
    let mut files = Files::new();
    files.add("jsons/countries", "USA,England,Ireland,Germany,Russia,Japan,Australia");
    files.add("jsons/cities", CITIES);
    let mut js_template = JsonTemplate::from_str(jt_body, "|", &files).unwrap();
    let json = generate(&mut js_template, 1);
    let values = match json.get(0) {
        Some(v) => v,
        None => panic!("the initial epr is not equal to expected one"),
    };
    assert!(values.as_object().is_some());
    assert_eq!(
        text(values.get("description")),
        "the example how to create a json template to generate new jsons"
    );
    let rec_values = field(values, "record");
    assert!(rec_values.as_object().is_some());
    assert!("businesstechnicalanalytical".contains(text(rec_values.get("type"))));
    assert!(field(rec_values, "is_active").is_boolean());

    let v = text(rec_values.get("name"));
    assert_eq!(v.len(), 18);
    assert!(v.starts_with("customer"));

    let v = text(rec_values.get("email"));
    assert_eq!(v.len(), 15);
    assert!(v.ends_with("@gmail.com"));

    let v = text(rec_values.get("code"));
    assert_eq!(v.len(), 11);
    assert!(v.ends_with("(code)"));

    assert_eq!(text(rec_values.get("dsc")).len(), 20);

    let n = field(rec_values, "id_parent");
    assert!(vec![1, 2, 3, 4, 5, 6, 7].contains(&n.as_i64().unwrap()));

    let elems = match field(rec_values, "related_records") {
        JsonValue::Array(elems) => elems,
        _ => panic!("the initial epr is not equal to expected one"),
    };
    assert_eq!(elems.len(), 5);
    for el in elems.iter() {
        let el = el.as_i64().unwrap();
        assert!(el > 0 && el < 1000)
    }

    let geo = field(rec_values, "geo");
    assert!(geo.as_object().is_some());
    assert!("USAEnglandIrelandGermanyRussiaJapanAustralia".contains(text(geo.get("country"))));
    assert!(
        "BerlinPragueMoscowLondonHelsinkiRomeBarcelonaViennaAmsterdamDublin"
            .contains(text(geo.get("city")))
    );
    let el = field(geo, "house").as_i64().unwrap();
    assert!(el > 0 && el < 1000);

    let technical = field(rec_values, "technical");
    assert!(technical.as_object().is_some());
    assert_eq!(text(technical.get("id")).len(), 36);
    assert_eq!(field(technical, "index").as_i64().unwrap(), 1);
    let time = Utc::now();
    assert_eq!(text(technical.get("update_tm")), &time.format("%Y-%m-%d %H:%M:%S").to_string());
}
