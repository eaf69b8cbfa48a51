use html_scrape_blocks::model::scrape_block_error::frame;
use html_scrape_blocks::model::scrape_block_error::ScrapeBlockError;
use html_scrape_blocks::model::value::FromValue;
use html_scrape_blocks::model::value::Value;
use html_scrape_blocks::model::value::ValueKind;
use html_scrape_blocks::util::address::Link;
use html_scrape_blocks::util::date::DateTime;
use html_scrape_blocks::util::number::Decimal;

fn sample_date() -> DateTime {
    DateTime { year: 2024, month: 2, day: 29, hour: 23, minute: 59, second: 58, nanosecond: 0 }
}

fn one_of_each() -> Vec<Value> {
    vec![
        Value::Text(String::from("text")),
        Value::Integer(-3),
        Value::Double(Decimal::new(String::from("2.5")).unwrap()),
        Value::Boolean(true),
        Value::Url(Link { href: String::from("https://example.com/") }),
        Value::Date(sample_date()),
        Value::StringList(vec![String::from("a"), String::from("b")]),
        Value::List(vec![Value::Integer(1), Value::Integer(2)]),
    ]
}

fn is_mismatch(error: &ScrapeBlockError, wanted: &str, got: &str) -> bool {
    matches!(
        error,
        ScrapeBlockError::InvalidType { expected, found } if expected == wanted && found == got
    )
}

#[test]
fn kinds_have_the_names_of_their_rules() {
    let names: Vec<String> = one_of_each().iter().map(|value| value.kind().name()).collect();
    assert_eq!(
        names,
        &["String", "Integer", "Double", "Boolean", "URL", "Date", "StringArray", "Array"]
    );
    assert_eq!(ValueKind::Text.name(), "String");
    assert_eq!(ValueKind::List.name(), "Array");
}

#[test]
fn each_accessor_takes_its_own_kind() {
    let mut values = one_of_each().into_iter();
    assert_eq!(values.next().unwrap().as_string().unwrap(), "text");
    assert_eq!(values.next().unwrap().as_integer().unwrap(), -3);
    assert_eq!(values.next().unwrap().as_double().unwrap().as_str(), "2.5");
    assert!(values.next().unwrap().as_boolean().unwrap());
    assert_eq!(values.next().unwrap().as_url().unwrap().href, "https://example.com/");
    assert_eq!(values.next().unwrap().as_date().unwrap(), sample_date());
    assert_eq!(values.next().unwrap().as_string_array().unwrap(), &["a", "b"]);
    assert_eq!(values.next().unwrap().as_array::<i64>().unwrap(), &[1, 2]);
}

#[test]
fn each_accessor_refuses_every_other_kind() {
    let names = ["String", "Integer", "Double", "Boolean", "URL", "Date", "StringArray", "Array"];
    for (at, found) in names.iter().enumerate() {
        let value = |at: usize| one_of_each().swap_remove(at);
        if at != 0 {
            assert!(is_mismatch(&value(at).as_string().unwrap_err(), "String", found));
        }
        if at != 1 {
            assert!(is_mismatch(&value(at).as_integer().unwrap_err(), "Integer", found));
        }
        if at != 2 {
            assert!(is_mismatch(&value(at).as_double().unwrap_err(), "Double", found));
        }
        if at != 3 {
            assert!(is_mismatch(&value(at).as_boolean().unwrap_err(), "Boolean", found));
        }
        if at != 4 {
            assert!(is_mismatch(&value(at).as_url().unwrap_err(), "URL", found));
        }
        if at != 5 {
            assert!(is_mismatch(&value(at).as_date().unwrap_err(), "Date", found));
        }
        if at != 6 {
            assert!(is_mismatch(&value(at).as_string_array().unwrap_err(), "StringArray", found));
        }
        if at != 7 {
            assert!(is_mismatch(&value(at).as_array::<Value>().unwrap_err(), "Array", found));
        }
    }
}

#[test]
fn mismatch_names_both_kinds() {
    let error = Value::Boolean(false).mismatch(ValueKind::Date);
    assert!(is_mismatch(&error, "Date", "Boolean"));
}

#[test]
fn as_array_narrows_every_item() {
    let texts = Value::List(vec![Value::Text(String::from("One")), Value::Text(String::from("Two"))]);
    assert_eq!(texts.as_array::<String>().unwrap(), &["One", "Two"]);
    let empty = Value::List(Vec::new());
    assert!(empty.as_array::<bool>().unwrap().is_empty());
    let nested = Value::List(vec![
        Value::StringList(vec![String::from("a")]),
        Value::StringList(Vec::new()),
    ]);
    let lists = nested.as_array::<Vec<String>>().unwrap();
    assert_eq!(lists.len(), 2);
    assert_eq!(lists[0], &["a"]);
    assert!(lists[1].is_empty());
}

#[test]
fn as_array_fails_on_the_first_item_of_another_kind() {
    let mixed = Value::List(vec![
        Value::Integer(1),
        Value::Boolean(true),
        Value::Text(String::from("x")),
    ]);
    let error = mixed.as_array::<i64>().unwrap_err();
    assert!(is_mismatch(&error, "Integer", "Boolean"));
}

#[test]
fn as_array_of_values_keeps_the_items() {
    let list = Value::List(vec![Value::Integer(5), Value::List(vec![Value::Boolean(true)])]);
    let items = list.as_array::<Value>().unwrap();
    assert_eq!(items.len(), 2);
    assert!(matches!(items[0], Value::Integer(5)));
    assert!(matches!(&items[1], Value::List(inner) if inner.len() == 1));
}

#[test]
fn from_value_is_the_accessor_of_the_type() {
    assert_eq!(String::from_value(Value::Text(String::from("t"))).unwrap(), "t");
    assert_eq!(i64::from_value(Value::Integer(9)).unwrap(), 9);
    assert!(!bool::from_value(Value::Boolean(false)).unwrap());
    assert_eq!(DateTime::from_value(Value::Date(sample_date())).unwrap(), sample_date());
    assert_eq!(
        Link::from_value(Value::Url(Link { href: String::from("x:y") })).unwrap().href,
        "x:y"
    );
    let number = Value::Double(Decimal::new(String::from("1e3")).unwrap());
    assert_eq!(Decimal::from_value(number).unwrap().as_str(), "1e3");
    assert!(is_mismatch(&i64::from_value(Value::Boolean(true)).unwrap_err(), "Integer", "Boolean"));
    assert!(is_mismatch(
        &String::from_value(Value::Url(Link { href: String::from("x:y") })).unwrap_err(),
        "String",
        "URL"
    ));
}

#[test]
fn frame_writes_the_subject_between_two_texts() {
    assert_eq!(frame("<", "x", ">"), "<x>");
    assert_eq!(frame("", "", ""), "");
    assert_eq!(frame("a", "", "b"), "ab");
}

#[test]
fn every_failure_has_its_sentence() {
    let text = |t: &str| String::from(t);
    assert_eq!(
        ScrapeBlockError::InvalidRegex(text("(")).message(),
        "This regex is invalid: `(`"
    );
    assert_eq!(
        ScrapeBlockError::UrlParseError(text("nope")).message(),
        "This url is invalid: `nope`"
    );
    assert_eq!(
        ScrapeBlockError::ElementExpected(text("h1.title")).message(),
        "Expected to find an element but got None: `h1.title`"
    );
    assert_eq!(
        ScrapeBlockError::EmptyText(text("p")).message(),
        "Selector `p` resulted in an empty text"
    );
    assert_eq!(
        ScrapeBlockError::InvalidType { expected: text("String"), found: text("Integer") }
            .message(),
        "ScrapeBlock returned type of \"Integer\", but expected \"String\""
    );
    assert_eq!(
        ScrapeBlockError::NotAnInteger(text("1x")).message(),
        "Expected an integer, but got: `1x`"
    );
    assert_eq!(
        ScrapeBlockError::NotADouble(text("1,5")).message(),
        "Expected a double, but got: `1,5`"
    );
    assert_eq!(
        ScrapeBlockError::NotADate(text("soon")).message(),
        "Expected a date, but got: `soon`"
    );
    assert_eq!(
        ScrapeBlockError::InvalidDateFormat(text("%Q"), text("bad or unsupported format string"))
            .message(),
        "Invalid date format: `%Q` bad or unsupported format string"
    );
}
