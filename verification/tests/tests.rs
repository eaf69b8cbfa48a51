use html_scrape_blocks::model::query_matcher::QueryMatcher;
use html_scrape_blocks::model::scrape_block::make_cfg;
use html_scrape_blocks::model::scrape_block::Matcher;
use html_scrape_blocks::model::scrape_block_error::ScrapeBlockError;
use html_scrape_blocks::util::kuchiki_elements::Document;

const TEST_HTML: &str = "<!DOCTYPE html>\n<html>\n<head><title>Test Page</title></head>\n<body>\n<h1 class=\"title\">Test Title</h1>\n<ul><li>One</li><li>Two</li><li>Three</li></ul>\n</body>\n</html>\n";

fn get_test_doc() -> Document {
    Document::parse(TEST_HTML)
}

#[test]
fn test_string_matcher() {
    let matcher = Matcher::String {
        query: QueryMatcher {
            selector: String::from("h1.title"),
            ..Default::default()
        },
    };

    let doc = get_test_doc();
    let result = matcher.exec_string(&doc.elements()).unwrap();

    assert_eq!(result, "Test Title");
}

#[test]
fn test_string_array_matcher() {
    let doc = get_test_doc();

    let matcher = Matcher::StringArray {
        query: QueryMatcher {
            selector: String::from("ul > li"),
            ..Default::default()
        },
        split_regex: None,
    };

    let result = matcher.exec_string_array(&doc.elements()).unwrap();
    assert_eq!(result, &["One", "Two", "Three"]);

    let matcher = Matcher::StringArray {
        query: QueryMatcher {
            selector: String::from("h1.title"),
            ..Default::default()
        },
        split_regex: Some(String::from(" ")),
    };

    let result = matcher.exec_string_array(&doc.elements()).unwrap();
    assert_eq!(result, &["Test", "Title"]);
}

#[test]
fn test_default_matcher() {
    let matcher = Matcher::String {
        query: QueryMatcher {
            selector: String::from("h1.not-found"),
            default: Some(String::from("Default Value")),
            ..Default::default()
        },
    };

    let doc = get_test_doc();
    let result = matcher.exec_string(&doc.elements()).unwrap();

    assert_eq!(result, "Default Value");
}

#[test]
fn test_not_found_matcher() {
    let matcher = Matcher::String {
        query: QueryMatcher {
            selector: String::from("h1.not-found"),
            ..Default::default()
        },
    };

    let doc = get_test_doc();
    let result = matcher.exec_string(&doc.elements());

    assert!(matches!(
        result,
        Err(ScrapeBlockError::ElementExpected(_selector))
    ));
}

#[test]
fn test_array() {
    let matcher = Matcher::Array {
        query: QueryMatcher {
            selector: "ul li".to_string(),
            ..Default::default()
        },
        each: Box::new(Matcher::String {
            query: QueryMatcher {
                selector: String::from("*"),
                ..Default::default()
            },
        }),
    };

    let doc = get_test_doc();
    let result = matcher.exec_array::<String>(&doc.elements()).unwrap();

    assert_eq!(result, &["One", "Two", "Three"]);
}

#[test]
fn test_case() {
    let doc = get_test_doc();

    let cfg = make_cfg();

    let html = doc
        .elements()
        .select("html:first-of-type")
        .expect("Unknown selector");

    let str = cfg
        .exec_string(&html.descendants_of(0))
        .expect("Not a string matcher");

    println!("str: {str}");
}
