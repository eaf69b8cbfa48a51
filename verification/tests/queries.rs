use html_scrape_blocks::model::query_matcher::clone_text_option;
use html_scrape_blocks::model::query_matcher::QueryMatcher;
use html_scrape_blocks::model::query_matcher::TextType;
use html_scrape_blocks::model::scrape_block_error::ScrapeBlockError;
use html_scrape_blocks::util::kuchiki_elements::Document;

const ARTICLE: &str = "<html><body><h1 class=\"title\" data-id=\"7\">Price: <b>12</b> EUR</h1><a class=\"more\" href=\"/a\" title=\"First\">one</a><a class=\"more\" title=\"Second\">two</a><p class=\"empty\"></p></body></html>";

fn query(selector: &str) -> QueryMatcher {
    QueryMatcher {
        selector: String::from(selector),
        ..Default::default()
    }
}

fn names(texts: &[&str]) -> Vec<String> {
    texts.iter().map(|text| text.to_string()).collect()
}

#[test]
fn default_query_is_empty_and_reads_own_text() {
    let query = QueryMatcher::default();
    assert_eq!(query.selector, "");
    assert!(matches!(query.text_type, TextType::Own));
    assert_eq!(query.clean_with_regex_1, None);
    assert_eq!(query.default, None);
    assert!(matches!(TextType::default(), TextType::Own));
}

#[test]
fn clone_copies_every_field() {
    let query = QueryMatcher {
        selector: String::from("a.more"),
        text_type: TextType::Attribute {
            join_str: Some(String::from(", ")),
            attributes: names(&["href", "title"]),
        },
        clean_with_regex_1: Some(String::from("[a-z]+")),
        default: Some(String::from("none")),
    };
    let copy = query.clone();
    assert_eq!(copy.selector, "a.more");
    match copy.text_type {
        TextType::Attribute { join_str, attributes } => {
            assert_eq!(join_str, Some(String::from(", ")));
            assert_eq!(attributes, &["href", "title"]);
        }
        _ => panic!("the text policy changed its kind"),
    }
    assert_eq!(copy.clean_with_regex_1, Some(String::from("[a-z]+")));
    assert_eq!(copy.default, Some(String::from("none")));
    match (TextType::All { join_str: String::from("-") }).clone() {
        TextType::All { join_str } => assert_eq!(join_str, "-"),
        _ => panic!("the text policy changed its kind"),
    }
    assert_eq!(clone_text_option(&Some(String::from("x"))), Some(String::from("x")));
    assert_eq!(clone_text_option(&None), None);
}

#[test]
fn select_filters_by_the_selector() {
    let doc = Document::parse(ARTICLE);
    let links = query("a.more").select(&doc.elements());
    assert_eq!(links.len(), 2);
    assert_eq!(links.text_contents(0), "one");
    assert_eq!(links.text_contents(1), "two");
    assert_eq!(query("h2").select(&doc.elements()).len(), 0);
}

#[test]
fn own_policy_reads_direct_text() {
    let doc = Document::parse(ARTICLE);
    let query = query("h1");
    let nodes = query.select(&doc.elements());
    assert_eq!(query.acquire(&nodes), "Price:  EUR");
    assert_eq!(query.text(&nodes).unwrap(), "Price:  EUR");
}

#[test]
fn all_policy_joins_text_nodes() {
    let doc = Document::parse(ARTICLE);
    let query = QueryMatcher {
        selector: String::from("h1"),
        text_type: TextType::All { join_str: String::from("_") },
        ..Default::default()
    };
    let nodes = query.select(&doc.elements());
    assert_eq!(query.text(&nodes).unwrap(), "Price: _12_ EUR");
}

#[test]
fn attribute_policy_without_joiner_takes_the_first_value() {
    let doc = Document::parse(ARTICLE);
    let query = QueryMatcher {
        selector: String::from("a.more"),
        text_type: TextType::Attribute {
            join_str: None,
            attributes: names(&["href", "title"]),
        },
        ..Default::default()
    };
    let nodes = query.select(&doc.elements());
    assert_eq!(query.text(&nodes).unwrap(), "/a");
}

#[test]
fn attribute_policy_with_joiner_joins_all_values() {
    let doc = Document::parse(ARTICLE);
    let query = QueryMatcher {
        selector: String::from("a.more"),
        text_type: TextType::Attribute {
            join_str: Some(String::from(" | ")),
            attributes: names(&["href", "title"]),
        },
        ..Default::default()
    };
    let nodes = query.select(&doc.elements());
    assert_eq!(query.text(&nodes).unwrap(), "/a | First | Second");
}

#[test]
fn attribute_policy_without_names_reads_nothing() {
    let doc = Document::parse(ARTICLE);
    for join_str in [None, Some(String::from(","))] {
        let query = QueryMatcher {
            selector: String::from("a.more"),
            text_type: TextType::Attribute { join_str, attributes: Vec::new() },
            ..Default::default()
        };
        let nodes = query.select(&doc.elements());
        assert_eq!(query.acquire(&nodes), "");
        assert!(matches!(
            query.text(&nodes),
            Err(ScrapeBlockError::ElementExpected(selector)) if selector == "a.more"
        ));
    }
}

#[test]
fn absent_attribute_falls_back_to_the_default() {
    let doc = Document::parse(ARTICLE);
    let query = QueryMatcher {
        selector: String::from("h1"),
        text_type: TextType::Attribute { join_str: None, attributes: names(&["lang"]) },
        default: Some(String::from("en")),
        ..Default::default()
    };
    let nodes = query.select(&doc.elements());
    assert_eq!(query.text(&nodes).unwrap(), "en");
}

#[test]
fn empty_text_without_default_is_element_expected() {
    let doc = Document::parse(ARTICLE);
    for selector in ["h2", "p.empty"] {
        let query = query(selector);
        let nodes = query.select(&doc.elements());
        assert!(matches!(
            query.text(&nodes),
            Err(ScrapeBlockError::ElementExpected(named)) if named == selector
        ));
    }
}

#[test]
fn empty_text_with_default_is_the_default() {
    let doc = Document::parse(ARTICLE);
    let query = QueryMatcher {
        selector: String::from("p.empty"),
        default: Some(String::from("nothing here")),
        // The cleanup is not consulted for an empty text.
        clean_with_regex_1: Some(String::from("(")),
        ..Default::default()
    };
    let nodes = query.select(&doc.elements());
    assert_eq!(query.text(&nodes).unwrap(), "nothing here");
}

#[test]
fn a_default_may_be_empty() {
    let doc = Document::parse(ARTICLE);
    let query = QueryMatcher {
        selector: String::from("h2"),
        default: Some(String::new()),
        ..Default::default()
    };
    let nodes = query.select(&doc.elements());
    assert_eq!(query.text(&nodes).unwrap(), "");
}

#[test]
fn cleanup_takes_the_first_match() {
    let doc = Document::parse(ARTICLE);
    let query = QueryMatcher {
        selector: String::from("h1"),
        text_type: TextType::All { join_str: String::new() },
        clean_with_regex_1: Some(String::from("[0-9]+|[A-Z]{3}")),
        ..Default::default()
    };
    let nodes = query.select(&doc.elements());
    assert_eq!(query.acquire(&nodes), "Price: 12 EUR");
    assert_eq!(query.text(&nodes).unwrap(), "12");
}

#[test]
fn cleanup_is_case_sensitive() {
    let doc = Document::parse(ARTICLE);
    let query = QueryMatcher {
        selector: String::from("h1"),
        clean_with_regex_1: Some(String::from("price")),
        ..Default::default()
    };
    let nodes = query.select(&doc.elements());
    assert!(matches!(
        query.text(&nodes),
        Err(ScrapeBlockError::ElementExpected(selector)) if selector == "h1"
    ));
}

#[test]
fn cleanup_without_match_is_element_expected_even_with_a_default() {
    let doc = Document::parse(ARTICLE);
    let query = QueryMatcher {
        selector: String::from("h1"),
        clean_with_regex_1: Some(String::from("[0-9]+")),
        default: Some(String::from("0")),
        ..Default::default()
    };
    let nodes = query.select(&doc.elements());
    // The direct text of the heading holds no digit: the 12 stands in <b>.
    assert!(matches!(
        query.text(&nodes),
        Err(ScrapeBlockError::ElementExpected(selector)) if selector == "h1"
    ));
}

#[test]
fn cleanup_that_does_not_compile_is_invalid_regex() {
    let doc = Document::parse(ARTICLE);
    let query = QueryMatcher {
        selector: String::from("h1"),
        clean_with_regex_1: Some(String::from("([0-9]+")),
        ..Default::default()
    };
    let nodes = query.select(&doc.elements());
    assert!(matches!(
        query.text(&nodes),
        Err(ScrapeBlockError::InvalidRegex(pattern)) if pattern == "([0-9]+"
    ));
}

#[test]
fn fallback_is_the_default_or_element_expected() {
    let plain = query("h1.title");
    assert!(matches!(
        plain.fallback(),
        Err(ScrapeBlockError::ElementExpected(selector)) if selector == "h1.title"
    ));
    let with_default = QueryMatcher {
        default: Some(String::from("Default Value")),
        ..query("h1.title")
    };
    assert_eq!(with_default.fallback().unwrap(), "Default Value");
}

#[test]
fn cleaned_is_the_match_or_element_expected() {
    let query = QueryMatcher {
        default: Some(String::from("unused")),
        ..query("h1.title")
    };
    assert_eq!(query.cleaned(Some(String::from("12"))).unwrap(), "12");
    assert_eq!(query.cleaned(Some(String::new())).unwrap(), "");
    assert!(matches!(
        query.cleaned(None),
        Err(ScrapeBlockError::ElementExpected(selector)) if selector == "h1.title"
    ));
}

#[test]
fn settle_decides_on_the_text_alone() {
    let plain = query("x");
    assert_eq!(plain.settle(String::from("as read")).unwrap(), "as read");
    assert!(matches!(
        plain.settle(String::new()),
        Err(ScrapeBlockError::ElementExpected(selector)) if selector == "x"
    ));
    let cleaning = QueryMatcher {
        clean_with_regex_1: Some(String::from("[a-z]+")),
        default: Some(String::from("fallback")),
        ..query("x")
    };
    assert_eq!(cleaning.settle(String::from("12 abc def")).unwrap(), "abc");
    assert_eq!(cleaning.settle(String::new()).unwrap(), "fallback");
    assert!(matches!(
        cleaning.settle(String::from("123")),
        Err(ScrapeBlockError::ElementExpected(selector)) if selector == "x"
    ));
}
