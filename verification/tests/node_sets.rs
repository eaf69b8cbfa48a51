use html_scrape_blocks::util::kuchiki_elements::selector_is_valid;
use html_scrape_blocks::util::kuchiki_elements::Document;
use html_scrape_blocks::util::kuchiki_elements::MAX_HTML_BYTES;

const PAGE: &str = "<html><head><title>Shop</title></head><body><div id=\"top\" class=\"box\" data-kind=\"main\">Hello <b>big</b> world</div><p class=\"note\" title=\"Hint\">Read <i>this</i></p><a href=\"/home\" title=\"Home\">Start</a></body></html>";

#[test]
fn document_counts_its_elements() {
    let doc = Document::parse(PAGE);
    // html, head, title, body, div, b, p, i, a
    assert_eq!(doc.element_count(), 9);
    assert_eq!(doc.elements().len(), 9);
    assert!(!doc.elements().is_empty());
}

#[test]
fn empty_text_still_gives_a_document() {
    let doc = Document::parse("");
    // The parser supplies html, head and body.
    assert_eq!(doc.element_count(), 3);
}

#[test]
fn select_keeps_matching_elements_in_order() {
    let doc = Document::parse("<ul><li>One</li><li class=\"x\">Two</li><li>Three</li></ul>");
    let all = doc.elements();
    let items = all.select("li").unwrap();
    assert_eq!(items.len(), 3);
    assert_eq!(items.text_contents(0), "One");
    assert_eq!(items.text_contents(1), "Two");
    assert_eq!(items.text_contents(2), "Three");
    let marked = all.select("li.x").unwrap();
    assert_eq!(marked.len(), 1);
    assert_eq!(marked.text_contents(0), "Two");
    let none = all.select("table").unwrap();
    assert_eq!(none.len(), 0);
    assert!(none.is_empty());
}

#[test]
fn select_on_a_selection_narrows_it() {
    let doc = Document::parse(PAGE);
    let titled = doc.elements().select("[title]").unwrap();
    assert_eq!(titled.len(), 2);
    let links = titled.select("a").unwrap();
    assert_eq!(links.len(), 1);
    assert_eq!(links.text_contents(0), "Start");
}

#[test]
fn select_sees_an_element_in_its_tree() {
    let doc = Document::parse("<div><p>in</p></div><p>out</p>");
    let inner = doc.elements().select("div > p").unwrap();
    assert_eq!(inner.len(), 1);
    assert_eq!(inner.text_contents(0), "in");
}

#[test]
fn select_refuses_a_selector_that_does_not_compile() {
    let doc = Document::parse(PAGE);
    assert!(doc.elements().select("div[").is_none());
    assert!(doc.elements().select("").is_none());
    assert!(!selector_is_valid("div["));
    assert!(!selector_is_valid(":no-such-class"));
    assert!(selector_is_valid("div.box > b"));
    assert!(selector_is_valid("ul li, ol li"));
}

#[test]
fn own_text_is_the_direct_text_only() {
    let doc = Document::parse(PAGE);
    let div = doc.elements().select("div").unwrap();
    assert_eq!(div.own_text(), "Hello  world");
    let bold = doc.elements().select("b").unwrap();
    assert_eq!(bold.own_text(), "big");
}

#[test]
fn own_text_runs_over_all_elements_of_the_set() {
    let doc = Document::parse("<ul><li>One</li><li>Two</li><li>Three</li></ul>");
    let items = doc.elements().select("li").unwrap();
    assert_eq!(items.own_text(), "OneTwoThree");
    let none = doc.elements().select("table").unwrap();
    assert_eq!(none.own_text(), "");
}

#[test]
fn all_text_joins_every_text_node_below() {
    let doc = Document::parse(PAGE);
    let div = doc.elements().select("div").unwrap();
    assert_eq!(div.all_text("|"), "Hello |big| world");
    assert_eq!(div.all_text(""), "Hello big world");
    let both = doc.elements().select("p, a").unwrap();
    assert_eq!(both.all_text(", "), "Read , this, Start");
    let none = doc.elements().select("table").unwrap();
    assert_eq!(none.all_text("|"), "");
}

#[test]
fn text_contents_is_the_full_text_of_one_element() {
    let doc = Document::parse(PAGE);
    let picked = doc.elements().select("div, p").unwrap();
    assert_eq!(picked.text_contents(0), "Hello big world");
    assert_eq!(picked.text_contents(1), "Read this");
}

#[test]
fn attrs_first_of_lists_present_values_element_by_element() {
    let doc = Document::parse(PAGE);
    let picked = doc.elements().select("div, p, a").unwrap();
    let names = vec![String::from("title"), String::from("id"), String::from("href")];
    assert_eq!(picked.attrs_first_of(&names), &["top", "Hint", "Home", "/home"]);
    let reversed = vec![String::from("href"), String::from("title")];
    assert_eq!(picked.attrs_first_of(&reversed), &["Hint", "/home", "Home"]);
    let absent = vec![String::from("lang")];
    assert!(picked.attrs_first_of(&absent).is_empty());
}

#[test]
fn attr_first_of_is_the_first_present_value() {
    let doc = Document::parse(PAGE);
    let picked = doc.elements().select("div, p, a").unwrap();
    let names = vec![String::from("href"), String::from("title")];
    assert_eq!(picked.attr_first_of(&names), Some(String::from("Hint")));
    let link = doc.elements().select("a").unwrap();
    assert_eq!(link.attr_first_of(&names), Some(String::from("/home")));
    let absent = vec![String::from("lang")];
    assert_eq!(picked.attr_first_of(&absent), None);
}

#[test]
fn no_attribute_names_no_values() {
    let doc = Document::parse(PAGE);
    let picked = doc.elements();
    let names: Vec<String> = Vec::new();
    assert!(picked.attrs_first_of(&names).is_empty());
    assert_eq!(picked.attr_first_of(&names), None);
}

#[test]
fn descendants_of_is_the_element_and_all_below_it() {
    let doc = Document::parse(PAGE);
    let body = doc.elements().select("body").unwrap();
    let below = body.descendants_of(0);
    // body, div, b, p, i, a
    assert_eq!(below.len(), 6);
    assert_eq!(below.text_contents(0), "Hello big worldRead thisStart");
    assert_eq!(below.text_contents(1), "Hello big world");
    assert_eq!(below.text_contents(2), "big");
    let leaf = doc.elements().select("i").unwrap().descendants_of(0);
    assert_eq!(leaf.len(), 1);
    assert_eq!(leaf.text_contents(0), "this");
}

#[test]
fn descendants_of_numbers_elements_as_the_document_does() {
    let doc = Document::parse(PAGE);
    let p = doc.elements().select("p").unwrap().descendants_of(0);
    // Selecting inside the subtree sees the same elements as the document.
    let inner = p.select("i").unwrap();
    assert_eq!(inner.len(), 1);
    assert_eq!(inner.own_text(), "this");
    assert_eq!(p.select("b").unwrap().len(), 0);
}

#[test]
fn clone_is_the_same_set() {
    let doc = Document::parse(PAGE);
    let picked = doc.elements().select("div, p").unwrap();
    let copy = picked.clone();
    assert_eq!(copy.len(), 2);
    assert_eq!(copy.text_contents(0), picked.text_contents(0));
    assert_eq!(copy.text_contents(1), picked.text_contents(1));
}

#[test]
fn a_leaf_is_its_own_subtree_and_the_universal_selector_matches_it() {
    let doc = Document::parse(PAGE);
    let leaf = doc.elements().select("b").unwrap();
    let below = leaf.descendants_of(0);
    assert_eq!(below.len(), 1);
    assert_eq!(below.select("*").unwrap().len(), 1);
    // All text below a leaf is its direct text.
    assert_eq!(below.own_text(), "big");
    assert_eq!(below.all_text(""), "big");
    assert_eq!(below.text_contents(0), "big");
    assert_eq!(doc.elements().select("*").unwrap().len(), doc.element_count());
}

#[test]
fn long_pages_within_the_limit_are_parsed() {
    assert_eq!(MAX_HTML_BYTES, 268_435_456);
    let mut page = String::from("<ul>");
    for number in 0..20_000 {
        page.push_str("<li>");
        page.push_str(&number.to_string());
        page.push_str("</li>");
    }
    page.push_str("</ul>");
    assert!(page.len() <= MAX_HTML_BYTES);
    let doc = Document::parse(&page);
    let items = doc.elements().select("li").unwrap();
    assert_eq!(items.len(), 20_000);
    assert_eq!(items.text_contents(19_999), "19999");
}

#[test]
fn a_nul_in_an_attribute_becomes_a_replacement_character() {
    let doc = Document::parse("<p title=\"a\0b\">text</p>");
    let p = doc.elements().select("p").unwrap();
    let names = vec![String::from("title")];
    assert_eq!(p.attr_first_of(&names), Some(String::from("a\u{fffd}b")));
}
