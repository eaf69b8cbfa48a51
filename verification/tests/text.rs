use html_scrape_blocks::util::text::chars_of;
use html_scrape_blocks::util::text::clone_strings;
use html_scrape_blocks::util::text::concat_strings;
use html_scrape_blocks::util::text::join_strings;

fn pieces(texts: &[&str]) -> Vec<String> {
    texts.iter().map(|text| text.to_string()).collect()
}

#[test]
fn concat_writes_pieces_one_after_another() {
    assert_eq!(concat_strings(&pieces(&["ab", "", "c", "de"])), "abcde");
    assert_eq!(concat_strings(&pieces(&["only"])), "only");
    assert_eq!(concat_strings(&pieces(&[])), "");
}

#[test]
fn join_puts_the_separator_between_neighbours() {
    assert_eq!(join_strings(&pieces(&["a", "b", "c"]), ", "), "a, b, c");
    assert_eq!(join_strings(&pieces(&["a"]), ", "), "a");
    assert_eq!(join_strings(&pieces(&[]), ", "), "");
    assert_eq!(join_strings(&pieces(&["", ""]), "-"), "-");
    assert_eq!(join_strings(&pieces(&["x", "", "y"]), "/"), "x//y");
}

#[test]
fn join_agrees_with_the_standard_library() {
    let samples: Vec<Vec<String>> = vec![
        pieces(&[]),
        pieces(&["one"]),
        pieces(&["one", "two"]),
        pieces(&["", "two", ""]),
        pieces(&["ü", "€", "字"]),
    ];
    for sample in &samples {
        for separator in ["", " ", "--", "é"] {
            assert_eq!(join_strings(sample, separator), sample.join(separator));
        }
    }
}

#[test]
fn join_with_empty_separator_is_concat() {
    let sample = pieces(&["a", "bc", "", "d"]);
    assert_eq!(join_strings(&sample, ""), concat_strings(&sample));
}

#[test]
fn chars_of_lists_characters_not_bytes() {
    assert_eq!(chars_of("aé字"), vec!['a', 'é', '字']);
    assert!(chars_of("").is_empty());
}

#[test]
fn clone_strings_copies_every_text() {
    let sample = pieces(&["a", "", "bc"]);
    assert_eq!(clone_strings(&sample), sample);
}
