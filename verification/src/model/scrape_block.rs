//! The rule tree and its evaluation.
//!
//! A [`Matcher`] is one rule. It selects elements with its query and turns
//! them into a [`Value`] of the kind it is named after. Array and condition
//! rules hold further rules and evaluate them in turn. [`eval`] says what
//! every rule yields, and [`Matcher::exec`] computes it.

use vstd::prelude::*;

use crate::model::query_matcher::query_text;
use crate::model::query_matcher::QueryMatcher;
use crate::model::query_matcher::QueryMatcherView;
use crate::model::query_matcher::TextType;
use crate::model::query_matcher::TextTypeView;
use crate::model::scrape_block_error::ErrorView;
use crate::model::scrape_block_error::ScrapeBlockError;
use crate::model::value::kind_of;
use crate::model::value::lemma_list_view;
use crate::model::value::list_of;
use crate::model::value::narrowed_items;
use crate::model::value::result_view;
use crate::model::value::FromValue;
use crate::model::value::Value;
use crate::model::value::ValueKind;
use crate::model::value::ValueView;
use crate::util::address::parse_url;
use crate::util::address::url_normal_form;
use crate::util::address::Link;
use crate::util::date::chrono_parse;
use crate::util::date::parse_date_time;
use crate::util::date::DateParse;
use crate::util::date::DateParseView;
use crate::util::date::DateTime;
use crate::util::kuchiki_elements::html_child_texts;
use crate::util::kuchiki_elements::html_descendant_texts;
use crate::util::kuchiki_elements::html_subtree_len;
use crate::util::kuchiki_elements::own_texts;
use crate::util::kuchiki_elements::select_positions;
use crate::util::kuchiki_elements::selector_matches;
use crate::util::kuchiki_elements::selector_compiles;
use crate::util::kuchiki_elements::selector_is_valid;
use crate::util::kuchiki_elements::subtree_positions;
use crate::util::kuchiki_elements::text_contents;
use crate::util::kuchiki_elements::NodeSet;
use crate::util::number::integer_value;
use crate::util::number::is_float_literal;
use crate::util::number::parse_integer;
use crate::util::number::Decimal;
use crate::util::pattern::compile_regex;
use crate::util::pattern::is_match;
use crate::util::pattern::regex_compiles;
use crate::util::pattern::regex_is_match;
use crate::util::pattern::regex_origin;
use crate::util::pattern::regex_split;
use crate::util::pattern::split;
use crate::util::text::concat;

verus! {

/// One extraction rule. Every rule has a query; what else it holds depends
/// on its kind.
#[derive(Debug)]
#[allow(inconsistent_fields)]
pub enum Matcher {
    /// One value of `each` for every element that the query selects.
    Array { query: QueryMatcher, each: Box<Matcher> },
    /// The text of the query.
    String { query: QueryMatcher },
    /// The text of the query, read as an integer.
    Integer { query: QueryMatcher },
    /// The text of the query, read as a floating-point number.
    Double { query: QueryMatcher },
    /// The text of the query, read as an absolute URL.
    URL { query: QueryMatcher },
    /// The text of the query, read as a date by the first format that fits.
    Date { query: QueryMatcher, date_formats: Vec<String> },
    /// Whether the text of the query matches `matches_regex`, whatever the
    /// case.
    Boolean { query: QueryMatcher, matches_regex: String },
    /// The full texts of the selected elements, each split at `split_regex`
    /// where that is set.
    StringArray { query: QueryMatcher, split_regex: Option<String> },
    /// The value of `if_true` or of `if_false`, depending on whether the
    /// query selects anything and, with a `matches_regex`, on whether its
    /// text matches.
    Condition {
        query: QueryMatcher,
        matches_regex: Option<String>,
        if_true: Box<Matcher>,
        if_false: Box<Matcher>,
    },
}

/// [`Matcher`] as plain values.
#[allow(inconsistent_fields)]
pub ghost enum MatcherView {
    Array { query: QueryMatcherView, each: Box<MatcherView> },
    String { query: QueryMatcherView },
    Integer { query: QueryMatcherView },
    Double { query: QueryMatcherView },
    URL { query: QueryMatcherView },
    Date { query: QueryMatcherView, date_formats: Seq<Seq<char>> },
    Boolean { query: QueryMatcherView, matches_regex: Seq<char> },
    StringArray { query: QueryMatcherView, split_regex: Option<Seq<char>> },
    Condition {
        query: QueryMatcherView,
        matches_regex: Option<Seq<char>>,
        if_true: Box<MatcherView>,
        if_false: Box<MatcherView>,
    },
}

/// What a rule is, as plain values.
pub open spec fn matcher_view(matcher: Matcher) -> MatcherView
    decreases matcher,
{
    match matcher {
        Matcher::Array { query, each } => MatcherView::Array {
            query: query@,
            each: Box::new(matcher_view(*each)),
        },
        Matcher::String { query } => MatcherView::String { query: query@ },
        Matcher::Integer { query } => MatcherView::Integer { query: query@ },
        Matcher::Double { query } => MatcherView::Double { query: query@ },
        Matcher::URL { query } => MatcherView::URL { query: query@ },
        Matcher::Date { query, date_formats } => MatcherView::Date {
            query: query@,
            date_formats: date_formats.deep_view(),
        },
        Matcher::Boolean { query, matches_regex } => MatcherView::Boolean {
            query: query@,
            matches_regex: matches_regex@,
        },
        Matcher::StringArray { query, split_regex } => MatcherView::StringArray {
            query: query@,
            split_regex: split_regex.deep_view(),
        },
        Matcher::Condition { query, matches_regex, if_true, if_false } => MatcherView::Condition {
            query: query@,
            matches_regex: matches_regex.deep_view(),
            if_true: Box::new(matcher_view(*if_true)),
            if_false: Box::new(matcher_view(*if_false)),
        },
    }
}

impl View for Matcher {
    type V = MatcherView;

    open spec fn view(&self) -> MatcherView {
        matcher_view(*self)
    }
}

/// The query of a rule.
pub open spec fn query_of(matcher: MatcherView) -> QueryMatcherView {
    match matcher {
        MatcherView::Array { query, .. } => query,
        MatcherView::String { query } => query,
        MatcherView::Integer { query } => query,
        MatcherView::Double { query } => query,
        MatcherView::URL { query } => query,
        MatcherView::Date { query, .. } => query,
        MatcherView::Boolean { query, .. } => query,
        MatcherView::StringArray { query, .. } => query,
        MatcherView::Condition { query, .. } => query,
    }
}

/// Whether every selector in the rule tree compiles. A tree in which one
/// does not is a broken rule set, and is not evaluated.
pub open spec fn selectors_compile(matcher: MatcherView) -> bool
    decreases matcher,
{
    &&& selector_compiles(query_of(matcher).selector)
    &&& match matcher {
        MatcherView::Array { each, .. } => selectors_compile(*each),
        MatcherView::Condition { if_true, if_false, .. } => selectors_compile(*if_true)
            && selectors_compile(*if_false),
        _ => true,
    }
}

/// What an integer rule makes of its text.
pub open spec fn integer_result(text: Seq<char>) -> Result<ValueView, ErrorView> {
    match integer_value(text) {
        Some(number) => Ok(ValueView::Integer(number)),
        None => Err(ErrorView::NotAnInteger(text)),
    }
}

/// What a double rule makes of its text.
pub open spec fn double_result(text: Seq<char>) -> Result<ValueView, ErrorView> {
    if is_float_literal(text) {
        Ok(ValueView::Double(text))
    } else {
        Err(ErrorView::NotADouble(text))
    }
}

/// What a URL rule makes of its text, given the normal form that parsing the
/// text as a URL gave.
pub open spec fn url_result(text: Seq<char>, normal: Option<Seq<char>>) -> Result<
    ValueView,
    ErrorView,
> {
    match normal {
        Some(link) => Ok(ValueView::Url(link)),
        None => Err(ErrorView::UrlParseError(text)),
    }
}

/// What a boolean rule makes of its text.
pub open spec fn boolean_result(pattern: Seq<char>, text: Seq<char>) -> Result<
    ValueView,
    ErrorView,
> {
    if regex_compiles(pattern, true) {
        Ok(ValueView::Boolean(regex_is_match(pattern, true, text)))
    } else {
        Err(ErrorView::InvalidRegex(pattern))
    }
}

/// What one date format settles, given what reading the text by it gave:
/// the date, the failure of a malformed format, or nothing, so that the
/// next format is tried.
pub open spec fn date_step(format: Seq<char>, outcome: DateParseView) -> Option<
    Result<ValueView, ErrorView>,
> {
    match outcome {
        DateParseView::Parsed(date) => Some(Ok(ValueView::Date(date))),
        DateParseView::BadFormat(detail) => Some(Err(ErrorView::InvalidDateFormat(format, detail))),
        DateParseView::Mismatch => None,
    }
}

/// What a date rule makes of its text: the formats are tried in order from
/// number `from` on, the first that settles anything wins, and where none
/// does the text is no date.
pub open spec fn date_result(text: Seq<char>, formats: Seq<Seq<char>>, from: int) -> Result<
    ValueView,
    ErrorView,
>
    decreases formats.len() - from,
{
    if 0 <= from < formats.len() {
        match date_step(formats[from], chrono_parse(text, formats[from])) {
            Some(settled) => settled,
            None => date_result(text, formats, from + 1),
        }
    } else {
        Err(ErrorView::NotADate(text))
    }
}

/// The pieces that a string-array rule takes from one full text.
pub open spec fn pieces_of(text: Seq<char>, split_regex: Option<Seq<char>>) -> Seq<Seq<char>> {
    match split_regex {
        Some(pattern) => regex_split(pattern, false, text),
        None => seq![text],
    }
}

/// The pieces that a string-array rule takes from the elements at
/// `positions`, element by element.
pub open spec fn split_texts(
    source: Seq<char>,
    positions: Seq<usize>,
    split_regex: Option<Seq<char>>,
) -> Seq<Seq<char>>
    decreases positions.len(),
{
    if positions.len() == 0 {
        Seq::empty()
    } else {
        split_texts(source, positions.drop_last(), split_regex) + pieces_of(
            text_contents(source, positions.last() as int),
            split_regex,
        )
    }
}

/// What a string-array rule yields for the selected elements.
pub open spec fn string_array_result(
    source: Seq<char>,
    selected: Seq<usize>,
    split_regex: Option<Seq<char>>,
) -> Result<ValueView, ErrorView> {
    match split_regex {
        Some(pattern) if !regex_compiles(pattern, false) => Err(ErrorView::InvalidRegex(pattern)),
        _ => Ok(ValueView::StringList(split_texts(source, selected, split_regex))),
    }
}

/// Whether a condition rule holds for the selected elements: something has
/// to be selected, and where the rule has an expression, the text of the
/// query has to match it, whatever the case. Reading that text can fail.
pub open spec fn condition_holds(
    query: QueryMatcherView,
    matches_regex: Option<Seq<char>>,
    source: Seq<char>,
    selected: Seq<usize>,
) -> Result<bool, ErrorView> {
    if selected.len() == 0 {
        Ok(false)
    } else {
        match matches_regex {
            None => Ok(true),
            Some(pattern) => match query_text(query, source, selected) {
                Err(error) => Err(error),
                Ok(text) => if regex_compiles(pattern, true) {
                    Ok(regex_is_match(pattern, true, text))
                } else {
                    Err(ErrorView::InvalidRegex(pattern))
                },
            },
        }
    }
}

/// What a rule yields for the elements at `positions` of the document parsed
/// from `source`.
pub open spec fn eval(matcher: MatcherView, source: Seq<char>, positions: Seq<usize>) -> Result<
    ValueView,
    ErrorView,
>
    decreases matcher, 0nat, 0nat,
{
    let selected = select_positions(source, positions, query_of(matcher).selector);
    match matcher {
        MatcherView::Array { each, .. } => match eval_each(*each, source, selected) {
            Ok(items) => Ok(ValueView::List(items)),
            Err(error) => Err(error),
        },
        MatcherView::String { query } => match query_text(query, source, selected) {
            Ok(text) => Ok(ValueView::Text(text)),
            Err(error) => Err(error),
        },
        MatcherView::Integer { query } => match query_text(query, source, selected) {
            Ok(text) => integer_result(text),
            Err(error) => Err(error),
        },
        MatcherView::Double { query } => match query_text(query, source, selected) {
            Ok(text) => double_result(text),
            Err(error) => Err(error),
        },
        MatcherView::URL { query } => match query_text(query, source, selected) {
            Ok(text) => url_result(text, url_normal_form(text)),
            Err(error) => Err(error),
        },
        MatcherView::Date { query, date_formats } => match query_text(query, source, selected) {
            Ok(text) => date_result(text, date_formats, 0),
            Err(error) => Err(error),
        },
        MatcherView::Boolean { query, matches_regex } => match query_text(
            query,
            source,
            selected,
        ) {
            Ok(text) => boolean_result(matches_regex, text),
            Err(error) => Err(error),
        },
        MatcherView::StringArray { split_regex, .. } => string_array_result(
            source,
            selected,
            split_regex,
        ),
        MatcherView::Condition { query, matches_regex, if_true, if_false } => match condition_holds(
            query,
            matches_regex,
            source,
            selected,
        ) {
            Ok(true) => eval(*if_true, source, positions),
            Ok(false) => eval(*if_false, source, positions),
            Err(error) => Err(error),
        },
    }
}

/// What the rule `each` yields for each of the elements at `selected`, taken
/// with everything below it: all values in order, or the first failure.
pub open spec fn eval_each(each: MatcherView, source: Seq<char>, selected: Seq<usize>) -> Result<
    Seq<ValueView>,
    ErrorView,
>
    decreases each, 1nat, selected.len(),
{
    if selected.len() == 0 {
        Ok(Seq::empty())
    } else {
        match eval_each(each, source, selected.drop_last()) {
            Err(error) => Err(error),
            Ok(front) => match eval(each, source, subtree_positions(source, selected.last())) {
                Err(error) => Err(error),
                Ok(item) => Ok(front.push(item)),
            },
        }
    }
}

/// A result narrowed to the type `T`: a failure stays as it is.
pub open spec fn narrowed_result<T: FromValue>(result: Result<ValueView, ErrorView>) -> Result<
    T::V,
    ErrorView,
> {
    match result {
        Ok(value) => T::narrowed(value),
        Err(error) => Err(error),
    }
}

/// Once evaluating a front part of the selected elements has failed,
/// evaluating all of them fails in the same way.
pub proof fn lemma_eval_each_stays_failed(
    each: MatcherView,
    source: Seq<char>,
    selected: Seq<usize>,
    front: int,
)
    requires
        0 <= front <= selected.len(),
        eval_each(each, source, selected.take(front)) is Err,
    ensures
        eval_each(each, source, selected) == eval_each(each, source, selected.take(front)),
    decreases selected.len() - front,
{
    if front == selected.len() {
        assert(selected.take(front) =~= selected);
    } else {
        assert(selected.drop_last().take(front) =~= selected.take(front));
        lemma_eval_each_stays_failed(each, source, selected.drop_last(), front);
    }
}

/// Whether every value that a rule can yield is of the kind `kind`: the kind
/// that the rule is named after, or, for a condition, the kind of both of
/// its branches.
pub open spec fn yields_kind(matcher: MatcherView, kind: ValueKind) -> bool
    decreases matcher,
{
    match matcher {
        MatcherView::Array { .. } => kind == ValueKind::List,
        MatcherView::String { .. } => kind == ValueKind::Text,
        MatcherView::Integer { .. } => kind == ValueKind::Integer,
        MatcherView::Double { .. } => kind == ValueKind::Double,
        MatcherView::URL { .. } => kind == ValueKind::Url,
        MatcherView::Date { .. } => kind == ValueKind::Date,
        MatcherView::Boolean { .. } => kind == ValueKind::Boolean,
        MatcherView::StringArray { .. } => kind == ValueKind::StringList,
        MatcherView::Condition { if_true, if_false, .. } => yields_kind(*if_true, kind)
            && yields_kind(*if_false, kind),
    }
}

/// A date rule that succeeds yields a date.
pub proof fn lemma_date_result_is_a_date(text: Seq<char>, formats: Seq<Seq<char>>, from: int)
    requires
        0 <= from,
    ensures
        date_result(text, formats, from) matches Ok(value) ==> value is Date,
    decreases formats.len() - from,
{
    if from < formats.len() {
        lemma_date_result_is_a_date(text, formats, from + 1);
    }
}

/// The value of a rule is of the kind that the rule yields. So the typed
/// call that fits the rule fails only where the evaluation itself fails,
/// never with `InvalidType`.
pub proof fn lemma_value_has_the_kind_of_its_rule(
    matcher: MatcherView,
    kind: ValueKind,
    source: Seq<char>,
    positions: Seq<usize>,
)
    requires
        yields_kind(matcher, kind),
    ensures
        eval(matcher, source, positions) matches Ok(value) ==> kind_of(value) == kind,
    decreases matcher,
{
    match matcher {
        MatcherView::Date { query, date_formats } => {
            let selected = select_positions(source, positions, query.selector);
            match query_text(query, source, selected) {
                Ok(text) => lemma_date_result_is_a_date(text, date_formats, 0),
                Err(_) => {},
            }
        },
        MatcherView::Condition { if_true, if_false, .. } => {
            lemma_value_has_the_kind_of_its_rule(*if_true, kind, source, positions);
            lemma_value_has_the_kind_of_its_rule(*if_false, kind, source, positions);
        },
        _ => {},
    }
}

/// Whether element number `index` is a leaf with text: its subtree holds no
/// other element, so that the text below it is its direct text, and that
/// text is not empty.
pub open spec fn is_text_leaf(source: Seq<char>, index: int) -> bool {
    &&& html_subtree_len(source, index) == 1
    &&& html_descendant_texts(source, index) == html_child_texts(source, index)
    &&& concat(html_child_texts(source, index)).len() > 0
}

/// The direct texts of the elements at `positions`, one for each element.
pub open spec fn direct_texts(source: Seq<char>, positions: Seq<usize>) -> Seq<Seq<char>>
    decreases positions.len(),
{
    if positions.len() == 0 {
        Seq::empty()
    } else {
        direct_texts(source, positions.drop_last()).push(
            concat(html_child_texts(source, positions.last() as int)),
        )
    }
}

/// Texts as text values.
pub open spec fn text_values(texts: Seq<Seq<char>>) -> Seq<ValueView> {
    Seq::new(texts.len(), |i: int| ValueView::Text(texts[i]))
}

/// The text rule `*`, evaluated against the subtree of a leaf with text
/// that `*` matches, yields the direct text of the leaf.
pub proof fn lemma_text_of_a_leaf(source: Seq<char>, position: usize)
    requires
        is_text_leaf(source, position as int),
        selector_matches(source, position as int, "*"@),
    ensures
        eval(
            MatcherView::String { query: plain_query_view("*"@) },
            source,
            subtree_positions(source, position),
        ) == Ok::<ValueView, ErrorView>(
            ValueView::Text(concat(html_child_texts(source, position as int))),
        ),
{
    let below = subtree_positions(source, position);
    assert(below =~= seq![position]);
    assert(below.drop_last() =~= Seq::<usize>::empty());
    assert(below.last() == position);
    assert(select_positions(source, below.drop_last(), "*"@) =~= Seq::<usize>::empty());
    assert(select_positions(source, below, "*"@) =~= below);
    assert(own_texts(source, below.drop_last()) =~= Seq::<Seq<char>>::empty());
    assert(own_texts(source, below) =~= html_child_texts(source, position as int));
}

/// An array of text rules `*` over leaves with text yields the direct texts
/// of the leaves as text values.
pub proof fn lemma_texts_of_leaves(source: Seq<char>, selected: Seq<usize>)
    requires
        forall|i: int|
            0 <= i < selected.len() ==> is_text_leaf(source, #[trigger] selected[i] as int)
                && selector_matches(source, selected[i] as int, "*"@),
    ensures
        eval_each(MatcherView::String { query: plain_query_view("*"@) }, source, selected) == Ok::<
            Seq<ValueView>,
            ErrorView,
        >(text_values(direct_texts(source, selected))),
        split_texts(source, selected, None) == direct_texts(source, selected),
        narrowed_items::<String>(text_values(direct_texts(source, selected))) == Ok::<
            Seq<Seq<char>>,
            ErrorView,
        >(direct_texts(source, selected)),
    decreases selected.len(),
{
    if selected.len() > 0 {
        let front = selected.drop_last();
        let last = selected.last();
        assert forall|i: int| 0 <= i < front.len() implies is_text_leaf(
            source,
            #[trigger] front[i] as int,
        ) && selector_matches(source, front[i] as int, "*"@) by {
            assert(front[i] == selected[i]);
        }
        lemma_texts_of_leaves(source, front);
        assert(is_text_leaf(source, selected[selected.len() - 1] as int));
        lemma_text_of_a_leaf(source, last);
        let text = concat(html_child_texts(source, last as int));
        assert(text_values(direct_texts(source, selected)) =~= text_values(
            direct_texts(source, front),
        ).push(ValueView::Text(text)));
        assert(text_values(direct_texts(source, selected)).drop_last() =~= text_values(
            direct_texts(source, front),
        ));
        assert(split_texts(source, selected, None) =~= direct_texts(source, front) + seq![text]);
        assert(direct_texts(source, front) + seq![text] =~= direct_texts(source, selected));
    } else {
        assert(text_values(direct_texts(source, selected)) =~= Seq::<ValueView>::empty());
    }
}

/// An array of text rules `*` and a string-array rule yield the same texts,
/// in the same order, where their queries select the same elements and each
/// of these is a leaf with text that `*` matches. Both evaluations succeed,
/// and both typed calls give the direct texts of the elements.
pub proof fn lemma_array_of_texts_is_the_string_array(
    array_selector: Seq<char>,
    list_selector: Seq<char>,
    source: Seq<char>,
    positions: Seq<usize>,
)
    requires
        select_positions(source, positions, array_selector) == select_positions(
            source,
            positions,
            list_selector,
        ),
        forall|i: int|
            0 <= i < select_positions(source, positions, array_selector).len() ==> {
                let position = #[trigger] select_positions(source, positions, array_selector)[i];
                is_text_leaf(source, position as int) && selector_matches(
                    source,
                    position as int,
                    "*"@,
                )
            },
    ensures
        ({
            let array = MatcherView::Array {
                query: plain_query_view(array_selector),
                each: Box::new(MatcherView::String { query: plain_query_view("*"@) }),
            };
            let list = MatcherView::StringArray {
                query: plain_query_view(list_selector),
                split_regex: None,
            };
            let texts = direct_texts(
                source,
                select_positions(source, positions, array_selector),
            );
            &&& eval(array, source, positions) matches Ok(value) && list_of::<String>(value)
                == Ok::<Seq<Seq<char>>, ErrorView>(texts)
            &&& narrowed_result::<Vec<String>>(eval(list, source, positions)) == Ok::<
                Seq<Seq<char>>,
                ErrorView,
            >(texts)
        }),
{
    lemma_texts_of_leaves(source, select_positions(source, positions, array_selector));
}

/// A condition without an expression takes its first branch if and only if
/// its query selects at least one element. The text of the selected elements
/// plays no part, and is not even read.
pub proof fn lemma_condition_without_regex(
    query: QueryMatcherView,
    if_true: MatcherView,
    if_false: MatcherView,
    source: Seq<char>,
    positions: Seq<usize>,
)
    ensures
        eval(
            MatcherView::Condition {
                query,
                matches_regex: None,
                if_true: Box::new(if_true),
                if_false: Box::new(if_false),
            },
            source,
            positions,
        ) == if select_positions(source, positions, query.selector).len() > 0 {
            eval(if_true, source, positions)
        } else {
            eval(if_false, source, positions)
        },
{
}

/// Evaluation is a function of the rule and the node-set: two results that
/// each are what [`Matcher::exec`] promises for the same rule and the same
/// elements of the same document are the same, as plain values.
pub proof fn lemma_exec_is_deterministic(
    matcher: MatcherView,
    source: Seq<char>,
    positions: Seq<usize>,
    first: Result<Value, ScrapeBlockError>,
    second: Result<Value, ScrapeBlockError>,
)
    requires
        result_view(first) == eval(matcher, source, positions),
        result_view(second) == eval(matcher, source, positions),
    ensures
        result_view(first) == result_view(second),
{
}

/// An integer rule whose text is no integer of 64 bits fails with
/// `NotAnInteger`, and the failure holds the text.
pub proof fn lemma_integer_rule_on_malformed_text(
    query: QueryMatcherView,
    source: Seq<char>,
    positions: Seq<usize>,
    text: Seq<char>,
)
    requires
        query_text(query, source, select_positions(source, positions, query.selector)) == Ok::<
            Seq<char>,
            ErrorView,
        >(text),
        integer_value(text) is None,
    ensures
        eval(MatcherView::Integer { query }, source, positions) == Err::<ValueView, ErrorView>(
            ErrorView::NotAnInteger(text),
        ),
{
}

/// A double rule whose text is no floating-point literal fails with
/// `NotADouble`, and the failure holds the text.
pub proof fn lemma_double_rule_on_malformed_text(
    query: QueryMatcherView,
    source: Seq<char>,
    positions: Seq<usize>,
    text: Seq<char>,
)
    requires
        query_text(query, source, select_positions(source, positions, query.selector)) == Ok::<
            Seq<char>,
            ErrorView,
        >(text),
        !is_float_literal(text),
    ensures
        eval(MatcherView::Double { query }, source, positions) == Err::<ValueView, ErrorView>(
            ErrorView::NotADouble(text),
        ),
{
}

/// Where the text fits none of the formats from number `from` on, and all of
/// those formats are sound, the text is no date.
pub proof fn lemma_no_format_fits(text: Seq<char>, formats: Seq<Seq<char>>, from: int)
    requires
        0 <= from,
        forall|i: int|
            from <= i < formats.len() ==> chrono_parse(text, #[trigger] formats[i])
                == DateParseView::Mismatch,
    ensures
        date_result(text, formats, from) == Err::<ValueView, ErrorView>(ErrorView::NotADate(text)),
    decreases formats.len() - from,
{
    if from < formats.len() {
        lemma_no_format_fits(text, formats, from + 1);
    }
}

/// A date rule whose text fits none of its formats fails with `NotADate`,
/// and the failure holds the text.
pub proof fn lemma_date_rule_on_malformed_text(
    query: QueryMatcherView,
    date_formats: Seq<Seq<char>>,
    source: Seq<char>,
    positions: Seq<usize>,
    text: Seq<char>,
)
    requires
        query_text(query, source, select_positions(source, positions, query.selector)) == Ok::<
            Seq<char>,
            ErrorView,
        >(text),
        forall|i: int|
            0 <= i < date_formats.len() ==> chrono_parse(text, #[trigger] date_formats[i])
                == DateParseView::Mismatch,
    ensures
        eval(MatcherView::Date { query, date_formats }, source, positions) == Err::<
            ValueView,
            ErrorView,
        >(ErrorView::NotADate(text)),
{
    lemma_no_format_fits(text, date_formats, 0);
}

/// A boolean rule never fails on account of its text: with an expression
/// that compiles, every text gives a truth value.
pub proof fn lemma_boolean_rule_on_any_text(
    query: QueryMatcherView,
    matches_regex: Seq<char>,
    source: Seq<char>,
    positions: Seq<usize>,
    text: Seq<char>,
)
    requires
        query_text(query, source, select_positions(source, positions, query.selector)) == Ok::<
            Seq<char>,
            ErrorView,
        >(text),
        regex_compiles(matches_regex, true),
    ensures
        eval(MatcherView::Boolean { query, matches_regex }, source, positions) == Ok::<
            ValueView,
            ErrorView,
        >(ValueView::Boolean(regex_is_match(matches_regex, true, text))),
{
}

/// The value of an integer rule whose query gave `text`.
pub fn integer_from(text: String) -> (result: Result<Value, ScrapeBlockError>)
    ensures
        result_view(result) == integer_result(text@),
{
    match parse_integer(text.as_str()) {
        Some(number) => Ok(Value::Integer(number)),
        None => Err(ScrapeBlockError::NotAnInteger(text)),
    }
}

/// The value of a double rule whose query gave `text`.
pub fn double_from(text: String) -> (result: Result<Value, ScrapeBlockError>)
    ensures
        result_view(result) == double_result(text@),
{
    match Decimal::new(text) {
        Ok(number) => Ok(Value::Double(number)),
        Err(text) => Err(ScrapeBlockError::NotADouble(text)),
    }
}

/// The value of a URL rule whose query gave `text`, where parsing `text` as
/// a URL gave `normal`.
pub fn url_from(text: String, normal: Option<String>) -> (result: Result<Value, ScrapeBlockError>)
    ensures
        result_view(result) == url_result(text@, normal.deep_view()),
{
    match normal {
        Some(href) => Ok(Value::Url(Link { href })),
        None => Err(ScrapeBlockError::UrlParseError(text)),
    }
}

/// What the date format `format` settles, where reading the text by it gave
/// `outcome`. `None` says that the next format is to be tried.
pub fn date_from(format: &str, outcome: DateParse) -> (settled: Option<
    Result<Value, ScrapeBlockError>,
>)
    ensures
        match settled {
            Some(result) => date_step(format@, outcome@) == Some(result_view(result)),
            None => date_step(format@, outcome@) is None,
        },
{
    match outcome {
        DateParse::Parsed(date) => Some(Ok(Value::Date(date))),
        DateParse::BadFormat(detail) => Some(
            Err(ScrapeBlockError::InvalidDateFormat(format.to_owned(), detail)),
        ),
        DateParse::Mismatch => None,
    }
}

/// The query that selects with `selector`, reads the direct text, and has
/// neither cleanup nor default.
pub open spec fn plain_query_view(selector: Seq<char>) -> QueryMatcherView {
    QueryMatcherView {
        selector,
        text_type: TextTypeView::Own,
        clean_with_regex_1: None,
        default: None,
    }
}

/// A query that selects with `selector`, reads the direct text, and has
/// neither cleanup nor default.
pub fn plain_query(selector: &str) -> (query: QueryMatcher)
    ensures
        query@ == plain_query_view(selector@),
{
    QueryMatcher {
        selector: selector.to_owned(),
        text_type: TextType::Own,
        clean_with_regex_1: None,
        default: None,
    }
}

/// The sample rule: the page title, `h1.title`, whether or not it matches
/// the expression `regex`.
pub open spec fn sample_rule() -> MatcherView {
    let title = plain_query_view("h1.title"@);
    MatcherView::Condition {
        query: title,
        matches_regex: Some("regex"@),
        if_true: Box::new(MatcherView::String { query: title }),
        if_false: Box::new(MatcherView::String { query: title }),
    }
}

/// Builds the sample rule. Both branches read the title, so the rule yields
/// the title wherever there is one.
pub fn make_cfg() -> (rule: Matcher)
    ensures
        rule@ == sample_rule(),
{
    let if_true = Matcher::String { query: plain_query("h1.title") };
    let if_false = Matcher::String { query: plain_query("h1.title") };
    assert(if_true@ == if_false@);
    Matcher::Condition {
        query: plain_query("h1.title"),
        matches_regex: Some("regex".to_owned()),
        if_true: Box::new(if_true),
        if_false: Box::new(if_false),
    }
}

impl Matcher {
    /// A copy of the rule's query.
    pub fn query(&self) -> (query: QueryMatcher)
        ensures
            query@ == query_of(self@),
    {
        match self {
            Matcher::Array { query, .. } => query.clone(),
            Matcher::String { query } => query.clone(),
            Matcher::Integer { query } => query.clone(),
            Matcher::Double { query } => query.clone(),
            Matcher::URL { query } => query.clone(),
            Matcher::Date { query, .. } => query.clone(),
            Matcher::Boolean { query, .. } => query.clone(),
            Matcher::StringArray { query, .. } => query.clone(),
            Matcher::Condition { query, .. } => query.clone(),
        }
    }

    /// Whether every selector in the rule tree compiles. Rules are to be
    /// checked with this once, when they are loaded.
    pub fn validate(&self) -> (valid: bool)
        ensures
            valid == selectors_compile(self@),
        decreases self,
    {
        match self {
            Matcher::Array { query, each } => selector_is_valid(query.selector.as_str())
                && each.validate(),
            Matcher::String { query } => selector_is_valid(query.selector.as_str()),
            Matcher::Integer { query } => selector_is_valid(query.selector.as_str()),
            Matcher::Double { query } => selector_is_valid(query.selector.as_str()),
            Matcher::URL { query } => selector_is_valid(query.selector.as_str()),
            Matcher::Date { query, .. } => selector_is_valid(query.selector.as_str()),
            Matcher::Boolean { query, .. } => selector_is_valid(query.selector.as_str()),
            Matcher::StringArray { query, .. } => selector_is_valid(query.selector.as_str()),
            Matcher::Condition { query, if_true, if_false, .. } => selector_is_valid(
                query.selector.as_str(),
            ) && if_true.validate() && if_false.validate(),
        }
    }

    /// Evaluates the rule against `nodes`.
    ///
    /// The query selects among `nodes`, and the rule turns what was selected
    /// into its value. The first failure ends the evaluation and is
    /// returned as it is. The branches of a condition are evaluated against
    /// `nodes` themselves, not against what the condition's query selected.
    pub fn exec(&self, nodes: &NodeSet<'_>) -> (result: Result<Value, ScrapeBlockError>)
        requires
            selectors_compile(self@),
        ensures
            result_view(result) == eval(self@, nodes@.source, nodes@.positions),
        decreases self, 0nat,
    {
        match self {
            Matcher::Array { query, each } => {
                let elements = query.select(nodes);
                match Self::exec_each(each, &elements) {
                    Ok(items) => {
                        proof {
                            lemma_list_view(items);
                            assert(items.deep_view() =~= Seq::new(
                                items@.len(),
                                |i: int| items@[i]@,
                            ));
                        }
                        Ok(Value::List(items))
                    },
                    Err(error) => Err(error),
                }
            },
            Matcher::String { query } => {
                let elements = query.select(nodes);
                match query.text(&elements) {
                    Ok(text) => Ok(Value::Text(text)),
                    Err(error) => Err(error),
                }
            },
            Matcher::Integer { query } => {
                let elements = query.select(nodes);
                match query.text(&elements) {
                    Ok(text) => integer_from(text),
                    Err(error) => Err(error),
                }
            },
            Matcher::Double { query } => {
                let elements = query.select(nodes);
                match query.text(&elements) {
                    Ok(text) => double_from(text),
                    Err(error) => Err(error),
                }
            },
            Matcher::URL { query } => {
                let elements = query.select(nodes);
                match query.text(&elements) {
                    Ok(text) => {
                        let normal = parse_url(text.as_str());
                        url_from(text, normal)
                    },
                    Err(error) => Err(error),
                }
            },
            Matcher::Date { query, date_formats } => {
                let elements = query.select(nodes);
                match query.text(&elements) {
                    Ok(text) => Self::first_date(text, date_formats),
                    Err(error) => Err(error),
                }
            },
            Matcher::Boolean { query, matches_regex } => {
                let elements = query.select(nodes);
                match query.text(&elements) {
                    Ok(text) => match compile_regex(matches_regex.as_str(), true) {
                        Some(regex) => Ok(Value::Boolean(is_match(&regex, text.as_str()))),
                        None => Err(ScrapeBlockError::InvalidRegex(matches_regex.clone())),
                    },
                    Err(error) => Err(error),
                }
            },
            Matcher::StringArray { query, split_regex } => {
                let elements = query.select(nodes);
                Self::split_all(&elements, split_regex)
            },
            Matcher::Condition { query, matches_regex, if_true, if_false } => {
                let elements = query.select(nodes);
                match Self::holds(query, matches_regex, &elements) {
                    Ok(true) => if_true.exec(nodes),
                    Ok(false) => if_false.exec(nodes),
                    Err(error) => Err(error),
                }
            },
        }
    }

    /// Evaluates `each` against every element of `elements`, taken with all
    /// elements below it, and stops at the first failure.
    fn exec_each(each: &Matcher, elements: &NodeSet<'_>) -> (result: Result<
        Vec<Value>,
        ScrapeBlockError,
    >)
        requires
            selectors_compile(each@),
        ensures
            result_view(result) == eval_each(each@, elements@.source, elements@.positions),
        decreases each, 1nat,
    {
        let count = elements.len();
        let mut items: Vec<Value> = Vec::new();
        let mut done: usize = 0;
        assert(elements@.positions.take(0) =~= Seq::empty());
        assert(items.deep_view() =~= Seq::empty());
        while done < count
            invariant
                done <= count,
                count == elements@.positions.len(),
                selectors_compile(each@),
                eval_each(each@, elements@.source, elements@.positions.take(done as int)) == Ok::<
                    Seq<ValueView>,
                    ErrorView,
                >(items.deep_view()),
            decreases count - done,
        {
            let ghost before = items.deep_view();
            let ghost front = elements@.positions.take(done + 1);
            proof {
                assert(front.drop_last() =~= elements@.positions.take(done as int));
                assert(front.last() == elements@.positions[done as int]);
            }
            let below = elements.descendants_of(done);
            match each.exec(&below) {
                Ok(item) => {
                    items.push(item);
                    assert(items.deep_view() =~= before.push(item@));
                },
                Err(error) => {
                    proof {
                        assert(eval_each(each@, elements@.source, front) == Err::<
                            Seq<ValueView>,
                            ErrorView,
                        >(error@));
                        lemma_eval_each_stays_failed(
                            each@,
                            elements@.source,
                            elements@.positions,
                            done + 1,
                        );
                    }
                    return Err(error);
                },
            }
            done = done + 1;
        }
        assert(elements@.positions.take(count as int) =~= elements@.positions);
        Ok(items)
    }

    /// Reads `text` as a date by the first of `formats` that settles
    /// anything.
    fn first_date(text: String, formats: &Vec<String>) -> (result: Result<Value, ScrapeBlockError>)
        ensures
            result_view(result) == date_result(text@, formats.deep_view(), 0),
    {
        let mut tried: usize = 0;
        while tried < formats.len()
            invariant
                tried <= formats.len(),
                date_result(text@, formats.deep_view(), 0) == date_result(
                    text@,
                    formats.deep_view(),
                    tried as int,
                ),
            decreases formats.len() - tried,
        {
            let format = formats[tried].as_str();
            assert(formats.deep_view()[tried as int] == format@);
            let outcome = parse_date_time(text.as_str(), format);
            match date_from(format, outcome) {
                Some(result) => {
                    return result;
                },
                None => {},
            }
            tried = tried + 1;
        }
        Err(ScrapeBlockError::NotADate(text))
    }

    /// The full texts of `elements`, each split at `split_regex` where that
    /// is set.
    fn split_all(elements: &NodeSet<'_>, split_regex: &Option<String>) -> (result: Result<
        Value,
        ScrapeBlockError,
    >)
        ensures
            result_view(result) == string_array_result(
                elements@.source,
                elements@.positions,
                split_regex.deep_view(),
            ),
    {
        let compiled = match split_regex {
            Some(pattern) => match compile_regex(pattern.as_str(), false) {
                Some(regex) => Some(regex),
                None => {
                    return Err(ScrapeBlockError::InvalidRegex(pattern.clone()));
                },
            },
            None => None,
        };
        let count = elements.len();
        let mut strings: Vec<String> = Vec::new();
        let mut done: usize = 0;
        assert(elements@.positions.take(0) =~= Seq::empty());
        assert(strings.deep_view() =~= Seq::empty());
        while done < count
            invariant
                done <= count,
                count == elements@.positions.len(),
                match compiled {
                    Some(regex) => split_regex.deep_view() == Some(regex_origin(regex).pattern)
                        && !regex_origin(regex).ignore_case,
                    None => split_regex.deep_view() is None,
                },
                strings.deep_view() == split_texts(
                    elements@.source,
                    elements@.positions.take(done as int),
                    split_regex.deep_view(),
                ),
            decreases count - done,
        {
            let ghost before = strings.deep_view();
            proof {
                assert(elements@.positions.take(done + 1).drop_last() =~= elements@.positions.take(
                    done as int,
                ));
            }
            let text = elements.text_contents(done);
            let mut pieces = match &compiled {
                Some(regex) => split(regex, text.as_str()),
                None => {
                    let mut whole: Vec<String> = Vec::new();
                    whole.push(text);
                    assert(whole.deep_view() =~= seq![text@]);
                    whole
                },
            };
            let ghost added = pieces.deep_view();
            strings.append(&mut pieces);
            assert(strings.deep_view() =~= before + added);
            done = done + 1;
        }
        assert(elements@.positions.take(count as int) =~= elements@.positions);
        Ok(Value::StringList(strings))
    }

    /// Whether a condition with the query `query` and the expression
    /// `matches_regex` holds for `elements`, which its query selected.
    fn holds(query: &QueryMatcher, matches_regex: &Option<String>, elements: &NodeSet<'_>) -> (result:
        Result<bool, ScrapeBlockError>)
        ensures
            result_view(result) == condition_holds(
                query@,
                matches_regex.deep_view(),
                elements@.source,
                elements@.positions,
            ),
    {
        if elements.is_empty() {
            return Ok(false);
        }
        match matches_regex {
            None => Ok(true),
            Some(pattern) => match query.text(elements) {
                Err(error) => Err(error),
                Ok(text) => match compile_regex(pattern.as_str(), true) {
                    Some(regex) => Ok(is_match(&regex, text.as_str())),
                    None => Err(ScrapeBlockError::InvalidRegex(pattern.clone())),
                },
            },
        }
    }

    /// Evaluates the rule against `nodes` if every selector in it compiles.
    /// `None` says that one does not, and nothing was evaluated.
    pub fn try_exec(&self, nodes: &NodeSet<'_>) -> (outcome: Option<Result<Value, ScrapeBlockError>>)
        ensures
            outcome is Some <==> selectors_compile(self@),
            outcome matches Some(result) ==> result_view(result) == eval(
                self@,
                nodes@.source,
                nodes@.positions,
            ),
    {
        if self.validate() {
            Some(self.exec(nodes))
        } else {
            None
        }
    }

    /// Evaluates the rule and takes its value as the type `R`.
    pub fn exec_downcase<R: FromValue>(&self, nodes: &NodeSet<'_>) -> (result: Result<
        R,
        ScrapeBlockError,
    >)
        requires
            selectors_compile(self@),
        ensures
            result_view(result) == narrowed_result::<R>(
                eval(self@, nodes@.source, nodes@.positions),
            ),
    {
        match self.exec(nodes) {
            Ok(value) => R::from_value(value),
            Err(error) => Err(error),
        }
    }

    /// Evaluates the rule and takes its value as a text.
    pub fn exec_string(&self, nodes: &NodeSet<'_>) -> (result: Result<String, ScrapeBlockError>)
        requires
            selectors_compile(self@),
        ensures
            result_view(result) == narrowed_result::<String>(
                eval(self@, nodes@.source, nodes@.positions),
            ),
    {
        self.exec_downcase(nodes)
    }

    /// Evaluates the rule and takes its value as a list of texts.
    pub fn exec_string_array(&self, nodes: &NodeSet<'_>) -> (result: Result<
        Vec<String>,
        ScrapeBlockError,
    >)
        requires
            selectors_compile(self@),
        ensures
            result_view(result) == narrowed_result::<Vec<String>>(
                eval(self@, nodes@.source, nodes@.positions),
            ),
    {
        self.exec_downcase(nodes)
    }

    /// Evaluates the rule and takes its value as a truth value.
    pub fn exec_boolean(&self, nodes: &NodeSet<'_>) -> (result: Result<bool, ScrapeBlockError>)
        requires
            selectors_compile(self@),
        ensures
            result_view(result) == narrowed_result::<bool>(
                eval(self@, nodes@.source, nodes@.positions),
            ),
    {
        self.exec_downcase(nodes)
    }

    /// Evaluates the rule and takes its value as an integer.
    pub fn exec_integer(&self, nodes: &NodeSet<'_>) -> (result: Result<i64, ScrapeBlockError>)
        requires
            selectors_compile(self@),
        ensures
            result_view(result) == narrowed_result::<i64>(
                eval(self@, nodes@.source, nodes@.positions),
            ),
    {
        self.exec_downcase(nodes)
    }

    /// Evaluates the rule and takes its value as a floating-point number in
    /// writing.
    pub fn exec_double(&self, nodes: &NodeSet<'_>) -> (result: Result<Decimal, ScrapeBlockError>)
        requires
            selectors_compile(self@),
        ensures
            result_view(result) == narrowed_result::<Decimal>(
                eval(self@, nodes@.source, nodes@.positions),
            ),
    {
        self.exec_downcase(nodes)
    }

    /// Evaluates the rule and takes its value as a date.
    pub fn exec_date(&self, nodes: &NodeSet<'_>) -> (result: Result<DateTime, ScrapeBlockError>)
        requires
            selectors_compile(self@),
        ensures
            result_view(result) == narrowed_result::<DateTime>(
                eval(self@, nodes@.source, nodes@.positions),
            ),
    {
        self.exec_downcase(nodes)
    }

    /// Evaluates the rule and takes its value as a URL.
    pub fn exec_url(&self, nodes: &NodeSet<'_>) -> (result: Result<Link, ScrapeBlockError>)
        requires
            selectors_compile(self@),
        ensures
            result_view(result) == narrowed_result::<Link>(
                eval(self@, nodes@.source, nodes@.positions),
            ),
    {
        self.exec_downcase(nodes)
    }

    /// Evaluates the rule and takes its value as a list whose items are all
    /// of type `T`.
    pub fn exec_array<T: FromValue>(&self, nodes: &NodeSet<'_>) -> (result: Result<
        Vec<T>,
        ScrapeBlockError,
    >)
        requires
            selectors_compile(self@),
        ensures
            result_view(result) == match eval(self@, nodes@.source, nodes@.positions) {
                Ok(value) => list_of::<T>(value),
                Err(error) => Err(error),
            },
    {
        match self.exec(nodes) {
            Ok(value) => value.as_array(),
            Err(error) => Err(error),
        }
    }
}

} // verus!
