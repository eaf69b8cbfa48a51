//! The leaf of every rule: which elements to take, how to read their text,
//! how to clean it, and what to fall back on.

use vstd::pervasive::unreached;
use vstd::prelude::*;

use crate::model::scrape_block_error::text_result_view;
use crate::model::scrape_block_error::ErrorView;
use crate::model::scrape_block_error::ScrapeBlockError;
use crate::util::kuchiki_elements::all_texts;
use crate::util::kuchiki_elements::attribute_values;
use crate::util::kuchiki_elements::first_attribute_value;
use crate::util::kuchiki_elements::lemma_no_names_no_values;
use crate::util::kuchiki_elements::own_texts;
use crate::util::kuchiki_elements::select_positions;
use crate::util::kuchiki_elements::selector_compiles;
use crate::util::kuchiki_elements::NodeSet;
use crate::util::pattern::compile_regex;
use crate::util::pattern::find_first;
use crate::util::pattern::regex_compiles;
use crate::util::pattern::regex_first_match;
use crate::util::text::clone_strings;
use crate::util::text::concat;
use crate::util::text::join;
use crate::util::text::join_strings;

verus! {

/// How the text of the selected elements is read.
#[derive(Debug)]
#[allow(inconsistent_fields)]
pub enum TextType {
    /// The direct text of the elements only.
    Own,
    /// All text below the elements, joined with `join_str`.
    All { join_str: String },
    /// The values of the listed attributes: the first that is present, or,
    /// with a `join_str`, all that are present, joined with it.
    Attribute { join_str: Option<String>, attributes: Vec<String> },
}

/// [`TextType`] as plain values.
#[allow(inconsistent_fields)]
pub ghost enum TextTypeView {
    Own,
    All { join_str: Seq<char> },
    Attribute { join_str: Option<Seq<char>>, attributes: Seq<Seq<char>> },
}

impl View for TextType {
    type V = TextTypeView;

    open spec fn view(&self) -> TextTypeView {
        match self {
            TextType::Own => TextTypeView::Own,
            TextType::All { join_str } => TextTypeView::All { join_str: join_str@ },
            TextType::Attribute { join_str, attributes } => TextTypeView::Attribute {
                join_str: join_str.deep_view(),
                attributes: attributes.deep_view(),
            },
        }
    }
}

impl Default for TextType {
    fn default() -> (policy: TextType)
        ensures
            policy == TextType::Own,
    {
        TextType::Own
    }
}

impl Clone for TextType {
    fn clone(&self) -> (copy: TextType)
        ensures
            copy@ == self@,
    {
        match self {
            TextType::Own => TextType::Own,
            TextType::All { join_str } => TextType::All { join_str: join_str.clone() },
            TextType::Attribute { join_str, attributes } => TextType::Attribute {
                join_str: clone_text_option(join_str),
                attributes: clone_strings(attributes),
            },
        }
    }
}

/// A copy of an optional text.
pub fn clone_text_option(text: &Option<String>) -> (copy: Option<String>)
    ensures
        copy.deep_view() == text.deep_view(),
{
    match text {
        Some(text) => Some(text.clone()),
        None => None,
    }
}

/// Selects elements and reads one text from them.
#[derive(Debug)]
pub struct QueryMatcher {
    /// Which elements to take. It has to be a selector that compiles.
    pub selector: String,
    /// How to read their text.
    pub text_type: TextType,
    /// If set, the first match of this expression replaces the text.
    pub clean_with_regex_1: Option<String>,
    /// If set, what to return where the text is empty.
    pub default: Option<String>,
}

/// [`QueryMatcher`] as plain values.
pub ghost struct QueryMatcherView {
    pub selector: Seq<char>,
    pub text_type: TextTypeView,
    pub clean_with_regex_1: Option<Seq<char>>,
    pub default: Option<Seq<char>>,
}

impl View for QueryMatcher {
    type V = QueryMatcherView;

    open spec fn view(&self) -> QueryMatcherView {
        QueryMatcherView {
            selector: self.selector@,
            text_type: self.text_type@,
            clean_with_regex_1: self.clean_with_regex_1.deep_view(),
            default: self.default.deep_view(),
        }
    }
}

impl Default for QueryMatcher {
    fn default() -> (query: QueryMatcher)
        ensures
            query@ == (QueryMatcherView {
                selector: Seq::empty(),
                text_type: TextTypeView::Own,
                clean_with_regex_1: None,
                default: None,
            }),
    {
        QueryMatcher {
            selector: String::new(),
            text_type: TextType::Own,
            clean_with_regex_1: None,
            default: None,
        }
    }
}

impl Clone for QueryMatcher {
    fn clone(&self) -> (copy: QueryMatcher)
        ensures
            copy@ == self@,
    {
        QueryMatcher {
            selector: self.selector.clone(),
            text_type: self.text_type.clone(),
            clean_with_regex_1: clone_text_option(&self.clean_with_regex_1),
            default: clone_text_option(&self.default),
        }
    }
}

/// The text that `policy` reads from the elements at `positions`, before any
/// cleanup or default.
pub open spec fn acquired_text(
    policy: TextTypeView,
    source: Seq<char>,
    positions: Seq<usize>,
) -> Seq<char> {
    match policy {
        TextTypeView::Own => concat(own_texts(source, positions)),
        TextTypeView::All { join_str } => join(all_texts(source, positions), join_str),
        TextTypeView::Attribute { join_str: Some(joiner), attributes } => join(
            attribute_values(source, positions, attributes),
            joiner,
        ),
        TextTypeView::Attribute { join_str: None, attributes } => match first_attribute_value(
            source,
            positions,
            attributes,
        ) {
            Some(value) => value,
            None => Seq::empty(),
        },
    }
}

/// What a query returns where the text it read is empty: its default, or
/// the failure that names its selector.
pub open spec fn fallback_text(query: QueryMatcherView) -> Result<Seq<char>, ErrorView> {
    match query.default {
        Some(default) => Ok(default),
        None => Err(ErrorView::ElementExpected(query.selector)),
    }
}

/// What a query returns once its cleanup expression has been tried: the
/// match, or the failure that names its selector.
pub open spec fn cleaned_text(query: QueryMatcherView, found: Option<Seq<char>>) -> Result<
    Seq<char>,
    ErrorView,
> {
    match found {
        Some(clean) => Ok(clean),
        None => Err(ErrorView::ElementExpected(query.selector)),
    }
}

/// What a query makes of the text `raw` that it read.
pub open spec fn settled_text(query: QueryMatcherView, raw: Seq<char>) -> Result<
    Seq<char>,
    ErrorView,
> {
    if raw.len() == 0 {
        fallback_text(query)
    } else {
        match query.clean_with_regex_1 {
            None => Ok(raw),
            Some(pattern) => if regex_compiles(pattern, false) {
                cleaned_text(query, regex_first_match(pattern, false, raw))
            } else {
                Err(ErrorView::InvalidRegex(pattern))
            },
        }
    }
}

/// The text of a query for the elements at `positions`, which are the
/// elements that its selector has already chosen.
pub open spec fn query_text(
    query: QueryMatcherView,
    source: Seq<char>,
    positions: Seq<usize>,
) -> Result<Seq<char>, ErrorView> {
    settled_text(query, acquired_text(query.text_type, source, positions))
}

/// An attribute policy that lists no attribute reads the empty text.
pub proof fn lemma_no_attributes_empty_text(
    join_str: Option<Seq<char>>,
    source: Seq<char>,
    positions: Seq<usize>,
)
    ensures
        acquired_text(
            TextTypeView::Attribute { join_str, attributes: Seq::empty() },
            source,
            positions,
        ) == Seq::<char>::empty(),
{
    lemma_no_names_no_values(source, positions);
}

/// A query without a default fails with `ElementExpected` on an empty text,
/// and a query with a default never does.
pub proof fn lemma_empty_text_needs_default(query: QueryMatcherView)
    ensures
        query.default is None ==> settled_text(query, Seq::empty()) == Err::<
            Seq<char>,
            ErrorView,
        >(ErrorView::ElementExpected(query.selector)),
        query.default matches Some(default) ==> settled_text(query, Seq::empty()) == Ok::<
            Seq<char>,
            ErrorView,
        >(default),
{
}

impl QueryMatcher {
    /// The elements of `nodes` that the selector matches, in their order. A
    /// selector that does not compile is a fault of the rule set, to be found
    /// when the rules are loaded: see `Matcher::validate`.
    pub fn select<'a>(&self, nodes: &NodeSet<'a>) -> (selected: NodeSet<'a>)
        requires
            selector_compiles(self.selector@),
        ensures
            selected@.source == nodes@.source,
            selected@.positions == select_positions(
                nodes@.source,
                nodes@.positions,
                self.selector@,
            ),
    {
        match nodes.select(self.selector.as_str()) {
            Some(selected) => selected,
            None => unreached(),
        }
    }

    /// Reads the text of `nodes` as the text policy says.
    pub fn acquire(&self, nodes: &NodeSet<'_>) -> (raw: String)
        ensures
            raw@ == acquired_text(self@.text_type, nodes@.source, nodes@.positions),
    {
        match &self.text_type {
            TextType::Own => nodes.own_text(),
            TextType::All { join_str } => nodes.all_text(join_str.as_str()),
            TextType::Attribute { join_str, attributes } => match join_str {
                Some(joiner) => {
                    let values = nodes.attrs_first_of(attributes);
                    join_strings(&values, joiner.as_str())
                },
                None => match nodes.attr_first_of(attributes) {
                    Some(value) => value,
                    None => String::new(),
                },
            },
        }
    }

    /// What stands in for an empty text: the default, if the query has one.
    pub fn fallback(&self) -> (result: Result<String, ScrapeBlockError>)
        ensures
            text_result_view(result) == fallback_text(self@),
    {
        match &self.default {
            Some(default) => Ok(default.clone()),
            None => Err(ScrapeBlockError::ElementExpected(self.selector.clone())),
        }
    }

    /// What the cleanup left: `found` is the first match of the cleanup
    /// expression in the text, if it matched at all.
    pub fn cleaned(&self, found: Option<String>) -> (result: Result<String, ScrapeBlockError>)
        ensures
            text_result_view(result) == cleaned_text(self@, found.deep_view()),
    {
        match found {
            Some(clean) => Ok(clean),
            None => Err(ScrapeBlockError::ElementExpected(self.selector.clone())),
        }
    }

    /// Turns the text `raw`, as read from the elements, into the query's
    /// result: the default for an empty text, the first match of the cleanup
    /// expression where one is set, else `raw` itself.
    pub fn settle(&self, raw: String) -> (result: Result<String, ScrapeBlockError>)
        ensures
            text_result_view(result) == settled_text(self@, raw@),
    {
        if raw.as_str().is_empty() {
            return self.fallback();
        }
        match &self.clean_with_regex_1 {
            None => Ok(raw),
            Some(pattern) => match compile_regex(pattern.as_str(), false) {
                Some(regex) => self.cleaned(find_first(&regex, raw.as_str())),
                None => Err(ScrapeBlockError::InvalidRegex(pattern.clone())),
            },
        }
    }

    /// The text of `nodes`, which are the elements that the selector has
    /// chosen: read as the text policy says, then settled.
    pub fn text(&self, nodes: &NodeSet<'_>) -> (result: Result<String, ScrapeBlockError>)
        ensures
            text_result_view(result) == query_text(self@, nodes@.source, nodes@.positions),
    {
        let raw = self.acquire(nodes);
        self.settle(raw)
    }
}

} // verus!
