//! What an extraction yields: a value of one of eight kinds, and the ways to
//! take it as the kind that the caller expects.

use vstd::prelude::*;
use vstd::string::StringExecFns;

use crate::model::scrape_block_error::ErrorView;
use crate::model::scrape_block_error::ScrapeBlockError;
use crate::util::address::Link;
use crate::util::date::DateTime;
use crate::util::number::Decimal;

verus! {

/// The result of evaluating a rule.
#[derive(Debug)]
pub enum Value {
    /// A text.
    Text(String),
    /// An integer.
    Integer(i64),
    /// A floating-point number, in writing.
    Double(Decimal),
    /// A truth value.
    Boolean(bool),
    /// An absolute URL.
    Url(Link),
    /// A date with a time of day.
    Date(DateTime),
    /// A list of texts.
    StringList(Vec<String>),
    /// A list of values, one for each element that an array rule matched.
    List(Vec<Value>),
}

/// [`Value`] as plain values.
pub ghost enum ValueView {
    Text(Seq<char>),
    Integer(i64),
    Double(Seq<char>),
    Boolean(bool),
    Url(Seq<char>),
    Date(DateTime),
    StringList(Seq<Seq<char>>),
    List(Seq<ValueView>),
}

/// What a value is, as plain values.
pub open spec fn value_view(value: Value) -> ValueView
    decreases value,
{
    match value {
        Value::Text(text) => ValueView::Text(text@),
        Value::Integer(number) => ValueView::Integer(number),
        Value::Double(number) => ValueView::Double(number@),
        Value::Boolean(truth) => ValueView::Boolean(truth),
        Value::Url(link) => ValueView::Url(link@),
        Value::Date(date) => ValueView::Date(date),
        Value::StringList(texts) => ValueView::StringList(texts.deep_view()),
        Value::List(items) => ValueView::List(
            Seq::new(
                items@.len(),
                |i: int|
                    if 0 <= i < items@.len() {
                        value_view(items@[i])
                    } else {
                        ValueView::Boolean(false)
                    },
            ),
        ),
    }
}

impl View for Value {
    type V = ValueView;

    open spec fn view(&self) -> ValueView {
        value_view(*self)
    }
}

impl DeepView for Value {
    type V = ValueView;

    open spec fn deep_view(&self) -> ValueView {
        self@
    }
}

/// The eight kinds of value.
#[derive(Clone, Copy, Debug, PartialEq, Eq, Structural)]
pub enum ValueKind {
    Text,
    Integer,
    Double,
    Boolean,
    Url,
    Date,
    StringList,
    List,
}

/// The kind of a value.
pub open spec fn kind_of(value: ValueView) -> ValueKind {
    match value {
        ValueView::Text(_) => ValueKind::Text,
        ValueView::Integer(_) => ValueKind::Integer,
        ValueView::Double(_) => ValueKind::Double,
        ValueView::Boolean(_) => ValueKind::Boolean,
        ValueView::Url(_) => ValueKind::Url,
        ValueView::Date(_) => ValueKind::Date,
        ValueView::StringList(_) => ValueKind::StringList,
        ValueView::List(_) => ValueKind::List,
    }
}

/// The name of a kind, as failures report it. It is the name of the rule
/// that yields values of that kind.
pub open spec fn kind_name(kind: ValueKind) -> Seq<char> {
    match kind {
        ValueKind::Text => "String"@,
        ValueKind::Integer => "Integer"@,
        ValueKind::Double => "Double"@,
        ValueKind::Boolean => "Boolean"@,
        ValueKind::Url => "URL"@,
        ValueKind::Date => "Date"@,
        ValueKind::StringList => "StringArray"@,
        ValueKind::List => "Array"@,
    }
}

/// The failure of taking `found` as a value of kind `expected`.
pub open spec fn type_mismatch(expected: ValueKind, found: ValueView) -> ErrorView {
    ErrorView::InvalidType { expected: kind_name(expected), found: kind_name(kind_of(found)) }
}

/// A result as plain values.
pub open spec fn result_view<T: DeepView>(result: Result<T, ScrapeBlockError>) -> Result<
    T::V,
    ErrorView,
> {
    match result {
        Ok(value) => Ok(value.deep_view()),
        Err(error) => Err(error@),
    }
}

/// `value` taken as a text.
pub open spec fn text_of(value: ValueView) -> Result<Seq<char>, ErrorView> {
    match value {
        ValueView::Text(text) => Ok(text),
        _ => Err(type_mismatch(ValueKind::Text, value)),
    }
}

/// `value` taken as an integer.
pub open spec fn integer_of(value: ValueView) -> Result<i64, ErrorView> {
    match value {
        ValueView::Integer(number) => Ok(number),
        _ => Err(type_mismatch(ValueKind::Integer, value)),
    }
}

/// `value` taken as a floating-point number in writing.
pub open spec fn double_of(value: ValueView) -> Result<Seq<char>, ErrorView> {
    match value {
        ValueView::Double(number) => Ok(number),
        _ => Err(type_mismatch(ValueKind::Double, value)),
    }
}

/// `value` taken as a truth value.
pub open spec fn boolean_of(value: ValueView) -> Result<bool, ErrorView> {
    match value {
        ValueView::Boolean(truth) => Ok(truth),
        _ => Err(type_mismatch(ValueKind::Boolean, value)),
    }
}

/// `value` taken as a URL.
pub open spec fn url_of(value: ValueView) -> Result<Seq<char>, ErrorView> {
    match value {
        ValueView::Url(link) => Ok(link),
        _ => Err(type_mismatch(ValueKind::Url, value)),
    }
}

/// `value` taken as a date.
pub open spec fn date_of(value: ValueView) -> Result<DateTime, ErrorView> {
    match value {
        ValueView::Date(date) => Ok(date),
        _ => Err(type_mismatch(ValueKind::Date, value)),
    }
}

/// `value` taken as a list of texts.
pub open spec fn string_list_of(value: ValueView) -> Result<Seq<Seq<char>>, ErrorView> {
    match value {
        ValueView::StringList(texts) => Ok(texts),
        _ => Err(type_mismatch(ValueKind::StringList, value)),
    }
}

/// A type that a value can be taken as.
pub trait FromValue: Sized + DeepView {
    /// What taking `value` as this type gives.
    spec fn narrowed(value: ValueView) -> Result<Self::V, ErrorView>;

    /// Takes `value` as this type, or fails with `InvalidType`.
    fn from_value(value: Value) -> (result: Result<Self, ScrapeBlockError>)
        ensures
            result_view(result) == Self::narrowed(value@),
    ;
}

/// The items of a list, each taken as `T`: all of them, or the failure of the
/// first that is of another kind.
pub open spec fn narrowed_items<T: FromValue>(items: Seq<ValueView>) -> Result<
    Seq<T::V>,
    ErrorView,
>
    decreases items.len(),
{
    if items.len() == 0 {
        Ok(Seq::empty())
    } else {
        match narrowed_items::<T>(items.drop_last()) {
            Err(error) => Err(error),
            Ok(front) => match T::narrowed(items.last()) {
                Err(error) => Err(error),
                Ok(item) => Ok(front.push(item)),
            },
        }
    }
}

/// `value` taken as a list whose items are all of type `T`.
pub open spec fn list_of<T: FromValue>(value: ValueView) -> Result<Seq<T::V>, ErrorView> {
    match value {
        ValueView::List(items) => narrowed_items::<T>(items),
        _ => Err(type_mismatch(ValueKind::List, value)),
    }
}

impl ValueKind {
    /// The name of the kind.
    pub fn name(self) -> (name: String)
        ensures
            name@ == kind_name(self),
    {
        match self {
            ValueKind::Text => String::from_str("String"),
            ValueKind::Integer => String::from_str("Integer"),
            ValueKind::Double => String::from_str("Double"),
            ValueKind::Boolean => String::from_str("Boolean"),
            ValueKind::Url => String::from_str("URL"),
            ValueKind::Date => String::from_str("Date"),
            ValueKind::StringList => String::from_str("StringArray"),
            ValueKind::List => String::from_str("Array"),
        }
    }
}

impl Value {
    /// The kind of the value.
    pub fn kind(&self) -> (kind: ValueKind)
        ensures
            kind == kind_of(self@),
    {
        match self {
            Value::Text(_) => ValueKind::Text,
            Value::Integer(_) => ValueKind::Integer,
            Value::Double(_) => ValueKind::Double,
            Value::Boolean(_) => ValueKind::Boolean,
            Value::Url(_) => ValueKind::Url,
            Value::Date(_) => ValueKind::Date,
            Value::StringList(_) => ValueKind::StringList,
            Value::List(_) => ValueKind::List,
        }
    }

    /// The failure of taking this value as a value of kind `expected`.
    pub fn mismatch(&self, expected: ValueKind) -> (error: ScrapeBlockError)
        ensures
            error@ == type_mismatch(expected, self@),
    {
        ScrapeBlockError::InvalidType { expected: expected.name(), found: self.kind().name() }
    }

    /// The value as a text.
    pub fn as_string(self) -> (result: Result<String, ScrapeBlockError>)
        ensures
            result_view(result) == text_of(self@),
    {
        match self {
            Value::Text(text) => Ok(text),
            other => Err(other.mismatch(ValueKind::Text)),
        }
    }

    /// The value as an integer.
    pub fn as_integer(self) -> (result: Result<i64, ScrapeBlockError>)
        ensures
            result_view(result) == integer_of(self@),
    {
        match self {
            Value::Integer(number) => Ok(number),
            other => Err(other.mismatch(ValueKind::Integer)),
        }
    }

    /// The value as a floating-point number in writing.
    pub fn as_double(self) -> (result: Result<Decimal, ScrapeBlockError>)
        ensures
            result_view(result) == double_of(self@),
    {
        match self {
            Value::Double(number) => Ok(number),
            other => Err(other.mismatch(ValueKind::Double)),
        }
    }

    /// The value as a truth value.
    pub fn as_boolean(self) -> (result: Result<bool, ScrapeBlockError>)
        ensures
            result_view(result) == boolean_of(self@),
    {
        match self {
            Value::Boolean(truth) => Ok(truth),
            other => Err(other.mismatch(ValueKind::Boolean)),
        }
    }

    /// The value as a URL.
    pub fn as_url(self) -> (result: Result<Link, ScrapeBlockError>)
        ensures
            result_view(result) == url_of(self@),
    {
        match self {
            Value::Url(link) => Ok(link),
            other => Err(other.mismatch(ValueKind::Url)),
        }
    }

    /// The value as a date.
    pub fn as_date(self) -> (result: Result<DateTime, ScrapeBlockError>)
        ensures
            result_view(result) == date_of(self@),
    {
        match self {
            Value::Date(date) => Ok(date),
            other => Err(other.mismatch(ValueKind::Date)),
        }
    }

    /// The value as a list of texts.
    pub fn as_string_array(self) -> (result: Result<Vec<String>, ScrapeBlockError>)
        ensures
            result_view(result) == string_list_of(self@),
    {
        match self {
            Value::StringList(texts) => Ok(texts),
            other => Err(other.mismatch(ValueKind::StringList)),
        }
    }

    /// The value as a list whose items are all of type `T`. One item of
    /// another kind fails the whole call.
    pub fn as_array<T: FromValue>(self) -> (result: Result<Vec<T>, ScrapeBlockError>)
        ensures
            result_view(result) == list_of::<T>(self@),
    {
        match self {
            Value::List(items) => {
                let ghost views = Seq::new(items@.len(), |i: int| items@[i]@);
                let mut narrowed: Vec<T> = Vec::new();
                proof {
                    lemma_list_view(items);
                    assert(views.take(0) =~= Seq::empty());
                    assert(narrowed.deep_view() =~= Seq::empty());
                }
                for item in it: items.into_iter()
                    invariant
                        it.seq() == items@,
                        self@ == ValueView::List(views),
                        views.len() == items@.len(),
                        forall|i: int| 0 <= i < views.len() ==> views[i] == items@[i]@,
                        narrowed_items::<T>(views.take(it.index() as int)) == Ok::<
                            Seq<T::V>,
                            ErrorView,
                        >(narrowed.deep_view()),
                {
                    let ghost before = narrowed.deep_view();
                    proof {
                        assert(views.take(it.index() + 1).drop_last() =~= views.take(
                            it.index() as int,
                        ));
                        assert(views.take(it.index() + 1).last() == item@);
                    }
                    match T::from_value(item) {
                        Ok(item) => {
                            narrowed.push(item);
                            assert(narrowed.deep_view() =~= before.push(item.deep_view()));
                        },
                        Err(error) => {
                            proof {
                                assert(narrowed_items::<T>(views.take(it.index() + 1)) == Err::<
                                    Seq<T::V>,
                                    ErrorView,
                                >(error@));
                                lemma_narrowing_stays_failed::<T>(views, it.index() + 1);
                            }
                            return Err(error);
                        },
                    }
                }
                assert(views.take(views.len() as int) =~= views);
                Ok(narrowed)
            },
            other => Err(other.mismatch(ValueKind::List)),
        }
    }
}

/// The view of a list holds the views of its items, in order.
pub proof fn lemma_list_view(items: Vec<Value>)
    ensures
        Value::List(items)@ == ValueView::List(Seq::new(items@.len(), |i: int| items@[i]@)),
{
    let direct = Seq::new(items@.len(), |i: int| items@[i]@);
    assert(Value::List(items)@ matches ValueView::List(views) && views =~= direct);
}

/// Once the narrowing of a front part of a list has failed, the narrowing of
/// the whole list fails in the same way.
pub proof fn lemma_narrowing_stays_failed<T: FromValue>(items: Seq<ValueView>, front: int)
    requires
        0 <= front <= items.len(),
        narrowed_items::<T>(items.take(front)) is Err,
    ensures
        narrowed_items::<T>(items) == narrowed_items::<T>(items.take(front)),
    decreases items.len() - front,
{
    if front == items.len() {
        assert(items.take(front) =~= items);
    } else {
        assert(items.drop_last().take(front) =~= items.take(front));
        lemma_narrowing_stays_failed::<T>(items.drop_last(), front);
    }
}

impl FromValue for String {
    open spec fn narrowed(value: ValueView) -> Result<Seq<char>, ErrorView> {
        text_of(value)
    }

    fn from_value(value: Value) -> (result: Result<String, ScrapeBlockError>) {
        value.as_string()
    }
}

impl FromValue for i64 {
    open spec fn narrowed(value: ValueView) -> Result<i64, ErrorView> {
        integer_of(value)
    }

    fn from_value(value: Value) -> (result: Result<i64, ScrapeBlockError>) {
        value.as_integer()
    }
}

impl FromValue for Decimal {
    open spec fn narrowed(value: ValueView) -> Result<Seq<char>, ErrorView> {
        double_of(value)
    }

    fn from_value(value: Value) -> (result: Result<Decimal, ScrapeBlockError>) {
        value.as_double()
    }
}

impl FromValue for bool {
    open spec fn narrowed(value: ValueView) -> Result<bool, ErrorView> {
        boolean_of(value)
    }

    fn from_value(value: Value) -> (result: Result<bool, ScrapeBlockError>) {
        value.as_boolean()
    }
}

impl FromValue for Link {
    open spec fn narrowed(value: ValueView) -> Result<Seq<char>, ErrorView> {
        url_of(value)
    }

    fn from_value(value: Value) -> (result: Result<Link, ScrapeBlockError>) {
        value.as_url()
    }
}

impl FromValue for DateTime {
    open spec fn narrowed(value: ValueView) -> Result<DateTime, ErrorView> {
        date_of(value)
    }

    fn from_value(value: Value) -> (result: Result<DateTime, ScrapeBlockError>) {
        value.as_date()
    }
}

impl FromValue for Vec<String> {
    open spec fn narrowed(value: ValueView) -> Result<Seq<Seq<char>>, ErrorView> {
        string_list_of(value)
    }

    fn from_value(value: Value) -> (result: Result<Vec<String>, ScrapeBlockError>) {
        value.as_string_array()
    }
}

impl FromValue for Value {
    open spec fn narrowed(value: ValueView) -> Result<ValueView, ErrorView> {
        Ok(value)
    }

    fn from_value(value: Value) -> (result: Result<Value, ScrapeBlockError>) {
        Ok(value)
    }
}

} // verus!
