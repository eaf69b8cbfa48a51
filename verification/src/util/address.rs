//! Web addresses, as the `url` crate behind `reqwest::Url` parses them.

use vstd::prelude::*;

verus! {

/// An absolute URL in its normal form.
#[derive(Debug)]
pub struct Link {
    pub href: String,
}

impl View for Link {
    type V = Seq<char>;

    open spec fn view(&self) -> Seq<char> {
        self.href@
    }
}

impl DeepView for Link {
    type V = Seq<char>;

    open spec fn deep_view(&self) -> Seq<char> {
        self@
    }
}

impl Clone for Link {
    fn clone(&self) -> (copy: Link)
        ensures
            copy@ == self@,
    {
        Link { href: self.href.clone() }
    }
}

/// The normal form of `text` as an absolute URL, if `text` is one.
pub uninterp spec fn url_normal_form(text: Seq<char>) -> Option<Seq<char>>;

/// Calls `reqwest::Url::parse` and, on success, takes the URL's
/// serialization (`String::from`). Claims that both depend on the text alone.
#[verifier::external_body]
pub(crate) fn parse_url(text: &str) -> (normal: Option<String>)
    ensures
        normal.deep_view() == url_normal_form(text@),
{
    reqwest::Url::parse(text).ok().map(|url| String::from(url))
}

} // verus!
