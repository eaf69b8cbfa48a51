//! Documents and node-sets.
//!
//! A [`Document`] is an HTML text parsed by `kuchiki`. Its elements are
//! numbered in document order, from zero. A [`NodeSet`] is an ordered list of
//! such numbers together with the document they refer to. Everything the rule
//! engine reads from a document goes through the operations of this module.
//!
//! What `kuchiki` computes is not proved here. Each of its answers has a name,
//! a function of the HTML text, the number of an element and the arguments of
//! the question. The operations on node-sets are proved against those names.

use kuchiki::traits::NodeIterator;
use kuchiki::traits::TendrilSink;
use vstd::prelude::*;

use crate::util::text::concat;
use crate::util::text::concat_strings;
use crate::util::text::join;
use crate::util::text::join_strings;

verus! {

#[verifier::external_type_specification]
#[verifier::external_body]
pub struct ExNodeRef(kuchiki::NodeRef);

#[verifier::external_type_specification]
#[verifier::external_body]
pub struct ExElementData(kuchiki::ElementData);

#[verifier::external_type_specification]
#[verifier::external_body]
#[verifier::reject_recursive_types(T)]
pub struct ExNodeDataRef<T>(kuchiki::NodeDataRef<T>);

#[verifier::external_type_specification]
#[verifier::external_body]
pub struct ExSelectors(kuchiki::Selectors);

/// Where an element is at home: the HTML text of its document, and its
/// number among the elements of that document.
pub ghost struct ElementHome {
    pub source: Seq<char>,
    pub index: int,
}

/// The HTML text that the tree under `root` was parsed from.
pub uninterp spec fn tree_source(root: kuchiki::NodeRef) -> Seq<char>;

/// Where `element` is at home.
pub uninterp spec fn element_home(
    element: kuchiki::NodeDataRef<kuchiki::ElementData>,
) -> ElementHome;

/// The selector text that `selectors` was compiled from.
pub uninterp spec fn selectors_source(selectors: kuchiki::Selectors) -> Seq<char>;

/// How many elements the document parsed from `source` holds.
pub uninterp spec fn html_element_count(source: Seq<char>) -> nat;

/// Whether `selector` is a selector list that `kuchiki` accepts.
pub uninterp spec fn selector_compiles(selector: Seq<char>) -> bool;

/// Whether element number `index` of the document parsed from `source`
/// matches `selector`.
pub uninterp spec fn selector_matches(source: Seq<char>, index: int, selector: Seq<char>) -> bool;

/// The text nodes that are children of element number `index`, in order.
pub uninterp spec fn html_child_texts(source: Seq<char>, index: int) -> Seq<Seq<char>>;

/// The text nodes below element number `index` at any depth, in document
/// order.
pub uninterp spec fn html_descendant_texts(source: Seq<char>, index: int) -> Seq<Seq<char>>;

/// The value of the attribute `name` (in no namespace) of element number
/// `index`, if the element has that attribute.
pub uninterp spec fn html_attribute(source: Seq<char>, index: int, name: Seq<char>) -> Option<
    Seq<char>,
>;

/// How many elements the subtree of element number `index` holds, the element
/// itself included.
pub uninterp spec fn html_subtree_len(source: Seq<char>, index: int) -> nat;

/// The longest text, in bytes, that is taken for parsing: a quarter of a
/// gibibyte.
///
/// The parser keeps its text in buffers of the `tendril` crate. Such a
/// buffer holds less than four gibibytes, and one that grows does so in
/// powers of two, so that it fails beyond two gibibytes. Both failures are
/// panics. The parser copies the text into such buffers piece by piece, and
/// may write U+FFFD, three bytes, for one byte of the text. The limit leaves
/// a factor of eight between the longest text and the size at which a
/// growing buffer fails.
pub const MAX_HTML_BYTES: usize = 0x1000_0000;

/// Calls `kuchiki::parse_html` and feeds it `html` in one piece
/// (`TendrilSink::one`). Texts longer than [`MAX_HTML_BYTES`] are left out,
/// because `tendril` panics on texts that are too long. Claims only that the
/// tree remembers its text: what the tree holds is stated by the other
/// gateways, in terms of that text.
#[verifier::external_body]
fn parse_tree(html: &str) -> (root: kuchiki::NodeRef)
    requires
        html.len() <= MAX_HTML_BYTES,
    ensures
        tree_source(root) == html@,
{
    kuchiki::parse_html().one(html)
}

/// Collects the elements that `NodeRef::descendants` walks through, in the
/// order of the walk, which is document order. Claims that their count is a
/// function of the text the tree was parsed from, and that each element
/// remembers that text and its own place in the walk.
#[verifier::external_body]
fn list_elements(root: &kuchiki::NodeRef) -> (elements: Vec<
    kuchiki::NodeDataRef<kuchiki::ElementData>,
>)
    ensures
        elements@.len() == html_element_count(tree_source(*root)),
        forall|i: int|
            0 <= i < elements@.len() ==> element_home(#[trigger] elements@[i]) == (ElementHome {
                source: tree_source(*root),
                index: i,
            }),
{
    root.descendants().elements().collect()
}

/// Calls `kuchiki::Selectors::compile`. Claims that success depends on the
/// selector text alone, and that the compiled list remembers its text.
#[verifier::external_body]
fn compile_selectors(selector: &str) -> (compiled: Option<kuchiki::Selectors>)
    ensures
        compiled is Some <==> selector_compiles(selector@),
        compiled matches Some(selectors) ==> selectors_source(selectors) == selector@,
{
    kuchiki::Selectors::compile(selector).ok()
}

/// Calls `kuchiki::Selectors::matches`. Claims that the answer is a function
/// of the document text, the element's number and the selector text.
#[verifier::external_body]
fn element_matches(
    element: &kuchiki::NodeDataRef<kuchiki::ElementData>,
    selectors: &kuchiki::Selectors,
) -> (hit: bool)
    ensures
        hit == selector_matches(
            element_home(*element).source,
            element_home(*element).index,
            selectors_source(*selectors),
        ),
{
    selectors.matches(element)
}

/// Walks `NodeRef::children` of the element and hands out the contents of
/// the text nodes among them.
#[verifier::external_body]
fn child_texts(element: &kuchiki::NodeDataRef<kuchiki::ElementData>) -> (texts: Vec<String>)
    ensures
        texts.deep_view() == html_child_texts(
            element_home(*element).source,
            element_home(*element).index,
        ),
{
    element.as_node().children().text_nodes().map(|text| text.borrow().clone()).collect()
}

/// Walks `NodeRef::descendants` of the element and hands out the contents of
/// the text nodes among them.
#[verifier::external_body]
fn descendant_texts(element: &kuchiki::NodeDataRef<kuchiki::ElementData>) -> (texts: Vec<String>)
    ensures
        texts.deep_view() == html_descendant_texts(
            element_home(*element).source,
            element_home(*element).index,
        ),
{
    element.as_node().descendants().text_nodes().map(|text| text.borrow().clone()).collect()
}

/// Calls `NodeDataRef::<ElementData>::text_contents`. `kuchiki` builds that
/// string from the text nodes of the subtree, one after another, so the
/// result is stated over the same name as [`descendant_texts`].
#[verifier::external_body]
fn element_text_contents(element: &kuchiki::NodeDataRef<kuchiki::ElementData>) -> (text: String)
    ensures
        text@ == concat(
            html_descendant_texts(element_home(*element).source, element_home(*element).index),
        ),
{
    element.text_contents()
}

/// Calls `kuchiki::Attributes::get` on the attributes of the element.
#[verifier::external_body]
fn element_attribute(element: &kuchiki::NodeDataRef<kuchiki::ElementData>, name: &str) -> (value:
    Option<String>)
    ensures
        value.deep_view() == html_attribute(
            element_home(*element).source,
            element_home(*element).index,
            name@,
        ),
{
    element.attributes.borrow().get(name).map(|value| value.to_string())
}

/// Counts the elements that `NodeRef::inclusive_descendants` of the element
/// walks through. The walk is in document order and starts at the element
/// itself, so these are the elements numbered from the element's own number
/// on, without a gap, all of them elements of the document.
#[verifier::external_body]
fn subtree_len(element: &kuchiki::NodeDataRef<kuchiki::ElementData>) -> (count: usize)
    ensures
        count == html_subtree_len(element_home(*element).source, element_home(*element).index),
        1 <= count,
        element_home(*element).index + count <= html_element_count(element_home(*element).source),
{
    element.as_node().inclusive_descendants().elements().count()
}

/// Whether every number in `positions` names an element of the document
/// parsed from `source`.
pub open spec fn in_range(source: Seq<char>, positions: Seq<usize>) -> bool {
    forall|i: int| 0 <= i < positions.len() ==> positions[i] < html_element_count(source)
}

/// The numbers `0, 1, .., count - 1`.
pub open spec fn all_positions(count: nat) -> Seq<usize> {
    Seq::new(count, |i: int| i as usize)
}

/// Those of `positions` whose element matches `selector`, in the same order.
pub open spec fn select_positions(
    source: Seq<char>,
    positions: Seq<usize>,
    selector: Seq<char>,
) -> Seq<usize>
    decreases positions.len(),
{
    if positions.len() == 0 {
        Seq::empty()
    } else {
        let front = select_positions(source, positions.drop_last(), selector);
        if selector_matches(source, positions.last() as int, selector) {
            front.push(positions.last())
        } else {
            front
        }
    }
}

/// The child text nodes of the elements at `positions`, element by element.
pub open spec fn own_texts(source: Seq<char>, positions: Seq<usize>) -> Seq<Seq<char>>
    decreases positions.len(),
{
    if positions.len() == 0 {
        Seq::empty()
    } else {
        own_texts(source, positions.drop_last()) + html_child_texts(
            source,
            positions.last() as int,
        )
    }
}

/// The text nodes below the elements at `positions`, element by element.
pub open spec fn all_texts(source: Seq<char>, positions: Seq<usize>) -> Seq<Seq<char>>
    decreases positions.len(),
{
    if positions.len() == 0 {
        Seq::empty()
    } else {
        all_texts(source, positions.drop_last()) + html_descendant_texts(
            source,
            positions.last() as int,
        )
    }
}

/// The values of those attributes of element number `index` that are listed
/// in `names` and present, in the order of `names`.
pub open spec fn present_values(source: Seq<char>, index: int, names: Seq<Seq<char>>) -> Seq<
    Seq<char>,
>
    decreases names.len(),
{
    if names.len() == 0 {
        Seq::empty()
    } else {
        let front = present_values(source, index, names.drop_last());
        match html_attribute(source, index, names.last()) {
            Some(value) => front.push(value),
            None => front,
        }
    }
}

/// The present values of the attributes `names` on the elements at
/// `positions`: element by element, and for each element in the order of
/// `names`.
pub open spec fn attribute_values(
    source: Seq<char>,
    positions: Seq<usize>,
    names: Seq<Seq<char>>,
) -> Seq<Seq<char>>
    decreases positions.len(),
{
    if positions.len() == 0 {
        Seq::empty()
    } else {
        attribute_values(source, positions.drop_last(), names) + present_values(
            source,
            positions.last() as int,
            names,
        )
    }
}

/// The first of [`attribute_values`], if there is any.
pub open spec fn first_attribute_value(
    source: Seq<char>,
    positions: Seq<usize>,
    names: Seq<Seq<char>>,
) -> Option<Seq<char>> {
    let values = attribute_values(source, positions, names);
    if values.len() == 0 {
        None
    } else {
        Some(values[0])
    }
}

/// The full text of element number `index`: the text nodes of its subtree,
/// one written after another.
pub open spec fn text_contents(source: Seq<char>, index: int) -> Seq<char> {
    concat(html_descendant_texts(source, index))
}

/// The numbers of the elements in the subtree of element number `index`, the
/// element itself first.
pub open spec fn subtree_positions(source: Seq<char>, index: usize) -> Seq<usize> {
    Seq::new(html_subtree_len(source, index as int), |k: int| (index + k) as usize)
}

/// With no attribute names, no element has a value to offer.
pub proof fn lemma_no_names_no_values(source: Seq<char>, positions: Seq<usize>)
    ensures
        attribute_values(source, positions, Seq::empty()) == Seq::<Seq<char>>::empty(),
        first_attribute_value(source, positions, Seq::empty()) is None,
    decreases positions.len(),
{
    if positions.len() > 0 {
        lemma_no_names_no_values(source, positions.drop_last());
        assert(attribute_values(source, positions, Seq::empty()) =~= Seq::<Seq<char>>::empty());
    }
}

/// Selecting keeps numbers that were in range in range.
pub proof fn lemma_select_in_range(source: Seq<char>, positions: Seq<usize>, selector: Seq<char>)
    requires
        in_range(source, positions),
    ensures
        in_range(source, select_positions(source, positions, selector)),
        select_positions(source, positions, selector).len() <= positions.len(),
    decreases positions.len(),
{
    if positions.len() > 0 {
        lemma_select_in_range(source, positions.drop_last(), selector);
    }
}

/// Whether `selector` compiles.
pub fn selector_is_valid(selector: &str) -> (valid: bool)
    ensures
        valid == selector_compiles(selector@),
{
    compile_selectors(selector).is_some()
}

/// An HTML document, parsed. Its view is the HTML text it was parsed from.
pub struct Document {
    /// The document node. It keeps the whole tree alive.
    root: kuchiki::NodeRef,
    /// The elements of the tree, in document order.
    elements: Vec<kuchiki::NodeDataRef<kuchiki::ElementData>>,
}

impl View for Document {
    type V = Seq<char>;

    closed spec fn view(&self) -> Seq<char> {
        tree_source(self.root)
    }
}

impl Document {
    #[verifier::type_invariant]
    spec fn elements_in_place(self) -> bool {
        &&& self.elements@.len() == html_element_count(tree_source(self.root))
        &&& forall|i: int|
            0 <= i < self.elements@.len() ==> element_home(#[trigger] self.elements@[i]) == (
            ElementHome { source: tree_source(self.root), index: i })
    }

    /// Parses `html`. Every text within the limit gives a document: the
    /// parser repairs what is malformed. The limit is on the length in
    /// bytes, which `str::len` returns.
    pub fn parse(html: &str) -> (document: Document)
        requires
            html.len() <= MAX_HTML_BYTES,
        ensures
            document@ == html@,
    {
        let root = parse_tree(html);
        let elements = list_elements(&root);
        Document { root, elements }
    }

    /// The number of elements in the document.
    pub fn element_count(&self) -> (count: usize)
        ensures
            count == html_element_count(self@),
    {
        proof {
            use_type_invariant(self);
        }
        self.elements.len()
    }

    /// The node-set of all elements of the document, in document order.
    pub fn elements(&self) -> (nodes: NodeSet<'_>)
        ensures
            nodes@.source == self@,
            nodes@.positions == all_positions(html_element_count(self@)),
    {
        proof {
            use_type_invariant(self);
        }
        let count = self.elements.len();
        let mut positions: Vec<usize> = Vec::new();
        let mut next: usize = 0;
        while next < count
            invariant
                next <= count,
                count == html_element_count(self@),
                positions@ == all_positions(next as nat),
            decreases count - next,
        {
            positions.push(next);
            assert(positions@ =~= all_positions((next + 1) as nat));
            next = next + 1;
        }
        NodeSet { document: self, positions }
    }

    /// Element number `index`, which remembers where it is at home.
    fn element(&self, index: usize) -> (element: &kuchiki::NodeDataRef<kuchiki::ElementData>)
        requires
            index < html_element_count(self@),
        ensures
            element_home(*element) == (ElementHome { source: self@, index: index as int }),
    {
        proof {
            use_type_invariant(self);
        }
        &self.elements[index]
    }
}

/// What a node-set is, as plain values: the text of its document and the
/// numbers of its elements.
pub ghost struct NodeSetView {
    pub source: Seq<char>,
    pub positions: Seq<usize>,
}

/// An ordered list of elements of one document.
pub struct NodeSet<'a> {
    document: &'a Document,
    positions: Vec<usize>,
}

impl<'a> View for NodeSet<'a> {
    type V = NodeSetView;

    closed spec fn view(&self) -> NodeSetView {
        NodeSetView { source: self.document@, positions: self.positions@ }
    }
}

impl<'a> Clone for NodeSet<'a> {
    /// The set with the same elements, for the same document.
    fn clone(&self) -> (copy: NodeSet<'a>)
        ensures
            copy@ == self@,
    {
        proof {
            use_type_invariant(self);
        }
        let mut positions: Vec<usize> = Vec::new();
        let mut done: usize = 0;
        while done < self.positions.len()
            invariant
                done <= self.positions.len(),
                positions@ == self.positions@.take(done as int),
            decreases self.positions.len() - done,
        {
            positions.push(self.positions[done]);
            assert(positions@ =~= self.positions@.take(done + 1));
            done = done + 1;
        }
        assert(self.positions@.take(self.positions.len() as int) =~= self.positions@);
        NodeSet { document: self.document, positions }
    }
}

impl<'a> NodeSet<'a> {
    #[verifier::type_invariant]
    spec fn positions_in_range(self) -> bool {
        in_range(self.document@, self.positions@)
    }

    /// The number of elements in the set. Each of them is an element of the
    /// set's document.
    pub fn len(&self) -> (count: usize)
        ensures
            count == self@.positions.len(),
            in_range(self@.source, self@.positions),
    {
        proof {
            use_type_invariant(self);
        }
        self.positions.len()
    }

    /// Whether the set holds no element.
    pub fn is_empty(&self) -> (empty: bool)
        ensures
            empty == (self@.positions.len() == 0),
    {
        self.positions.len() == 0
    }

    /// The elements of the set that match `selector`, in the order of the
    /// set. `None` if and only if `selector` does not compile.
    pub fn select(&self, selector: &str) -> (selected: Option<NodeSet<'a>>)
        ensures
            selected is Some <==> selector_compiles(selector@),
            selected matches Some(nodes) ==> {
                &&& nodes@.source == self@.source
                &&& nodes@.positions == select_positions(
                    self@.source,
                    self@.positions,
                    selector@,
                )
            },
    {
        proof {
            use_type_invariant(self);
        }
        match compile_selectors(selector) {
            None => None,
            Some(selectors) => {
                let mut positions: Vec<usize> = Vec::new();
                let mut done: usize = 0;
                while done < self.positions.len()
                    invariant
                        done <= self.positions.len(),
                        in_range(self.document@, self.positions@),
                        selectors_source(selectors) == selector@,
                        positions@ == select_positions(
                            self.document@,
                            self.positions@.take(done as int),
                            selector@,
                        ),
                    decreases self.positions.len() - done,
                {
                    let position = self.positions[done];
                    assert(self.positions@.take(done + 1).drop_last() =~= self.positions@.take(
                        done as int,
                    ));
                    if element_matches(self.document.element(position), &selectors) {
                        positions.push(position);
                    }
                    done = done + 1;
                }
                proof {
                    assert(self.positions@.take(self.positions.len() as int) =~= self.positions@);
                    lemma_select_in_range(self.document@, self.positions@, selector@);
                }
                Some(NodeSet { document: self.document, positions })
            },
        }
    }

    /// The direct text of the elements: the text nodes that are children of
    /// an element of the set, written one after another.
    pub fn own_text(&self) -> (text: String)
        ensures
            text@ == concat(own_texts(self@.source, self@.positions)),
    {
        proof {
            use_type_invariant(self);
        }
        let mut pieces: Vec<String> = Vec::new();
        let mut done: usize = 0;
        while done < self.positions.len()
            invariant
                done <= self.positions.len(),
                in_range(self.document@, self.positions@),
                pieces.deep_view() == own_texts(
                    self.document@,
                    self.positions@.take(done as int),
                ),
            decreases self.positions.len() - done,
        {
            let ghost before = pieces.deep_view();
            let mut texts = child_texts(self.document.element(self.positions[done]));
            let ghost added = texts.deep_view();
            pieces.append(&mut texts);
            proof {
                assert(self.positions@.take(done + 1).drop_last() =~= self.positions@.take(
                    done as int,
                ));
                assert(pieces.deep_view() =~= before + added);
            }
            done = done + 1;
        }
        assert(self.positions@.take(self.positions.len() as int) =~= self.positions@);
        concat_strings(&pieces)
    }

    /// All text of the elements: the text nodes below an element of the set,
    /// with `joiner` between each two of them.
    pub fn all_text(&self, joiner: &str) -> (text: String)
        ensures
            text@ == join(all_texts(self@.source, self@.positions), joiner@),
    {
        proof {
            use_type_invariant(self);
        }
        let mut pieces: Vec<String> = Vec::new();
        let mut done: usize = 0;
        while done < self.positions.len()
            invariant
                done <= self.positions.len(),
                in_range(self.document@, self.positions@),
                pieces.deep_view() == all_texts(
                    self.document@,
                    self.positions@.take(done as int),
                ),
            decreases self.positions.len() - done,
        {
            let ghost before = pieces.deep_view();
            let mut texts = descendant_texts(self.document.element(self.positions[done]));
            let ghost added = texts.deep_view();
            pieces.append(&mut texts);
            proof {
                assert(self.positions@.take(done + 1).drop_last() =~= self.positions@.take(
                    done as int,
                ));
                assert(pieces.deep_view() =~= before + added);
            }
            done = done + 1;
        }
        assert(self.positions@.take(self.positions.len() as int) =~= self.positions@);
        join_strings(&pieces, joiner)
    }

    /// The values of the attributes `names` that the elements have: element
    /// by element, and for each element in the order of `names`.
    pub fn attrs_first_of(&self, names: &Vec<String>) -> (values: Vec<String>)
        ensures
            values.deep_view() == attribute_values(
                self@.source,
                self@.positions,
                names.deep_view(),
            ),
    {
        proof {
            use_type_invariant(self);
        }
        let mut values: Vec<String> = Vec::new();
        let mut done: usize = 0;
        while done < self.positions.len()
            invariant
                done <= self.positions.len(),
                in_range(self.document@, self.positions@),
                values.deep_view() == attribute_values(
                    self.document@,
                    self.positions@.take(done as int),
                    names.deep_view(),
                ),
            decreases self.positions.len() - done,
        {
            let position = self.positions[done];
            let ghost before = values.deep_view();
            let mut tried: usize = 0;
            while tried < names.len()
                invariant
                    tried <= names.len(),
                    position < html_element_count(self.document@),
                    values.deep_view() == before + present_values(
                        self.document@,
                        position as int,
                        names.deep_view().take(tried as int),
                    ),
                decreases names.len() - tried,
            {
                let ghost so_far = values.deep_view();
                proof {
                    assert(names.deep_view().take(tried + 1).drop_last() =~= names.deep_view().take(
                        tried as int,
                    ));
                    assert(names.deep_view().take(tried + 1).last() == names[tried as int]@);
                }
                match element_attribute(self.document.element(position), names[tried].as_str()) {
                    Some(value) => {
                        values.push(value);
                        assert(values.deep_view() =~= so_far.push(value@));
                    },
                    None => {},
                }
                tried = tried + 1;
            }
            proof {
                assert(names.deep_view().take(names.len() as int) =~= names.deep_view());
                assert(self.positions@.take(done + 1).drop_last() =~= self.positions@.take(
                    done as int,
                ));
            }
            done = done + 1;
        }
        assert(self.positions@.take(self.positions.len() as int) =~= self.positions@);
        values
    }

    /// The first value that [`NodeSet::attrs_first_of`] would list, if any.
    pub fn attr_first_of(&self, names: &Vec<String>) -> (value: Option<String>)
        ensures
            value.deep_view() == first_attribute_value(
                self@.source,
                self@.positions,
                names.deep_view(),
            ),
    {
        let mut values = self.attrs_first_of(names);
        if values.len() == 0 {
            None
        } else {
            let first = values.swap_remove(0);
            Some(first)
        }
    }

    /// The full text of the `nth` element of the set.
    pub fn text_contents(&self, nth: usize) -> (text: String)
        requires
            nth < self@.positions.len(),
        ensures
            text@ == text_contents(self@.source, self@.positions[nth as int] as int),
    {
        proof {
            use_type_invariant(self);
        }
        element_text_contents(self.document.element(self.positions[nth]))
    }

    /// The `nth` element of the set together with all elements below it, in
    /// document order.
    pub fn descendants_of(&self, nth: usize) -> (nodes: NodeSet<'a>)
        requires
            nth < self@.positions.len(),
        ensures
            nodes@.source == self@.source,
            nodes@.positions == subtree_positions(self@.source, self@.positions[nth as int]),
    {
        proof {
            use_type_invariant(self);
        }
        let start = self.positions[nth];
        let count = subtree_len(self.document.element(start));
        // The subtree ends where the document ends, or before.
        let total = self.document.element_count();
        let mut positions: Vec<usize> = Vec::new();
        let mut taken: usize = 0;
        while taken < count
            invariant
                taken <= count,
                start + count <= total,
                positions@ == Seq::new(taken as nat, |k: int| (start + k) as usize),
            decreases count - taken,
        {
            positions.push(start + taken);
            assert(positions@ =~= Seq::new((taken + 1) as nat, |k: int| (start + k) as usize));
            taken = taken + 1;
        }
        NodeSet { document: self.document, positions }
    }
}

} // verus!
