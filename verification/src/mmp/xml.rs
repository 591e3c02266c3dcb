//! The document tree: elements with their attributes and children, the
//! errors of reading one, and typed access to attribute values.

use crate::mmp::coerce::Coerce;
use crate::mmp::text::{bytes_eq, Cause};
use vstd::prelude::*;
use vstd::string::StringSliceAdditionalSpecFns;

verus! {

/// The type that a text was to be read as.
#[derive(Clone, Copy, Debug, PartialEq, Eq, Structural)]
pub enum Target {
    U8,
    I8,
    U16,
    I32,
    U32,
    Usize,
    Bool,
    Real,
    Text,
    Version,
}

/// A text that could not be read as a value of the type asked for.
#[derive(Debug)]
pub struct TypeCoercionError {
    /// The text as it stood.
    pub input: String,
    /// The type asked for.
    pub target: Target,
    /// What was wrong with the text.
    pub cause: Cause,
}

/// A `TypeCoercionError` as a value of specifications.
pub struct CoercionFailure {
    pub input: Seq<char>,
    pub target: Target,
    pub cause: Cause,
}

impl View for TypeCoercionError {
    type V = CoercionFailure;

    open spec fn view(&self) -> CoercionFailure {
        CoercionFailure { input: self.input@, target: self.target, cause: self.cause }
    }
}

impl TypeCoercionError {
    /// The error for `input`, which was to be a `target` and failed by `cause`.
    pub fn new(input: &str, target: Target, cause: Cause) -> (e: Self)
        ensures
            e@ == (CoercionFailure { input: input@, target, cause }),
    {
        TypeCoercionError { input: input.to_owned(), target, cause }
    }
}

/// The ways in which a document can have a shape that the format does not
/// allow.
#[derive(Clone, Copy, Debug, PartialEq, Eq, Structural)]
pub enum Structure {
    /// The root element is not `lmms-project`.
    RootTag,
    /// The project's `type` is not the one that the decoder reads.
    ProjectKind,
    /// An element has a child that the format does not know there.
    ChildTag,
    /// The document ends inside an element.
    Unterminated,
    /// Text that is not white space stands between the elements.
    Text,
    /// A track that is no instrument track holds instrument data.
    MisplacedInstrument,
    /// An instrument track holds instrument data more than once.
    InstrumentCount,
    /// The instrument is of a kind that this library does not read.
    InstrumentKind,
}

/// What can go wrong while a document is read.
#[derive(Debug)]
pub enum XMLError {
    /// The document is no usable markup; the text says why.
    Invalid(String),
    /// The element has no attribute of this name.
    AttrNotPresent(String),
    /// The element has no descendant with this tag.
    TagNotPresent(String),
    /// The tokenizer rejected the markup; the text is what it says of it.
    ParseError(String),
    /// The value of the attribute named first is no value of the type asked
    /// for.
    TypeCoercionError(String, TypeCoercionError),
    /// The document is markup of a shape that the format does not allow.
    UnexpectedStructure(Structure),
    /// A code that stands for none of the variants it selects among.
    UnknownDiscriminant(i32),
    /// An oscillator parameter whose name ends in no index, or in one that the
    /// bank does not have.
    InvalidParameterIndex(String),
    /// An oscillator parameter that the instrument does not have.
    UnknownParameterName(String),
}

/// An `XMLError` as a value of specifications. Of a tokenizer error it keeps
/// only that there was one, not what the tokenizer says of it.
pub enum Failure {
    Invalid(Seq<char>),
    AttrNotPresent(Seq<char>),
    TagNotPresent(Seq<char>),
    ParseError,
    TypeCoercionError(Seq<char>, CoercionFailure),
    UnexpectedStructure(Structure),
    UnknownDiscriminant(int),
    InvalidParameterIndex(Seq<char>),
    UnknownParameterName(Seq<char>),
}

impl View for XMLError {
    type V = Failure;

    open spec fn view(&self) -> Failure {
        match *self {
            XMLError::Invalid(m) => Failure::Invalid(m@),
            XMLError::AttrNotPresent(n) => Failure::AttrNotPresent(n@),
            XMLError::TagNotPresent(n) => Failure::TagNotPresent(n@),
            XMLError::ParseError(_) => Failure::ParseError,
            XMLError::TypeCoercionError(n, e) => Failure::TypeCoercionError(n@, e@),
            XMLError::UnexpectedStructure(s) => Failure::UnexpectedStructure(s),
            XMLError::UnknownDiscriminant(c) => Failure::UnknownDiscriminant(c as int),
            XMLError::InvalidParameterIndex(n) => Failure::InvalidParameterIndex(n@),
            XMLError::UnknownParameterName(n) => Failure::UnknownParameterName(n@),
        }
    }
}

impl XMLError {
    /// The document is no usable markup, for the reason that `err` gives.
    pub fn invalid(err: &str) -> (e: Self)
        ensures
            e@ == Failure::Invalid(err@),
    {
        XMLError::Invalid(err.to_owned())
    }

    /// There is no attribute named `err`.
    pub fn attr_not_present(err: &str) -> (e: Self)
        ensures
            e@ == Failure::AttrNotPresent(err@),
    {
        XMLError::AttrNotPresent(err.to_owned())
    }

    /// There is no element with the tag `err`.
    pub fn tag_not_present(err: &str) -> (e: Self)
        ensures
            e@ == Failure::TagNotPresent(err@),
    {
        XMLError::TagNotPresent(err.to_owned())
    }
}

/// The result `r` is the one that the specification `s` gives: the same
/// success with the same value, or the same failure.
pub open spec fn agrees<T: View>(r: Result<T, XMLError>, s: Result<T::V, Failure>) -> bool {
    match s {
        Ok(v) => r matches Ok(x) && x@ == v,
        Err(f) => r matches Err(e) && e@ == f,
    }
}

/// An element of the document as a value of specifications.
pub struct NodeView {
    pub tag: Seq<u8>,
    pub attributes: Seq<(Seq<u8>, Seq<u8>)>,
    pub children: Seq<NodeView>,
    pub path: Seq<usize>,
}

/// An element of the document: its tag, its attributes in the order in which
/// they were written, and its children in document order.
///
/// `path` says where the element stands below the root: the index of each
/// ancestor among its own parent's children, then the element's own. It owns
/// nothing, and with the root in hand it leads to the element's parent.
#[derive(Debug)]
pub struct Node {
    pub path: Vec<usize>,
    pub children: Vec<Node>,
    pub raw_tag: Vec<u8>,
    pub attributes: Vec<(Vec<u8>, Vec<u8>)>,
}

/// The attributes of an element as a value of specifications.
pub open spec fn attributes_view(attributes: Seq<(Vec<u8>, Vec<u8>)>) -> Seq<(Seq<u8>, Seq<u8>)> {
    Seq::new(attributes.len(), |i: int| (attributes[i].0@, attributes[i].1@))
}

/// The element as a value of specifications.
pub open spec fn node_view(n: Node) -> NodeView
    decreases n,
{
    NodeView {
        tag: n.raw_tag@,
        attributes: attributes_view(n.attributes@),
        children: Seq::new(
            n.children@.len(),
            |i: int|
                if 0 <= i < n.children@.len() {
                    node_view(n.children@[i])
                } else {
                    arbitrary()
                },
        ),
        path: n.path@,
    }
}

/// The elements of a sequence as values of specifications.
pub open spec fn nodes_view(nodes: Seq<Node>) -> Seq<NodeView> {
    Seq::new(nodes.len(), |i: int| nodes[i]@)
}

/// The children of an element, as values of specifications, are the
/// children of the element as a value of specifications.
pub proof fn lemma_children_view(n: Node)
    ensures
        n@.children == nodes_view(n.children@),
{
    assert(n@.children =~= nodes_view(n.children@));
}

impl View for Node {
    type V = NodeView;

    open spec fn view(&self) -> NodeView {
        node_view(*self)
    }
}

/// The value of the first attribute named `name` at or behind position
/// `from`.
pub open spec fn attribute_from(
    attributes: Seq<(Seq<u8>, Seq<u8>)>,
    name: Seq<u8>,
    from: int,
) -> Option<Seq<u8>>
    decreases attributes.len() - from,
{
    if 0 <= from < attributes.len() {
        if attributes[from].0 == name {
            Some(attributes[from].1)
        } else {
            attribute_from(attributes, name, from + 1)
        }
    } else {
        None
    }
}

/// The first descendant of `n` with the tag `tag`, in document order, among
/// the children at or behind position `from` and all that is below them.
pub open spec fn descendant_from(n: NodeView, tag: Seq<u8>, from: int) -> Option<NodeView>
    decreases n, n.children.len() - from,
{
    if 0 <= from < n.children.len() {
        let child = n.children[from];
        if child.tag == tag {
            Some(child)
        } else {
            match descendant_from(child, tag, 0) {
                Some(found) => Some(found),
                None => descendant_from(n, tag, from + 1),
            }
        }
    } else {
        None
    }
}

impl NodeView {
    /// The value of the first attribute named `name`.
    pub open spec fn attribute(self, name: Seq<u8>) -> Option<Seq<u8>> {
        attribute_from(self.attributes, name, 0)
    }

    /// The first descendant with the tag `tag`, in document order.
    pub open spec fn descendant(self, tag: Seq<u8>) -> Option<NodeView> {
        descendant_from(self, tag, 0)
    }

    /// The value of the attribute `name` as a `T`.
    pub open spec fn typed<T: Coerce>(self, name: Seq<char>) -> Result<T::V, Failure> {
        match self.attribute(vstd::utf8::encode_utf8(name)) {
            None => Err(Failure::AttrNotPresent(name)),
            Some(raw) => read_as::<T>(name, raw),
        }
    }
}

/// What the value `raw` of the attribute called `name` is as a `T`: a value
/// that is not UTF-8 is no usable markup, and a text that denotes no `T` is
/// an error that names the attribute and holds the text.
pub open spec fn read_as<T: Coerce>(name: Seq<char>, raw: Seq<u8>) -> Result<T::V, Failure> {
    if !vstd::utf8::valid_utf8(raw) {
        Err(Failure::Invalid(NOT_UTF8@))
    } else {
        match T::denoted(raw) {
            Ok(v) => Ok(v),
            Err(cause) => Err(
                Failure::TypeCoercionError(
                    name,
                    CoercionFailure {
                        input: vstd::utf8::decode_utf8(raw),
                        target: T::target(),
                        cause,
                    },
                ),
            ),
        }
    }
}

/// What `get_attribute` says of a value that is not UTF-8.
pub const NOT_UTF8: &'static str = "Attribute is not a valid UTF-8 string";

/// `core::str::from_utf8`: the bytes as a text where they are UTF-8, and
/// nothing where they are not.
#[verifier::external_body]
pub(crate) fn from_utf8(bytes: &[u8]) -> (r: Option<&str>)
    ensures
        r is Some <==> vstd::utf8::valid_utf8(bytes@),
        r matches Some(s) ==> s.spec_bytes() == bytes@,
{
    core::str::from_utf8(bytes).ok()
}

/// Reads the value `raw` of the attribute called `name` as a `T`.
pub fn read_value<T: Coerce>(name: &str, raw: &[u8]) -> (r: Result<T, XMLError>)
    ensures
        agrees(r, read_as::<T>(name@, raw@)),
{
    match from_utf8(raw) {
        None => Err(XMLError::invalid(NOT_UTF8)),
        Some(text) => match T::coerce(text) {
            Ok(v) => Ok(v),
            Err(e) => {
                proof {
                    vstd::utf8::encode_utf8_decode_utf8(text@);
                }
                Err(XMLError::TypeCoercionError(name.to_owned(), e))
            },
        },
    }
}

/// The bytes are those of the text `name`.
pub fn is_named(bytes: &[u8], name: &str) -> (r: bool)
    ensures
        r == (bytes@ == name.spec_bytes()),
{
    bytes_eq(bytes, name.as_bytes())
}

/// What `String::from_utf8_lossy` makes of `bytes`: their text, with the
/// replacement character in place of what is not UTF-8.
pub uninterp spec fn lossy_text(bytes: Seq<u8>) -> Seq<char>;

/// `String::from_utf8_lossy`: the bytes as a text. Bytes that are UTF-8 give
/// the text that they encode.
#[verifier::external_body]
pub(crate) fn from_utf8_lossy(bytes: &[u8]) -> (text: String)
    ensures
        text@ == lossy_text(bytes@),
        vstd::utf8::valid_utf8(bytes@) ==> text@ == vstd::utf8::decode_utf8(bytes@),
{
    String::from_utf8_lossy(bytes).into_owned()
}

/// The attributes of an element as texts.
pub open spec fn lossy_attributes(attributes: Seq<(Seq<u8>, Seq<u8>)>) -> Seq<
    (Seq<char>, Seq<char>),
> {
    Seq::new(
        attributes.len(),
        |i: int| (lossy_text(attributes[i].0), lossy_text(attributes[i].1)),
    )
}

/// Pairs of texts as values of specifications.
pub open spec fn pairs_view(pairs: Seq<(String, String)>) -> Seq<(Seq<char>, Seq<char>)> {
    Seq::new(pairs.len(), |i: int| (pairs[i].0@, pairs[i].1@))
}

impl Node {
    /// The tag of the element as a text.
    pub fn tag(&self) -> (text: String)
        ensures
            text@ == lossy_text(self@.tag),
            vstd::utf8::valid_utf8(self@.tag) ==> text@ == vstd::utf8::decode_utf8(self@.tag),
    {
        from_utf8_lossy(self.raw_tag.as_slice())
    }

    /// The attributes of the element as texts, in their order.
    pub fn attributes(&self) -> (pairs: Vec<(String, String)>)
        ensures
            pairs_view(pairs@) == lossy_attributes(self@.attributes),
    {
        let mut pairs: Vec<(String, String)> = Vec::new();
        let mut i: usize = 0;
        while i < self.attributes.len()
            invariant
                i <= self.attributes@.len(),
                pairs@.len() == i,
                forall|k: int|
                    0 <= k < i ==> (#[trigger] pairs@[k]).0@ == lossy_text(self.attributes@[k].0@)
                        && pairs@[k].1@ == lossy_text(self.attributes@[k].1@),
            decreases self.attributes@.len() - i,
        {
            let name = from_utf8_lossy(self.attributes[i].0.as_slice());
            let value = from_utf8_lossy(self.attributes[i].1.as_slice());
            pairs.push((name, value));
            i = i + 1;
        }
        assert(pairs_view(pairs@) =~= lossy_attributes(self@.attributes));
        pairs
    }

    /// An element with the given tag, attributes and children, standing at
    /// `path`.
    pub fn new(
        path: Vec<usize>,
        raw_tag: Vec<u8>,
        attributes: Vec<(Vec<u8>, Vec<u8>)>,
        children: Vec<Node>,
    ) -> (n: Self)
        ensures
            n.path == path,
            n.raw_tag == raw_tag,
            n.attributes == attributes,
            n.children == children,
    {
        Node { path, children, raw_tag, attributes }
    }

    /// The value of the first attribute named `attr`, as it was written.
    pub fn get_attribute_raw(&self, attr: &str) -> (r: Option<&[u8]>)
        ensures
            match self@.attribute(attr.spec_bytes()) {
                Some(v) => r matches Some(raw) && raw@ == v,
                None => r is None,
            },
    {
        let name = attr.as_bytes();
        let mut i: usize = 0;
        while i < self.attributes.len()
            invariant
                i <= self.attributes@.len(),
                name@ == attr.spec_bytes(),
                self@.attribute(name@) == attribute_from(self@.attributes, name@, i as int),
            decreases self.attributes@.len() - i,
        {
            if bytes_eq(self.attributes[i].0.as_slice(), name) {
                return Some(self.attributes[i].1.as_slice());
            }
            i = i + 1;
        }
        None
    }

    /// The value of the attribute `attr` as a `T`.
    ///
    /// Fails where the element has no such attribute, where its value is not
    /// UTF-8, and where the value is no `T`.
    pub fn get_attribute<T: Coerce>(&self, attr: &str) -> (r: Result<T, XMLError>)
        ensures
            agrees(r, self@.typed::<T>(attr@)),
    {
        match self.get_attribute_raw(attr) {
            None => Err(XMLError::attr_not_present(attr)),
            Some(raw) => read_value::<T>(attr, raw),
        }
    }

    /// The value of the attribute `attr` as a `T`, or `default` where the
    /// element has no such attribute. A value that is there and is no `T` is
    /// an error.
    pub fn get_attribute_or<T: Coerce>(&self, attr: &str, default: T) -> (r: Result<T, XMLError>)
        ensures
            agrees(r, self@.typed_or::<T>(attr@, default@)),
    {
        match self.get_attribute_raw(attr) {
            None => Ok(default),
            Some(_) => self.get_attribute::<T>(attr),
        }
    }

    /// The first descendant with the tag `tag`, in document order: a child
    /// comes before what is below it, and all of that before the next child.
    pub fn get_tag(&self, tag: &str) -> (r: Result<&Node, XMLError>)
        ensures
            match self@.descendant(tag.spec_bytes()) {
                Some(found) => r matches Ok(t) && t@ == found,
                None => r matches Err(e) && e@ == Failure::TagNotPresent(tag@),
            },
        decreases self,
    {
        let name = tag.as_bytes();
        let mut i: usize = 0;
        while i < self.children.len()
            invariant
                i <= self.children@.len(),
                name@ == tag.spec_bytes(),
                self@.descendant(name@) == descendant_from(self@, name@, i as int),
            decreases self.children@.len() - i,
        {
            let child = &self.children[i];
            if bytes_eq(child.raw_tag.as_slice(), name) {
                return Ok(child);
            }
            if let Ok(found) = child.get_tag(tag) {
                return Ok(found);
            }
            i = i + 1;
        }
        Err(XMLError::tag_not_present(tag))
    }
}

/// Every element below `n` stands where its path says: a child's path is
/// its parent's, followed by the child's index.
pub open spec fn placed(n: NodeView) -> bool
    decreases n,
{
    forall|i: int|
        0 <= i < n.children.len() ==> {
            &&& (#[trigger] n.children[i]).path == n.path.push(i as usize)
            &&& placed(n.children[i])
        }
}

impl NodeView {
    /// The value of the attribute `name` as a `T`, or `default` where there
    /// is no such attribute.
    pub open spec fn typed_or<T: Coerce>(self, name: Seq<char>, default: T::V) -> Result<
        T::V,
        Failure,
    > {
        if self.attribute(vstd::utf8::encode_utf8(name)) is None {
            Ok(default)
        } else {
            self.typed::<T>(name)
        }
    }

    /// The element that the steps of `path` from position `from` on lead to:
    /// each step is the index of a child.
    pub open spec fn at(self, path: Seq<usize>, from: int) -> Option<NodeView>
        decreases path.len() - from,
    {
        if 0 <= from < path.len() {
            if path[from] < self.children.len() {
                self.children[path[from] as int].at(path, from + 1)
            } else {
                None
            }
        } else {
            Some(self)
        }
    }

    /// The element that stands at `path` below this one.
    pub open spec fn element_at(self, path: Seq<usize>) -> Option<NodeView> {
        self.at(path, 0)
    }
}

/// In a tree whose elements stand where their paths say, the element that a
/// path leads to has that path behind the path of the element where the
/// walk began.
pub proof fn lemma_at_path(n: NodeView, path: Seq<usize>, from: int)
    requires
        placed(n),
        0 <= from <= path.len(),
        n.path == path.subrange(0, from),
    ensures
        n.at(path, from) matches Some(found) ==> found.path == path && placed(found),
    decreases path.len() - from,
{
    if from < path.len() {
        if path[from] < n.children.len() {
            let child = n.children[path[from] as int];
            assert(child.path =~= path.subrange(0, from + 1));
            lemma_at_path(child, path, from + 1);
        }
    } else {
        assert(path.subrange(0, from) =~= path);
    }
}

/// In a tree with its root at the top and every element where its path
/// says, the path of an element leads from the root to that element.
pub proof fn lemma_path_leads_back(root: NodeView, path: Seq<usize>)
    requires
        placed(root),
        root.path.len() == 0,
    ensures
        root.element_at(path) matches Some(found) ==> found.path == path,
{
    assert(root.path =~= path.subrange(0, 0));
    lemma_at_path(root, path, 0);
}

impl Node {
    /// The element that stands at `path` below this one, each step of the
    /// path being the index of a child; nothing where a step leads nowhere.
    pub fn element_at(&self, path: &[usize]) -> (r: Option<&Node>)
        ensures
            match self@.element_at(path@) {
                Some(found) => r matches Some(n) && n@ == found,
                None => r is None,
            },
    {
        let mut current: &Node = self;
        let mut i: usize = 0;
        while i < path.len()
            invariant
                i <= path@.len(),
                self@.element_at(path@) == current@.at(path@, i as int),
            decreases path@.len() - i,
        {
            if path[i] < current.children.len() {
                current = &current.children[path[i]];
            } else {
                return None;
            }
            i = i + 1;
        }
        Some(current)
    }

    /// The parent of this element in the tree below `root`: the element that
    /// this one's path, without its last step, leads to from `root`. The root
    /// itself has no parent.
    pub fn parent<'a>(&self, root: &'a Node) -> (r: Option<&'a Node>)
        ensures
            self@.path.len() == 0 ==> r is None,
            self@.path.len() > 0 ==> match root@.element_at(self@.path.drop_last()) {
                Some(found) => r matches Some(n) && n@ == found,
                None => r is None,
            },
    {
        let depth = self.path.len();
        if depth == 0 {
            None
        } else {
            let steps = vstd::slice::slice_subrange(self.path.as_slice(), 0, depth - 1);
            assert(steps@ =~= self@.path.drop_last());
            root.element_at(steps)
        }
    }
}

} // verus!
