//! Building the document tree from the events of a tokenizer.

use crate::mmp::reader::{next_token, open_reader, reader_polls, reader_source, token_at};
use crate::mmp::reader::{RawAttribute, Token, TokenView};
use crate::mmp::text::{is_blank, is_blank_text};
use crate::mmp::xml::{agrees, attributes_view, nodes_view, placed};
use crate::mmp::xml::{Failure, Node, NodeView, Structure, XMLError};
use vstd::prelude::*;

verus! {

/// One event of a document: the start of an element, an element without
/// content, the end of an element, text, markup that the tree ignores
/// (comments, declarations, processing instructions, document types, CDATA
/// sections), or the end of the document.
#[derive(Debug)]
pub enum Event {
    Start(Vec<u8>, Vec<(Vec<u8>, Vec<u8>)>),
    Empty(Vec<u8>, Vec<(Vec<u8>, Vec<u8>)>),
    End(Vec<u8>),
    Text(Vec<u8>),
    Ignored,
    Eof,
}

/// An `Event` as a value of specifications.
pub enum EventView {
    Start(Seq<u8>, Seq<(Seq<u8>, Seq<u8>)>),
    Empty(Seq<u8>, Seq<(Seq<u8>, Seq<u8>)>),
    End(Seq<u8>),
    Text(Seq<u8>),
    Ignored,
    Eof,
}

impl View for Event {
    type V = EventView;

    open spec fn view(&self) -> EventView {
        match *self {
            Event::Start(tag, attributes) => EventView::Start(tag@, attributes_view(attributes@)),
            Event::Empty(tag, attributes) => EventView::Empty(tag@, attributes_view(attributes@)),
            Event::End(tag) => EventView::End(tag@),
            Event::Text(text) => EventView::Text(text@),
            Event::Ignored => EventView::Ignored,
            Event::Eof => EventView::Eof,
        }
    }
}

/// The events of a sequence as values of specifications.
pub open spec fn events_view(events: Seq<Event>) -> Seq<EventView> {
    Seq::new(events.len(), |i: int| events[i]@)
}

/// The well-formed attributes among the first `upto` that the tokenizer
/// read, in their order.
pub open spec fn kept(raw: Seq<Option<(Seq<u8>, Seq<u8>)>>, upto: int) -> Seq<(Seq<u8>, Seq<u8>)>
    decreases upto,
{
    if upto <= 0 || upto > raw.len() {
        Seq::empty()
    } else {
        match raw[upto - 1] {
            Some(pair) => kept(raw, upto - 1).push(pair),
            None => kept(raw, upto - 1),
        }
    }
}

/// The event that a token of the tokenizer stands for: the same, without the
/// attributes that are malformed.
pub open spec fn event_of(token: TokenView) -> EventView {
    match token {
        TokenView::Start(tag, raw) => EventView::Start(tag, kept(raw, raw.len() as int)),
        TokenView::Empty(tag, raw) => EventView::Empty(tag, kept(raw, raw.len() as int)),
        TokenView::End(tag) => EventView::End(tag),
        TokenView::Text(text) => EventView::Text(text),
        TokenView::Other => EventView::Ignored,
        TokenView::Eof => EventView::Eof,
    }
}

/// A tree while it grows: the elements that are open, the outermost first,
/// each with the children it has so far, and the root once it is complete.
pub struct Growth {
    pub open: Seq<NodeView>,
    pub root: Option<NodeView>,
}

impl Growth {
    /// Nothing read yet.
    pub open spec fn start() -> Growth {
        Growth { open: Seq::empty(), root: None }
    }

    /// Where the next element stands: below the innermost open element,
    /// behind the children it has, or at the top.
    pub open spec fn next_path(self) -> Seq<usize> {
        if self.open.len() == 0 {
            Seq::empty()
        } else {
            self.open.last().path.push(self.open.last().children.len() as usize)
        }
    }

    /// The element that a tag opens here.
    pub open spec fn element(self, tag: Seq<u8>, attributes: Seq<(Seq<u8>, Seq<u8>)>) -> NodeView {
        NodeView { tag, attributes, children: Seq::empty(), path: self.next_path() }
    }

    /// A complete element finds its place: it is the next child of the
    /// innermost open element; with none open it is the root, unless there is
    /// a root already, and then it is dropped.
    pub open spec fn place(self, node: NodeView) -> Growth {
        if self.open.len() > 0 {
            let parent = self.open.last();
            let grown = NodeView { children: parent.children.push(node), ..parent };
            Growth { open: self.open.drop_last().push(grown), ..self }
        } else if self.root is None {
            Growth { root: Some(node), ..self }
        } else {
            self
        }
    }

    /// The tree after one more event that is not the end of the document.
    ///
    /// A start tag opens an element. An empty element is complete at once.
    /// An end tag completes the innermost open element, and with none open it
    /// changes nothing. Text must be white space. The rest is ignored.
    pub open spec fn step(self, event: EventView) -> Result<Growth, Failure> {
        match event {
            EventView::Start(tag, attributes) => Ok(
                Growth { open: self.open.push(self.element(tag, attributes)), ..self },
            ),
            EventView::Empty(tag, attributes) => Ok(self.place(self.element(tag, attributes))),
            EventView::End(_) => if self.open.len() > 0 {
                Ok(Growth { open: self.open.drop_last(), ..self }.place(self.open.last()))
            } else {
                Ok(self)
            },
            EventView::Text(text) => if is_blank(text) {
                Ok(self)
            } else {
                Err(Failure::UnexpectedStructure(Structure::Text))
            },
            EventView::Ignored => Ok(self),
            EventView::Eof => Ok(self),
        }
    }

    /// The tree at the end of the document: the root, unless an element is
    /// still open or there was no element at all.
    pub open spec fn finish(self) -> Result<NodeView, Failure> {
        if self.open.len() > 0 {
            Err(Failure::UnexpectedStructure(Structure::Unterminated))
        } else {
            match self.root {
                Some(root) => Ok(root),
                None => Err(Failure::Invalid(NO_TREE@)),
            }
        }
    }

    /// The tree that the events from position `from` on make of this one.
    /// The sequence is read up to its first `Eof`, or to its end.
    pub open spec fn grow(self, events: Seq<EventView>, from: int) -> Result<NodeView, Failure>
        decreases events.len() - from,
    {
        if 0 <= from < events.len() && events[from] != EventView::Eof {
            match self.step(events[from]) {
                Ok(next) => next.grow(events, from + 1),
                Err(failure) => Err(failure),
            }
        } else {
            self.finish()
        }
    }

    /// The tree that the tokens of the document `source` make of this one,
    /// from the `n`-th on.
    ///
    /// A document of `k` bytes has at most `k` tokens before its end; the
    /// reading stops with an error where the tokenizer gives more.
    pub open spec fn read(self, source: Seq<u8>, n: nat) -> Result<NodeView, Failure>
        decreases source.len() - n,
    {
        match token_at(source, n) {
            None => Err(Failure::ParseError),
            Some(token) => if token == TokenView::Eof {
                self.finish()
            } else {
                match self.step(event_of(token)) {
                    Err(failure) => Err(failure),
                    Ok(next) => if n < source.len() {
                        next.read(source, n + 1)
                    } else {
                        Err(Failure::Invalid(ENDLESS@))
                    },
                }
            },
        }
    }
}

/// The tree that a sequence of events describes.
pub open spec fn built(events: Seq<EventView>) -> Result<NodeView, Failure> {
    Growth::start().grow(events, 0)
}

/// The tree of the document `source`, as the tokenizer reads it.
pub open spec fn document(source: Seq<u8>) -> Result<NodeView, Failure> {
    Growth::start().read(source, 0)
}

/// What is said of a document without any element.
pub const NO_TREE: &'static str = "Expected an XML tree but it does not exist";

/// What is said where the tokenizer gives more events than the document has
/// bytes.
pub const ENDLESS: &'static str = "The tokenizer does not come to the end of the document";

/// A tree while it grows.
pub struct Builder {
    pub open: Vec<Node>,
    pub root: Option<Node>,
}

impl View for Builder {
    type V = Growth;

    open spec fn view(&self) -> Growth {
        Growth {
            open: nodes_view(self.open@),
            root: match self.root {
                Some(root) => Some(root@),
                None => None,
            },
        }
    }
}

/// A copy of the attributes.
fn copy_attributes(attributes: &Vec<(Vec<u8>, Vec<u8>)>) -> (copy: Vec<(Vec<u8>, Vec<u8>)>)
    ensures
        attributes_view(copy@) == attributes_view(attributes@),
{
    let mut copy: Vec<(Vec<u8>, Vec<u8>)> = Vec::new();
    let mut i: usize = 0;
    while i < attributes.len()
        invariant
            i <= attributes@.len(),
            copy@.len() == i,
            forall|k: int| 0 <= k < i ==> copy@[k].0@ == attributes@[k].0@ && copy@[k].1@ == attributes@[k].1@,
        decreases attributes@.len() - i,
    {
        let name = vstd::slice::slice_to_vec(attributes[i].0.as_slice());
        let value = vstd::slice::slice_to_vec(attributes[i].1.as_slice());
        copy.push((name, value));
        i = i + 1;
    }
    assert(attributes_view(copy@) =~= attributes_view(attributes@));
    copy
}

impl Event {
    /// A copy of the event.
    pub fn copy(&self) -> (e: Event)
        ensures
            e@ == self@,
    {
        match self {
            Event::Start(tag, attributes) => Event::Start(
                vstd::slice::slice_to_vec(tag.as_slice()),
                copy_attributes(attributes),
            ),
            Event::Empty(tag, attributes) => Event::Empty(
                vstd::slice::slice_to_vec(tag.as_slice()),
                copy_attributes(attributes),
            ),
            Event::End(tag) => Event::End(vstd::slice::slice_to_vec(tag.as_slice())),
            Event::Text(text) => Event::Text(vstd::slice::slice_to_vec(text.as_slice())),
            Event::Ignored => Event::Ignored,
            Event::Eof => Event::Eof,
        }
    }

    /// The event that a token of the tokenizer stands for.
    pub fn from_token(token: Token) -> (e: Event)
        ensures
            e@ == event_of(token@),
    {
        match token {
            Token::Start(tag, raw) => Event::Start(tag, keep(&raw)),
            Token::Empty(tag, raw) => Event::Empty(tag, keep(&raw)),
            Token::End(tag) => Event::End(tag),
            Token::Text(text) => Event::Text(text),
            Token::Other => Event::Ignored,
            Token::Eof => Event::Eof,
        }
    }
}

/// The well-formed attributes among those that the tokenizer read.
fn keep(raw: &Vec<RawAttribute>) -> (attributes: Vec<(Vec<u8>, Vec<u8>)>)
    ensures
        attributes_view(attributes@) == kept(
            crate::mmp::reader::raw_attributes_view(raw@),
            raw@.len() as int,
        ),
{
    let ghost view = crate::mmp::reader::raw_attributes_view(raw@);
    let mut attributes: Vec<(Vec<u8>, Vec<u8>)> = Vec::new();
    let mut i: usize = 0;
    while i < raw.len()
        invariant
            i <= raw@.len(),
            view == crate::mmp::reader::raw_attributes_view(raw@),
            attributes_view(attributes@) == kept(view, i as int),
        decreases raw@.len() - i,
    {
        let ghost before = attributes@;
        match &raw[i] {
            Some(pair) => {
                let name = vstd::slice::slice_to_vec(pair.0.as_slice());
                let value = vstd::slice::slice_to_vec(pair.1.as_slice());
                attributes.push((name, value));
                assert(attributes_view(attributes@) =~= attributes_view(before).push(
                    (pair.0@, pair.1@),
                ));
            },
            None => {},
        }
        i = i + 1;
    }
    attributes
}

impl Builder {
    /// A tree of which nothing was read yet.
    pub fn new() -> (b: Builder)
        ensures
            b@ == Growth::start(),
    {
        let b = Builder { open: Vec::new(), root: None };
        assert(b@.open =~= Seq::empty());
        b
    }

    /// The element that a tag opens here.
    fn element(&self, tag: Vec<u8>, attributes: Vec<(Vec<u8>, Vec<u8>)>) -> (node: Node)
        ensures
            node@ == self@.element(tag@, attributes_view(attributes@)),
    {
        let mut path: Vec<usize> = Vec::new();
        let depth = self.open.len();
        if depth > 0 {
            let parent = &self.open[depth - 1];
            path = vstd::slice::slice_to_vec(parent.path.as_slice());
            path.push(parent.children.len());
            assert(self@.open.last() == parent@);
            assert(parent@.children.len() == parent.children@.len());
        }
        let node = Node::new(path, tag, attributes, Vec::new());
        assert(node@.children =~= Seq::empty());
        node
    }

    /// Gives a complete element its place.
    fn place(&mut self, node: Node)
        ensures
            final(self)@ == old(self)@.place(node@),
    {
        match self.open.pop() {
            Some(mut parent) => {
                let ghost before = parent@;
                parent.children.push(node);
                assert(parent@.children =~= before.children.push(node@));
                self.open.push(parent);
                assert(self@.open =~= old(self)@.open.drop_last().push(parent@));
            },
            None => {
                assert(self@.open =~= old(self)@.open);
                if self.root.is_none() {
                    self.root = Some(node);
                }
            },
        }
    }

    /// Takes one more event, which is not the end of the document.
    pub fn step(&mut self, event: Event) -> (r: Result<(), XMLError>)
        ensures
            match old(self)@.step(event@) {
                Ok(next) => r is Ok && final(self)@ == next,
                Err(failure) => r matches Err(e) && e@ == failure,
            },
    {
        match event {
            Event::Start(tag, attributes) => {
                let node = self.element(tag, attributes);
                self.open.push(node);
                assert(self@.open =~= old(self)@.open.push(node@));
                Ok(())
            },
            Event::Empty(tag, attributes) => {
                let node = self.element(tag, attributes);
                self.place(node);
                Ok(())
            },
            Event::End(_) => {
                match self.open.pop() {
                    Some(node) => {
                        assert(self@.open =~= old(self)@.open.drop_last());
                        assert(node@ == old(self)@.open.last());
                        self.place(node);
                    },
                    None => {
                        assert(self@.open =~= old(self)@.open);
                    },
                }
                Ok(())
            },
            Event::Text(text) => {
                if is_blank_text(text.as_slice()) {
                    Ok(())
                } else {
                    Err(XMLError::UnexpectedStructure(Structure::Text))
                }
            },
            Event::Ignored => Ok(()),
            Event::Eof => Ok(()),
        }
    }

    /// The tree at the end of the document.
    pub fn finish(self) -> (r: Result<Node, XMLError>)
        ensures
            agrees(r, self@.finish()),
    {
        if self.open.len() > 0 {
            Err(XMLError::UnexpectedStructure(Structure::Unterminated))
        } else {
            match self.root {
                Some(root) => Ok(root),
                None => Err(XMLError::invalid(NO_TREE)),
            }
        }
    }
}

/// Builds the tree that a sequence of events describes.
///
/// The events are read up to the first `Eof`, or to the end of the sequence.
/// The first element at the top becomes the root. The result is an error
/// where text that is not white space stands among the events, where an
/// element is still open at the end, and where there is no element at all.
pub fn build(events: &[Event]) -> (r: Result<Node, XMLError>)
    ensures
        agrees(r, built(events_view(events@))),
        r matches Ok(root) ==> root@.path.len() == 0 && placed(root@),
{
    let ghost all = events_view(events@);
    proof {
        lemma_built_placed(all);
    }
    let mut builder = Builder::new();
    let mut i: usize = 0;
    while i < events.len()
        invariant
            i <= events@.len(),
            all == events_view(events@),
            built(all) == builder@.grow(all, i as int),
            built(all) matches Ok(root) ==> root.path.len() == 0 && placed(root),
        decreases events@.len() - i,
    {
        if let Event::Eof = events[i] {
            return builder.finish();
        }
        let ghost before = builder@;
        match builder.step(events[i].copy()) {
            Ok(()) => {},
            Err(e) => {
                return Err(e);
            },
        }
        i = i + 1;
    }
    builder.finish()
}

/// Reads the document `file` into a tree.
///
/// The tokenizer's events are taken one by one, as `build` takes them, and
/// the first error ends the reading: one of the tokenizer, or one of the
/// tree.
pub fn build_tree(file: &[u8]) -> (r: Result<Node, XMLError>)
    ensures
        agrees(r, document(file@)),
        r matches Ok(root) ==> root@.path.len() == 0 && placed(root@),
{
    proof {
        lemma_document_placed(file@);
    }
    let mut reader = open_reader(file);
    let mut builder = Builder::new();
    let mut n: usize = 0;
    loop
        invariant
            n <= file@.len(),
            reader_source(reader) == file@,
            reader_polls(reader) == n,
            document(file@) == builder@.read(file@, n as nat),
            document(file@) matches Ok(root) ==> root.path.len() == 0 && placed(root),
        decreases file@.len() - n,
    {
        let token = match next_token(&mut reader) {
            Ok(token) => token,
            Err(e) => {
                return Err(XMLError::ParseError(e));
            },
        };
        if let Token::Eof = token {
            return builder.finish();
        }
        match builder.step(Event::from_token(token)) {
            Ok(()) => {},
            Err(e) => {
                return Err(e);
            },
        }
        if n >= file.len() {
            return Err(XMLError::invalid(ENDLESS));
        }
        n = n + 1;
    }
}

impl Growth {
    /// The paths of a growing tree are in order: the outermost open element
    /// stands at the top, each other one behind the children of the one
    /// around it, and what is complete stands where its path says.
    pub open spec fn sound(self) -> bool {
        &&& forall|k: int| 0 <= k < self.open.len() ==> placed(#[trigger] self.open[k])
        &&& self.open.len() > 0 ==> self.open[0].path.len() == 0
        &&& forall|k: int|
            0 < k < self.open.len() ==> (#[trigger] self.open[k]).path == self.open[k - 1].path.push(
                self.open[k - 1].children.len() as usize,
            )
        &&& self.root matches Some(root) ==> root.path.len() == 0 && placed(root)
    }

    /// How many elements are open when the events from `from` on have been
    /// read, with `depth` open before them.
    pub open spec fn depth_at_end(events: Seq<EventView>, from: int, depth: nat) -> nat
        decreases events.len() - from,
    {
        if 0 <= from < events.len() && events[from] != EventView::Eof {
            Growth::depth_at_end(
                events,
                from + 1,
                match events[from] {
                    EventView::Start(_, _) => depth + 1,
                    EventView::End(_) => if depth > 0 {
                        (depth - 1) as nat
                    } else {
                        0
                    },
                    _ => depth,
                },
            )
        } else {
            depth
        }
    }

    /// A complete element that stands where the next one must keeps the
    /// paths in order.
    pub proof fn lemma_place_sound(self, node: NodeView)
        requires
            self.sound(),
            placed(node),
            node.path == self.next_path(),
        ensures
            self.place(node).sound(),
    {
        let after = self.place(node);
        if self.open.len() > 0 {
            let last = self.open.len() - 1;
            let parent = self.open.last();
            let grown = after.open[last];
            assert forall|i: int| 0 <= i < grown.children.len() implies {
                &&& (#[trigger] grown.children[i]).path == grown.path.push(i as usize)
                &&& placed(grown.children[i])
            } by {
                if i < parent.children.len() {
                    assert(grown.children[i] == parent.children[i]);
                }
            }
            assert forall|k: int| 0 <= k < after.open.len() implies placed(
                #[trigger] after.open[k],
            ) by {
                if k < last {
                    assert(after.open[k] == self.open[k]);
                }
            }
            assert forall|k: int| 0 < k < after.open.len() implies (#[trigger] after.open[k]).path
                == after.open[k - 1].path.push(after.open[k - 1].children.len() as usize) by {
                assert(after.open[k].path == self.open[k].path);
                assert(after.open[k - 1] == self.open[k - 1]);
            }
        }
    }

    /// One more event keeps the paths in order.
    pub proof fn lemma_step_sound(self, event: EventView)
        requires
            self.sound(),
        ensures
            self.step(event) matches Ok(next) ==> next.sound(),
    {
        match event {
            EventView::Start(tag, attributes) => {
                let node = self.element(tag, attributes);
                let next = Growth { open: self.open.push(node), ..self };
                assert forall|k: int| 0 <= k < next.open.len() implies placed(
                    #[trigger] next.open[k],
                ) by {
                    if k < self.open.len() {
                        assert(next.open[k] == self.open[k]);
                    }
                }
                assert forall|k: int| 0 < k < next.open.len() implies (#[trigger] next.open[k]).path
                    == next.open[k - 1].path.push(next.open[k - 1].children.len() as usize) by {
                    assert(next.open[k - 1] == self.open[k - 1]);
                    if k < self.open.len() {
                        assert(next.open[k] == self.open[k]);
                    }
                }
            },
            EventView::Empty(tag, attributes) => {
                self.lemma_place_sound(self.element(tag, attributes));
            },
            EventView::End(_) => {
                if self.open.len() > 0 {
                    let shorter = Growth { open: self.open.drop_last(), ..self };
                    let last = self.open.len() - 1;
                    assert forall|k: int| 0 <= k < shorter.open.len() implies placed(
                        #[trigger] shorter.open[k],
                    ) by {
                        assert(shorter.open[k] == self.open[k]);
                    }
                    assert forall|k: int| 0 < k < shorter.open.len() implies (
                    #[trigger] shorter.open[k]).path == shorter.open[k - 1].path.push(
                        shorter.open[k - 1].children.len() as usize,
                    ) by {
                        assert(shorter.open[k] == self.open[k]);
                        assert(shorter.open[k - 1] == self.open[k - 1]);
                    }
                    if shorter.open.len() > 0 {
                        assert(shorter.open[0] == self.open[0]);
                        assert(shorter.open.last() == self.open[last - 1]);
                        assert(self.open[last].path == self.open[last - 1].path.push(
                            self.open[last - 1].children.len() as usize,
                        ));
                    } else {
                        assert(self.open[last].path =~= Seq::<usize>::empty());
                    }
                    assert(placed(self.open[last]));
                    shorter.lemma_place_sound(self.open.last());
                }
            },
            _ => {},
        }
    }

    /// A tree that comes of events stands where its paths say, the root at
    /// the top.
    pub proof fn lemma_grow_sound(self, events: Seq<EventView>, from: int)
        requires
            self.sound(),
        ensures
            self.grow(events, from) matches Ok(root) ==> root.path.len() == 0 && placed(root),
        decreases events.len() - from,
    {
        if 0 <= from < events.len() && events[from] != EventView::Eof {
            self.lemma_step_sound(events[from]);
            match self.step(events[from]) {
                Ok(next) => next.lemma_grow_sound(events, from + 1),
                Err(_) => {},
            }
        }
    }

    /// A tree that comes of a document stands where its paths say, the root
    /// at the top.
    pub proof fn lemma_read_sound(self, source: Seq<u8>, n: nat)
        requires
            self.sound(),
        ensures
            self.read(source, n) matches Ok(root) ==> root.path.len() == 0 && placed(root),
        decreases source.len() - n,
    {
        match token_at(source, n) {
            None => {},
            Some(token) => if token != TokenView::Eof {
                self.lemma_step_sound(event_of(token));
                match self.step(event_of(token)) {
                    Ok(next) => if n < source.len() {
                        next.lemma_read_sound(source, n + 1);
                    },
                    Err(_) => {},
                }
            },
        }
    }

    /// Events that leave an element open make no tree: they end in an error
    /// of the document's shape.
    pub proof fn lemma_grow_unterminated(self, events: Seq<EventView>, from: int)
        requires
            Growth::depth_at_end(events, from, self.open.len()) > 0,
        ensures
            self.grow(events, from) matches Err(Failure::UnexpectedStructure(_)),
        decreases events.len() - from,
    {
        if 0 <= from < events.len() && events[from] != EventView::Eof {
            match self.step(events[from]) {
                Ok(next) => next.lemma_grow_unterminated(events, from + 1),
                Err(_) => {},
            }
        }
    }
}

/// A sequence of events in which an element starts and does not end before
/// the `Eof` gives an error of the document's shape, and no tree.
pub proof fn lemma_unterminated_fails(events: Seq<EventView>)
    requires
        Growth::depth_at_end(events, 0, 0) > 0,
    ensures
        built(events) matches Err(Failure::UnexpectedStructure(_)),
{
    Growth::start().lemma_grow_unterminated(events, 0);
}

/// The tree of a sequence of events has its root at the top and every
/// element where its path says.
pub proof fn lemma_built_placed(events: Seq<EventView>)
    ensures
        built(events) matches Ok(root) ==> root.path.len() == 0 && placed(root),
{
    Growth::start().lemma_grow_sound(events, 0);
}

/// The tree of a document has its root at the top and every element where
/// its path says.
pub proof fn lemma_document_placed(source: Seq<u8>)
    ensures
        document(source) matches Ok(root) ==> root.path.len() == 0 && placed(root),
{
    Growth::start().lemma_read_sound(source, 0);
}

} // verus!
