//! Patterns: a step sequence and its notes, alone in a file of its own or
//! inside a project.

use crate::mmp::events::{build_tree, document};
use crate::mmp::project::{info_of, Info};
use crate::mmp::text::str_eq;
use crate::mmp::xml::{lemma_children_view, nodes_view};
use crate::mmp::xml::{Failure, Node, NodeView, Structure, XMLError};
use crate::mmp::zlib::{decompress, packing_of, sniff, unpacked, Packing};
use vstd::prelude::*;
use vstd::string::StringSliceAdditionalSpecFns;

verus! {

/// What can go wrong while a pattern file is read.
#[derive(Debug)]
pub enum Error {
    /// The document could not be read.
    Xml(XMLError),
    /// The compressed stream could not be read.
    IoError(std::io::Error),
    /// The file is of no kind that is read; the text says why.
    Invalid(String),
}

/// An `Error` as a value of specifications. Of an error of the compressed
/// stream it keeps only that there was one.
pub enum PatternFailure {
    Xml(Failure),
    IoError,
    Invalid(Seq<char>),
}

impl View for Error {
    type V = PatternFailure;

    open spec fn view(&self) -> PatternFailure {
        match *self {
            Error::Xml(e) => PatternFailure::Xml(e@),
            Error::IoError(_) => PatternFailure::IoError,
            Error::Invalid(m) => PatternFailure::Invalid(m@),
        }
    }
}

/// What is said of a file whose name ends in neither `xpt` nor `xptz`.
pub const BAD_EXTENSION: &'static str = "Expected xpt or xptz";

/// What is said of a file in the newer format.
pub const UNSUPPORTED: &'static str = "The newer file format is not supported";

/// One note of a pattern.
#[derive(Clone, Copy, Debug, PartialEq, Eq, Structural)]
pub struct Note {
    pub len: u8,
    pub key: u8,
    pub vol: u8,
    pub pan: u8,
    pub pos: u16,
}

/// A pattern: its kind, whether it is muted, its name, where it starts, how
/// many steps it has, and its notes in the order of the file.
#[derive(Debug, PartialEq, Eq)]
pub struct Pattern {
    pub ty: u8,
    pub muted: u8,
    pub name: String,
    pub pos: u16,
    pub steps: u8,
    pub notes: Vec<Note>,
}

/// A `Pattern` as a value of specifications.
pub struct PatternView {
    pub ty: u8,
    pub muted: u8,
    pub name: Seq<char>,
    pub pos: u16,
    pub steps: u8,
    pub notes: Seq<Note>,
}

impl View for Pattern {
    type V = PatternView;

    open spec fn view(&self) -> PatternView {
        PatternView {
            ty: self.ty,
            muted: self.muted,
            name: self.name@,
            pos: self.pos,
            steps: self.steps,
            notes: self.notes@,
        }
    }
}

/// The note that an element describes, by its attributes `len`, `key`,
/// `vol`, `pan` and `pos`.
#[verifier::opaque]
pub open spec fn note_of(element: NodeView) -> Result<Note, Failure> {
    match element.typed::<u8>("len"@) {
        Err(failure) => Err(failure),
        Ok(len) => match element.typed::<u8>("key"@) {
            Err(failure) => Err(failure),
            Ok(key) => match element.typed::<u8>("vol"@) {
                Err(failure) => Err(failure),
                Ok(vol) => match element.typed::<u8>("pan"@) {
                    Err(failure) => Err(failure),
                    Ok(pan) => match element.typed::<u16>("pos"@) {
                        Err(failure) => Err(failure),
                        Ok(pos) => Ok(Note { len, key, vol, pan, pos }),
                    },
                },
            },
        }
    }
}

/// The notes `notes`, followed by those that the elements from position
/// `from` on describe; the first element that describes none is the error.
pub open spec fn notes_from(children: Seq<NodeView>, from: int, notes: Seq<Note>) -> Result<
    Seq<Note>,
    Failure,
>
    decreases children.len() - from,
{
    if 0 <= from < children.len() {
        match note_of(children[from]) {
            Err(failure) => Err(failure),
            Ok(note) => notes_from(children, from + 1, notes.push(note)),
        }
    } else {
        Ok(notes)
    }
}

/// The pattern that a `pattern` element describes: its attributes `steps`,
/// `type`, `muted`, `name` and `pos`, and one note for each of its children.
pub open spec fn pattern_of(element: NodeView) -> Result<PatternView, Failure> {
    match element.typed::<u8>("steps"@) {
        Err(failure) => Err(failure),
        Ok(steps) => match element.typed::<u8>("type"@) {
            Err(failure) => Err(failure),
            Ok(ty) => match element.typed::<u8>("muted"@) {
                Err(failure) => Err(failure),
                Ok(muted) => match element.typed::<String>("name"@) {
                    Err(failure) => Err(failure),
                    Ok(name) => match element.typed::<u16>("pos"@) {
                        Err(failure) => Err(failure),
                        Ok(pos) => match notes_from(element.children, 0, Seq::empty()) {
                            Err(failure) => Err(failure),
                            Ok(notes) => Ok(PatternView { ty, muted, name, pos, steps, notes }),
                        },
                    },
                },
            },
        },
    }
}

/// The pattern of a pattern file with the root `root`: the root must say
/// that the file holds a pattern, and the first `pattern` element below it
/// describes the pattern.
pub open spec fn pattern_file(root: NodeView) -> Result<PatternView, Failure> {
    match info_of(root) {
        Err(failure) => Err(failure),
        Ok(info) => if info.ty != "pattern"@ {
            Err(Failure::UnexpectedStructure(Structure::ProjectKind))
        } else {
            match root.descendant("pattern".spec_bytes()) {
                None => Err(Failure::TagNotPresent("pattern"@)),
                Some(element) => pattern_of(element),
            }
        },
    }
}

/// The pattern of the pattern file `source`, which is markup.
pub open spec fn plain_pattern(source: Seq<u8>) -> Result<PatternView, PatternFailure> {
    match document(source) {
        Err(failure) => Err(PatternFailure::Xml(failure)),
        Ok(root) => match pattern_file(root) {
            Err(failure) => Err(PatternFailure::Xml(failure)),
            Ok(pattern) => Ok(pattern),
        },
    }
}

/// The pattern of the compressed pattern file `file`.
pub open spec fn packed_pattern(file: Seq<u8>) -> Result<PatternView, PatternFailure> {
    match unpacked(file) {
        None => Err(PatternFailure::IoError),
        Some(source) => plain_pattern(source),
    }
}

/// The pattern of the file `file` whose name has the extension `ext`, or
/// none. `xpt` is markup and `xptz` is compressed, in lower or in upper case.
/// Without an extension the first bytes of the file decide: it is markup
/// where it starts with `<?`.
pub open spec fn loaded_pattern(ext: Option<Seq<char>>, file: Seq<u8>) -> Result<
    PatternView,
    PatternFailure,
> {
    match ext {
        Some(e) => if e == "xpt"@ || e == "XPT"@ {
            plain_pattern(file)
        } else if e == "xptz"@ || e == "XPTZ"@ {
            packed_pattern(file)
        } else {
            Err(PatternFailure::Invalid(BAD_EXTENSION@))
        },
        None => match packing_of(file) {
            Packing::Plain => plain_pattern(file),
            Packing::Packed => packed_pattern(file),
            Packing::Unsupported => Err(PatternFailure::Invalid(UNSUPPORTED@)),
        },
    }
}

/// The result `r` is the one that the specification `s` gives.
pub open spec fn pattern_agrees(
    r: Result<Pattern, Error>,
    s: Result<PatternView, PatternFailure>,
) -> bool {
    match s {
        Ok(pattern) => r matches Ok(p) && p@ == pattern,
        Err(failure) => r matches Err(e) && e@ == failure,
    }
}

/// A compressed pattern file gives the pattern that the markup in it gives.
pub proof fn lemma_packed_is_plain(file: Seq<u8>, source: Seq<u8>)
    requires
        unpacked(file) == Some(source),
    ensures
        packed_pattern(file) == plain_pattern(source),
{
}

impl Note {
    /// Reads the note that an element describes.
    pub fn from_xml(xml: &Node) -> (r: Result<Note, XMLError>)
        ensures
            match note_of(xml@) {
                Ok(note) => r == Ok::<Note, XMLError>(note),
                Err(failure) => r matches Err(e) && e@ == failure,
            },
    {
        reveal(note_of);
        let len = xml.get_attribute::<u8>("len")?;
        let key = xml.get_attribute::<u8>("key")?;
        let vol = xml.get_attribute::<u8>("vol")?;
        let pan = xml.get_attribute::<u8>("pan")?;
        let pos = xml.get_attribute::<u16>("pos")?;
        Ok(Note { len, key, vol, pan, pos })
    }

    /// Reads one note for each of the elements.
    fn all_from(children: &Vec<Node>) -> (r: Result<Vec<Note>, XMLError>)
        ensures
            match notes_from(nodes_view(children@), 0, Seq::empty()) {
                Ok(notes) => r matches Ok(v) && v@ == notes,
                Err(failure) => r matches Err(e) && e@ == failure,
            },
    {
        let ghost all = nodes_view(children@);
        let mut notes: Vec<Note> = Vec::new();
        let mut i: usize = 0;
        while i < children.len()
            invariant
                i <= children@.len(),
                all == nodes_view(children@),
                notes_from(all, 0, Seq::empty()) == notes_from(all, i as int, notes@),
            decreases children@.len() - i,
        {
            assert(all[i as int] == children@[i as int]@);
            match Note::from_xml(&children[i]) {
                Ok(note) => {
                    notes.push(note);
                },
                Err(e) => {
                    return Err(e);
                },
            }
            i = i + 1;
        }
        Ok(notes)
    }
}

impl Pattern {
    /// Reads the file `file`, whose name has the extension `ext`, or none.
    pub fn load(ext: Option<&str>, file: &[u8]) -> (r: Result<Self, Error>)
        ensures
            pattern_agrees(
                r,
                loaded_pattern(
                    match ext {
                        Some(e) => Some(e@),
                        None => None,
                    },
                    file@,
                ),
            ),
    {
        match ext {
            Some(e) => {
                if str_eq(e, "xpt") || str_eq(e, "XPT") {
                    Pattern::load_xpt(file)
                } else if str_eq(e, "xptz") || str_eq(e, "XPTZ") {
                    Pattern::load_xptz(file)
                } else {
                    Err(Error::Invalid(BAD_EXTENSION.to_owned()))
                }
            },
            None => match sniff(file) {
                Packing::Plain => Pattern::load_xpt(file),
                Packing::Packed => Pattern::load_xptz(file),
                Packing::Unsupported => Err(Error::Invalid(UNSUPPORTED.to_owned())),
            },
        }
    }

    /// Reads a pattern file that is markup.
    pub fn load_xpt(file: &[u8]) -> (r: Result<Self, Error>)
        ensures
            pattern_agrees(r, plain_pattern(file@)),
    {
        let root = match build_tree(file) {
            Ok(root) => root,
            Err(e) => {
                return Err(Error::Xml(e));
            },
        };
        match Pattern::parse_xpt(&root) {
            Ok(pattern) => Ok(pattern),
            Err(e) => Err(Error::Xml(e)),
        }
    }

    /// Reads a compressed pattern file.
    pub fn load_xptz(file: &[u8]) -> (r: Result<Self, Error>)
        ensures
            pattern_agrees(r, packed_pattern(file@)),
    {
        match decompress(file) {
            Ok(source) => Pattern::load_xpt(source.as_slice()),
            Err(e) => Err(Error::IoError(e)),
        }
    }

    /// Reads the pattern of a pattern file from the root of its document.
    pub fn parse_xpt(root: &Node) -> (r: Result<Self, XMLError>)
        ensures
            crate::mmp::xml::agrees(r, pattern_file(root@)),
    {
        let project_info = Info::new(root)?;
        if !str_eq(project_info.ty.as_str(), "pattern") {
            return Err(XMLError::UnexpectedStructure(Structure::ProjectKind));
        }
        Pattern::from_xml(root.get_tag("pattern")?)
    }

    /// Reads the pattern that a `pattern` element describes. The element may
    /// come from a pattern file or from a project: nothing around it is
    /// looked at.
    pub fn from_xml(xml: &Node) -> (r: Result<Self, XMLError>)
        ensures
            crate::mmp::xml::agrees(r, pattern_of(xml@)),
    {
        let steps = xml.get_attribute::<u8>("steps")?;
        let ty = xml.get_attribute::<u8>("type")?;
        let muted = xml.get_attribute::<u8>("muted")?;
        let name = xml.get_attribute::<String>("name")?;
        let pos = xml.get_attribute::<u16>("pos")?;
        proof {
            lemma_children_view(*xml);
        }
        let notes = Note::all_from(&xml.children)?;
        Ok(Pattern { ty, muted, name, pos, steps, notes })
    }
}

} // verus!
