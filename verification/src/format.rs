//! Tracks, what a `track` element of a project describes, and the project
//! as its header and its tracks.

use crate::mmp::coerce::Real;
use crate::mmp::instrument::{instrument_of, Instrument, InstrumentView};
use crate::mmp::xml::{agrees, is_named, lemma_children_view, nodes_view};
use crate::mmp::xml::{Failure, Node, NodeView, Structure, XMLError};
use crate::mmp::header::{Header, HeaderView};
use crate::mmp::{loaded_project, plain_project, tracks_view};
use crate::mmp::{MMPParseError, MMPView, ProjectFailure, MMP};
use crate::mmp::{TrackAutomationTrack, TrackBBTrack, TrackSampleTrack};
use vstd::prelude::*;
use vstd::string::StringSliceAdditionalSpecFns;

verus! {

/// What an `instrumenttrack` element describes: the settings of the track's
/// instrument, and the instrument.
#[derive(Debug)]
pub struct InstrumentTrack {
    pub vol: Real,
    pub pan: Real,
    pub first_key: i32,
    pub last_key: i32,
    pub base_note: i32,
    pub instrument: Instrument,
}

/// An `InstrumentTrack` as a value of specifications.
pub struct InstrumentTrackView {
    pub vol: Seq<u8>,
    pub pan: Seq<u8>,
    pub first_key: i32,
    pub last_key: i32,
    pub base_note: i32,
    pub instrument: InstrumentView,
}

impl View for InstrumentTrack {
    type V = InstrumentTrackView;

    open spec fn view(&self) -> InstrumentTrackView {
        InstrumentTrackView {
            vol: self.vol@,
            pan: self.pan@,
            first_key: self.first_key,
            last_key: self.last_key,
            base_note: self.base_note,
            instrument: self.instrument@,
        }
    }
}

/// What an `instrumenttrack` element describes. It must have the attributes
/// `vol`, `pan`, `firstkey`, `lastkey` and `basenote` and, somewhere below
/// it, an `instrument` element.
pub open spec fn payload_of(element: NodeView) -> Result<InstrumentTrackView, Failure> {
    match element.typed::<Real>("vol"@) {
        Err(failure) => Err(failure),
        Ok(vol) => match element.typed::<Real>("pan"@) {
            Err(failure) => Err(failure),
            Ok(pan) => match element.typed::<i32>("firstkey"@) {
                Err(failure) => Err(failure),
                Ok(first_key) => match element.typed::<i32>("lastkey"@) {
                    Err(failure) => Err(failure),
                    Ok(last_key) => match element.typed::<i32>("basenote"@) {
                        Err(failure) => Err(failure),
                        Ok(base_note) => match element.descendant("instrument".spec_bytes()) {
                            None => Err(Failure::TagNotPresent("instrument"@)),
                            Some(plugin) => match instrument_of(plugin) {
                                Err(failure) => Err(failure),
                                Ok(instrument) => Ok(
                                    InstrumentTrackView {
                                        vol,
                                        pan,
                                        first_key,
                                        last_key,
                                        base_note,
                                        instrument,
                                    },
                                ),
                            },
                        },
                    },
                },
            },
        },
    }
}

impl InstrumentTrack {
    /// Reads what an `instrumenttrack` element describes.
    pub fn parse(element: &Node) -> (r: Result<InstrumentTrack, XMLError>)
        ensures
            agrees(r, payload_of(element@)),
    {
        let vol = element.get_attribute::<Real>("vol")?;
        let pan = element.get_attribute::<Real>("pan")?;
        let first_key = element.get_attribute::<i32>("firstkey")?;
        let last_key = element.get_attribute::<i32>("lastkey")?;
        let base_note = element.get_attribute::<i32>("basenote")?;
        let plugin = element.get_tag("instrument")?;
        let instrument = Instrument::new(plugin)?;
        Ok(InstrumentTrack { vol, pan, first_key, last_key, base_note, instrument })
    }
}

/// What a track holds, by its kind. An instrument track holds the data of
/// its instrument where the file gives it.
#[derive(Debug)]
pub enum TrackBody {
    Instrument(Option<InstrumentTrack>),
    Pattern(TrackBBTrack),
    Sample(TrackSampleTrack),
    Unused3,
    Unused4,
    Automation(TrackAutomationTrack),
    HiddenAutomation(TrackAutomationTrack),
}

/// A `TrackBody` as a value of specifications.
pub enum TrackBodyView {
    Instrument(Option<InstrumentTrackView>),
    Pattern,
    Sample,
    Unused3,
    Unused4,
    Automation,
    HiddenAutomation,
}

impl View for TrackBody {
    type V = TrackBodyView;

    open spec fn view(&self) -> TrackBodyView {
        match *self {
            TrackBody::Instrument(Some(payload)) => TrackBodyView::Instrument(Some(payload@)),
            TrackBody::Instrument(None) => TrackBodyView::Instrument(None),
            TrackBody::Pattern(_) => TrackBodyView::Pattern,
            TrackBody::Sample(_) => TrackBodyView::Sample,
            TrackBody::Unused3 => TrackBodyView::Unused3,
            TrackBody::Unused4 => TrackBodyView::Unused4,
            TrackBody::Automation(_) => TrackBodyView::Automation,
            TrackBody::HiddenAutomation(_) => TrackBodyView::HiddenAutomation,
        }
    }
}

/// The kind of track that a code stands for, with nothing in it yet.
pub open spec fn body_of_code(code: int) -> Option<TrackBodyView> {
    if code == 0 {
        Some(TrackBodyView::Instrument(None))
    } else if code == 1 {
        Some(TrackBodyView::Pattern)
    } else if code == 2 {
        Some(TrackBodyView::Sample)
    } else if code == 3 {
        Some(TrackBodyView::Unused3)
    } else if code == 4 {
        Some(TrackBodyView::Unused4)
    } else if code == 5 {
        Some(TrackBodyView::Automation)
    } else if code == 6 {
        Some(TrackBodyView::HiddenAutomation)
    } else {
        None
    }
}

/// The kind of track that a code stands for, with nothing in it yet.
pub fn body_from_code(code: i32) -> (r: Option<TrackBody>)
    ensures
        match body_of_code(code as int) {
            Some(body) => r matches Some(b) && b@ == body,
            None => r is None,
        },
{
    if code == 0 {
        Some(TrackBody::Instrument(None))
    } else if code == 1 {
        Some(TrackBody::Pattern(TrackBBTrack {  }))
    } else if code == 2 {
        Some(TrackBody::Sample(TrackSampleTrack {  }))
    } else if code == 3 {
        Some(TrackBody::Unused3)
    } else if code == 4 {
        Some(TrackBody::Unused4)
    } else if code == 5 {
        Some(TrackBody::Automation(TrackAutomationTrack {  }))
    } else if code == 6 {
        Some(TrackBody::HiddenAutomation(TrackAutomationTrack {  }))
    } else {
        None
    }
}

/// What a track holds after one more child.
///
/// The only child that the format knows is `instrumenttrack`. An instrument
/// track may have one, which gives its data; a second one is an error, and
/// so is one in a track of another kind. Any other child is an error.
#[verifier::opaque]
pub open spec fn with_child(body: TrackBodyView, child: NodeView) -> Result<TrackBodyView, Failure> {
    if child.tag == "instrumenttrack".spec_bytes() {
        match body {
            TrackBodyView::Instrument(None) => match payload_of(child) {
                Err(failure) => Err(failure),
                Ok(payload) => Ok(TrackBodyView::Instrument(Some(payload))),
            },
            TrackBodyView::Instrument(Some(_)) => Err(
                Failure::UnexpectedStructure(Structure::InstrumentCount),
            ),
            _ => Err(Failure::UnexpectedStructure(Structure::MisplacedInstrument)),
        }
    } else {
        Err(Failure::UnexpectedStructure(Structure::ChildTag))
    }
}

/// What a track holds after its children from position `from` on, taken in
/// their order; the first error ends the reading.
pub open spec fn with_children(body: TrackBodyView, children: Seq<NodeView>, from: int) -> Result<
    TrackBodyView,
    Failure,
>
    decreases children.len() - from,
{
    if 0 <= from < children.len() {
        match with_child(body, children[from]) {
            Err(failure) => Err(failure),
            Ok(next) => with_children(next, children, from + 1),
        }
    } else {
        Ok(body)
    }
}

/// One track of a project.
#[derive(Debug)]
pub struct Track {
    pub name: String,
    pub mute: bool,
    pub solo: bool,
    pub body: TrackBody,
}

/// A `Track` as a value of specifications.
pub struct TrackView {
    pub name: Seq<char>,
    pub mute: bool,
    pub solo: bool,
    pub body: TrackBodyView,
}

impl View for Track {
    type V = TrackView;

    open spec fn view(&self) -> TrackView {
        TrackView { name: self.name@, mute: self.mute, solo: self.solo, body: self.body@ }
    }
}

/// The track that a `track` element describes.
///
/// `name`, `solo` and `muted` may be missing: a track is then without a
/// name, not solo and not muted. `type` must be there and be a code from 0
/// to 6. `mutedBeforeSolo` and any other attribute are not read.
pub open spec fn track_of(element: NodeView) -> Result<TrackView, Failure> {
    match element.typed_or::<String>("name"@, Seq::empty()) {
        Err(failure) => Err(failure),
        Ok(name) => match element.typed_or::<bool>("solo"@, false) {
            Err(failure) => Err(failure),
            Ok(solo) => match element.typed_or::<bool>("muted"@, false) {
                Err(failure) => Err(failure),
                Ok(mute) => match element.typed::<i32>("type"@) {
                    Err(failure) => Err(failure),
                    Ok(code) => match body_of_code(code as int) {
                        None => Err(Failure::UnknownDiscriminant(code as int)),
                        Some(empty) => match with_children(empty, element.children, 0) {
                            Err(failure) => Err(failure),
                            Ok(body) => Ok(TrackView { name, mute, solo, body }),
                        },
                    },
                },
            },
        },
    }
}

impl Track {
    /// Takes one more child into what a track holds.
    fn take_child(body: TrackBody, child: &Node) -> (r: Result<TrackBody, XMLError>)
        ensures
            match with_child(body@, child@) {
                Ok(next) => r matches Ok(b) && b@ == next,
                Err(failure) => r matches Err(e) && e@ == failure,
            },
    {
        reveal(with_child);
        if is_named(child.raw_tag.as_slice(), "instrumenttrack") {
            match body {
                TrackBody::Instrument(None) => {
                    let payload = InstrumentTrack::parse(child)?;
                    Ok(TrackBody::Instrument(Some(payload)))
                },
                TrackBody::Instrument(Some(_)) => Err(
                    XMLError::UnexpectedStructure(Structure::InstrumentCount),
                ),
                _ => Err(XMLError::UnexpectedStructure(Structure::MisplacedInstrument)),
            }
        } else {
            Err(XMLError::UnexpectedStructure(Structure::ChildTag))
        }
    }

    /// Takes the children of a track into what it holds.
    fn take_children(empty: TrackBody, children: &Vec<Node>) -> (r: Result<TrackBody, XMLError>)
        ensures
            match with_children(empty@, nodes_view(children@), 0) {
                Ok(next) => r matches Ok(b) && b@ == next,
                Err(failure) => r matches Err(e) && e@ == failure,
            },
    {
        let ghost all = nodes_view(children@);
        let ghost first = empty@;
        let mut body = empty;
        let mut i: usize = 0;
        while i < children.len()
            invariant
                i <= children@.len(),
                all == nodes_view(children@),
                first == empty@,
                with_children(first, all, 0) == with_children(body@, all, i as int),
            decreases children@.len() - i,
        {
            let ghost before = body@;
            assert(all[i as int] == children@[i as int]@);
            assert(with_children(before, all, i as int) == match with_child(before, all[i as int]) {
                Err(failure) => Err(failure),
                Ok(next) => with_children(next, all, i + 1),
            });
            match Track::take_child(body, &children[i]) {
                Ok(next) => {
                    body = next;
                },
                Err(e) => {
                    return Err(e);
                },
            }
            i = i + 1;
        }
        Ok(body)
    }

    /// Reads the track that a `track` element describes.
    pub fn parse(element: &Node) -> (r: Result<Track, XMLError>)
        ensures
            agrees(r, track_of(element@)),
    {
        let name = element.get_attribute_or::<String>("name", String::new())?;
        let solo = element.get_attribute_or::<bool>("solo", false)?;
        let mute = element.get_attribute_or::<bool>("muted", false)?;
        let code = element.get_attribute::<i32>("type")?;
        let empty = match body_from_code(code) {
            Some(body) => body,
            None => {
                return Err(XMLError::UnknownDiscriminant(code));
            },
        };
        proof {
            lemma_children_view(*element);
        }
        let body = Track::take_children(empty, &element.children)?;
        Ok(Track { name, mute, solo, body })
    }
}

/// A project as its header and its tracks.
#[derive(Debug)]
pub struct ProjectFile {
    pub head: Header,
    pub tracks: Vec<Track>,
}

/// A `ProjectFile` as a value of specifications.
pub struct ProjectFileView {
    pub head: HeaderView,
    pub tracks: Seq<TrackView>,
}

impl View for ProjectFile {
    type V = ProjectFileView;

    open spec fn view(&self) -> ProjectFileView {
        ProjectFileView { head: self.head@, tracks: tracks_view(self.tracks@) }
    }
}

/// The header and the tracks of a project, or the error of reading it.
pub open spec fn contents(project: Result<MMPView, ProjectFailure>) -> Result<
    ProjectFileView,
    ProjectFailure,
> {
    match project {
        Ok(p) => Ok(ProjectFileView { head: p.header, tracks: p.song_info }),
        Err(failure) => Err(failure),
    }
}

/// The result `r` is the one that the specification `s` gives.
pub open spec fn file_agrees(
    r: Result<ProjectFile, MMPParseError>,
    s: Result<ProjectFileView, ProjectFailure>,
) -> bool {
    match s {
        Ok(project) => r matches Ok(p) && p@ == project,
        Err(failure) => r matches Err(e) && e@ == failure,
    }
}

impl ProjectFile {
    /// A project with the standard header and no tracks.
    pub fn empty() -> (p: Self)
        ensures
            p@ == (ProjectFileView { head: HeaderView::standard(), tracks: Seq::empty() }),
    {
        let p = ProjectFile { head: Header::default(), tracks: Vec::new() };
        assert(p@.tracks =~= Seq::empty());
        p
    }

    /// The header and the tracks of a project.
    fn of(project: Result<MMP, MMPParseError>) -> (r: Result<Self, MMPParseError>)
        ensures
            match project {
                Ok(p) => r matches Ok(x) && x@ == (ProjectFileView {
                    head: p@.header,
                    tracks: p@.song_info,
                }),
                Err(e) => r matches Err(x) && x@ == e@,
            },
    {
        match project {
            Ok(p) => Ok(ProjectFile { head: p.header, tracks: p.song_info.tracks }),
            Err(e) => Err(e),
        }
    }

    /// Reads a project file, which is markup where it starts with `<?` and
    /// compressed where it does not.
    pub fn load(file: &[u8]) -> (r: Result<Self, MMPParseError>)
        ensures
            file_agrees(r, contents(loaded_project(None, file@))),
    {
        ProjectFile::of(MMP::load(None, file))
    }

    /// Reads a project file that is markup.
    pub fn load_xml(file: &[u8]) -> (r: Result<Self, MMPParseError>)
        ensures
            file_agrees(r, contents(plain_project(file@))),
    {
        ProjectFile::of(MMP::load_mmp(file))
    }
}

} // verus!
