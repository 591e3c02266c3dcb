//! The LMMS project format.

pub mod coerce;
pub mod events;
pub mod header;
pub mod instrument;
pub mod project;
pub mod reader;
pub mod text;
pub mod xml;
pub mod xpt;
pub mod zlib;

use crate::format::{track_of, Track, TrackView};
use crate::mmp::events::{build_tree, document};
use crate::mmp::header::{header_of, Header, HeaderView};
use crate::mmp::project::{info_of, Info, InfoView};
use crate::mmp::text::str_eq;
use crate::mmp::xml::{is_named, lemma_children_view, nodes_view};
use crate::mmp::xml::{Failure, Node, NodeView, Structure, XMLError};
use crate::mmp::xpt::PatternFailure;
use crate::mmp::zlib::{decompress, packing_of, sniff, unpacked, Packing};
use vstd::prelude::*;
use vstd::string::StringSliceAdditionalSpecFns;

verus! {

/// What a beat and bassline track holds. Nothing of it is read.
#[derive(Debug)]
pub struct TrackBBTrack {}

/// What a sample track holds. Nothing of it is read.
#[derive(Debug)]
pub struct TrackSampleTrack {}

/// What an automation track holds. Nothing of it is read.
#[derive(Debug)]
pub struct TrackAutomationTrack {}

/// What can go wrong while a project file is read.
#[derive(Debug)]
pub enum MMPParseError {
    /// The file is of no kind that is read; the text says why.
    Invalid(String),
    /// The document could not be read.
    XML(XMLError),
    /// The compressed stream could not be read.
    IoError(std::io::Error),
    /// A pattern of the project could not be read.
    XPTError(xpt::Error),
}

/// An `MMPParseError` as a value of specifications. Of an error of the
/// compressed stream it keeps only that there was one.
pub enum ProjectFailure {
    Invalid(Seq<char>),
    XML(Failure),
    IoError,
    XPTError(PatternFailure),
}

impl View for MMPParseError {
    type V = ProjectFailure;

    open spec fn view(&self) -> ProjectFailure {
        match *self {
            MMPParseError::Invalid(m) => ProjectFailure::Invalid(m@),
            MMPParseError::XML(e) => ProjectFailure::XML(e@),
            MMPParseError::IoError(_) => ProjectFailure::IoError,
            MMPParseError::XPTError(e) => ProjectFailure::XPTError(e@),
        }
    }
}

/// What is said of a file whose name ends in neither `mmp` nor `mmpz`.
pub const BAD_EXTENSION: &'static str = "Expected extension mmp or mmpz";

/// What is said of a file in the newer format.
pub const UNSUPPORTED: &'static str = "The newer file format is not supported";

/// The song of a project: its tracks, in the order of the file.
#[derive(Debug)]
pub struct SongInfo {
    pub tracks: Vec<Track>,
}

/// Tracks as values of specifications.
pub open spec fn tracks_view(tracks: Seq<Track>) -> Seq<TrackView> {
    Seq::new(tracks.len(), |i: int| tracks[i]@)
}

impl View for SongInfo {
    type V = Seq<TrackView>;

    open spec fn view(&self) -> Seq<TrackView> {
        tracks_view(self.tracks@)
    }
}

/// The track that a child of the track container describes: the child must
/// be a `track` element.
#[verifier::opaque]
pub open spec fn track_child(child: NodeView) -> Result<TrackView, Failure> {
    if child.tag != "track".spec_bytes() {
        Err(Failure::UnexpectedStructure(Structure::ChildTag))
    } else {
        track_of(child)
    }
}

/// The tracks `tracks`, followed by those that the elements from position
/// `from` on describe; the first element that describes none is the error.
pub open spec fn tracks_from(children: Seq<NodeView>, from: int, tracks: Seq<TrackView>) -> Result<
    Seq<TrackView>,
    Failure,
>
    decreases children.len() - from,
{
    if 0 <= from < children.len() {
        match track_child(children[from]) {
            Err(failure) => Err(failure),
            Ok(track) => tracks_from(children, from + 1, tracks.push(track)),
        }
    } else {
        Ok(tracks)
    }
}

/// The tracks of a `song` element: one for each child of the first
/// `trackcontainer` element below it.
pub open spec fn song_of(song: NodeView) -> Result<Seq<TrackView>, Failure> {
    match song.descendant("trackcontainer".spec_bytes()) {
        None => Err(Failure::TagNotPresent("trackcontainer"@)),
        Some(container) => tracks_from(container.children, 0, Seq::empty()),
    }
}

impl SongInfo {
    /// Reads the track that a child of the track container describes.
    fn track(child: &Node) -> (r: Result<Track, XMLError>)
        ensures
            crate::mmp::xml::agrees(r, track_child(child@)),
    {
        reveal(track_child);
        if !is_named(child.raw_tag.as_slice(), "track") {
            return Err(XMLError::UnexpectedStructure(Structure::ChildTag));
        }
        Track::parse(child)
    }

    /// Reads one track for each of the elements.
    fn tracks(children: &Vec<Node>) -> (r: Result<Vec<Track>, XMLError>)
        ensures
            match tracks_from(nodes_view(children@), 0, Seq::empty()) {
                Ok(tracks) => r matches Ok(v) && tracks_view(v@) == tracks,
                Err(failure) => r matches Err(e) && e@ == failure,
            },
    {
        let ghost all = nodes_view(children@);
        let mut tracks: Vec<Track> = Vec::new();
        let mut i: usize = 0;
        assert(tracks_view(tracks@) =~= Seq::empty());
        while i < children.len()
            invariant
                i <= children@.len(),
                all == nodes_view(children@),
                tracks_from(all, 0, Seq::empty()) == tracks_from(
                    all,
                    i as int,
                    tracks_view(tracks@),
                ),
            decreases children@.len() - i,
        {
            assert(all[i as int] == children@[i as int]@);
            let ghost before = tracks_view(tracks@);
            match SongInfo::track(&children[i]) {
                Ok(track) => {
                    tracks.push(track);
                    assert(tracks_view(tracks@) =~= before.push(track@));
                },
                Err(e) => {
                    return Err(e);
                },
            }
            i = i + 1;
        }
        Ok(tracks)
    }

    /// Reads the song that a `song` element describes.
    pub fn new(xml: &Node) -> (r: Result<Self, XMLError>)
        ensures
            crate::mmp::xml::agrees(r, song_of(xml@)),
    {
        let container = xml.get_tag("trackcontainer")?;
        proof {
            lemma_children_view(*container);
        }
        let tracks = SongInfo::tracks(&container.children)?;
        Ok(SongInfo { tracks })
    }
}

/// A project: what its root says of the file, its header and its song.
#[derive(Debug)]
pub struct MMP {
    pub project_info: Info,
    pub header: Header,
    pub song_info: SongInfo,
}

/// An `MMP` as a value of specifications.
pub struct MMPView {
    pub project_info: InfoView,
    pub header: HeaderView,
    pub song_info: Seq<TrackView>,
}

impl View for MMP {
    type V = MMPView;

    open spec fn view(&self) -> MMPView {
        MMPView {
            project_info: self.project_info@,
            header: self.header@,
            song_info: self.song_info@,
        }
    }
}

/// The header of the project with the root `root`: what its first `head`
/// element describes, and the standard header where there is none.
pub open spec fn project_header(root: NodeView) -> Result<HeaderView, Failure> {
    match root.descendant("head".spec_bytes()) {
        None => Ok(HeaderView::standard()),
        Some(head) => header_of(head),
    }
}

/// The project of a project file with the root `root`: the root must say
/// that the file holds a song, and the first `song` element below it must
/// be there.
pub open spec fn project_of(root: NodeView) -> Result<MMPView, Failure> {
    match info_of(root) {
        Err(failure) => Err(failure),
        Ok(project_info) => if project_info.ty != "song"@ {
            Err(Failure::UnexpectedStructure(Structure::ProjectKind))
        } else {
            match project_header(root) {
                Err(failure) => Err(failure),
                Ok(header) => match root.descendant("song".spec_bytes()) {
                    None => Err(Failure::TagNotPresent("song"@)),
                    Some(song) => match song_of(song) {
                        Err(failure) => Err(failure),
                        Ok(song_info) => Ok(MMPView { project_info, header, song_info }),
                    },
                },
            }
        },
    }
}

/// The project of the project file `source`, which is markup.
pub open spec fn plain_project(source: Seq<u8>) -> Result<MMPView, ProjectFailure> {
    match document(source) {
        Err(failure) => Err(ProjectFailure::XML(failure)),
        Ok(root) => match project_of(root) {
            Err(failure) => Err(ProjectFailure::XML(failure)),
            Ok(project) => Ok(project),
        },
    }
}

/// The project of the compressed project file `file`.
pub open spec fn packed_project(file: Seq<u8>) -> Result<MMPView, ProjectFailure> {
    match unpacked(file) {
        None => Err(ProjectFailure::IoError),
        Some(source) => plain_project(source),
    }
}

/// The project of the file `file` whose name has the extension `ext`, or
/// none. `mmp` is markup and `mmpz` is compressed, in lower or in upper case.
/// Without an extension the first bytes of the file decide: it is markup
/// where it starts with `<?`.
pub open spec fn loaded_project(ext: Option<Seq<char>>, file: Seq<u8>) -> Result<
    MMPView,
    ProjectFailure,
> {
    match ext {
        Some(e) => if e == "mmp"@ || e == "MMP"@ {
            plain_project(file)
        } else if e == "mmpz"@ || e == "MMPZ"@ {
            packed_project(file)
        } else {
            Err(ProjectFailure::Invalid(BAD_EXTENSION@))
        },
        None => match packing_of(file) {
            Packing::Plain => plain_project(file),
            Packing::Packed => packed_project(file),
            Packing::Unsupported => Err(ProjectFailure::Invalid(UNSUPPORTED@)),
        },
    }
}

/// The result `r` is the one that the specification `s` gives.
pub open spec fn project_agrees(
    r: Result<MMP, MMPParseError>,
    s: Result<MMPView, ProjectFailure>,
) -> bool {
    match s {
        Ok(project) => r matches Ok(p) && p@ == project,
        Err(failure) => r matches Err(e) && e@ == failure,
    }
}

/// A compressed project file gives the project that the markup in it gives.
pub proof fn lemma_packed_is_plain(file: Seq<u8>, source: Seq<u8>)
    requires
        unpacked(file) == Some(source),
    ensures
        packed_project(file) == plain_project(source),
{
}

/// A file that says that it holds a pattern is no project: reading it as
/// one fails by the document's shape.
pub proof fn lemma_pattern_is_no_project(root: NodeView)
    requires
        info_of(root) matches Ok(info) && info.ty == "pattern"@,
    ensures
        project_of(root) == Err::<MMPView, Failure>(
            Failure::UnexpectedStructure(Structure::ProjectKind),
        ),
{
    reveal_strlit("pattern");
    reveal_strlit("song");
    assert("pattern"@.len() != "song"@.len());
}

/// A file that says that it holds a song is no pattern file: reading it as
/// one fails by the document's shape.
pub proof fn lemma_song_is_no_pattern(root: NodeView)
    requires
        info_of(root) matches Ok(info) && info.ty == "song"@,
    ensures
        xpt::pattern_file(root) == Err::<xpt::PatternView, Failure>(
            Failure::UnexpectedStructure(Structure::ProjectKind),
        ),
{
    reveal_strlit("pattern");
    reveal_strlit("song");
    assert("pattern"@.len() != "song"@.len());
}

impl MMP {
    /// Reads the file `file`, whose name has the extension `ext`, or none.
    pub fn load(ext: Option<&str>, file: &[u8]) -> (r: Result<Self, MMPParseError>)
        ensures
            project_agrees(
                r,
                loaded_project(
                    match ext {
                        Some(e) => Some(e@),
                        None => None,
                    },
                    file@,
                ),
            ),
    {
        match ext {
            Some(e) => {
                if str_eq(e, "mmp") || str_eq(e, "MMP") {
                    MMP::load_mmp(file)
                } else if str_eq(e, "mmpz") || str_eq(e, "MMPZ") {
                    MMP::load_mmpz(file)
                } else {
                    Err(MMPParseError::Invalid(BAD_EXTENSION.to_owned()))
                }
            },
            None => match sniff(file) {
                Packing::Plain => MMP::load_mmp(file),
                Packing::Packed => MMP::load_mmpz(file),
                Packing::Unsupported => Err(MMPParseError::Invalid(UNSUPPORTED.to_owned())),
            },
        }
    }

    /// Reads a project file that is markup.
    pub fn load_mmp(file: &[u8]) -> (r: Result<Self, MMPParseError>)
        ensures
            project_agrees(r, plain_project(file@)),
    {
        let root = match build_tree(file) {
            Ok(root) => root,
            Err(e) => {
                return Err(MMPParseError::XML(e));
            },
        };
        match MMP::parse_mmp(&root) {
            Ok(project) => Ok(project),
            Err(e) => Err(MMPParseError::XML(e)),
        }
    }

    /// Reads a compressed project file.
    pub fn load_mmpz(file: &[u8]) -> (r: Result<Self, MMPParseError>)
        ensures
            project_agrees(r, packed_project(file@)),
    {
        match decompress(file) {
            Ok(source) => MMP::load_mmp(source.as_slice()),
            Err(e) => Err(MMPParseError::IoError(e)),
        }
    }

    /// Reads the project of a project file from the root of its document.
    pub fn parse_mmp(root: &Node) -> (r: Result<Self, XMLError>)
        ensures
            crate::mmp::xml::agrees(r, project_of(root@)),
    {
        let project_info = Info::new(root)?;
        if !str_eq(project_info.ty.as_str(), "song") {
            return Err(XMLError::UnexpectedStructure(Structure::ProjectKind));
        }
        let header = match root.get_tag("head") {
            Ok(head) => Header::new(head)?,
            Err(_) => Header::default(),
        };
        let song_info = SongInfo::new(root.get_tag("song")?)?;
        Ok(MMP { project_info, header, song_info })
    }
}

} // verus!
