//! What the root element says of a file.

use crate::mmp::coerce::Version;
use crate::mmp::text::bytes_eq;
use crate::mmp::xml::{agrees, Failure, Node, NodeView, Structure, XMLError};
use vstd::prelude::*;
use vstd::string::StringSliceAdditionalSpecFns;

verus! {

/// The tag of the root element.
pub const ROOT_TAG: &'static str = "lmms-project";

/// What the root element says of a file: what the file holds (`song` or
/// `pattern`), the program that wrote it, the version of the format and the
/// version of the program.
#[derive(Debug, PartialEq, Eq)]
pub struct Info {
    pub ty: String,
    pub creator: String,
    pub version: usize,
    pub creator_version: String,
}

/// An `Info` as a value of specifications.
pub struct InfoView {
    pub ty: Seq<char>,
    pub creator: Seq<char>,
    pub version: usize,
    pub creator_version: Seq<char>,
}

impl View for Info {
    type V = InfoView;

    open spec fn view(&self) -> InfoView {
        InfoView {
            ty: self.ty@,
            creator: self.creator@,
            version: self.version,
            creator_version: self.creator_version@,
        }
    }
}

/// What the element `root` says of its file. It must be an `lmms-project`
/// with the attributes `type`, `creator`, `version` and `creatorversion`; the
/// first of these that is missing or unreadable is the error.
pub open spec fn info_of(root: NodeView) -> Result<InfoView, Failure> {
    if root.tag != vstd::utf8::encode_utf8(ROOT_TAG@) {
        Err(Failure::UnexpectedStructure(Structure::RootTag))
    } else {
        match root.typed::<String>("type"@) {
            Err(failure) => Err(failure),
            Ok(ty) => match root.typed::<String>("creator"@) {
                Err(failure) => Err(failure),
                Ok(creator) => match root.typed::<Version>("version"@) {
                    Err(failure) => Err(failure),
                    Ok(version) => match root.typed::<String>("creatorversion"@) {
                        Err(failure) => Err(failure),
                        Ok(creator_version) => Ok(
                            InfoView { ty, creator, version, creator_version },
                        ),
                    },
                },
            },
        }
    }
}

impl Info {
    /// Reads what the root element says of its file.
    pub fn new(info: &Node) -> (r: Result<Self, XMLError>)
        ensures
            agrees(r, info_of(info@)),
    {
        if !bytes_eq(info.raw_tag.as_slice(), ROOT_TAG.as_bytes()) {
            return Err(XMLError::UnexpectedStructure(Structure::RootTag));
        }
        let ty = info.get_attribute::<String>("type")?;
        let creator = info.get_attribute::<String>("creator")?;
        let version = info.get_attribute::<Version>("version")?;
        let creator_version = info.get_attribute::<String>("creatorversion")?;
        Ok(Info { ty, creator, version: version.0, creator_version })
    }
}

} // verus!
