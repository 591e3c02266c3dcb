//! Reader for LMMS project (`.mmp`, `.mmpz`) and pattern (`.xpt`, `.xptz`)
//! files: a document tree built from markup events, typed access to its
//! attributes, and the decoders for projects, tracks, instruments and patterns.

pub mod audio;
pub mod format;
pub mod mmp;
pub mod model;
pub mod util;
