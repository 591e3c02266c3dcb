//! Instruments, and what their decoders share: the wave forms and the names
//! of oscillator parameters, which end in the index of an oscillator.

pub mod organic;
pub mod tripleoscillator;

use crate::mmp::instrument::organic::{Organic, OrganicView, OrganicVisitor};
use crate::mmp::instrument::tripleoscillator::{TripleOscillator, TripleOscillatorVisitor};
use crate::mmp::instrument::tripleoscillator::TripleOscillatorView;
use crate::mmp::text::{is_digit, DIGIT_0, DIGIT_9};
use crate::mmp::xml::{agrees, is_named, read_as, read_value};
use crate::mmp::xml::{Failure, Node, NodeView, Structure, XMLError};
use vstd::prelude::*;
use vstd::string::StringSliceAdditionalSpecFns;

verus! {

/// The wave form of an oscillator. It is `Uninit` until a parameter sets it.
#[derive(Clone, Debug)]
pub enum WaveType {
    Uninit,
    SineWave,
    TriangleWave,
    SawWave,
    SquareWave,
    MoogSawWave,
    ExponentialWave,
    WhiteNoise,
    /// A wave form read from the file at this path.
    UserDefinedWave(String),
}

/// A `WaveType` as a value of specifications.
pub enum WaveView {
    Uninit,
    SineWave,
    TriangleWave,
    SawWave,
    SquareWave,
    MoogSawWave,
    ExponentialWave,
    WhiteNoise,
    UserDefinedWave(Seq<char>),
}

impl View for WaveType {
    type V = WaveView;

    open spec fn view(&self) -> WaveView {
        match *self {
            WaveType::Uninit => WaveView::Uninit,
            WaveType::SineWave => WaveView::SineWave,
            WaveType::TriangleWave => WaveView::TriangleWave,
            WaveType::SawWave => WaveView::SawWave,
            WaveType::SquareWave => WaveView::SquareWave,
            WaveType::MoogSawWave => WaveView::MoogSawWave,
            WaveType::ExponentialWave => WaveView::ExponentialWave,
            WaveType::WhiteNoise => WaveView::WhiteNoise,
            WaveType::UserDefinedWave(path) => WaveView::UserDefinedWave(path@),
        }
    }
}

impl Default for WaveType {
    fn default() -> (w: Self)
        ensures
            w@ == WaveView::Uninit,
    {
        WaveType::Uninit
    }
}

/// The path of a user-defined wave form whose file is not known yet.
pub const UNSET_PATH: &'static str = "<uninit>";

/// The wave form that a code stands for.
pub open spec fn wave_of_code(code: int) -> Option<WaveView> {
    if code == 0 {
        Some(WaveView::SineWave)
    } else if code == 1 {
        Some(WaveView::TriangleWave)
    } else if code == 2 {
        Some(WaveView::SawWave)
    } else if code == 3 {
        Some(WaveView::SquareWave)
    } else if code == 4 {
        Some(WaveView::MoogSawWave)
    } else if code == 5 {
        Some(WaveView::ExponentialWave)
    } else if code == 6 {
        Some(WaveView::WhiteNoise)
    } else if code == 7 {
        Some(WaveView::UserDefinedWave(UNSET_PATH@))
    } else {
        None
    }
}

/// The wave form that a code stands for.
pub fn wave_from_code(code: i32) -> (r: Option<WaveType>)
    ensures
        match wave_of_code(code as int) {
            Some(wave) => r matches Some(w) && w@ == wave,
            None => r is None,
        },
{
    if code == 0 {
        Some(WaveType::SineWave)
    } else if code == 1 {
        Some(WaveType::TriangleWave)
    } else if code == 2 {
        Some(WaveType::SawWave)
    } else if code == 3 {
        Some(WaveType::SquareWave)
    } else if code == 4 {
        Some(WaveType::MoogSawWave)
    } else if code == 5 {
        Some(WaveType::ExponentialWave)
    } else if code == 6 {
        Some(WaveType::WhiteNoise)
    } else if code == 7 {
        Some(WaveType::UserDefinedWave(UNSET_PATH.to_owned()))
    } else {
        None
    }
}

/// What the parameter `wavetype` with the value `raw` makes of a wave form:
/// the wave form of the code where none is set yet, and no change, written
/// `None`, where one is. The first `wavetype` of an oscillator decides.
pub open spec fn wave_by_code(current: WaveView, label: Seq<char>, raw: Seq<u8>) -> Result<
    Option<WaveView>,
    Failure,
> {
    if current is Uninit {
        match read_as::<i32>(label, raw) {
            Err(failure) => Err(failure),
            Ok(code) => match wave_of_code(code as int) {
                Some(wave) => Ok(Some(wave)),
                None => Err(Failure::UnknownDiscriminant(code as int)),
            },
        }
    } else {
        Ok(None)
    }
}

/// What the parameter `userwavefile` with the value `raw` makes of a wave
/// form. A user-defined wave form gets the path. One that is not set yet
/// becomes user-defined where the path is not empty. Any other stays, and
/// the value is not read.
pub open spec fn wave_by_file(current: WaveView, label: Seq<char>, raw: Seq<u8>) -> Result<
    Option<WaveView>,
    Failure,
> {
    if current is UserDefinedWave || current is Uninit {
        match read_as::<String>(label, raw) {
            Err(failure) => Err(failure),
            Ok(path) => if current is Uninit && path.len() == 0 {
                Ok(None)
            } else {
                Ok(Some(WaveView::UserDefinedWave(path)))
            },
        }
    } else {
        Ok(None)
    }
}

/// The result `r` is the change of wave form that the specification `s`
/// gives.
pub open spec fn wave_agrees(
    r: Result<Option<WaveType>, XMLError>,
    s: Result<Option<WaveView>, Failure>,
) -> bool {
    match s {
        Ok(Some(wave)) => r matches Ok(Some(w)) && w@ == wave,
        Ok(None) => r matches Ok(None),
        Err(failure) => r matches Err(e) && e@ == failure,
    }
}

/// The change that the parameter `wavetype` makes to a wave form.
pub fn read_wave_code(current: &WaveType, label: &str, raw: &[u8]) -> (r: Result<
    Option<WaveType>,
    XMLError,
>)
    ensures
        wave_agrees(r, wave_by_code(current@, label@, raw@)),
{
    match current {
        WaveType::Uninit => {
            let code = read_value::<i32>(label, raw)?;
            match wave_from_code(code) {
                Some(wave) => Ok(Some(wave)),
                None => Err(XMLError::UnknownDiscriminant(code)),
            }
        },
        _ => Ok(None),
    }
}

/// The change that the parameter `userwavefile` makes to a wave form.
pub fn read_wave_file(current: &WaveType, label: &str, raw: &[u8]) -> (r: Result<
    Option<WaveType>,
    XMLError,
>)
    ensures
        wave_agrees(r, wave_by_file(current@, label@, raw@)),
{
    match current {
        WaveType::UserDefinedWave(_) => {
            let path = read_value::<String>(label, raw)?;
            Ok(Some(WaveType::UserDefinedWave(path)))
        },
        WaveType::Uninit => {
            let path = read_value::<String>(label, raw)?;
            if path.as_str().is_empty() {
                Ok(None)
            } else {
                Ok(Some(WaveType::UserDefinedWave(path)))
            }
        },
        _ => Ok(None),
    }
}

/// The index that the name of a parameter ends in: its last character,
/// where that is a digit.
pub open spec fn parameter_index(name: Seq<u8>) -> Option<int> {
    if name.len() > 0 && is_digit(name.last()) {
        Some(name.last() - DIGIT_0)
    } else {
        None
    }
}

/// The name of a parameter without the index that it ends in, and the index.
pub fn split_parameter(name: &[u8]) -> (r: Option<(&[u8], usize)>)
    ensures
        match parameter_index(name@) {
            Some(index) => r matches Some((base, i)) && base@ == name@.drop_last() && i == index,
            None => r is None,
        },
{
    let n = name.len();
    if n > 0 && name[n - 1] >= DIGIT_0 && name[n - 1] <= DIGIT_9 {
        let base = vstd::slice::slice_subrange(name, 0, n - 1);
        assert(base@ =~= name@.drop_last());
        Some((base, (name[n - 1] - DIGIT_0) as usize))
    } else {
        None
    }
}

/// The name of a parameter that stands for the whole instrument and ends in
/// no index: `key` or `num_osc`.
pub open spec fn is_global(name: Seq<u8>) -> bool {
    name == "key".spec_bytes() || name == "num_osc".spec_bytes()
}

/// The name is `key` or `num_osc`.
pub fn check_global(name: &[u8]) -> (r: bool)
    ensures
        r == is_global(name@),
{
    is_named(name, "key") || is_named(name, "num_osc")
}

/// An instrument of one of the kinds that this library reads.
#[derive(Debug)]
#[allow(inconsistent_fields)]
pub enum Instrument {
    Organic { inner: Organic },
    TripleOscillator { inner: TripleOscillator },
}

/// An `Instrument` as a value of specifications.
#[allow(inconsistent_fields)]
pub enum InstrumentView {
    Organic { inner: OrganicView },
    TripleOscillator { inner: TripleOscillatorView },
}

impl View for Instrument {
    type V = InstrumentView;

    open spec fn view(&self) -> InstrumentView {
        match *self {
            Instrument::Organic { inner } => InstrumentView::Organic { inner: inner@ },
            Instrument::TripleOscillator { inner } => InstrumentView::TripleOscillator {
                inner: inner@,
            },
        }
    }
}

/// The instrument that an `instrument` element describes. Its attribute
/// `name` says the kind, and the first descendant with that kind as its tag
/// holds the parameters.
pub open spec fn instrument_of(element: NodeView) -> Result<InstrumentView, Failure> {
    match element.typed::<String>("name"@) {
        Err(failure) => Err(failure),
        Ok(kind) => if kind == "tripleoscillator"@ {
            match element.descendant("tripleoscillator".spec_bytes()) {
                None => Err(Failure::TagNotPresent("tripleoscillator"@)),
                Some(plugin) => match tripleoscillator::bank_of(plugin.attributes) {
                    Err(failure) => Err(failure),
                    Ok(inner) => Ok(InstrumentView::TripleOscillator { inner }),
                },
            }
        } else if kind == "organic"@ {
            match element.descendant("organic".spec_bytes()) {
                None => Err(Failure::TagNotPresent("organic"@)),
                Some(plugin) => match organic::organ_of(plugin.attributes) {
                    Err(failure) => Err(failure),
                    Ok(inner) => Ok(InstrumentView::Organic { inner }),
                },
            }
        } else {
            Err(Failure::UnexpectedStructure(Structure::InstrumentKind))
        },
    }
}

impl Instrument {
    /// Reads the instrument that an `instrument` element describes.
    pub fn new(element: &Node) -> (r: Result<Instrument, XMLError>)
        ensures
            agrees(r, instrument_of(element@)),
    {
        let kind = element.get_attribute::<String>("name")?;
        if crate::mmp::text::str_eq(kind.as_str(), "tripleoscillator") {
            let plugin = element.get_tag("tripleoscillator")?;
            let inner = TripleOscillatorVisitor.visit_map(&plugin.attributes)?;
            Ok(Instrument::TripleOscillator { inner })
        } else if crate::mmp::text::str_eq(kind.as_str(), "organic") {
            let plugin = element.get_tag("organic")?;
            let inner = OrganicVisitor.visit_map(&plugin.attributes)?;
            Ok(Instrument::Organic { inner })
        } else {
            Err(XMLError::UnexpectedStructure(Structure::InstrumentKind))
        }
    }
}

} // verus!
