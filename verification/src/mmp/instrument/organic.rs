//! The organic instrument: eight oscillators, each described by parameters
//! whose names end in the oscillator's index, and two parameters of the
//! instrument itself.

use crate::mmp::coerce::Real;
use crate::mmp::instrument::{check_global, is_global, parameter_index, split_parameter};
use crate::mmp::instrument::{read_wave_code, wave_by_code, WaveType, WaveView};
use crate::mmp::text::decimal_text;
use crate::mmp::xml::{agrees, attributes_view, from_utf8_lossy, is_named, lossy_text};
use crate::mmp::xml::{read_as, read_value, Failure, XMLError};
use vstd::prelude::*;
use vstd::string::StringSliceAdditionalSpecFns;

verus! {

/// One oscillator of the eight.
#[derive(Debug)]
pub struct Oscillator {
    pub vol: Real,
    pub pan: Real,
    pub harmonic: i32,
    pub detune: Real,
    pub wave_type: WaveType,
}

/// An `Oscillator` as a value of specifications; a real number is the text
/// of its literal.
pub struct OscillatorView {
    pub vol: Seq<u8>,
    pub pan: Seq<u8>,
    pub harmonic: i32,
    pub detune: Seq<u8>,
    pub wave_type: WaveView,
}

impl View for Oscillator {
    type V = OscillatorView;

    open spec fn view(&self) -> OscillatorView {
        OscillatorView {
            vol: self.vol@,
            pan: self.pan@,
            harmonic: self.harmonic,
            detune: self.detune@,
            wave_type: self.wave_type@,
        }
    }
}

impl OscillatorView {
    /// An oscillator of which nothing is set.
    pub open spec fn unset() -> OscillatorView {
        OscillatorView {
            vol: decimal_text(0),
            pan: decimal_text(0),
            harmonic: 0,
            detune: decimal_text(0),
            wave_type: WaveView::Uninit,
        }
    }
}

impl Default for Oscillator {
    fn default() -> (o: Self)
        ensures
            o@ == OscillatorView::unset(),
    {
        Oscillator {
            vol: Real::from_integer(0),
            pan: Real::from_integer(0),
            harmonic: 0,
            detune: Real::from_integer(0),
            wave_type: WaveType::Uninit,
        }
    }
}

/// The organic instrument: its volume, its foldback and its oscillators.
#[derive(Debug)]
pub struct Organic {
    pub vol: Real,
    pub foldback: Real,
    pub oscillators: [Oscillator; 8],
}

/// An `Organic` as a value of specifications.
pub struct OrganicView {
    pub vol: Seq<u8>,
    pub foldback: Seq<u8>,
    pub oscillators: Seq<OscillatorView>,
}

impl View for Organic {
    type V = OrganicView;

    open spec fn view(&self) -> OrganicView {
        OrganicView {
            vol: self.vol@,
            foldback: self.foldback@,
            oscillators: Seq::new(8, |i: int| self.oscillators@[i]@),
        }
    }
}

impl OrganicView {
    /// An instrument of which nothing is set.
    pub open spec fn unset() -> OrganicView {
        OrganicView {
            vol: decimal_text(0),
            foldback: decimal_text(0),
            oscillators: Seq::new(8, |i: int| OscillatorView::unset()),
        }
    }
}

impl Default for Organic {
    fn default() -> (o: Self)
        ensures
            o@ == OrganicView::unset(),
    {
        let o = Organic {
            vol: Real::from_integer(0),
            foldback: Real::from_integer(0),
            oscillators: [
                Oscillator::default(),
                Oscillator::default(),
                Oscillator::default(),
                Oscillator::default(),
                Oscillator::default(),
                Oscillator::default(),
                Oscillator::default(),
                Oscillator::default(),
            ],
        };
        assert(o@.oscillators =~= OrganicView::unset().oscillators);
        o
    }
}

/// The instrument after the parameter `name` with the value `raw`.
///
/// `key` and `num_osc` change nothing; `vol` and `foldback` set the
/// instrument's own fields. Any other name ends in the index of an
/// oscillator, which must be one of the eight, and what stands before the
/// index says which field the value sets.
pub open spec fn after_parameter(organ: OrganicView, name: Seq<u8>, raw: Seq<u8>) -> Result<
    OrganicView,
    Failure,
> {
    let label = lossy_text(name);
    if is_global(name) {
        Ok(organ)
    } else if name == "vol".spec_bytes() {
        match read_as::<Real>(label, raw) {
            Err(failure) => Err(failure),
            Ok(v) => Ok(OrganicView { vol: v, ..organ }),
        }
    } else if name == "foldback".spec_bytes() {
        match read_as::<Real>(label, raw) {
            Err(failure) => Err(failure),
            Ok(v) => Ok(OrganicView { foldback: v, ..organ }),
        }
    } else {
        match parameter_index(name) {
            None => Err(Failure::InvalidParameterIndex(label)),
            Some(index) => if index >= organ.oscillators.len() {
                Err(Failure::InvalidParameterIndex(label))
            } else {
                match set_field(organ.oscillators, name.drop_last(), index, label, raw) {
                    Err(failure) => Err(failure),
                    Ok(oscillators) => Ok(OrganicView { oscillators, ..organ }),
                }
            },
        }
    }
}

/// The oscillators after the value `raw` is given to the field called
/// `base` of the oscillator `index`, which is one of the bank.
pub open spec fn set_field(
    bank: Seq<OscillatorView>,
    base: Seq<u8>,
    index: int,
    label: Seq<char>,
    raw: Seq<u8>,
) -> Result<Seq<OscillatorView>, Failure> {
    let slot = bank[index];
    if base == "vol".spec_bytes() {
        match read_as::<Real>(label, raw) {
            Err(failure) => Err(failure),
            Ok(v) => Ok(bank.update(index, OscillatorView { vol: v, ..slot })),
        }
    } else if base == "pan".spec_bytes() {
        match read_as::<Real>(label, raw) {
            Err(failure) => Err(failure),
            Ok(v) => Ok(bank.update(index, OscillatorView { pan: v, ..slot })),
        }
    } else if base == "newharmonic".spec_bytes() {
        match read_as::<i32>(label, raw) {
            Err(failure) => Err(failure),
            Ok(v) => Ok(bank.update(index, OscillatorView { harmonic: v, ..slot })),
        }
    } else if base == "newdetune".spec_bytes() {
        match read_as::<Real>(label, raw) {
            Err(failure) => Err(failure),
            Ok(v) => Ok(bank.update(index, OscillatorView { detune: v, ..slot })),
        }
    } else if base == "wavetype".spec_bytes() {
        match wave_by_code(slot.wave_type, label, raw) {
            Err(failure) => Err(failure),
            Ok(None) => Ok(bank),
            Ok(Some(wave)) => Ok(bank.update(index, OscillatorView { wave_type: wave, ..slot })),
        }
    } else {
        Err(Failure::UnknownParameterName(label))
    }
}

/// The instrument after the parameters from position `from` on, taken in
/// their order; the first error ends the reading.
pub open spec fn after_parameters(
    organ: OrganicView,
    parameters: Seq<(Seq<u8>, Seq<u8>)>,
    from: int,
) -> Result<OrganicView, Failure>
    decreases parameters.len() - from,
{
    if 0 <= from < parameters.len() {
        match after_parameter(organ, parameters[from].0, parameters[from].1) {
            Err(failure) => Err(failure),
            Ok(next) => after_parameters(next, parameters, from + 1),
        }
    } else {
        Ok(organ)
    }
}

/// The organic instrument that a list of parameters describes.
pub open spec fn organ_of(parameters: Seq<(Seq<u8>, Seq<u8>)>) -> Result<OrganicView, Failure> {
    after_parameters(OrganicView::unset(), parameters, 0)
}

/// Reads an organic instrument from its parameters.
pub struct OrganicVisitor;

impl OrganicVisitor {
    /// Gives the value `raw` to the field called `base` of the oscillator
    /// `index`.
    fn set_field(&self, result: &mut Organic, base: &[u8], index: usize, label: &str, raw: &[u8]) -> (r:
        Result<(), XMLError>)
        requires
            index < 8,
        ensures
            match set_field(old(result)@.oscillators, base@, index as int, label@, raw@) {
                Ok(bank) => r is Ok && final(result)@ == (OrganicView {
                    oscillators: bank,
                    ..old(result)@
                }),
                Err(failure) => r matches Err(e) && e@ == failure,
            },
    {
        let ghost before = result@;
        if is_named(base, "vol") {
            let v = read_value::<Real>(label, raw)?;
            result.oscillators[index].vol = v;
        } else if is_named(base, "pan") {
            let v = read_value::<Real>(label, raw)?;
            result.oscillators[index].pan = v;
        } else if is_named(base, "newharmonic") {
            let v = read_value::<i32>(label, raw)?;
            result.oscillators[index].harmonic = v;
        } else if is_named(base, "newdetune") {
            let v = read_value::<Real>(label, raw)?;
            result.oscillators[index].detune = v;
        } else if is_named(base, "wavetype") {
            match read_wave_code(&result.oscillators[index].wave_type, label, raw)? {
                Some(wave) => {
                    result.oscillators[index].wave_type = wave;
                },
                None => {},
            }
        } else {
            return Err(XMLError::UnknownParameterName(label.to_owned()));
        }
        assert(result@.oscillators =~= set_field(
            before.oscillators,
            base@,
            index as int,
            label@,
            raw@,
        )->Ok_0);
        Ok(())
    }

    /// Reads the organic instrument that a list of parameters describes:
    /// the attributes of an `organic` element, in the order in which they
    /// were written.
    pub fn visit_map(&self, map: &Vec<(Vec<u8>, Vec<u8>)>) -> (r: Result<Organic, XMLError>)
        ensures
            agrees(r, organ_of(attributes_view(map@))),
    {
        let ghost parameters = attributes_view(map@);
        let mut result = Organic::default();
        let mut i: usize = 0;
        while i < map.len()
            invariant
                i <= map@.len(),
                parameters == attributes_view(map@),
                organ_of(parameters) == after_parameters(result@, parameters, i as int),
            decreases map@.len() - i,
        {
            let name = map[i].0.as_slice();
            let raw = map[i].1.as_slice();
            if !check_global(name) {
                let label = from_utf8_lossy(name);
                if is_named(name, "vol") {
                    let v = read_value::<Real>(label.as_str(), raw)?;
                    result.vol = v;
                } else if is_named(name, "foldback") {
                    let v = read_value::<Real>(label.as_str(), raw)?;
                    result.foldback = v;
                } else {
                    match split_parameter(name) {
                        None => {
                            return Err(XMLError::InvalidParameterIndex(label));
                        },
                        Some((base, index)) => {
                            if index >= 8 {
                                return Err(XMLError::InvalidParameterIndex(label));
                            }
                            self.set_field(&mut result, base, index, label.as_str(), raw)?;
                        },
                    }
                }
            }
            i = i + 1;
        }
        Ok(result)
    }
}

} // verus!
