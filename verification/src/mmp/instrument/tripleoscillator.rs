//! The triple oscillator: three oscillators, each described by parameters
//! whose names end in the oscillator's index.

use crate::mmp::coerce::Real;
use crate::mmp::instrument::{check_global, is_global, parameter_index, split_parameter};
use crate::mmp::instrument::{read_wave_code, read_wave_file, wave_by_code, wave_by_file};
use crate::mmp::instrument::{WaveType, WaveView};
use crate::mmp::text::decimal_text;
use crate::mmp::xml::{agrees, attributes_view, from_utf8_lossy, is_named, lossy_text};
use crate::mmp::xml::{read_as, read_value, Failure, XMLError};
use crate::util::Stereo;
use vstd::prelude::*;
use vstd::string::StringSliceAdditionalSpecFns;

verus! {

/// How an oscillator acts on the one behind it.
#[derive(Clone, Copy, Debug, PartialEq, Eq, Structural)]
pub enum ModulationAlgo {
    PhaseModulation,
    AmplitudeModulation,
    SignalMix,
    SynchronizedBySubOsc,
    FrequencyModulation,
}

impl Default for ModulationAlgo {
    fn default() -> (algo: Self)
        ensures
            algo == ModulationAlgo::SignalMix,
    {
        ModulationAlgo::SignalMix
    }
}

/// The modulation that a code stands for.
pub open spec fn algo_of_code(code: int) -> Option<ModulationAlgo> {
    if code == 0 {
        Some(ModulationAlgo::PhaseModulation)
    } else if code == 1 {
        Some(ModulationAlgo::AmplitudeModulation)
    } else if code == 2 {
        Some(ModulationAlgo::SignalMix)
    } else if code == 3 {
        Some(ModulationAlgo::SynchronizedBySubOsc)
    } else if code == 4 {
        Some(ModulationAlgo::FrequencyModulation)
    } else {
        None
    }
}

/// The modulation that a code stands for.
pub fn algo_from_code(code: i32) -> (r: Option<ModulationAlgo>)
    ensures
        r == algo_of_code(code as int),
{
    if code == 0 {
        Some(ModulationAlgo::PhaseModulation)
    } else if code == 1 {
        Some(ModulationAlgo::AmplitudeModulation)
    } else if code == 2 {
        Some(ModulationAlgo::SignalMix)
    } else if code == 3 {
        Some(ModulationAlgo::SynchronizedBySubOsc)
    } else if code == 4 {
        Some(ModulationAlgo::FrequencyModulation)
    } else {
        None
    }
}

/// One oscillator of the three.
#[derive(Clone, Debug)]
pub struct Oscillator {
    pub vol: Real,
    pub pan: Real,
    pub coarse: i32,
    pub fine: Stereo<Real>,
    pub ph_off: Real,
    pub st_ph_detune: Real,
    pub wave_type: WaveType,
    pub use_wave_table: bool,
    pub mod_algo: ModulationAlgo,
}

/// An `Oscillator` as a value of specifications; a real number is the text
/// of its literal.
pub struct OscillatorView {
    pub vol: Seq<u8>,
    pub pan: Seq<u8>,
    pub coarse: i32,
    pub fine: Stereo<Seq<u8>>,
    pub ph_off: Seq<u8>,
    pub st_ph_detune: Seq<u8>,
    pub wave_type: WaveView,
    pub use_wave_table: bool,
    pub mod_algo: ModulationAlgo,
}

impl View for Oscillator {
    type V = OscillatorView;

    open spec fn view(&self) -> OscillatorView {
        OscillatorView {
            vol: self.vol@,
            pan: self.pan@,
            coarse: self.coarse,
            fine: Stereo { l: self.fine.l@, r: self.fine.r@ },
            ph_off: self.ph_off@,
            st_ph_detune: self.st_ph_detune@,
            wave_type: self.wave_type@,
            use_wave_table: self.use_wave_table,
            mod_algo: self.mod_algo,
        }
    }
}

impl OscillatorView {
    /// An oscillator of which nothing is set: every number is 0, the wave
    /// form is not set, and the modulation mixes the signals.
    pub open spec fn unset() -> OscillatorView {
        OscillatorView {
            vol: decimal_text(0),
            pan: decimal_text(0),
            coarse: 0,
            fine: Stereo { l: decimal_text(0), r: decimal_text(0) },
            ph_off: decimal_text(0),
            st_ph_detune: decimal_text(0),
            wave_type: WaveView::Uninit,
            use_wave_table: false,
            mod_algo: ModulationAlgo::SignalMix,
        }
    }
}

impl Default for Oscillator {
    fn default() -> (o: Self)
        ensures
            o@ == OscillatorView::unset(),
    {
        Oscillator {
            vol: Real::from_integer(0),
            pan: Real::from_integer(0),
            coarse: 0,
            fine: Stereo { l: Real::from_integer(0), r: Real::from_integer(0) },
            ph_off: Real::from_integer(0),
            st_ph_detune: Real::from_integer(0),
            wave_type: WaveType::Uninit,
            use_wave_table: false,
            mod_algo: ModulationAlgo::SignalMix,
        }
    }
}

/// The three oscillators.
#[derive(Debug)]
pub struct TripleOscillator {
    pub oscillators: [Oscillator; 3],
}

/// A `TripleOscillator` as a value of specifications: its oscillators.
pub type TripleOscillatorView = Seq<OscillatorView>;

impl View for TripleOscillator {
    type V = Seq<OscillatorView>;

    open spec fn view(&self) -> Seq<OscillatorView> {
        Seq::new(3, |i: int| self.oscillators@[i]@)
    }
}

impl Default for TripleOscillator {
    fn default() -> (t: Self)
        ensures
            t@ == unset_bank(),
    {
        let t = TripleOscillator {
            oscillators: [Oscillator::default(), Oscillator::default(), Oscillator::default()],
        };
        assert(t@ =~= unset_bank());
        t
    }
}

/// Three oscillators of which nothing is set.
pub open spec fn unset_bank() -> Seq<OscillatorView> {
    Seq::new(3, |i: int| OscillatorView::unset())
}

/// The fields of an oscillator that a parameter can set.
#[derive(Clone, Copy, Debug, PartialEq, Eq, Structural)]
pub enum Field {
    Vol,
    Pan,
    Coarse,
    FineL,
    FineR,
    PhOff,
    StPhDetune,
    WaveType,
    UserWaveFile,
    ModAlgo,
    UseWaveTable,
}

/// The field that the name of a parameter, without its index, stands for.
pub open spec fn field_of(base: Seq<u8>) -> Option<Field> {
    if base == "vol".spec_bytes() {
        Some(Field::Vol)
    } else if base == "pan".spec_bytes() {
        Some(Field::Pan)
    } else if base == "coarse".spec_bytes() {
        Some(Field::Coarse)
    } else if base == "finel".spec_bytes() {
        Some(Field::FineL)
    } else if base == "finer".spec_bytes() {
        Some(Field::FineR)
    } else if base == "phoffset".spec_bytes() {
        Some(Field::PhOff)
    } else if base == "stphdetun".spec_bytes() {
        Some(Field::StPhDetune)
    } else if base == "wavetype".spec_bytes() {
        Some(Field::WaveType)
    } else if base == "userwavefile".spec_bytes() {
        Some(Field::UserWaveFile)
    } else if base == "modalgo".spec_bytes() {
        Some(Field::ModAlgo)
    } else if base == "useWaveTable".spec_bytes() {
        Some(Field::UseWaveTable)
    } else {
        None
    }
}

/// The field that the name of a parameter, without its index, stands for.
pub fn field_from(base: &[u8]) -> (r: Option<Field>)
    ensures
        r == field_of(base@),
{
    if is_named(base, "vol") {
        Some(Field::Vol)
    } else if is_named(base, "pan") {
        Some(Field::Pan)
    } else if is_named(base, "coarse") {
        Some(Field::Coarse)
    } else if is_named(base, "finel") {
        Some(Field::FineL)
    } else if is_named(base, "finer") {
        Some(Field::FineR)
    } else if is_named(base, "phoffset") {
        Some(Field::PhOff)
    } else if is_named(base, "stphdetun") {
        Some(Field::StPhDetune)
    } else if is_named(base, "wavetype") {
        Some(Field::WaveType)
    } else if is_named(base, "userwavefile") {
        Some(Field::UserWaveFile)
    } else if is_named(base, "modalgo") {
        Some(Field::ModAlgo)
    } else if is_named(base, "useWaveTable") {
        Some(Field::UseWaveTable)
    } else {
        None
    }
}

/// The oscillators after the parameter `name` with the value `raw`.
///
/// `key` and `num_osc` change nothing. Any other name ends in the index of
/// an oscillator, which must be one of the bank, and what stands before the
/// index says which field the value sets.
pub open spec fn after_parameter(bank: Seq<OscillatorView>, name: Seq<u8>, raw: Seq<u8>) -> Result<
    Seq<OscillatorView>,
    Failure,
> {
    let label = lossy_text(name);
    if is_global(name) {
        Ok(bank)
    } else {
        match parameter_index(name) {
            None => Err(Failure::InvalidParameterIndex(label)),
            Some(index) => if index >= bank.len() {
                Err(Failure::InvalidParameterIndex(label))
            } else {
                match field_of(name.drop_last()) {
                    None => Err(Failure::UnknownParameterName(label)),
                    Some(field) => set_field(bank, field, index, label, raw),
                }
            },
        }
    }
}

/// The oscillator after a real number is given to one of its fields that
/// hold one; any other field leaves it as it is.
pub open spec fn with_real(slot: OscillatorView, field: Field, v: Seq<u8>) -> OscillatorView {
    match field {
        Field::Vol => OscillatorView { vol: v, ..slot },
        Field::Pan => OscillatorView { pan: v, ..slot },
        Field::FineL => OscillatorView { fine: Stereo { l: v, r: slot.fine.r }, ..slot },
        Field::FineR => OscillatorView { fine: Stereo { l: slot.fine.l, r: v }, ..slot },
        Field::PhOff => OscillatorView { ph_off: v, ..slot },
        Field::StPhDetune => OscillatorView { st_ph_detune: v, ..slot },
        _ => slot,
    }
}

/// The oscillators after a modulation or the use of a wave table is set:
/// these two are written with an index that is too large by one. They set
/// the oscillator before the one that they name, and with the index 0 they
/// are an error.
pub open spec fn set_shifted(
    bank: Seq<OscillatorView>,
    field: Field,
    index: int,
    label: Seq<char>,
    raw: Seq<u8>,
) -> Result<Seq<OscillatorView>, Failure> {
    if index == 0 {
        Err(Failure::InvalidParameterIndex(label))
    } else if field == Field::ModAlgo {
        match read_as::<i32>(label, raw) {
            Err(failure) => Err(failure),
            Ok(code) => match algo_of_code(code as int) {
                None => Err(Failure::UnknownDiscriminant(code as int)),
                Some(algo) => Ok(
                    bank.update(index - 1, OscillatorView { mod_algo: algo, ..bank[index - 1] }),
                ),
            },
        }
    } else {
        match read_as::<bool>(label, raw) {
            Err(failure) => Err(failure),
            Ok(v) => Ok(
                bank.update(index - 1, OscillatorView { use_wave_table: v, ..bank[index - 1] }),
            ),
        }
    }
}

/// The oscillators after the value `raw` is given to the field `field` of
/// the oscillator `index`, which is one of the bank.
pub open spec fn set_field(
    bank: Seq<OscillatorView>,
    field: Field,
    index: int,
    label: Seq<char>,
    raw: Seq<u8>,
) -> Result<Seq<OscillatorView>, Failure> {
    let slot = bank[index];
    match field {
        Field::Coarse => match read_as::<i32>(label, raw) {
            Err(failure) => Err(failure),
            Ok(v) => Ok(bank.update(index, OscillatorView { coarse: v, ..slot })),
        },
        Field::WaveType => match wave_by_code(slot.wave_type, label, raw) {
            Err(failure) => Err(failure),
            Ok(None) => Ok(bank),
            Ok(Some(wave)) => Ok(bank.update(index, OscillatorView { wave_type: wave, ..slot })),
        },
        Field::UserWaveFile => match wave_by_file(slot.wave_type, label, raw) {
            Err(failure) => Err(failure),
            Ok(None) => Ok(bank),
            Ok(Some(wave)) => Ok(bank.update(index, OscillatorView { wave_type: wave, ..slot })),
        },
        Field::ModAlgo => set_shifted(bank, field, index, label, raw),
        Field::UseWaveTable => set_shifted(bank, field, index, label, raw),
        _ => match read_as::<Real>(label, raw) {
            Err(failure) => Err(failure),
            Ok(v) => Ok(bank.update(index, with_real(slot, field, v))),
        },
    }
}

/// The oscillators after the parameters from position `from` on, taken in
/// their order; the first error ends the reading.
pub open spec fn after_parameters(
    bank: Seq<OscillatorView>,
    parameters: Seq<(Seq<u8>, Seq<u8>)>,
    from: int,
) -> Result<Seq<OscillatorView>, Failure>
    decreases parameters.len() - from,
{
    if 0 <= from < parameters.len() {
        match after_parameter(bank, parameters[from].0, parameters[from].1) {
            Err(failure) => Err(failure),
            Ok(next) => after_parameters(next, parameters, from + 1),
        }
    } else {
        Ok(bank)
    }
}

/// The triple oscillator that a list of parameters describes.
pub open spec fn bank_of(parameters: Seq<(Seq<u8>, Seq<u8>)>) -> Result<
    Seq<OscillatorView>,
    Failure,
> {
    after_parameters(unset_bank(), parameters, 0)
}

/// Reads a triple oscillator from its parameters.
pub struct TripleOscillatorVisitor;

impl TripleOscillatorVisitor {
    /// Gives a real number to one of the fields that hold one.
    fn set_real(&self, result: &mut TripleOscillator, field: Field, index: usize, v: Real)
        requires
            index < 3,
        ensures
            final(result)@ == old(result)@.update(
                index as int,
                with_real(old(result)@[index as int], field, v@),
            ),
    {
        match field {
            Field::Vol => {
                result.oscillators[index].vol = v;
            },
            Field::Pan => {
                result.oscillators[index].pan = v;
            },
            Field::FineL => {
                result.oscillators[index].fine.l = v;
            },
            Field::FineR => {
                result.oscillators[index].fine.r = v;
            },
            Field::PhOff => {
                result.oscillators[index].ph_off = v;
            },
            Field::StPhDetune => {
                result.oscillators[index].st_ph_detune = v;
            },
            _ => {},
        }
        assert(result@ =~= old(result)@.update(
            index as int,
            with_real(old(result)@[index as int], field, v@),
        ));
    }

    /// Sets the wave form of an oscillator.
    fn set_wave(&self, result: &mut TripleOscillator, index: usize, wave: WaveType)
        requires
            index < 3,
        ensures
            final(result)@ == old(result)@.update(
                index as int,
                OscillatorView { wave_type: wave@, ..old(result)@[index as int] },
            ),
    {
        result.oscillators[index].wave_type = wave;
        assert(result@ =~= old(result)@.update(
            index as int,
            OscillatorView { wave_type: wave@, ..old(result)@[index as int] },
        ));
    }

    /// Sets a modulation, or the use of a wave table, of the oscillator
    /// before the one that the index names.
    fn set_shifted(
        &self,
        result: &mut TripleOscillator,
        field: Field,
        index: usize,
        label: &str,
        raw: &[u8],
    ) -> (r: Result<(), XMLError>)
        requires
            index < 3,
            field == Field::ModAlgo || field == Field::UseWaveTable,
        ensures
            match set_shifted(old(result)@, field, index as int, label@, raw@) {
                Ok(bank) => r is Ok && final(result)@ == bank,
                Err(failure) => r matches Err(e) && e@ == failure,
            },
    {
        if index == 0 {
            return Err(XMLError::InvalidParameterIndex(label.to_owned()));
        }
        let ghost before = result@;
        match field {
            Field::ModAlgo => {
                let code = read_value::<i32>(label, raw)?;
                match algo_from_code(code) {
                    Some(algo) => {
                        result.oscillators[index - 1].mod_algo = algo;
                        assert(result@ =~= before.update(
                            index - 1,
                            OscillatorView { mod_algo: algo, ..before[index - 1] },
                        ));
                    },
                    None => {
                        return Err(XMLError::UnknownDiscriminant(code));
                    },
                }
            },
            _ => {
                let v = read_value::<bool>(label, raw)?;
                result.oscillators[index - 1].use_wave_table = v;
                assert(result@ =~= before.update(
                    index - 1,
                    OscillatorView { use_wave_table: v, ..before[index - 1] },
                ));
            },
        }
        Ok(())
    }

    /// Gives the value `raw` to the field `field` of the oscillator `index`.
    fn set_field(
        &self,
        result: &mut TripleOscillator,
        field: Field,
        index: usize,
        label: &str,
        raw: &[u8],
    ) -> (r: Result<(), XMLError>)
        requires
            index < 3,
        ensures
            match set_field(old(result)@, field, index as int, label@, raw@) {
                Ok(bank) => r is Ok && final(result)@ == bank,
                Err(failure) => r matches Err(e) && e@ == failure,
            },
    {
        let ghost before = result@;
        match field {
            Field::Coarse => {
                let v = read_value::<i32>(label, raw)?;
                result.oscillators[index].coarse = v;
                assert(result@ =~= before.update(
                    index as int,
                    OscillatorView { coarse: v, ..before[index as int] },
                ));
                Ok(())
            },
            Field::WaveType => {
                match read_wave_code(&result.oscillators[index].wave_type, label, raw)? {
                    Some(wave) => self.set_wave(result, index, wave),
                    None => {},
                }
                Ok(())
            },
            Field::UserWaveFile => {
                match read_wave_file(&result.oscillators[index].wave_type, label, raw)? {
                    Some(wave) => self.set_wave(result, index, wave),
                    None => {},
                }
                Ok(())
            },
            Field::ModAlgo => self.set_shifted(result, field, index, label, raw),
            Field::UseWaveTable => self.set_shifted(result, field, index, label, raw),
            _ => {
                let v = read_value::<Real>(label, raw)?;
                self.set_real(result, field, index, v);
                Ok(())
            },
        }
    }

    /// Reads the triple oscillator that a list of parameters describes: the
    /// attributes of a `tripleoscillator` element, in the order in which they
    /// were written.
    pub fn visit_map(&self, map: &Vec<(Vec<u8>, Vec<u8>)>) -> (r: Result<
        TripleOscillator,
        XMLError,
    >)
        ensures
            agrees(r, bank_of(attributes_view(map@))),
    {
        let ghost parameters = attributes_view(map@);
        let mut result = TripleOscillator::default();
        let mut i: usize = 0;
        while i < map.len()
            invariant
                i <= map@.len(),
                parameters == attributes_view(map@),
                bank_of(parameters) == after_parameters(result@, parameters, i as int),
            decreases map@.len() - i,
        {
            let name = map[i].0.as_slice();
            let raw = map[i].1.as_slice();
            if !check_global(name) {
                let label = from_utf8_lossy(name);
                match split_parameter(name) {
                    None => {
                        return Err(XMLError::InvalidParameterIndex(label));
                    },
                    Some((base, index)) => {
                        if index >= 3 {
                            return Err(XMLError::InvalidParameterIndex(label));
                        }
                        match field_from(base) {
                            None => {
                                return Err(XMLError::UnknownParameterName(label));
                            },
                            Some(field) => {
                                self.set_field(&mut result, field, index, label.as_str(), raw)?;
                            },
                        }
                    },
                }
            }
            i = i + 1;
        }
        Ok(result)
    }
}

} // verus!
