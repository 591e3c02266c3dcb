use rmms_core::mmp::instrument::organic::OrganicVisitor;
use rmms_core::mmp::instrument::tripleoscillator::{
    algo_from_code, field_from, Field, ModulationAlgo, Oscillator, TripleOscillator,
    TripleOscillatorVisitor,
};
use rmms_core::mmp::instrument::{
    check_global, read_wave_code, read_wave_file, split_parameter, wave_from_code, WaveType,
    UNSET_PATH,
};
use rmms_core::mmp::xml::XMLError;

fn attrs(pairs: &[(&str, &str)]) -> Vec<(Vec<u8>, Vec<u8>)> {
    pairs.iter().map(|(k, v)| (k.as_bytes().to_vec(), v.as_bytes().to_vec())).collect()
}

fn number(bytes: &[u8]) -> f32 {
    std::str::from_utf8(bytes).unwrap().parse().unwrap()
}

#[test]
fn triple_oscillator_is_rebuilt_from_its_parameters() {
    let t = TripleOscillatorVisitor
        .visit_map(&attrs(&[("vol0", "0.8"), ("wavetype0", "2"), ("modalgo1", "3")]))
        .unwrap();
    assert_eq!(number(t.oscillators[0].vol.as_bytes()), 0.8);
    assert!(matches!(t.oscillators[0].wave_type, WaveType::SawWave));
    assert_eq!(t.oscillators[0].mod_algo, ModulationAlgo::SynchronizedBySubOsc);
    assert_eq!(t.oscillators[1].mod_algo, ModulationAlgo::SignalMix);
    assert_eq!(t.oscillators[2].mod_algo, ModulationAlgo::SignalMix);
    assert!(matches!(t.oscillators[1].wave_type, WaveType::Uninit));
    assert_eq!(t.oscillators[1].vol.as_bytes(), b"0");
}

#[test]
fn modalgo_with_index_zero_is_an_error() {
    let r = TripleOscillatorVisitor.visit_map(&attrs(&[("modalgo0", "3")]));
    assert!(matches!(r, Err(XMLError::InvalidParameterIndex(n)) if n == "modalgo0"));
    let r = TripleOscillatorVisitor.visit_map(&attrs(&[("useWaveTable0", "1")]));
    assert!(matches!(r, Err(XMLError::InvalidParameterIndex(n)) if n == "useWaveTable0"));
}

#[test]
fn shifted_parameters_set_the_oscillator_before() {
    let t = TripleOscillatorVisitor
        .visit_map(&attrs(&[("useWaveTable1", "1"), ("useWaveTable2", "0"), ("modalgo2", "4")]))
        .unwrap();
    assert!(t.oscillators[0].use_wave_table);
    assert!(!t.oscillators[1].use_wave_table);
    assert!(!t.oscillators[2].use_wave_table);
    assert_eq!(t.oscillators[1].mod_algo, ModulationAlgo::FrequencyModulation);
    let r = TripleOscillatorVisitor.visit_map(&attrs(&[("modalgo3", "1")]));
    assert!(matches!(r, Err(XMLError::InvalidParameterIndex(_))));
    let r = TripleOscillatorVisitor.visit_map(&attrs(&[("useWaveTable1", "2")]));
    assert!(matches!(r, Err(XMLError::TypeCoercionError(n, _)) if n == "useWaveTable1"));
    let r = TripleOscillatorVisitor.visit_map(&attrs(&[("modalgo1", "5")]));
    assert!(matches!(r, Err(XMLError::UnknownDiscriminant(5))));
}

#[test]
fn every_field_is_set_by_its_parameter() {
    let t = TripleOscillatorVisitor
        .visit_map(&attrs(&[
            ("key", "ignored"),
            ("num_osc", "3"),
            ("vol1", "33"),
            ("pan1", "-50"),
            ("coarse1", "-12"),
            ("finel1", "1.5"),
            ("finer1", "-1.5"),
            ("phoffset1", "90"),
            ("stphdetun1", "1e1"),
            ("wavetype1", "6"),
        ]))
        .unwrap();
    let o = &t.oscillators[1];
    assert_eq!(o.vol.as_bytes(), b"33");
    assert_eq!(o.pan.as_bytes(), b"-50");
    assert_eq!(o.coarse, -12);
    assert_eq!(o.fine.l.as_bytes(), b"1.5");
    assert_eq!(o.fine.r.as_bytes(), b"-1.5");
    assert_eq!(o.ph_off.as_bytes(), b"90");
    assert_eq!(number(o.st_ph_detune.as_bytes()), 10.0);
    assert!(matches!(o.wave_type, WaveType::WhiteNoise));
    assert_eq!(t.oscillators[0].coarse, 0);
    assert_eq!(t.oscillators[2].pan.as_bytes(), b"0");
}

#[test]
fn parameters_must_end_in_an_index_of_the_bank() {
    let r = TripleOscillatorVisitor.visit_map(&attrs(&[("vol3", "1")]));
    assert!(matches!(r, Err(XMLError::InvalidParameterIndex(n)) if n == "vol3"));
    let r = TripleOscillatorVisitor.visit_map(&attrs(&[("vol", "1")]));
    assert!(matches!(r, Err(XMLError::InvalidParameterIndex(n)) if n == "vol"));
    let r = TripleOscillatorVisitor.visit_map(&attrs(&[("", "1")]));
    assert!(matches!(r, Err(XMLError::InvalidParameterIndex(n)) if n == ""));
    let r = TripleOscillatorVisitor.visit_map(&attrs(&[("bogus9", "1")]));
    assert!(matches!(r, Err(XMLError::InvalidParameterIndex(_))));
    let r = TripleOscillatorVisitor.visit_map(&attrs(&[("bogus1", "1")]));
    assert!(matches!(r, Err(XMLError::UnknownParameterName(n)) if n == "bogus1"));
    let r = TripleOscillatorVisitor.visit_map(&attrs(&[("vol0", "loud")]));
    assert!(matches!(r, Err(XMLError::TypeCoercionError(n, _)) if n == "vol0"));
    let r = TripleOscillatorVisitor.visit_map(&attrs(&[("vol0", "1"), ("pan7", "1"), ("x", "y")]));
    assert!(matches!(r, Err(XMLError::InvalidParameterIndex(n)) if n == "pan7"));
}

#[test]
fn first_wave_type_wins() {
    let t = TripleOscillatorVisitor
        .visit_map(&attrs(&[("wavetype0", "1"), ("wavetype0", "3"), ("wavetype0", "junk")]))
        .unwrap();
    assert!(matches!(t.oscillators[0].wave_type, WaveType::TriangleWave));
    let r = TripleOscillatorVisitor.visit_map(&attrs(&[("wavetype0", "8")]));
    assert!(matches!(r, Err(XMLError::UnknownDiscriminant(8))));
    let r = TripleOscillatorVisitor.visit_map(&attrs(&[("wavetype0", "saw")]));
    assert!(matches!(r, Err(XMLError::TypeCoercionError(_, _))));
}

#[test]
fn user_wave_file_fills_or_makes_a_user_defined_wave() {
    let t = TripleOscillatorVisitor
        .visit_map(&attrs(&[
            ("wavetype0", "7"),
            ("userwavefile0", "a.wav"),
            ("userwavefile1", "b.wav"),
            ("userwavefile2", ""),
        ]))
        .unwrap();
    assert!(matches!(&t.oscillators[0].wave_type, WaveType::UserDefinedWave(p) if p == "a.wav"));
    assert!(matches!(&t.oscillators[1].wave_type, WaveType::UserDefinedWave(p) if p == "b.wav"));
    assert!(matches!(t.oscillators[2].wave_type, WaveType::Uninit));
    let t = TripleOscillatorVisitor
        .visit_map(&attrs(&[("wavetype0", "7"), ("wavetype1", "0"), ("userwavefile1", "c.wav")]))
        .unwrap();
    assert!(matches!(&t.oscillators[0].wave_type, WaveType::UserDefinedWave(p) if p == UNSET_PATH));
    assert!(matches!(t.oscillators[1].wave_type, WaveType::SineWave));
    let t = TripleOscillatorVisitor
        .visit_map(&attrs(&[("wavetype0", "7"), ("userwavefile0", "")]))
        .unwrap();
    assert!(matches!(&t.oscillators[0].wave_type, WaveType::UserDefinedWave(p) if p.is_empty()));
    let t = TripleOscillatorVisitor
        .visit_map(&attrs(&[("userwavefile0", "x.wav"), ("wavetype0", "2")]))
        .unwrap();
    assert!(matches!(&t.oscillators[0].wave_type, WaveType::UserDefinedWave(p) if p == "x.wav"));
}

#[test]
fn wave_changes_follow_the_current_wave() {
    assert!(matches!(read_wave_code(&WaveType::Uninit, "w", b"4"), Ok(Some(WaveType::MoogSawWave))));
    assert!(matches!(read_wave_code(&WaveType::SineWave, "w", b"4"), Ok(None)));
    assert!(matches!(read_wave_code(&WaveType::SineWave, "w", b"junk"), Ok(None)));
    assert!(matches!(read_wave_file(&WaveType::SineWave, "w", &[0xff]), Ok(None)));
    assert!(matches!(read_wave_file(&WaveType::Uninit, "w", &[0xff]), Err(XMLError::Invalid(_))));
    assert!(matches!(read_wave_file(&WaveType::Uninit, "w", b""), Ok(None)));
}

#[test]
fn codes_stand_for_waves_and_modulations() {
    assert!(matches!(wave_from_code(0), Some(WaveType::SineWave)));
    assert!(matches!(wave_from_code(1), Some(WaveType::TriangleWave)));
    assert!(matches!(wave_from_code(2), Some(WaveType::SawWave)));
    assert!(matches!(wave_from_code(3), Some(WaveType::SquareWave)));
    assert!(matches!(wave_from_code(4), Some(WaveType::MoogSawWave)));
    assert!(matches!(wave_from_code(5), Some(WaveType::ExponentialWave)));
    assert!(matches!(wave_from_code(6), Some(WaveType::WhiteNoise)));
    assert!(matches!(wave_from_code(7), Some(WaveType::UserDefinedWave(p)) if p == "<uninit>"));
    assert!(wave_from_code(8).is_none());
    assert!(wave_from_code(-1).is_none());
    assert_eq!(algo_from_code(0), Some(ModulationAlgo::PhaseModulation));
    assert_eq!(algo_from_code(1), Some(ModulationAlgo::AmplitudeModulation));
    assert_eq!(algo_from_code(2), Some(ModulationAlgo::SignalMix));
    assert_eq!(algo_from_code(3), Some(ModulationAlgo::SynchronizedBySubOsc));
    assert_eq!(algo_from_code(4), Some(ModulationAlgo::FrequencyModulation));
    assert_eq!(algo_from_code(5), None);
    assert_eq!(ModulationAlgo::default(), ModulationAlgo::SignalMix);
    assert!(matches!(WaveType::default(), WaveType::Uninit));
}

#[test]
fn names_split_into_base_and_index() {
    assert_eq!(split_parameter(b"vol0"), Some((&b"vol"[..], 0)));
    assert_eq!(split_parameter(b"modalgo12"), Some((&b"modalgo1"[..], 2)));
    assert_eq!(split_parameter(b"9"), Some((&b""[..], 9)));
    assert_eq!(split_parameter(b"vol"), None);
    assert_eq!(split_parameter(b""), None);
    assert!(check_global(b"key"));
    assert!(check_global(b"num_osc"));
    assert!(!check_global(b"vol"));
    assert_eq!(field_from(b"vol"), Some(Field::Vol));
    assert_eq!(field_from(b"useWaveTable"), Some(Field::UseWaveTable));
    assert_eq!(field_from(b"usewavetable"), None);
}

#[test]
fn unset_oscillators_are_zero() {
    let t = TripleOscillator::default();
    for o in t.oscillators.iter() {
        assert_eq!(o.vol.as_bytes(), b"0");
        assert_eq!(o.fine.l.as_bytes(), b"0");
        assert_eq!(o.coarse, 0);
        assert!(!o.use_wave_table);
    }
    let o = Oscillator::default();
    assert_eq!(o.mod_algo, ModulationAlgo::SignalMix);
    let none = TripleOscillatorVisitor.visit_map(&attrs(&[])).unwrap();
    assert_eq!(none.oscillators[2].pan.as_bytes(), b"0");
}

#[test]
fn organic_is_rebuilt_from_its_parameters() {
    let o = OrganicVisitor
        .visit_map(&attrs(&[
            ("num_osc", "8"),
            ("vol", "75"),
            ("foldback", "1.5"),
            ("vol7", "10"),
            ("pan0", "-3"),
            ("newharmonic3", "5"),
            ("newdetune3", "0.25"),
            ("wavetype7", "6"),
            ("wavetype7", "0"),
        ]))
        .unwrap();
    assert_eq!(o.vol.as_bytes(), b"75");
    assert_eq!(o.foldback.as_bytes(), b"1.5");
    assert_eq!(o.oscillators[7].vol.as_bytes(), b"10");
    assert_eq!(o.oscillators[0].pan.as_bytes(), b"-3");
    assert_eq!(o.oscillators[3].harmonic, 5);
    assert_eq!(number(o.oscillators[3].detune.as_bytes()), 0.25);
    assert!(matches!(o.oscillators[7].wave_type, WaveType::WhiteNoise));
    assert!(matches!(o.oscillators[0].wave_type, WaveType::Uninit));
}

#[test]
fn organic_rejects_what_it_does_not_know() {
    let r = OrganicVisitor.visit_map(&attrs(&[("vol8", "1")]));
    assert!(matches!(r, Err(XMLError::InvalidParameterIndex(n)) if n == "vol8"));
    let r = OrganicVisitor.visit_map(&attrs(&[("coarse0", "1")]));
    assert!(matches!(r, Err(XMLError::UnknownParameterName(n)) if n == "coarse0"));
    let r = OrganicVisitor.visit_map(&attrs(&[("volume", "1")]));
    assert!(matches!(r, Err(XMLError::InvalidParameterIndex(n)) if n == "volume"));
    let r = OrganicVisitor.visit_map(&attrs(&[("vol", "x")]));
    assert!(matches!(r, Err(XMLError::TypeCoercionError(n, _)) if n == "vol"));
    let r = OrganicVisitor.visit_map(&attrs(&[("wavetype0", "9")]));
    assert!(matches!(r, Err(XMLError::UnknownDiscriminant(9))));
    let r = OrganicVisitor.visit_map(&attrs(&[("newharmonic0", "1.5")]));
    assert!(matches!(r, Err(XMLError::TypeCoercionError(_, _))));
}
