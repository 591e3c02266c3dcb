use flate2::write::ZlibEncoder;
use flate2::Compression;
use rmms_core::format::{InstrumentTrack, ProjectFile, Track, TrackBody};
use rmms_core::mmp::events::build_tree;
use rmms_core::mmp::header::Header;
use rmms_core::mmp::instrument::Instrument;
use rmms_core::mmp::project::Info;
use rmms_core::mmp::xml::{Structure, XMLError};
use rmms_core::mmp::xpt::{Error, Note, Pattern};
use rmms_core::mmp::zlib::{decompress, sniff, Packing};
use rmms_core::mmp::{MMPParseError, SongInfo, MMP};
use std::io::Write;

fn pack(plain: &[u8]) -> Vec<u8> {
    let mut out = vec![0u8, 0, (plain.len() >> 8) as u8, plain.len() as u8];
    let mut enc = ZlibEncoder::new(Vec::new(), Compression::default());
    enc.write_all(plain).unwrap();
    out.extend(enc.finish().unwrap());
    out
}

fn song() -> Vec<u8> {
    let doc = "<?xml version=\"1.0\"?>\n<!DOCTYPE lmms-project>\n<lmms-project version=\"1.0\" creator=\"LMMS\" creatorversion=\"1.2.2\" type=\"song\">\n  <head bpm=\"120.5\" mastervol=\"90\" masterpitch=\"-2\" timesig_numerator=\"3\" timesig_denominator=\"8\"/>\n  <song>\n    <trackcontainer type=\"song\">\n      <track type=\"0\" name=\"Lead\" muted=\"1\" solo=\"0\" mutedBeforeSolo=\"0\">\n        <instrumenttrack vol=\"100\" pan=\"-5.5\" firstkey=\"0\" lastkey=\"127\" basenote=\"57\">\n          <instrument name=\"tripleoscillator\">\n            <tripleoscillator vol0=\"0.8\" wavetype0=\"2\" modalgo1=\"3\" finel1=\"-4\" useWaveTable2=\"1\" userwavefile2=\"\" coarse2=\"-12\"><key/></tripleoscillator>\n          </instrument>\n        </instrumenttrack>\n      </track>\n      <track type=\"1\" name=\"Beat\"/>\n      <track type=\"5\"></track>\n    </trackcontainer>\n  </song>\n</lmms-project>\n";
    doc.as_bytes().to_vec()
}

fn chords() -> Vec<u8> {
    let doc = "<?xml version=\"1.0\"?>\n<!DOCTYPE lmms-project>\n<lmms-project version=\"1.0\" creator=\"LMMS\" creatorversion=\"1.2.2\" type=\"pattern\">\n  <head/>\n  <pattern steps=\"16\" type=\"1\" muted=\"0\" name=\"Chords\" pos=\"192\">\n    <note len=\"48\" key=\"60\" vol=\"100\" pan=\"0\" pos=\"0\"/>\n    <note len=\"48\" key=\"64\" vol=\"90\" pan=\"10\" pos=\"0\"/>\n    <note len=\"96\" key=\"67\" vol=\"80\" pan=\"20\" pos=\"384\"/>\n  </pattern>\n</lmms-project>\n";
    doc.as_bytes().to_vec()
}

fn expected_chords() -> Pattern {
    Pattern {
        ty: 1,
        muted: 0,
        name: "Chords".to_string(),
        pos: 192,
        steps: 16,
        notes: vec![
            Note { len: 48, key: 60, vol: 100, pan: 0, pos: 0 },
            Note { len: 48, key: 64, vol: 90, pan: 10, pos: 0 },
            Note { len: 96, key: 67, vol: 80, pan: 20, pos: 384 },
        ],
    }
}

#[test]
fn test() {
    let mmp = MMP::load(Some("mmpz"), &pack(&song()));
    if let Err(e) = &mmp {
        println!("{:?}", e);
    }
    let mmp = mmp.unwrap();
    assert_eq!(
        mmp.project_info,
        Info {
            ty: "song".to_string(),
            creator: "LMMS".to_string(),
            version: 1,
            creator_version: "1.2.2".to_string()
        }
    );
    assert_eq!(mmp.header.bpm.as_bytes(), b"120.5");
    assert_eq!(mmp.header.vol.as_bytes(), b"90");
    assert_eq!(mmp.header.time_sig, (3, 8));
    assert_eq!(mmp.header.master_pitch, -2);
    assert_eq!(mmp.song_info.tracks.len(), 3);
    let lead = &mmp.song_info.tracks[0];
    assert_eq!(lead.name, "Lead");
    assert!(lead.mute);
    assert!(!lead.solo);
    match &lead.body {
        TrackBody::Instrument(Some(payload)) => {
            assert_eq!(payload.vol.as_bytes(), b"100");
            assert_eq!(payload.pan.as_bytes(), b"-5.5");
            assert_eq!((payload.first_key, payload.last_key, payload.base_note), (0, 127, 57));
            assert!(matches!(payload.instrument, Instrument::TripleOscillator { .. }));
        }
        other => panic!("{:?}", other),
    }
    assert_eq!(mmp.song_info.tracks[1].name, "Beat");
    assert!(matches!(mmp.song_info.tracks[1].body, TrackBody::Pattern(_)));
    assert_eq!(mmp.song_info.tracks[2].name, "");
    assert!(matches!(mmp.song_info.tracks[2].body, TrackBody::Automation(_)));
}

#[test]
fn xpt() {
    let xpt = Pattern::load(Some("xptz"), &pack(&chords()));
    if let Err(e) = &xpt {
        println!("{:?}", e);
    }
    assert_eq!(xpt.unwrap(), expected_chords());
}

#[test]
fn format() {
    let project = MMP::load_mmp(&song()).unwrap();
    assert_eq!(project.song_info.tracks.len(), 3);
    let file = ProjectFile::load_xml(&song()).unwrap();
    assert_eq!(file.tracks.len(), 3);
    assert_eq!(file.head.bpm.as_bytes(), b"120.5");
}

#[test]
fn compressed_and_plain_pattern_files_give_the_same_pattern() {
    let plain = chords();
    let packed = pack(&plain);
    assert_eq!(decompress(&packed).unwrap(), plain);
    let a = Pattern::load(Some("xptz"), &packed).unwrap();
    let b = Pattern::load(Some("xpt"), &plain).unwrap();
    assert_eq!(a, b);
    assert_eq!(a, expected_chords());
    assert_eq!(Pattern::load_xptz(&packed).unwrap(), Pattern::load_xpt(&plain).unwrap());
    assert_eq!(Pattern::load(Some("XPTZ"), &packed).unwrap(), b);
    assert_eq!(Pattern::load(Some("XPT"), &plain).unwrap(), b);
    assert_eq!(Pattern::load(None, &packed).unwrap(), b);
    assert_eq!(Pattern::load(None, &plain).unwrap(), b);
}

#[test]
fn pattern_file_is_no_project() {
    assert!(matches!(
        MMP::load(Some("mmp"), &chords()),
        Err(MMPParseError::XML(XMLError::UnexpectedStructure(Structure::ProjectKind)))
    ));
    assert!(matches!(
        MMP::load(Some("mmpz"), &pack(&chords())),
        Err(MMPParseError::XML(XMLError::UnexpectedStructure(Structure::ProjectKind)))
    ));
    assert!(matches!(
        ProjectFile::load(&chords()),
        Err(MMPParseError::XML(XMLError::UnexpectedStructure(Structure::ProjectKind)))
    ));
}

#[test]
fn project_file_is_no_pattern() {
    assert!(matches!(
        Pattern::load(Some("xpt"), &song()),
        Err(Error::Xml(XMLError::UnexpectedStructure(Structure::ProjectKind)))
    ));
    assert!(matches!(
        Pattern::load(Some("xptz"), &pack(&song())),
        Err(Error::Xml(XMLError::UnexpectedStructure(Structure::ProjectKind)))
    ));
}

#[test]
fn extension_decides_how_a_file_is_read() {
    assert!(MMP::load(Some("mmp"), &song()).is_ok());
    assert!(MMP::load(Some("MMP"), &song()).is_ok());
    assert!(MMP::load(Some("MMPZ"), &pack(&song())).is_ok());
    assert!(matches!(MMP::load(Some("mmpz"), &song()), Err(MMPParseError::IoError(_))));
    assert!(matches!(MMP::load(Some("mmp"), &pack(&song())), Err(MMPParseError::XML(_))));
    match MMP::load(Some("txt"), &song()) {
        Err(MMPParseError::Invalid(m)) => assert_eq!(m, "Expected extension mmp or mmpz"),
        other => panic!("{:?}", other),
    }
    match Pattern::load(Some("mmp"), &chords()) {
        Err(Error::Invalid(m)) => assert_eq!(m, "Expected xpt or xptz"),
        other => panic!("{:?}", other),
    }
    assert!(matches!(Pattern::load(Some("xptz"), &chords()), Err(Error::IoError(_))));
}

#[test]
fn first_bytes_decide_without_an_extension() {
    assert_eq!(sniff(b"<?xml"), Packing::Plain);
    assert_eq!(sniff(b"<a/>"), Packing::Packed);
    assert_eq!(sniff(b"<"), Packing::Packed);
    assert_eq!(sniff(b""), Packing::Packed);
    assert_eq!(sniff(b"{\"a\": 1}"), Packing::Unsupported);
    assert_eq!(sniff(b"[1]"), Packing::Unsupported);
    assert_eq!(sniff(&pack(b"<?xml")), Packing::Packed);
    assert!(MMP::load(None, &song()).is_ok());
    assert!(MMP::load(None, &pack(&song())).is_ok());
    assert!(matches!(MMP::load(None, b"{}"), Err(MMPParseError::Invalid(_))));
    assert!(matches!(Pattern::load(None, b"[]"), Err(Error::Invalid(_))));
    let file = ProjectFile::load(&pack(&song())).unwrap();
    assert_eq!(file.tracks.len(), 3);
    assert_eq!(file.head.master_pitch, -2);
}

#[test]
fn envelope_skips_four_bytes() {
    let packed = pack(b"hello");
    assert_eq!(decompress(&packed).unwrap(), b"hello");
    let mut other = packed.clone();
    other[0] = 0xff;
    other[3] = 0x7f;
    assert_eq!(decompress(&other).unwrap(), b"hello");
    assert_eq!(decompress(&pack(b"")).unwrap(), b"");
}

#[test]
fn short_and_corrupt_envelopes_are_errors() {
    assert!(decompress(b"").is_err());
    assert!(decompress(b"ab").is_err());
    assert!(decompress(b"abcd").is_err());
    assert!(decompress(b"abcdefgh").is_err());
    let packed = pack(b"hello hello hello hello");
    assert!(decompress(&packed[..packed.len() - 6]).is_err());
    assert!(decompress(&packed[..6]).is_err());
}

#[test]
fn root_must_be_lmms_project() {
    let root = build_tree(b"<project type=\"song\" creator=\"x\" version=\"1\" creatorversion=\"1\"/>").unwrap();
    assert!(matches!(
        Info::new(&root),
        Err(XMLError::UnexpectedStructure(Structure::RootTag))
    ));
    assert!(matches!(
        MMP::load_mmp(b"<?xml version=\"1.0\"?><other/>"),
        Err(MMPParseError::XML(XMLError::UnexpectedStructure(Structure::RootTag)))
    ));
}

#[test]
fn info_needs_its_four_attributes() {
    let root = build_tree(b"<lmms-project type=\"song\" creator=\"LMMS\" version=\"20\" creatorversion=\"1.3.0\"/>").unwrap();
    let info = Info::new(&root).unwrap();
    assert_eq!(info.ty, "song");
    assert_eq!(info.creator, "LMMS");
    assert_eq!(info.version, 20);
    assert_eq!(info.creator_version, "1.3.0");
    let root = build_tree(b"<lmms-project type=\"song\" version=\"20\" creatorversion=\"1.3.0\"/>").unwrap();
    assert!(matches!(Info::new(&root), Err(XMLError::AttrNotPresent(n)) if n == "creator"));
    let root = build_tree(b"<lmms-project type=\"song\" creator=\"LMMS\" version=\"new\" creatorversion=\"1.3.0\"/>").unwrap();
    assert!(matches!(Info::new(&root), Err(XMLError::TypeCoercionError(n, _)) if n == "version"));
}

#[test]
fn header_has_standard_values() {
    let h = Header::default();
    assert_eq!(h.bpm.as_bytes(), b"140");
    assert_eq!(h.vol.as_bytes(), b"100");
    assert_eq!(h.time_sig, (4, 4));
    assert_eq!(h.master_pitch, 0);
    let bpm: f32 = std::str::from_utf8(h.bpm.as_bytes()).unwrap().parse().unwrap();
    assert_eq!(bpm, 140.0);
    let empty = ProjectFile::empty();
    assert_eq!(empty.head.bpm.as_bytes(), b"140");
    assert!(empty.tracks.is_empty());
}

#[test]
fn header_takes_what_is_there_and_the_standard_for_the_rest() {
    let root = build_tree(b"<head bpm=\"99.5\" masterpitch=\"-12\"/>").unwrap();
    let h = Header::new(&root).unwrap();
    assert_eq!(h.bpm.as_bytes(), b"99.5");
    assert_eq!(h.vol.as_bytes(), b"100");
    assert_eq!(h.time_sig, (4, 4));
    assert_eq!(h.master_pitch, -12);
    let root = build_tree(b"<head/>").unwrap();
    let h = Header::new(&root).unwrap();
    assert_eq!(h.bpm.as_bytes(), b"140");
    let root = build_tree(b"<head bpm=\"fast\"/>").unwrap();
    assert!(matches!(Header::new(&root), Err(XMLError::TypeCoercionError(n, _)) if n == "bpm"));
    let root = build_tree(b"<head timesig_numerator=\"300\"/>").unwrap();
    assert!(Header::new(&root).is_err());
}

#[test]
fn project_without_head_has_the_standard_header() {
    let doc = b"<?xml version=\"1.0\"?><lmms-project type=\"song\" creator=\"LMMS\" version=\"1.0\" creatorversion=\"1\"><song><trackcontainer/></song></lmms-project>";
    let p = MMP::load_mmp(doc).unwrap();
    assert_eq!(p.header.bpm.as_bytes(), b"140");
    assert_eq!(p.header.time_sig, (4, 4));
    assert!(p.song_info.tracks.is_empty());
}

#[test]
fn project_needs_a_song_with_a_track_container() {
    let doc = b"<?xml version=\"1.0\"?><lmms-project type=\"song\" creator=\"LMMS\" version=\"1.0\" creatorversion=\"1\"><head/></lmms-project>";
    assert!(matches!(
        MMP::load_mmp(doc),
        Err(MMPParseError::XML(XMLError::TagNotPresent(t))) if t == "song"
    ));
    let root = build_tree(b"<song/>").unwrap();
    assert!(matches!(SongInfo::new(&root), Err(XMLError::TagNotPresent(t)) if t == "trackcontainer"));
    let root = build_tree(b"<song><trackcontainer><track type=\"2\"/><clip/></trackcontainer></song>").unwrap();
    assert!(matches!(
        SongInfo::new(&root),
        Err(XMLError::UnexpectedStructure(Structure::ChildTag))
    ));
}

#[test]
fn header_round_trip() {
    let root = build_tree(b"<head bpm=\"0120.50\" mastervol=\"1e2\" timesig_numerator=\"+07\" timesig_denominator=\"008\" masterpitch=\"-003\"/>").unwrap();
    let h = Header::new(&root).unwrap();
    assert_eq!(h.time_sig, (7, 8));
    assert_eq!(h.master_pitch, -3);
    let written = h.element();
    assert_eq!(written.raw_tag, b"head");
    assert_eq!(
        written.attributes,
        vec![
            (b"bpm".to_vec(), b"0120.50".to_vec()),
            (b"mastervol".to_vec(), b"1e2".to_vec()),
            (b"timesig_numerator".to_vec(), b"7".to_vec()),
            (b"timesig_denominator".to_vec(), b"8".to_vec()),
            (b"masterpitch".to_vec(), b"-3".to_vec()),
        ]
    );
    assert_eq!(h.attributes(), written.attributes);
    let again = Header::new(&written).unwrap();
    assert!(again.bpm.same(&h.bpm));
    assert!(again.vol.same(&h.vol));
    assert_eq!(again.time_sig, h.time_sig);
    assert_eq!(again.master_pitch, h.master_pitch);
    let d = Header::new(&Header::default().element()).unwrap();
    assert_eq!(d.bpm.as_bytes(), b"140");
    assert_eq!(d.master_pitch, 0);
}

#[test]
fn track_type_seven_is_unknown() {
    let root = build_tree(b"<track type=\"7\"/>").unwrap();
    assert!(matches!(Track::parse(&root), Err(XMLError::UnknownDiscriminant(7))));
    let root = build_tree(b"<track type=\"-1\"/>").unwrap();
    assert!(matches!(Track::parse(&root), Err(XMLError::UnknownDiscriminant(-1))));
}

#[test]
fn instrument_track_without_data_has_none() {
    let root = build_tree(b"<track type=\"0\" name=\"empty\"/>").unwrap();
    let t = Track::parse(&root).unwrap();
    assert_eq!(t.name, "empty");
    assert!(!t.mute);
    assert!(!t.solo);
    assert!(matches!(t.body, TrackBody::Instrument(None)));
    let root = build_tree(b"<track type=\"0\"></track>").unwrap();
    assert!(matches!(Track::parse(&root).unwrap().body, TrackBody::Instrument(None)));
}

#[test]
fn track_kinds_follow_their_codes() {
    let kinds = ["1", "2", "3", "4", "5", "6", "01", "+2"];
    for (i, k) in kinds.iter().enumerate() {
        let doc = format!("<track type=\"{}\"/>", k);
        let root = build_tree(doc.as_bytes()).unwrap();
        let body = Track::parse(&root).unwrap().body;
        let ok = match i {
            0 | 6 => matches!(body, TrackBody::Pattern(_)),
            1 | 7 => matches!(body, TrackBody::Sample(_)),
            2 => matches!(body, TrackBody::Unused3),
            3 => matches!(body, TrackBody::Unused4),
            4 => matches!(body, TrackBody::Automation(_)),
            _ => matches!(body, TrackBody::HiddenAutomation(_)),
        };
        assert!(ok, "{}", k);
    }
}

#[test]
fn track_needs_its_type_and_reads_truth_values_strictly() {
    let root = build_tree(b"<track name=\"x\"/>").unwrap();
    assert!(matches!(Track::parse(&root), Err(XMLError::AttrNotPresent(n)) if n == "type"));
    let root = build_tree(b"<track type=\"x\"/>").unwrap();
    assert!(matches!(Track::parse(&root), Err(XMLError::TypeCoercionError(n, _)) if n == "type"));
    let root = build_tree(b"<track type=\"1\" solo=\"yes\"/>").unwrap();
    assert!(matches!(Track::parse(&root), Err(XMLError::TypeCoercionError(n, _)) if n == "solo"));
    let root = build_tree(b"<track type=\"1\" muted=\"2\"/>").unwrap();
    assert!(matches!(Track::parse(&root), Err(XMLError::TypeCoercionError(n, _)) if n == "muted"));
    let root = build_tree(b"<track type=\"1\" solo=\"1\" muted=\"0\" mutedBeforeSolo=\"what\"/>").unwrap();
    let t = Track::parse(&root).unwrap();
    assert!(t.solo);
    assert!(!t.mute);
}

#[test]
fn instrument_data_must_stand_in_an_instrument_track_once() {
    let payload = "<instrumenttrack vol=\"1\" pan=\"0\" firstkey=\"0\" lastkey=\"1\" basenote=\"2\"><instrument name=\"organic\"><organic/></instrument></instrumenttrack>";
    let doc = format!("<track type=\"2\">{}</track>", payload);
    let root = build_tree(doc.as_bytes()).unwrap();
    assert!(matches!(
        Track::parse(&root),
        Err(XMLError::UnexpectedStructure(Structure::MisplacedInstrument))
    ));
    let doc = format!("<track type=\"0\">{}{}</track>", payload, payload);
    let root = build_tree(doc.as_bytes()).unwrap();
    assert!(matches!(
        Track::parse(&root),
        Err(XMLError::UnexpectedStructure(Structure::InstrumentCount))
    ));
    let doc = format!("<track type=\"0\">{}<midiclip/></track>", payload);
    let root = build_tree(doc.as_bytes()).unwrap();
    assert!(matches!(
        Track::parse(&root),
        Err(XMLError::UnexpectedStructure(Structure::ChildTag))
    ));
    let doc = format!("<track type=\"0\">{}</track>", payload);
    let root = build_tree(doc.as_bytes()).unwrap();
    match Track::parse(&root).unwrap().body {
        TrackBody::Instrument(Some(p)) => {
            assert!(matches!(p.instrument, Instrument::Organic { .. }));
            assert_eq!(p.base_note, 2);
        }
        other => panic!("{:?}", other),
    }
}

#[test]
fn instrument_track_needs_its_attributes_and_a_known_instrument() {
    let root = build_tree(b"<instrumenttrack vol=\"1\" pan=\"0\" firstkey=\"0\" lastkey=\"1\"/>").unwrap();
    assert!(matches!(InstrumentTrack::parse(&root), Err(XMLError::AttrNotPresent(n)) if n == "basenote"));
    let root = build_tree(b"<instrumenttrack vol=\"1\" pan=\"0\" firstkey=\"0\" lastkey=\"1\" basenote=\"2\"/>").unwrap();
    assert!(matches!(InstrumentTrack::parse(&root), Err(XMLError::TagNotPresent(n)) if n == "instrument"));
    let root = build_tree(b"<instrument name=\"sf2player\"><sf2player/></instrument>").unwrap();
    assert!(matches!(
        Instrument::new(&root),
        Err(XMLError::UnexpectedStructure(Structure::InstrumentKind))
    ));
    let root = build_tree(b"<instrument name=\"organic\"/>").unwrap();
    assert!(matches!(Instrument::new(&root), Err(XMLError::TagNotPresent(n)) if n == "organic"));
    let root = build_tree(b"<instrument name=\"tripleoscillator\"><organic/></instrument>").unwrap();
    assert!(matches!(Instrument::new(&root), Err(XMLError::TagNotPresent(n)) if n == "tripleoscillator"));
    let root = build_tree(b"<instrument/>").unwrap();
    assert!(matches!(Instrument::new(&root), Err(XMLError::AttrNotPresent(n)) if n == "name"));
}

#[test]
fn pattern_element_is_read_without_its_surroundings() {
    let root = build_tree(b"<pattern steps=\"8\" type=\"0\" muted=\"1\" name=\"p\" pos=\"0\"><note len=\"1\" key=\"2\" vol=\"3\" pan=\"4\" pos=\"5\"/></pattern>").unwrap();
    let p = Pattern::from_xml(&root).unwrap();
    assert_eq!(
        p,
        Pattern {
            ty: 0,
            muted: 1,
            name: "p".to_string(),
            pos: 0,
            steps: 8,
            notes: vec![Note { len: 1, key: 2, vol: 3, pan: 4, pos: 5 }]
        }
    );
    assert_eq!(Note::from_xml(&root.children[0]).unwrap(), Note { len: 1, key: 2, vol: 3, pan: 4, pos: 5 });
    let root = build_tree(b"<pattern steps=\"8\" type=\"0\" muted=\"1\" name=\"p\" pos=\"0\"><note len=\"1\" key=\"2\" vol=\"3\" pan=\"4\"/></pattern>").unwrap();
    assert!(matches!(Pattern::from_xml(&root), Err(XMLError::AttrNotPresent(n)) if n == "pos"));
    let root = build_tree(b"<pattern steps=\"8\" type=\"0\" muted=\"1\" pos=\"0\"/>").unwrap();
    assert!(matches!(Pattern::from_xml(&root), Err(XMLError::AttrNotPresent(n)) if n == "name"));
    let root = build_tree(b"<pattern steps=\"800\" type=\"0\" muted=\"1\" name=\"p\" pos=\"0\"/>").unwrap();
    assert!(matches!(Pattern::from_xml(&root), Err(XMLError::TypeCoercionError(n, _)) if n == "steps"));
}

#[test]
fn pattern_file_needs_a_pattern_element() {
    let doc = b"<?xml version=\"1.0\"?><lmms-project type=\"pattern\" creator=\"LMMS\" version=\"1.0\" creatorversion=\"1\"><head/></lmms-project>";
    assert!(matches!(
        Pattern::load_xpt(doc),
        Err(Error::Xml(XMLError::TagNotPresent(t))) if t == "pattern"
    ));
    let root = build_tree(doc).unwrap();
    assert!(Pattern::parse_xpt(&root).is_err());
    let root = build_tree(&chords()).unwrap();
    assert_eq!(Pattern::parse_xpt(&root).unwrap(), expected_chords());
    let root = build_tree(&song()).unwrap();
    assert!(MMP::parse_mmp(&root).is_ok());
}
