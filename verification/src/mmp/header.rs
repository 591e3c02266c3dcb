//! The header of a project: tempo, master volume, master pitch and time
//! signature.

use crate::mmp::coerce::Real;
use crate::mmp::text::{decimal_text, format_integer, is_float_literal};
use crate::mmp::text::{lemma_ascii_is_utf8, lemma_decimal_text_is_ascii};
use crate::mmp::text::{lemma_decimal_text_reads_back, lemma_float_literal_is_ascii};
use crate::mmp::xml::{agrees, attribute_from, attributes_view, read_as};
use crate::mmp::xml::{Failure, Node, NodeView, XMLError};
use vstd::prelude::*;
use vstd::string::StringSliceAdditionalSpecFns;

verus! {

/// The header of a project. The tempo is in beats per minute.
#[derive(Debug)]
pub struct Header {
    pub bpm: Real,
    pub vol: Real,
    pub time_sig: (u8, u8),
    pub master_pitch: i8,
}

/// A `Header` as a value of specifications; a real number is the text of its
/// literal.
pub struct HeaderView {
    pub bpm: Seq<u8>,
    pub vol: Seq<u8>,
    pub time_sig: (u8, u8),
    pub master_pitch: i8,
}

impl View for Header {
    type V = HeaderView;

    open spec fn view(&self) -> HeaderView {
        HeaderView {
            bpm: self.bpm@,
            vol: self.vol@,
            time_sig: self.time_sig,
            master_pitch: self.master_pitch,
        }
    }
}

impl HeaderView {
    /// The header of a project that says nothing of it: 140 beats per
    /// minute, a volume of 100, four quarters to the bar and no change of
    /// pitch.
    pub open spec fn standard() -> HeaderView {
        HeaderView {
            bpm: decimal_text(140),
            vol: decimal_text(100),
            time_sig: (4, 4),
            master_pitch: 0,
        }
    }

    /// The real numbers of the header are floating-point literals.
    pub open spec fn valid(self) -> bool {
        is_float_literal(self.bpm) && is_float_literal(self.vol)
    }

    /// The five attributes that say what the header holds.
    pub open spec fn attributes(self) -> Seq<(Seq<u8>, Seq<u8>)> {
        seq![
            ("bpm".spec_bytes(), self.bpm),
            ("mastervol".spec_bytes(), self.vol),
            ("timesig_numerator".spec_bytes(), decimal_text(self.time_sig.0 as int)),
            ("timesig_denominator".spec_bytes(), decimal_text(self.time_sig.1 as int)),
            ("masterpitch".spec_bytes(), decimal_text(self.master_pitch as int)),
        ]
    }

    /// The `head` element that says what the header holds.
    pub open spec fn element(self) -> NodeView {
        NodeView {
            tag: "head".spec_bytes(),
            attributes: self.attributes(),
            children: Seq::empty(),
            path: Seq::empty(),
        }
    }
}

/// The header that a `head` element describes. Each of the attributes
/// `bpm`, `mastervol`, `timesig_numerator`, `timesig_denominator` and
/// `masterpitch` may be missing, and the header then has the standard value
/// in its place. One that is there and cannot be read is an error.
pub open spec fn header_of(element: NodeView) -> Result<HeaderView, Failure> {
    let standard = HeaderView::standard();
    match element.typed_or::<Real>("bpm"@, standard.bpm) {
        Err(failure) => Err(failure),
        Ok(bpm) => match element.typed_or::<Real>("mastervol"@, standard.vol) {
            Err(failure) => Err(failure),
            Ok(vol) => match element.typed_or::<u8>("timesig_numerator"@, standard.time_sig.0) {
                Err(failure) => Err(failure),
                Ok(numerator) => match element.typed_or::<u8>(
                    "timesig_denominator"@,
                    standard.time_sig.1,
                ) {
                    Err(failure) => Err(failure),
                    Ok(denominator) => match element.typed_or::<i8>(
                        "masterpitch"@,
                        standard.master_pitch,
                    ) {
                        Err(failure) => Err(failure),
                        Ok(master_pitch) => Ok(
                            HeaderView {
                                bpm,
                                vol,
                                time_sig: (numerator, denominator),
                                master_pitch,
                            },
                        ),
                    },
                },
            },
        },
    }
}

impl Default for Header {
    fn default() -> (h: Self)
        ensures
            h@ == HeaderView::standard(),
    {
        Header {
            bpm: Real::from_integer(140),
            vol: Real::from_integer(100),
            time_sig: (4, 4),
            master_pitch: 0,
        }
    }
}

impl Header {
    /// Reads the header that a `head` element describes.
    pub fn new(xml: &Node) -> (r: Result<Self, XMLError>)
        ensures
            agrees(r, header_of(xml@)),
    {
        let bpm = xml.get_attribute_or::<Real>("bpm", Real::from_integer(140))?;
        let vol = xml.get_attribute_or::<Real>("mastervol", Real::from_integer(100))?;
        let numerator = xml.get_attribute_or::<u8>("timesig_numerator", 4)?;
        let denominator = xml.get_attribute_or::<u8>("timesig_denominator", 4)?;
        let master_pitch = xml.get_attribute_or::<i8>("masterpitch", 0)?;
        Ok(Header { bpm, vol, time_sig: (numerator, denominator), master_pitch })
    }

    /// The five attributes that say what the header holds.
    pub fn attributes(&self) -> (r: Vec<(Vec<u8>, Vec<u8>)>)
        ensures
            attributes_view(r@) == self@.attributes(),
    {
        let mut r: Vec<(Vec<u8>, Vec<u8>)> = Vec::new();
        r.push(
            (
                vstd::slice::slice_to_vec("bpm".as_bytes()),
                vstd::slice::slice_to_vec(self.bpm.as_bytes()),
            ),
        );
        r.push(
            (
                vstd::slice::slice_to_vec("mastervol".as_bytes()),
                vstd::slice::slice_to_vec(self.vol.as_bytes()),
            ),
        );
        r.push(
            (
                vstd::slice::slice_to_vec("timesig_numerator".as_bytes()),
                format_integer(self.time_sig.0 as i128),
            ),
        );
        r.push(
            (
                vstd::slice::slice_to_vec("timesig_denominator".as_bytes()),
                format_integer(self.time_sig.1 as i128),
            ),
        );
        r.push(
            (
                vstd::slice::slice_to_vec("masterpitch".as_bytes()),
                format_integer(self.master_pitch as i128),
            ),
        );
        assert(attributes_view(r@) =~= self@.attributes());
        r
    }

    /// The `head` element that says what the header holds.
    pub fn element(&self) -> (r: Node)
        ensures
            r@ == self@.element(),
            self@.valid(),
    {
        let bpm = self.bpm.as_bytes();
        let vol = self.vol.as_bytes();
        let r = Node::new(
            Vec::new(),
            vstd::slice::slice_to_vec("head".as_bytes()),
            self.attributes(),
            Vec::new(),
        );
        assert(r@.children =~= Seq::empty());
        r
    }
}

/// Two names that differ as texts differ as bytes.
pub proof fn lemma_names_differ(a: Seq<char>, b: Seq<char>)
    requires
        a != b,
    ensures
        vstd::utf8::encode_utf8(a) != vstd::utf8::encode_utf8(b),
{
    vstd::utf8::encode_utf8_decode_utf8(a);
    vstd::utf8::encode_utf8_decode_utf8(b);
}

/// An attribute whose value is a floating-point literal reads as that
/// literal.
pub proof fn lemma_reads_real(name: Seq<char>, raw: Seq<u8>)
    requires
        is_float_literal(raw),
    ensures
        read_as::<Real>(name, raw) == Ok::<Seq<u8>, Failure>(raw),
{
    lemma_float_literal_is_ascii(raw);
    lemma_ascii_is_utf8(raw);
}

/// An attribute whose value is the decimal text of a `u8` reads as that
/// number.
pub proof fn lemma_reads_u8(name: Seq<char>, v: u8)
    ensures
        read_as::<u8>(name, decimal_text(v as int)) == Ok::<u8, Failure>(v),
{
    lemma_decimal_text_is_ascii(v as int);
    lemma_ascii_is_utf8(decimal_text(v as int));
    lemma_decimal_text_reads_back(v as int, false, 0, 0xff);
}

/// An attribute whose value is the decimal text of an `i8` reads as that
/// number.
pub proof fn lemma_reads_i8(name: Seq<char>, v: i8)
    ensures
        read_as::<i8>(name, decimal_text(v as int)) == Ok::<i8, Failure>(v),
{
    lemma_decimal_text_is_ascii(v as int);
    lemma_ascii_is_utf8(decimal_text(v as int));
    lemma_decimal_text_reads_back(v as int, true, -0x80, 0x7f);
}

/// A header that is written as its five attributes and read again is the
/// same header: reading undoes writing, whatever the header holds.
pub proof fn lemma_header_round_trip(h: HeaderView)
    requires
        h.valid(),
    ensures
        header_of(h.element()) == Ok::<HeaderView, Failure>(h),
{
    reveal_strlit("bpm");
    reveal_strlit("mastervol");
    reveal_strlit("timesig_numerator");
    reveal_strlit("timesig_denominator");
    reveal_strlit("masterpitch");
    let a = h.attributes();
    let bpm = "bpm"@;
    let vol = "mastervol"@;
    let num = "timesig_numerator"@;
    let den = "timesig_denominator"@;
    let pitch = "masterpitch"@;
    assert(bpm.len() == 3 && vol.len() == 9 && num.len() == 17 && den.len() == 19 && pitch.len()
        == 11);
    lemma_names_differ(vol, bpm);
    lemma_names_differ(num, bpm);
    lemma_names_differ(num, vol);
    lemma_names_differ(den, bpm);
    lemma_names_differ(den, vol);
    lemma_names_differ(den, num);
    lemma_names_differ(pitch, bpm);
    lemma_names_differ(pitch, vol);
    lemma_names_differ(pitch, num);
    lemma_names_differ(pitch, den);
    let e = |name: Seq<char>| vstd::utf8::encode_utf8(name);
    assert(attribute_from(a, e(pitch), 5) is None);
    assert(attribute_from(a, e(pitch), 4) == Some(a[4].1));
    assert(attribute_from(a, e(pitch), 3) == Some(a[4].1));
    assert(attribute_from(a, e(pitch), 2) == Some(a[4].1));
    assert(attribute_from(a, e(pitch), 1) == Some(a[4].1));
    assert(attribute_from(a, e(pitch), 0) == Some(a[4].1));
    assert(attribute_from(a, e(den), 3) == Some(a[3].1));
    assert(attribute_from(a, e(den), 2) == Some(a[3].1));
    assert(attribute_from(a, e(den), 1) == Some(a[3].1));
    assert(attribute_from(a, e(den), 0) == Some(a[3].1));
    assert(attribute_from(a, e(num), 2) == Some(a[2].1));
    assert(attribute_from(a, e(num), 1) == Some(a[2].1));
    assert(attribute_from(a, e(num), 0) == Some(a[2].1));
    assert(attribute_from(a, e(vol), 1) == Some(a[1].1));
    assert(attribute_from(a, e(vol), 0) == Some(a[1].1));
    assert(attribute_from(a, e(bpm), 0) == Some(a[0].1));
    lemma_reads_real(bpm, h.bpm);
    lemma_reads_real(vol, h.vol);
    lemma_reads_u8(num, h.time_sig.0);
    lemma_reads_u8(den, h.time_sig.1);
    lemma_reads_i8(pitch, h.master_pitch);
}

/// A header that was read from an element is read again from the element
/// that says what it holds.
pub proof fn lemma_header_reread(element: NodeView, h: HeaderView)
    requires
        header_of(element) == Ok::<HeaderView, Failure>(h),
    ensures
        header_of(h.element()) == Ok::<HeaderView, Failure>(h),
{
    crate::mmp::text::lemma_decimal_text_is_float_literal(140);
    crate::mmp::text::lemma_decimal_text_is_float_literal(100);
    lemma_header_round_trip(h);
}

} // verus!
