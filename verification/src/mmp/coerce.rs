//! Reading the text of an attribute as a value of a given type.

use crate::mmp::text::{
    check_float_literal, decimal_text, format_integer, integer_text, is_float_literal,
    lemma_decimal_text_is_float_literal, parse_integer, parse_version, version_text, Cause,
};
use crate::mmp::xml::{CoercionFailure, Target, TypeCoercionError};
use vstd::prelude::*;
use vstd::string::StringSliceAdditionalSpecFns;

verus! {

/// A type that the text of an attribute can be read as.
pub trait Coerce: Sized + View {
    /// The name of the type in errors.
    spec fn target() -> Target;

    /// What a text denotes: a value, or the reason why it denotes none.
    spec fn denoted(text: Seq<u8>) -> Result<Self::V, Cause>;

    /// Reads `text` as a value of this type. It never panics: a text that
    /// denotes no value gives an error that holds the text.
    fn coerce(text: &str) -> (r: Result<Self, TypeCoercionError>)
        ensures
            match Self::denoted(text.spec_bytes()) {
                Ok(v) => r matches Ok(x) && x@ == v,
                Err(cause) => r matches Err(e) && e@ == (CoercionFailure {
                    input: text@,
                    target: Self::target(),
                    cause,
                }),
            },
    ;
}

impl Coerce for u8 {
    open spec fn target() -> Target {
        Target::U8
    }

    open spec fn denoted(text: Seq<u8>) -> Result<u8, Cause> {
        match integer_text(text, false, 0, 0xff) {
            Ok(v) => Ok(v as u8),
            Err(cause) => Err(cause),
        }
    }

    fn coerce(text: &str) -> (r: Result<Self, TypeCoercionError>) {
        match parse_integer(text.as_bytes(), false, 0, 0xff) {
            Ok(v) => Ok(v as u8),
            Err(cause) => Err(TypeCoercionError::new(text, Target::U8, cause)),
        }
    }
}

impl Coerce for i8 {
    open spec fn target() -> Target {
        Target::I8
    }

    open spec fn denoted(text: Seq<u8>) -> Result<i8, Cause> {
        match integer_text(text, true, -0x80, 0x7f) {
            Ok(v) => Ok(v as i8),
            Err(cause) => Err(cause),
        }
    }

    fn coerce(text: &str) -> (r: Result<Self, TypeCoercionError>) {
        match parse_integer(text.as_bytes(), true, -0x80, 0x7f) {
            Ok(v) => Ok(v as i8),
            Err(cause) => Err(TypeCoercionError::new(text, Target::I8, cause)),
        }
    }
}

impl Coerce for u16 {
    open spec fn target() -> Target {
        Target::U16
    }

    open spec fn denoted(text: Seq<u8>) -> Result<u16, Cause> {
        match integer_text(text, false, 0, 0xffff) {
            Ok(v) => Ok(v as u16),
            Err(cause) => Err(cause),
        }
    }

    fn coerce(text: &str) -> (r: Result<Self, TypeCoercionError>) {
        match parse_integer(text.as_bytes(), false, 0, 0xffff) {
            Ok(v) => Ok(v as u16),
            Err(cause) => Err(TypeCoercionError::new(text, Target::U16, cause)),
        }
    }
}

impl Coerce for i32 {
    open spec fn target() -> Target {
        Target::I32
    }

    open spec fn denoted(text: Seq<u8>) -> Result<i32, Cause> {
        match integer_text(text, true, -0x8000_0000, 0x7fff_ffff) {
            Ok(v) => Ok(v as i32),
            Err(cause) => Err(cause),
        }
    }

    fn coerce(text: &str) -> (r: Result<Self, TypeCoercionError>) {
        match parse_integer(text.as_bytes(), true, -0x8000_0000, 0x7fff_ffff) {
            Ok(v) => Ok(v as i32),
            Err(cause) => Err(TypeCoercionError::new(text, Target::I32, cause)),
        }
    }
}

impl Coerce for u32 {
    open spec fn target() -> Target {
        Target::U32
    }

    open spec fn denoted(text: Seq<u8>) -> Result<u32, Cause> {
        match integer_text(text, false, 0, 0xffff_ffff) {
            Ok(v) => Ok(v as u32),
            Err(cause) => Err(cause),
        }
    }

    fn coerce(text: &str) -> (r: Result<Self, TypeCoercionError>) {
        match parse_integer(text.as_bytes(), false, 0, 0xffff_ffff) {
            Ok(v) => Ok(v as u32),
            Err(cause) => Err(TypeCoercionError::new(text, Target::U32, cause)),
        }
    }
}

impl Coerce for usize {
    open spec fn target() -> Target {
        Target::Usize
    }

    open spec fn denoted(text: Seq<u8>) -> Result<usize, Cause> {
        match integer_text(text, false, 0, usize::MAX as int) {
            Ok(v) => Ok(v as usize),
            Err(cause) => Err(cause),
        }
    }

    fn coerce(text: &str) -> (r: Result<Self, TypeCoercionError>) {
        match parse_integer(text.as_bytes(), false, 0, usize::MAX as i128) {
            Ok(v) => Ok(v as usize),
            Err(cause) => Err(TypeCoercionError::new(text, Target::Usize, cause)),
        }
    }
}

/// A truth value is written `1` for true and `0` for false, and in no other
/// way.
impl Coerce for bool {
    open spec fn target() -> Target {
        Target::Bool
    }

    open spec fn denoted(text: Seq<u8>) -> Result<bool, Cause> {
        if text == seq![49u8] {
            Ok(true)
        } else if text == seq![48u8] {
            Ok(false)
        } else {
            Err(Cause::InvalidBool)
        }
    }

    fn coerce(text: &str) -> (r: Result<Self, TypeCoercionError>) {
        let bytes = text.as_bytes();
        if bytes.len() == 1 && bytes[0] == 49 {
            assert(bytes@ =~= seq![49u8]);
            Ok(true)
        } else if bytes.len() == 1 && bytes[0] == 48 {
            assert(bytes@ =~= seq![48u8]);
            Ok(false)
        } else {
            assert(bytes@ != seq![49u8] && bytes@ != seq![48u8]) by {
                if bytes@.len() == 1 {
                    assert(seq![49u8][0] == 49 && seq![48u8][0] == 48);
                } else {
                    assert(seq![49u8].len() == 1 && seq![48u8].len() == 1);
                }
            }
            Err(TypeCoercionError::new(text, Target::Bool, Cause::InvalidBool))
        }
    }
}

/// Every text is itself.
impl Coerce for String {
    open spec fn target() -> Target {
        Target::Text
    }

    open spec fn denoted(text: Seq<u8>) -> Result<Seq<char>, Cause> {
        Ok(vstd::utf8::decode_utf8(text))
    }

    fn coerce(text: &str) -> (r: Result<Self, TypeCoercionError>) {
        proof {
            vstd::utf8::encode_utf8_decode_utf8(text@);
        }
        Ok(text.to_owned())
    }
}

/// A real number, held as the floating-point literal that denotes it: an
/// optional sign, then digits with at most one `.` among them and an optional
/// exponent, or one of the words `inf`, `infinity` and `nan`. The library
/// checks the literal and compares it as text; it does not compute with it.
#[derive(Debug)]
pub struct Real {
    text: Vec<u8>,
}

impl View for Real {
    type V = Seq<u8>;

    closed spec fn view(&self) -> Seq<u8> {
        self.text@
    }
}

impl Clone for Real {
    fn clone(&self) -> (r: Self)
        ensures
            r@ == self@,
    {
        proof {
            use_type_invariant(self);
        }
        let text = self.text.clone();
        assert(text@ =~= self.text@);
        Real { text }
    }
}

impl Real {
    #[verifier::type_invariant]
    spec fn well_formed(self) -> bool {
        is_float_literal(self.text@)
    }

    /// The number that `text` denotes, where it is a floating-point literal.
    pub fn parse(text: &[u8]) -> (r: Option<Real>)
        ensures
            match r {
                Some(x) => is_float_literal(text@) && x@ == text@,
                None => !is_float_literal(text@),
            },
    {
        if check_float_literal(text) {
            Some(Real { text: vstd::slice::slice_to_vec(text) })
        } else {
            None
        }
    }

    /// The integer `v` as a real number.
    pub fn from_integer(v: i64) -> (r: Real)
        ensures
            r@ == decimal_text(v as int),
    {
        proof {
            lemma_decimal_text_is_float_literal(v as int);
        }
        Real { text: format_integer(v as i128) }
    }

    /// The literal, which is a floating-point literal whatever the value.
    pub fn as_bytes(&self) -> (text: &[u8])
        ensures
            text@ == self@,
            is_float_literal(text@),
    {
        proof {
            use_type_invariant(self);
        }
        self.text.as_slice()
    }

    /// The two numbers are written alike.
    pub fn same(&self, other: &Real) -> (r: bool)
        ensures
            r == (self@ == other@),
    {
        crate::mmp::text::bytes_eq(self.text.as_slice(), other.text.as_slice())
    }
}

impl Coerce for Real {
    open spec fn target() -> Target {
        Target::Real
    }

    open spec fn denoted(text: Seq<u8>) -> Result<Seq<u8>, Cause> {
        if text.len() == 0 {
            Err(Cause::Empty)
        } else if is_float_literal(text) {
            Ok(text)
        } else {
            Err(Cause::InvalidFloat)
        }
    }

    fn coerce(text: &str) -> (r: Result<Self, TypeCoercionError>) {
        let bytes = text.as_bytes();
        match Real::parse(bytes) {
            Some(x) => Ok(x),
            None => if bytes.len() == 0 {
                Err(TypeCoercionError::new(text, Target::Real, Cause::Empty))
            } else {
                Err(TypeCoercionError::new(text, Target::Real, Cause::InvalidFloat))
            },
        }
    }
}

/// The version of the format that a file was written in. Old files write it
/// with a fraction, as in `1.0`; the version is the integer before it.
#[derive(Clone, Copy, Debug, PartialEq, Eq, Structural)]
pub struct Version(pub usize);

impl View for Version {
    type V = usize;

    open spec fn view(&self) -> usize {
        self.0
    }
}

impl Coerce for Version {
    open spec fn target() -> Target {
        Target::Version
    }

    open spec fn denoted(text: Seq<u8>) -> Result<usize, Cause> {
        match version_text(text, usize::MAX as int) {
            Ok(v) => Ok(v as usize),
            Err(cause) => Err(cause),
        }
    }

    fn coerce(text: &str) -> (r: Result<Self, TypeCoercionError>) {
        match parse_version(text.as_bytes(), usize::MAX as i128) {
            Ok(v) => Ok(Version(v as usize)),
            Err(cause) => Err(TypeCoercionError::new(text, Target::Version, cause)),
        }
    }
}

} // verus!
