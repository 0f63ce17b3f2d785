//! Scalar widths and encodings of the builtin numeric and character types.
use vstd::prelude::*;

verus! {

/// The width and signedness an integer type was written with.
#[derive(Clone, Copy, Debug, PartialEq, Eq, Structural, Hash, PartialOrd, Ord)]
pub enum IntWidth {
    I8,
    I16,
    I32,
    I64,
    I128,
    Arch,
    U8,
    U16,
    U32,
    U64,
    U128,
    UArch,
}

/// The width of a floating-point type.
#[derive(Clone, Copy, Debug, PartialEq, Eq, Structural, Hash, PartialOrd, Ord)]
pub enum FloatWidth {
    F32,
    F64,
    Arch,
}

/// The encoding of a character type.
#[derive(Clone, Copy, Debug, PartialEq, Eq, Structural, Hash, PartialOrd, Ord)]
pub enum CharEncoding {
    Utf8,
    Utf16,
    Utf32,
}

/// The size written in a parsed integer or float type (`int[8]`, `flt[arch]`).
#[derive(Clone, Copy, Debug, PartialEq, Eq, Structural)]
pub enum IntSize {
    I8,
    I16,
    I32,
    I64,
    I128,
    Arch,
}

/// The size written in a parsed float type.
#[derive(Clone, Copy, Debug, PartialEq, Eq, Structural)]
pub enum FloatSize {
    F32,
    F64,
    Arch,
}

/// The spelling of an integer width in FOL source.
pub open spec fn int_spelling(w: IntWidth) -> Seq<char> {
    match w {
        IntWidth::I8 => "i8"@,
        IntWidth::I16 => "i16"@,
        IntWidth::I32 => "i32"@,
        IntWidth::I64 => "int"@,
        IntWidth::I128 => "i128"@,
        IntWidth::Arch => "arch"@,
        IntWidth::U8 => "u8"@,
        IntWidth::U16 => "u16"@,
        IntWidth::U32 => "u32"@,
        IntWidth::U64 => "u64"@,
        IntWidth::U128 => "u128"@,
        IntWidth::UArch => "uarch"@,
    }
}

/// The spelling of a float width in FOL source.
pub open spec fn float_spelling(w: FloatWidth) -> Seq<char> {
    match w {
        FloatWidth::F32 => "f32"@,
        FloatWidth::F64 => "flt"@,
        FloatWidth::Arch => "farch"@,
    }
}

/// The spelling of a character encoding in FOL source.
pub open spec fn char_spelling(e: CharEncoding) -> Seq<char> {
    match e {
        CharEncoding::Utf8 => "utf8"@,
        CharEncoding::Utf16 => "utf16"@,
        CharEncoding::Utf32 => "chr"@,
    }
}

impl IntWidth {
    /// The width an unsized `int` stands for.
    pub const DEFAULT: IntWidth = IntWidth::I64;

    /// Every integer width.
    pub const ALL: [IntWidth; 12] = [
        IntWidth::I8,
        IntWidth::I16,
        IntWidth::I32,
        IntWidth::I64,
        IntWidth::I128,
        IntWidth::Arch,
        IntWidth::U8,
        IntWidth::U16,
        IntWidth::U32,
        IntWidth::U64,
        IntWidth::U128,
        IntWidth::UArch,
    ];

    /// The source spelling of this width; the default width is `int`.
    pub fn fol_spelling(&self) -> (r: &'static str)
        ensures
            r@ == int_spelling(*self),
    {
        proof {
            reveal_strlit("i8");
            reveal_strlit("i16");
            reveal_strlit("i32");
            reveal_strlit("int");
            reveal_strlit("i128");
            reveal_strlit("arch");
            reveal_strlit("u8");
            reveal_strlit("u16");
            reveal_strlit("u32");
            reveal_strlit("u64");
            reveal_strlit("u128");
            reveal_strlit("uarch");
        }
        match self {
            IntWidth::I8 => "i8",
            IntWidth::I16 => "i16",
            IntWidth::I32 => "i32",
            IntWidth::I64 => "int",
            IntWidth::I128 => "i128",
            IntWidth::Arch => "arch",
            IntWidth::U8 => "u8",
            IntWidth::U16 => "u16",
            IntWidth::U32 => "u32",
            IntWidth::U64 => "u64",
            IntWidth::U128 => "u128",
            IntWidth::UArch => "uarch",
        }
    }
}

impl FloatWidth {
    /// The width an unsized `flt` stands for.
    pub const DEFAULT: FloatWidth = FloatWidth::F64;

    /// The source spelling of this width; the default width is `flt`.
    pub fn fol_spelling(&self) -> (r: &'static str)
        ensures
            r@ == float_spelling(*self),
    {
        proof {
            reveal_strlit("f32");
            reveal_strlit("flt");
            reveal_strlit("farch");
        }
        match self {
            FloatWidth::F32 => "f32",
            FloatWidth::F64 => "flt",
            FloatWidth::Arch => "farch",
        }
    }
}

impl CharEncoding {
    /// The encoding an unsized `chr` stands for.
    pub const DEFAULT: CharEncoding = CharEncoding::Utf32;

    /// Every character encoding.
    pub const ALL: [CharEncoding; 3] = [CharEncoding::Utf8, CharEncoding::Utf16, CharEncoding::Utf32];

    /// The source spelling of this encoding; the default encoding is `chr`.
    pub fn fol_spelling(&self) -> (r: &'static str)
        ensures
            r@ == char_spelling(*self),
    {
        proof {
            reveal_strlit("utf8");
            reveal_strlit("utf16");
            reveal_strlit("chr");
        }
        match self {
            CharEncoding::Utf8 => "utf8",
            CharEncoding::Utf16 => "utf16",
            CharEncoding::Utf32 => "chr",
        }
    }
}

/// The integer width of a parsed integer type: unsized `int` is the default
/// width; a sized one keeps its size, signed or unsigned as written.
pub fn int_width_of(size: Option<IntSize>, signed: bool) -> (w: IntWidth)
    ensures
        w == match (size, signed) {
            (None, _) => IntWidth::DEFAULT,
            (Some(IntSize::I8), true) => IntWidth::I8,
            (Some(IntSize::I16), true) => IntWidth::I16,
            (Some(IntSize::I32), true) => IntWidth::I32,
            (Some(IntSize::I64), true) => IntWidth::I64,
            (Some(IntSize::I128), true) => IntWidth::I128,
            (Some(IntSize::Arch), true) => IntWidth::Arch,
            (Some(IntSize::I8), false) => IntWidth::U8,
            (Some(IntSize::I16), false) => IntWidth::U16,
            (Some(IntSize::I32), false) => IntWidth::U32,
            (Some(IntSize::I64), false) => IntWidth::U64,
            (Some(IntSize::I128), false) => IntWidth::U128,
            (Some(IntSize::Arch), false) => IntWidth::UArch,
        },
{
    match (size, signed) {
        (None, _) => IntWidth::DEFAULT,
        (Some(IntSize::I8), true) => IntWidth::I8,
        (Some(IntSize::I16), true) => IntWidth::I16,
        (Some(IntSize::I32), true) => IntWidth::I32,
        (Some(IntSize::I64), true) => IntWidth::I64,
        (Some(IntSize::I128), true) => IntWidth::I128,
        (Some(IntSize::Arch), true) => IntWidth::Arch,
        (Some(IntSize::I8), false) => IntWidth::U8,
        (Some(IntSize::I16), false) => IntWidth::U16,
        (Some(IntSize::I32), false) => IntWidth::U32,
        (Some(IntSize::I64), false) => IntWidth::U64,
        (Some(IntSize::I128), false) => IntWidth::U128,
        (Some(IntSize::Arch), false) => IntWidth::UArch,
    }
}

/// The float width of a parsed float type: unsized `flt` is the default.
pub fn float_width_of(size: Option<FloatSize>) -> (w: FloatWidth)
    ensures
        w == match size {
            None => FloatWidth::DEFAULT,
            Some(FloatSize::F32) => FloatWidth::F32,
            Some(FloatSize::F64) => FloatWidth::F64,
            Some(FloatSize::Arch) => FloatWidth::Arch,
        },
{
    match size {
        None => FloatWidth::DEFAULT,
        Some(FloatSize::F32) => FloatWidth::F32,
        Some(FloatSize::F64) => FloatWidth::F64,
        Some(FloatSize::Arch) => FloatWidth::Arch,
    }
}

} // verus!
