//! FBX node attribute: a closed union of typed scalar, array, text and blob
//! payloads, decoded from tokenizer-classified input, with an exact
//! `(type label, display text)` rendering for each case.
use vstd::prelude::*;
use crate::text::{
    bool_text, byte_hex, escape_text, int_text, push_dec_i64, push_escaped, push_hex_byte,
    push_sep, render_cells,
};
use vstd::utf8::{decode_utf8, valid_utf8};

verus! {

/// A 32-bit float payload, held as its IEEE 754 bit pattern together with
/// the decimal text its `Display` implementation prints. The text is fixed
/// by the bits at decode time; this crate never recomputes it.
#[derive(Debug)]
pub struct F32Value {
    /// IEEE 754 single-precision bit pattern.
    pub bits: u32,
    /// Decimal display text of the value with that bit pattern.
    pub text: String,
}

/// A 64-bit float payload, held as its IEEE 754 bit pattern together with
/// the decimal text its `Display` implementation prints.
#[derive(Debug)]
pub struct F64Value {
    /// IEEE 754 double-precision bit pattern.
    pub bits: u64,
    /// Decimal display text of the value with that bit pattern.
    pub text: String,
}

impl Clone for F32Value {
    fn clone(&self) -> (r: Self)
        ensures
            r.bits == self.bits && r.text@ == self.text@,
    {
        F32Value { bits: self.bits, text: self.text.clone() }
    }
}

impl Clone for F64Value {
    fn clone(&self) -> (r: Self)
        ensures
            r.bits == self.bits && r.text@ == self.text@,
    {
        F64Value { bits: self.bits, text: self.text.clone() }
    }
}

/// FBX node attribute.
#[derive(Debug)]
pub enum Attribute {
    /// Scalar boolean.
    SingleBool(bool),
    /// Scalar 16-bit integer.
    SingleI16(i16),
    /// Scalar 32-bit integer.
    SingleI32(i32),
    /// Scalar 64-bit integer.
    SingleI64(i64),
    /// Scalar 32-bit float.
    SingleF32(F32Value),
    /// Scalar 64-bit float.
    SingleF64(F64Value),
    /// Array of booleans.
    ArrayBool(Vec<bool>),
    /// Array of 32-bit integers.
    ArrayI32(Vec<i32>),
    /// Array of 64-bit integers.
    ArrayI64(Vec<i64>),
    /// Array of 32-bit floats.
    ArrayF32(Vec<F32Value>),
    /// Array of 64-bit floats.
    ArrayF64(Vec<F64Value>),
    /// Text that decoded as UTF-8.
    String(String),
    /// Opaque binary blob, and the lossless fallback for text whose bytes
    /// are not valid UTF-8.
    Binary(Vec<u8>),
}

/// Fixed type label of an attribute case.
pub open spec fn type_text(a: Attribute) -> Seq<char> {
    match a {
        Attribute::SingleBool(_) => "bool"@,
        Attribute::SingleI16(_) => "i16"@,
        Attribute::SingleI32(_) => "i32"@,
        Attribute::SingleI64(_) => "i64"@,
        Attribute::SingleF32(_) => "f32"@,
        Attribute::SingleF64(_) => "f64"@,
        Attribute::ArrayBool(_) => "[bool]"@,
        Attribute::ArrayI32(_) => "[i32]"@,
        Attribute::ArrayI64(_) => "[i64]"@,
        Attribute::ArrayF32(_) => "[f32]"@,
        Attribute::ArrayF64(_) => "[f64]"@,
        Attribute::String(_) => "String"@,
        Attribute::Binary(_) => "[u8]"@,
    }
}

/// Cell text of one boolean array element.
pub open spec fn bool_cell(b: bool) -> Seq<char> {
    if b {
        seq!['1']
    } else {
        seq!['0']
    }
}

/// Exact display text of an attribute value: canonical decimal for scalars,
/// comma-separated cells with a line break after every 16th element for
/// arrays and blobs, and control-character escaping for text.
pub open spec fn value_text(a: Attribute) -> Seq<char> {
    match a {
        Attribute::SingleBool(b) => bool_text(b),
        Attribute::SingleI16(v) => int_text(v as int),
        Attribute::SingleI32(v) => int_text(v as int),
        Attribute::SingleI64(v) => int_text(v as int),
        Attribute::SingleF32(x) => x.text@,
        Attribute::SingleF64(x) => x.text@,
        Attribute::ArrayBool(vs) => render_cells(vs@.map_values(|b: bool| bool_cell(b))),
        Attribute::ArrayI32(vs) => render_cells(vs@.map_values(|v: i32| int_text(v as int))),
        Attribute::ArrayI64(vs) => render_cells(vs@.map_values(|v: i64| int_text(v as int))),
        Attribute::ArrayF32(vs) => render_cells(vs@.map_values(|x: F32Value| x.text@)),
        Attribute::ArrayF64(vs) => render_cells(vs@.map_values(|x: F64Value| x.text@)),
        Attribute::String(s) => escape_text(s@),
        Attribute::Binary(bs) => render_cells(bs@.map_values(|b: u8| byte_hex(b))),
    }
}

impl Attribute {
    /// Returns the fixed type label of this attribute.
    pub fn type_string(&self) -> (r: &str)
        ensures
            r@ == type_text(*self),
    {
        match *self {
            Attribute::SingleBool(_) => "bool",
            Attribute::SingleI16(_) => "i16",
            Attribute::SingleI32(_) => "i32",
            Attribute::SingleI64(_) => "i64",
            Attribute::SingleF32(_) => "f32",
            Attribute::SingleF64(_) => "f64",
            Attribute::ArrayBool(_) => "[bool]",
            Attribute::ArrayI32(_) => "[i32]",
            Attribute::ArrayI64(_) => "[i64]",
            Attribute::ArrayF32(_) => "[f32]",
            Attribute::ArrayF64(_) => "[f64]",
            Attribute::String(_) => "String",
            Attribute::Binary(_) => "[u8]",
        }
    }

    /// Returns the exact display text of this attribute.
    pub fn value_string(&self) -> (r: String)
        ensures
            r@ == value_text(*self),
    {
        match self {
            Attribute::SingleBool(b) => {
                let s: &str = if *b {
                    "true"
                } else {
                    "false"
                };
                s.to_owned()
            },
            Attribute::SingleI16(v) => int_string(*v as i64),
            Attribute::SingleI32(v) => int_string(*v as i64),
            Attribute::SingleI64(v) => int_string(*v),
            Attribute::SingleF32(x) => x.text.clone(),
            Attribute::SingleF64(x) => x.text.clone(),
            Attribute::ArrayBool(vs) => render_bool_array(vs),
            Attribute::ArrayI32(vs) => render_i32_array(vs),
            Attribute::ArrayI64(vs) => render_i64_array(vs),
            Attribute::ArrayF32(vs) => render_f32_array(vs),
            Attribute::ArrayF64(vs) => render_f64_array(vs),
            Attribute::String(s) => {
                let mut out = String::new();
                push_escaped(s.as_str(), &mut out);
                assert(out@ =~= escape_text(s@));
                out
            },
            Attribute::Binary(bs) => render_hex_array(bs),
        }
    }
}

/// Canonical decimal string of an integer.
fn int_string(v: i64) -> (r: String)
    ensures
        r@ == int_text(v as int),
{
    let mut out = String::new();
    push_dec_i64(v, &mut out);
    assert(out@ =~= int_text(v as int));
    out
}

/// Renders a boolean array: `0` or `1` per element, each followed by its
/// separator.
fn render_bool_array(vs: &Vec<bool>) -> (r: String)
    ensures
        r@ == render_cells(vs@.map_values(|b: bool| bool_cell(b))),
{
    let ghost cells: Seq<Seq<char>> = vs@.map_values(|b: bool| bool_cell(b));
    let mut out = String::new();
    let mut i: usize = 0;
    while i < vs.len()
        invariant
            i <= vs@.len(),
            cells == vs@.map_values(|b: bool| bool_cell(b)),
            out@ == render_cells(cells.take(i as int)),
        decreases vs@.len() - i,
    {
        if vs[i] {
            out.push('1');
        } else {
            out.push('0');
        }
        push_sep(i, &mut out);
        proof {
            assert(cells.take(i + 1).drop_last() =~= cells.take(i as int));
            assert(out@ =~= render_cells(cells.take(i + 1)));
        }
        i = i + 1;
    }
    assert(cells.take(vs@.len() as int) =~= cells);
    out
}

/// Renders a 32-bit integer array in canonical decimal cells.
fn render_i32_array(vs: &Vec<i32>) -> (r: String)
    ensures
        r@ == render_cells(vs@.map_values(|v: i32| int_text(v as int))),
{
    let ghost cells: Seq<Seq<char>> = vs@.map_values(|v: i32| int_text(v as int));
    let mut out = String::new();
    let mut i: usize = 0;
    while i < vs.len()
        invariant
            i <= vs@.len(),
            cells == vs@.map_values(|v: i32| int_text(v as int)),
            out@ == render_cells(cells.take(i as int)),
        decreases vs@.len() - i,
    {
        push_dec_i64(vs[i] as i64, &mut out);
        push_sep(i, &mut out);
        proof {
            assert(cells.take(i + 1).drop_last() =~= cells.take(i as int));
            assert(out@ =~= render_cells(cells.take(i + 1)));
        }
        i = i + 1;
    }
    assert(cells.take(vs@.len() as int) =~= cells);
    out
}

/// Renders a 64-bit integer array in canonical decimal cells.
fn render_i64_array(vs: &Vec<i64>) -> (r: String)
    ensures
        r@ == render_cells(vs@.map_values(|v: i64| int_text(v as int))),
{
    let ghost cells: Seq<Seq<char>> = vs@.map_values(|v: i64| int_text(v as int));
    let mut out = String::new();
    let mut i: usize = 0;
    while i < vs.len()
        invariant
            i <= vs@.len(),
            cells == vs@.map_values(|v: i64| int_text(v as int)),
            out@ == render_cells(cells.take(i as int)),
        decreases vs@.len() - i,
    {
        push_dec_i64(vs[i], &mut out);
        push_sep(i, &mut out);
        proof {
            assert(cells.take(i + 1).drop_last() =~= cells.take(i as int));
            assert(out@ =~= render_cells(cells.take(i + 1)));
        }
        i = i + 1;
    }
    assert(cells.take(vs@.len() as int) =~= cells);
    out
}

/// Renders a 32-bit float array from the display text carried by each
/// element.
fn render_f32_array(vs: &Vec<F32Value>) -> (r: String)
    ensures
        r@ == render_cells(vs@.map_values(|x: F32Value| x.text@)),
{
    let ghost cells: Seq<Seq<char>> = vs@.map_values(|x: F32Value| x.text@);
    let mut out = String::new();
    let mut i: usize = 0;
    while i < vs.len()
        invariant
            i <= vs@.len(),
            cells == vs@.map_values(|x: F32Value| x.text@),
            out@ == render_cells(cells.take(i as int)),
        decreases vs@.len() - i,
    {
        out.append(vs[i].text.as_str());
        push_sep(i, &mut out);
        proof {
            assert(cells.take(i + 1).drop_last() =~= cells.take(i as int));
            assert(out@ =~= render_cells(cells.take(i + 1)));
        }
        i = i + 1;
    }
    assert(cells.take(vs@.len() as int) =~= cells);
    out
}

/// Renders a 64-bit float array from the display text carried by each
/// element.
fn render_f64_array(vs: &Vec<F64Value>) -> (r: String)
    ensures
        r@ == render_cells(vs@.map_values(|x: F64Value| x.text@)),
{
    let ghost cells: Seq<Seq<char>> = vs@.map_values(|x: F64Value| x.text@);
    let mut out = String::new();
    let mut i: usize = 0;
    while i < vs.len()
        invariant
            i <= vs@.len(),
            cells == vs@.map_values(|x: F64Value| x.text@),
            out@ == render_cells(cells.take(i as int)),
        decreases vs@.len() - i,
    {
        out.append(vs[i].text.as_str());
        push_sep(i, &mut out);
        proof {
            assert(cells.take(i + 1).drop_last() =~= cells.take(i as int));
            assert(out@ =~= render_cells(cells.take(i + 1)));
        }
        i = i + 1;
    }
    assert(cells.take(vs@.len() as int) =~= cells);
    out
}

/// Renders a byte sequence as two-digit lowercase hex cells.
fn render_hex_array(bs: &Vec<u8>) -> (r: String)
    ensures
        r@ == render_cells(bs@.map_values(|b: u8| byte_hex(b))),
{
    let ghost cells: Seq<Seq<char>> = bs@.map_values(|b: u8| byte_hex(b));
    let mut out = String::new();
    let mut i: usize = 0;
    while i < bs.len()
        invariant
            i <= bs@.len(),
            cells == bs@.map_values(|b: u8| byte_hex(b)),
            out@ == render_cells(cells.take(i as int)),
        decreases bs@.len() - i,
    {
        push_hex_byte(bs[i], &mut out);
        push_sep(i, &mut out);
        proof {
            assert(cells.take(i + 1).drop_last() =~= cells.take(i as int));
            assert(out@ =~= render_cells(cells.take(i + 1)));
        }
        i = i + 1;
    }
    assert(cells.take(bs@.len() as int) =~= cells);
    out
}

/// Relies on `String::from_utf8`: returns the decoded string exactly when
/// the bytes are valid UTF-8, and hands the untouched bytes back otherwise
/// (through `FromUtf8Error::into_bytes`).
#[verifier::external_body]
fn utf8_to_string(raw: Vec<u8>) -> (r: Result<String, Vec<u8>>)
    ensures
        match r {
            Ok(s) => valid_utf8(raw@) && s@ == decode_utf8(raw@),
            Err(b) => !valid_utf8(raw@) && b@ == raw@,
        },
{
    String::from_utf8(raw).map_err(|e| e.into_bytes())
}

/// FBX 7.4 attribute loader: turns one tokenizer-classified payload into
/// exactly the matching [`Attribute`] case.
#[derive(Debug, Clone, Copy)]
pub struct AttributeLoader;

impl AttributeLoader {
    /// Description of what this loader accepts.
    pub fn expecting(&self) -> (r: String)
        ensures
            r@ == "any attributes"@,
    {
        "any attributes".to_owned()
    }

    /// Loads a scalar boolean.
    pub fn load_bool(self, v: bool) -> (r: Attribute)
        ensures
            r == Attribute::SingleBool(v),
    {
        Attribute::SingleBool(v)
    }

    /// Loads a scalar 16-bit integer.
    pub fn load_i16(self, v: i16) -> (r: Attribute)
        ensures
            r == Attribute::SingleI16(v),
    {
        Attribute::SingleI16(v)
    }

    /// Loads a scalar 32-bit integer.
    pub fn load_i32(self, v: i32) -> (r: Attribute)
        ensures
            r == Attribute::SingleI32(v),
    {
        Attribute::SingleI32(v)
    }

    /// Loads a scalar 64-bit integer.
    pub fn load_i64(self, v: i64) -> (r: Attribute)
        ensures
            r == Attribute::SingleI64(v),
    {
        Attribute::SingleI64(v)
    }

    /// Loads a scalar 32-bit float payload.
    pub fn load_f32(self, v: F32Value) -> (r: Attribute)
        ensures
            r == Attribute::SingleF32(v),
    {
        Attribute::SingleF32(v)
    }

    /// Loads a scalar 64-bit float payload.
    pub fn load_f64(self, v: F64Value) -> (r: Attribute)
        ensures
            r == Attribute::SingleF64(v),
    {
        Attribute::SingleF64(v)
    }

    /// Loads a fully materialized boolean array.
    pub fn load_seq_bool(self, vs: Vec<bool>) -> (r: Attribute)
        ensures
            r == Attribute::ArrayBool(vs),
    {
        Attribute::ArrayBool(vs)
    }

    /// Loads a fully materialized 32-bit integer array.
    pub fn load_seq_i32(self, vs: Vec<i32>) -> (r: Attribute)
        ensures
            r == Attribute::ArrayI32(vs),
    {
        Attribute::ArrayI32(vs)
    }

    /// Loads a fully materialized 64-bit integer array.
    pub fn load_seq_i64(self, vs: Vec<i64>) -> (r: Attribute)
        ensures
            r == Attribute::ArrayI64(vs),
    {
        Attribute::ArrayI64(vs)
    }

    /// Loads a fully materialized 32-bit float array.
    pub fn load_seq_f32(self, vs: Vec<F32Value>) -> (r: Attribute)
        ensures
            r == Attribute::ArrayF32(vs),
    {
        Attribute::ArrayF32(vs)
    }

    /// Loads a fully materialized 64-bit float array.
    pub fn load_seq_f64(self, vs: Vec<F64Value>) -> (r: Attribute)
        ensures
            r == Attribute::ArrayF64(vs),
    {
        Attribute::ArrayF64(vs)
    }

    /// Loads an opaque binary payload verbatim.
    pub fn load_binary(self, raw: Vec<u8>) -> (r: Attribute)
        ensures
            r == Attribute::Binary(raw),
    {
        Attribute::Binary(raw)
    }

    /// Loads a text payload: decodes the bytes as UTF-8, and keeps the raw
    /// bytes losslessly when they are not valid UTF-8. Never fails.
    pub fn load_string(self, raw: Vec<u8>) -> (r: Attribute)
        ensures
            valid_utf8(raw@) ==> (r matches Attribute::String(s) && s@ == decode_utf8(raw@)),
            !valid_utf8(raw@) ==> (r matches Attribute::Binary(b) && b@ == raw@),
    {
        match utf8_to_string(raw) {
            Ok(s) => Attribute::String(s),
            Err(b) => Attribute::Binary(b),
        }
    }
}

/// One attribute payload as the tokenizer classifies it, before it becomes
/// an [`Attribute`]: scalars and fully materialized arrays carry their
/// values, text and binary payloads carry raw bytes.
#[derive(Debug)]
pub enum RawAttr {
    /// Scalar boolean.
    Bool(bool),
    /// Scalar 16-bit integer.
    I16(i16),
    /// Scalar 32-bit integer.
    I32(i32),
    /// Scalar 64-bit integer.
    I64(i64),
    /// Scalar 32-bit float payload.
    F32(F32Value),
    /// Scalar 64-bit float payload.
    F64(F64Value),
    /// Boolean array.
    SeqBool(Vec<bool>),
    /// 32-bit integer array.
    SeqI32(Vec<i32>),
    /// 64-bit integer array.
    SeqI64(Vec<i64>),
    /// 32-bit float array.
    SeqF32(Vec<F32Value>),
    /// 64-bit float array.
    SeqF64(Vec<F64Value>),
    /// Raw bytes of a text payload, to be interpreted as UTF-8.
    Text(Vec<u8>),
    /// Raw bytes of an opaque binary payload.
    Binary(Vec<u8>),
}

/// True when `a` is exactly the attribute that decoding `raw` produces:
/// scalars and arrays are taken over unchanged, text decodes as UTF-8 with
/// the raw bytes kept losslessly when decoding fails, and binary payloads
/// are copied verbatim.
pub open spec fn decodes_to(raw: RawAttr, a: Attribute) -> bool {
    match raw {
        RawAttr::Bool(v) => a == Attribute::SingleBool(v),
        RawAttr::I16(v) => a == Attribute::SingleI16(v),
        RawAttr::I32(v) => a == Attribute::SingleI32(v),
        RawAttr::I64(v) => a == Attribute::SingleI64(v),
        RawAttr::F32(v) => a == Attribute::SingleF32(v),
        RawAttr::F64(v) => a == Attribute::SingleF64(v),
        RawAttr::SeqBool(vs) => a == Attribute::ArrayBool(vs),
        RawAttr::SeqI32(vs) => a == Attribute::ArrayI32(vs),
        RawAttr::SeqI64(vs) => a == Attribute::ArrayI64(vs),
        RawAttr::SeqF32(vs) => a == Attribute::ArrayF32(vs),
        RawAttr::SeqF64(vs) => a == Attribute::ArrayF64(vs),
        RawAttr::Text(bytes) => if valid_utf8(bytes@) {
            a matches Attribute::String(s) && s@ == decode_utf8(bytes@)
        } else {
            a matches Attribute::Binary(b) && b@ == bytes@
        },
        RawAttr::Binary(bytes) => a matches Attribute::Binary(b) && b@ == bytes@,
    }
}

impl AttributeLoader {
    /// Decodes one tokenizer-classified payload into exactly the matching
    /// attribute case.
    pub fn load(self, raw: RawAttr) -> (r: Attribute)
        ensures
            decodes_to(raw, r),
    {
        match raw {
            RawAttr::Bool(v) => self.load_bool(v),
            RawAttr::I16(v) => self.load_i16(v),
            RawAttr::I32(v) => self.load_i32(v),
            RawAttr::I64(v) => self.load_i64(v),
            RawAttr::F32(v) => self.load_f32(v),
            RawAttr::F64(v) => self.load_f64(v),
            RawAttr::SeqBool(vs) => self.load_seq_bool(vs),
            RawAttr::SeqI32(vs) => self.load_seq_i32(vs),
            RawAttr::SeqI64(vs) => self.load_seq_i64(vs),
            RawAttr::SeqF32(vs) => self.load_seq_f32(vs),
            RawAttr::SeqF64(vs) => self.load_seq_f64(vs),
            RawAttr::Text(bytes) => self.load_string(bytes),
            RawAttr::Binary(bytes) => self.load_binary(bytes),
        }
    }
}

/// Law: rendering is a pure function of the attribute value. Any two display
/// strings obtained for the same value are identical; there is no hidden
/// state in the rendering.
pub proof fn lemma_rendering_deterministic(a: Attribute, r1: Seq<char>, r2: Seq<char>)
    requires
        r1 == value_text(a),
        r2 == value_text(a),
    ensures
        r1 == r2,
{
}

} // verus!
