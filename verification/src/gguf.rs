//! GGUF model-file header parser.
//!
//! A GGUF file starts with the magic "GGUF", a version (only 3 is accepted),
//! the number of tensors and metadata entries, then the metadata key/value
//! pairs and the tensor descriptors, all little-endian.  The parser works on
//! the bytes of the file; reading the file is the caller's business.

use vstd::prelude::*;
use vstd::utf8::*;
use crate::text::{decimal, push_char, str_eq, u64_to_string};

verus! {

/// The magic number "GGUF" read as a little-endian u32.
pub const GGUF_MAGIC: u32 = 0x46554747;

/// The only supported GGUF version.
pub const GGUF_VERSION: u32 = 3;

/// Longest string the parser accepts, in bytes.
pub const MAX_STRING_LEN: u64 = 1048576;

/// Largest metadata array the parser accepts, in elements.
pub const MAX_ARRAY_LEN: u64 = 10000000;

/// Why a GGUF header could not be read.
#[derive(Debug, Clone, PartialEq, Eq, Structural)]
pub enum GgufError {
    /// The bytes ended in the middle of a field.
    UnexpectedEof,
    /// The first four bytes are not "GGUF".
    InvalidMagic(u32),
    /// The version field is not 3.
    UnsupportedVersion(u32),
    /// A tensor names an unknown GGML type.
    UnknownGgmlType(u32),
    /// A string length above the 1 MiB limit.
    StringTooLong(u64),
    /// A string that is not valid UTF-8.
    InvalidUtf8,
    /// An array length above the 10 million element limit.
    ArrayTooLarge(u64),
    /// An array of an element type the format does not allow.
    UnknownArrayElementType(u32),
    /// A metadata value of an unknown type.
    UnknownValueType(u32),
    /// The alignment taken from the metadata is 0, or the aligned data
    /// offset does not fit in 64 bits.
    BadAlignment(u64),
}

/// The upper-case hexadecimal digit of `d < 16`.
pub open spec fn upper_hex_digit(d: nat) -> char {
    if d < 10 { (('0' as u32) + d) as char } else { (('A' as u32) + d - 10) as char }
}

/// The last `k` hexadecimal digits of `n`, upper case, zero-padded.
pub open spec fn upper_hex(n: nat, k: nat) -> Seq<char>
    decreases k,
{
    if k == 0 { Seq::empty() } else { upper_hex(n / 16, (k - 1) as nat).push(upper_hex_digit(n % 16)) }
}

fn upper_hex_char(d: u32) -> (c: char)
    requires
        d < 16,
    ensures
        c == upper_hex_digit(d as nat),
{
    match d {
        0 => '0', 1 => '1', 2 => '2', 3 => '3', 4 => '4', 5 => '5', 6 => '6', 7 => '7',
        8 => '8', 9 => '9', 10 => 'A', 11 => 'B', 12 => 'C', 13 => 'D', 14 => 'E', _ => 'F',
    }
}

/// `n` as `k` upper-case hexadecimal digits (`{:0k$X}` for `n < 16^k`).
fn upper_hex_string(n: u32, k: usize) -> (r: String)
    ensures
        r@ == upper_hex(n as nat, k as nat),
    decreases k,
{
    if k == 0 {
        return String::new();
    }
    let mut s = upper_hex_string(n / 16, k - 1);
    push_char(&mut s, upper_hex_char(n % 16));
    s
}

/// The text of a GGUF error, as the parser reports it.
pub open spec fn gguf_error_text(e: GgufError) -> Seq<char> {
    match e {
        GgufError::UnexpectedEof => "failed to fill whole buffer"@,
        GgufError::InvalidMagic(m) => "Invalid GGUF magic: 0x"@ + upper_hex(m as nat, 8)
            + " (expected 0x46554747)"@,
        GgufError::UnsupportedVersion(v) => "Unsupported GGUF version: "@ + decimal(v as nat) + " (expected 3)"@,
        GgufError::UnknownGgmlType(v) => "Unknown GGML type: "@ + decimal(v as nat),
        GgufError::StringTooLong(n) => "String too long: "@ + decimal(n as nat),
        GgufError::InvalidUtf8 => "invalid utf-8 sequence"@,
        GgufError::ArrayTooLarge(n) => "Array too large: "@ + decimal(n as nat),
        GgufError::UnknownArrayElementType(t) => "Unknown array element type: "@ + decimal(t as nat),
        GgufError::UnknownValueType(t) => "Unknown value type: "@ + decimal(t as nat),
        GgufError::BadAlignment(a) => "Invalid alignment: "@ + decimal(a as nat),
    }
}

impl GgufError {
    /// The error's message.
    pub fn message(&self) -> (r: String)
        ensures
            r@ == gguf_error_text(*self),
    {
        match self {
            GgufError::UnexpectedEof => String::from_str("failed to fill whole buffer"),
            GgufError::InvalidMagic(m) => {
                let mut r = String::from_str("Invalid GGUF magic: 0x");
                let h = upper_hex_string(*m, 8);
                r.append(h.as_str());
                r.append(" (expected 0x46554747)");
                r
            },
            GgufError::UnsupportedVersion(v) => {
                let mut r = String::from_str("Unsupported GGUF version: ");
                let d = u64_to_string(*v as u64);
                r.append(d.as_str());
                r.append(" (expected 3)");
                r
            },
            GgufError::UnknownGgmlType(v) => {
                let mut r = String::from_str("Unknown GGML type: ");
                let d = u64_to_string(*v as u64);
                r.append(d.as_str());
                r
            },
            GgufError::StringTooLong(n) => {
                let mut r = String::from_str("String too long: ");
                let d = u64_to_string(*n);
                r.append(d.as_str());
                r
            },
            GgufError::InvalidUtf8 => String::from_str("invalid utf-8 sequence"),
            GgufError::ArrayTooLarge(n) => {
                let mut r = String::from_str("Array too large: ");
                let d = u64_to_string(*n);
                r.append(d.as_str());
                r
            },
            GgufError::UnknownArrayElementType(t) => {
                let mut r = String::from_str("Unknown array element type: ");
                let d = u64_to_string(*t as u64);
                r.append(d.as_str());
                r
            },
            GgufError::UnknownValueType(t) => {
                let mut r = String::from_str("Unknown value type: ");
                let d = u64_to_string(*t as u64);
                r.append(d.as_str());
                r
            },
            GgufError::BadAlignment(a) => {
                let mut r = String::from_str("Invalid alignment: ");
                let d = u64_to_string(*a);
                r.append(d.as_str());
                r
            },
        }
    }
}

// ===== little-endian integers =====

pub open spec fn le2(b: Seq<u8>, p: int) -> int {
    b[p] as int + 256 * b[p + 1]
}

pub open spec fn le4(b: Seq<u8>, p: int) -> int {
    le2(b, p) + 65536 * le2(b, p + 2)
}

pub open spec fn le8(b: Seq<u8>, p: int) -> int {
    le4(b, p) + 4294967296 * le4(b, p + 4)
}

/// Two's complement reading of a value below 2^bits (bits = 8, 16, 32, 64).
pub open spec fn to_signed(v: int, half: int) -> int {
    if v < half { v } else { v - 2 * half }
}

pub open spec fn fits(b: Seq<u8>, p: int, n: int) -> bool {
    0 <= p && p + n <= b.len()
}

pub open spec fn spec_read_u8(b: Seq<u8>, p: int) -> Result<(u8, int), GgufError> {
    if fits(b, p, 1) { Ok((b[p], p + 1)) } else { Err(GgufError::UnexpectedEof) }
}

pub open spec fn spec_read_u16(b: Seq<u8>, p: int) -> Result<(u16, int), GgufError> {
    if fits(b, p, 2) { Ok((le2(b, p) as u16, p + 2)) } else { Err(GgufError::UnexpectedEof) }
}

pub open spec fn spec_read_u32(b: Seq<u8>, p: int) -> Result<(u32, int), GgufError> {
    if fits(b, p, 4) { Ok((le4(b, p) as u32, p + 4)) } else { Err(GgufError::UnexpectedEof) }
}

pub open spec fn spec_read_u64(b: Seq<u8>, p: int) -> Result<(u64, int), GgufError> {
    if fits(b, p, 8) { Ok((le8(b, p) as u64, p + 8)) } else { Err(GgufError::UnexpectedEof) }
}

/// Reads one byte at `pos`.
pub fn read_u8(data: &[u8], pos: usize) -> (r: Result<(u8, usize), GgufError>)
    ensures
        match r {
            Ok((v, q)) => spec_read_u8(data@, pos as int) == Ok::<(u8, int), GgufError>((v, q as int)),
            Err(e) => spec_read_u8(data@, pos as int) == Err::<(u8, int), GgufError>(e),
        },
{
    if pos >= data.len() {
        return Err(GgufError::UnexpectedEof);
    }
    Ok((data[pos], pos + 1))
}

/// Reads a little-endian u16 at `pos`.
pub fn read_u16(data: &[u8], pos: usize) -> (r: Result<(u16, usize), GgufError>)
    ensures
        match r {
            Ok((v, q)) => spec_read_u16(data@, pos as int) == Ok::<(u16, int), GgufError>((v, q as int)),
            Err(e) => spec_read_u16(data@, pos as int) == Err::<(u16, int), GgufError>(e),
        },
{
    if pos > data.len() || data.len() - pos < 2 {
        return Err(GgufError::UnexpectedEof);
    }
    let v: u16 = data[pos] as u16 + (data[pos + 1] as u16) * 256;
    Ok((v, pos + 2))
}

/// Reads a little-endian u32 at `pos`.
pub fn read_u32(data: &[u8], pos: usize) -> (r: Result<(u32, usize), GgufError>)
    ensures
        match r {
            Ok((v, q)) => spec_read_u32(data@, pos as int) == Ok::<(u32, int), GgufError>((v, q as int)),
            Err(e) => spec_read_u32(data@, pos as int) == Err::<(u32, int), GgufError>(e),
        },
{
    if pos > data.len() || data.len() - pos < 4 {
        return Err(GgufError::UnexpectedEof);
    }
    let lo: u32 = data[pos] as u32 + (data[pos + 1] as u32) * 256;
    let hi: u32 = data[pos + 2] as u32 + (data[pos + 3] as u32) * 256;
    let v: u32 = lo + hi * 65536;
    Ok((v, pos + 4))
}

/// Reads a little-endian u64 at `pos`.
pub fn read_u64(data: &[u8], pos: usize) -> (r: Result<(u64, usize), GgufError>)
    ensures
        match r {
            Ok((v, q)) => spec_read_u64(data@, pos as int) == Ok::<(u64, int), GgufError>((v, q as int)),
            Err(e) => spec_read_u64(data@, pos as int) == Err::<(u64, int), GgufError>(e),
        },
{
    if pos > data.len() || data.len() - pos < 8 {
        return Err(GgufError::UnexpectedEof);
    }
    let (lo, _) = match read_u32(data, pos) {
        Ok(x) => x,
        Err(e) => return Err(e),
    };
    let (hi, _) = match read_u32(data, pos + 4) {
        Ok(x) => x,
        Err(e) => return Err(e),
    };
    let v: u64 = lo as u64 + (hi as u64) * 4294967296;
    Ok((v, pos + 8))
}


pub open spec fn spec_read_i32(b: Seq<u8>, p: int) -> Result<(i32, int), GgufError> {
    if fits(b, p, 4) {
        Ok((to_signed(le4(b, p), 2147483648) as i32, p + 4))
    } else {
        Err(GgufError::UnexpectedEof)
    }
}

pub open spec fn spec_read_i64(b: Seq<u8>, p: int) -> Result<(i64, int), GgufError> {
    if fits(b, p, 8) {
        Ok((to_signed(le8(b, p), 9223372036854775808) as i64, p + 8))
    } else {
        Err(GgufError::UnexpectedEof)
    }
}

/// Reads a little-endian two's complement i32 at `pos`.
pub fn read_i32(data: &[u8], pos: usize) -> (r: Result<(i32, usize), GgufError>)
    ensures
        match r {
            Ok((v, q)) => spec_read_i32(data@, pos as int) == Ok::<(i32, int), GgufError>((v, q as int)),
            Err(e) => spec_read_i32(data@, pos as int) == Err::<(i32, int), GgufError>(e),
        },
{
    let (u, q) = match read_u32(data, pos) {
        Ok(x) => x,
        Err(e) => return Err(e),
    };
    let v: i32 = if u < 2147483648 {
        u as i32
    } else {
        ((u - 2147483648) as i32) - 2147483647 - 1
    };
    Ok((v, q))
}

/// Reads a little-endian two's complement i64 at `pos`.
pub fn read_i64(data: &[u8], pos: usize) -> (r: Result<(i64, usize), GgufError>)
    ensures
        match r {
            Ok((v, q)) => spec_read_i64(data@, pos as int) == Ok::<(i64, int), GgufError>((v, q as int)),
            Err(e) => spec_read_i64(data@, pos as int) == Err::<(i64, int), GgufError>(e),
        },
{
    let (u, q) = match read_u64(data, pos) {
        Ok(x) => x,
        Err(e) => return Err(e),
    };
    let v: i64 = if u < 9223372036854775808 {
        u as i64
    } else {
        ((u - 9223372036854775808) as i64) - 9223372036854775807 - 1
    };
    Ok((v, q))
}

/// Decodes bytes as UTF-8 (`String::from_utf8`), `None` where they are not
/// valid UTF-8.
#[verifier::external_body]
fn string_from_utf8(bytes: Vec<u8>) -> (r: Option<String>)
    ensures
        r is Some <==> valid_utf8(bytes@),
        r matches Some(s) ==> s@ == decode_utf8(bytes@),
{
    String::from_utf8(bytes).ok()
}

pub open spec fn spec_read_string(b: Seq<u8>, p: int) -> Result<(Seq<char>, int), GgufError> {
    match spec_read_u64(b, p) {
        Err(e) => Err(e),
        Ok((len, q)) => if len > MAX_STRING_LEN {
            Err(GgufError::StringTooLong(len))
        } else if !fits(b, q, len as int) {
            Err(GgufError::UnexpectedEof)
        } else if !valid_utf8(b.subrange(q, q + len)) {
            Err(GgufError::InvalidUtf8)
        } else {
            Ok((decode_utf8(b.subrange(q, q + len)), q + len))
        },
    }
}

/// Reads a length-prefixed (u64) UTF-8 string at `pos`.
pub fn read_string(data: &[u8], pos: usize) -> (r: Result<(String, usize), GgufError>)
    ensures
        match r {
            Ok((s, q)) => spec_read_string(data@, pos as int)
                == Ok::<(Seq<char>, int), GgufError>((s@, q as int)),
            Err(e) => spec_read_string(data@, pos as int) == Err::<(Seq<char>, int), GgufError>(e),
        },
{
    let (len, q) = match read_u64(data, pos) {
        Ok(x) => x,
        Err(e) => return Err(e),
    };
    if len > MAX_STRING_LEN {
        return Err(GgufError::StringTooLong(len));
    }
    let n = len as usize;
    if data.len() - q < n {
        return Err(GgufError::UnexpectedEof);
    }
    let mut bytes: Vec<u8> = Vec::new();
    let mut i: usize = 0;
    while i < n
        invariant
            i <= n,
            q + n <= data.len(),
            bytes@ == data@.subrange(q as int, q + i),
        decreases n - i,
    {
        bytes.push(data[q + i]);
        assert(data@.subrange(q as int, q + i + 1) == data@.subrange(q as int, q + i).push(data@[q + i]));
        i = i + 1;
    }
    match string_from_utf8(bytes) {
        Some(s) => Ok((s, q + n)),
        None => Err(GgufError::InvalidUtf8),
    }
}


/// GGML tensor element types (quantization formats).
#[allow(non_camel_case_types)]
#[derive(Debug, Clone, Copy, PartialEq, Eq, Structural)]
pub enum GgmlType {
    F32,
    F16,
    Q4_0,
    Q4_1,
    Q5_0,
    Q5_1,
    Q8_0,
    Q8_1,
    Q2K,
    Q3K,
    Q4K,
    Q5K,
    Q6K,
    Q8K,
    IQ2XXS,
    IQ2XS,
    IQ3XXS,
    IQ1S,
    IQ4NL,
    IQ3S,
    IQ2S,
    IQ4XS,
}

/// The GGML type that a type id in a tensor descriptor stands for
/// (only the ids that the parser accepts).
pub open spec fn ggml_type_of(v: u32) -> Option<GgmlType> {
    if v == 0 { Some(GgmlType::F32) }
    else if v == 1 { Some(GgmlType::F16) }
    else if v == 2 { Some(GgmlType::Q4_0) }
    else if v == 3 { Some(GgmlType::Q4_1) }
    else if v == 6 { Some(GgmlType::Q5_0) }
    else if v == 7 { Some(GgmlType::Q5_1) }
    else if v == 8 { Some(GgmlType::Q8_0) }
    else if v == 9 { Some(GgmlType::Q8_1) }
    else if v == 10 { Some(GgmlType::Q2K) }
    else if v == 11 { Some(GgmlType::Q3K) }
    else if v == 12 { Some(GgmlType::Q4K) }
    else if v == 13 { Some(GgmlType::Q5K) }
    else if v == 14 { Some(GgmlType::Q6K) }
    else if v == 15 { Some(GgmlType::Q8K) }
    else { None }
}

impl GgmlType {
    /// Elements per quantization block.
    pub open spec fn spec_block_size(self) -> nat {
        match self {
            GgmlType::F32 | GgmlType::F16 => 1,
            GgmlType::Q2K | GgmlType::Q3K | GgmlType::Q4K | GgmlType::Q5K | GgmlType::Q6K
            | GgmlType::Q8K => 256,
            _ => 32,
        }
    }

    /// Bytes per quantization block.
    pub open spec fn spec_type_size(self) -> nat {
        match self {
            GgmlType::F32 => 4,
            GgmlType::F16 => 2,
            GgmlType::Q4_0 => 18,
            GgmlType::Q4_1 => 20,
            GgmlType::Q5_0 => 22,
            GgmlType::Q5_1 => 24,
            GgmlType::Q8_0 => 34,
            GgmlType::Q8_1 => 40,
            GgmlType::Q2K => 84,
            GgmlType::Q3K => 110,
            GgmlType::Q4K => 144,
            GgmlType::Q5K => 176,
            GgmlType::Q6K => 210,
            GgmlType::Q8K => 292,
            _ => 0,
        }
    }

    /// The type for a type id; unknown ids are an error.
    pub fn from_u32(v: u32) -> (r: Result<GgmlType, GgufError>)
        ensures
            match ggml_type_of(v) {
                Some(t) => r == Ok::<GgmlType, GgufError>(t),
                None => r == Err::<GgmlType, GgufError>(GgufError::UnknownGgmlType(v)),
            },
    {
        match v {
            0 => Ok(GgmlType::F32),
            1 => Ok(GgmlType::F16),
            2 => Ok(GgmlType::Q4_0),
            3 => Ok(GgmlType::Q4_1),
            6 => Ok(GgmlType::Q5_0),
            7 => Ok(GgmlType::Q5_1),
            8 => Ok(GgmlType::Q8_0),
            9 => Ok(GgmlType::Q8_1),
            10 => Ok(GgmlType::Q2K),
            11 => Ok(GgmlType::Q3K),
            12 => Ok(GgmlType::Q4K),
            13 => Ok(GgmlType::Q5K),
            14 => Ok(GgmlType::Q6K),
            15 => Ok(GgmlType::Q8K),
            _ => Err(GgufError::UnknownGgmlType(v)),
        }
    }

    /// Block size in elements.
    pub fn block_size(&self) -> (r: usize)
        ensures
            r == self.spec_block_size(),
    {
        match self {
            GgmlType::F32 | GgmlType::F16 => 1,
            GgmlType::Q4_0 | GgmlType::Q4_1 => 32,
            GgmlType::Q5_0 | GgmlType::Q5_1 => 32,
            GgmlType::Q8_0 | GgmlType::Q8_1 => 32,
            GgmlType::Q2K | GgmlType::Q3K | GgmlType::Q4K | GgmlType::Q5K | GgmlType::Q6K
            | GgmlType::Q8K => 256,
            _ => 32,
        }
    }

    /// Bytes per block.
    pub fn type_size(&self) -> (r: usize)
        ensures
            r == self.spec_type_size(),
    {
        match self {
            GgmlType::F32 => 4,
            GgmlType::F16 => 2,
            GgmlType::Q4_0 => 18,
            GgmlType::Q4_1 => 20,
            GgmlType::Q5_0 => 22,
            GgmlType::Q5_1 => 24,
            GgmlType::Q8_0 => 34,
            GgmlType::Q8_1 => 40,
            GgmlType::Q2K => 84,
            GgmlType::Q3K => 110,
            GgmlType::Q4K => 144,
            GgmlType::Q5K => 176,
            GgmlType::Q6K => 210,
            GgmlType::Q8K => 292,
            _ => 0,
        }
    }
}

/// Product of a sequence of dimensions.
pub open spec fn dims_product(d: Seq<u64>) -> nat
    decreases d.len(),
{
    if d.len() == 0 { 1 } else { dims_product(d.drop_last()) * (d.last() as nat) }
}

/// Every prefix product of the dimensions fits in a u64.
pub open spec fn dims_product_fits(d: Seq<u64>) -> bool {
    forall|k: int| 0 <= k <= d.len() ==> #[trigger] dims_product(d.take(k)) <= u64::MAX
}

/// Information about a tensor stored in the GGUF file.
#[derive(Debug, Clone)]
pub struct TensorInfo {
    pub name: String,
    pub n_dims: u32,
    pub dims: Vec<u64>,
    pub ggml_type: GgmlType,
    pub offset: u64,
}

pub open spec fn ceil_div(n: nat, d: nat) -> nat {
    if d == 0 { 0 } else { ((n + d - 1) / (d as int)) as nat }
}

impl TensorInfo {
    /// Bytes taken by a tensor of `n` elements of this type.
    pub open spec fn spec_size_bytes(self) -> nat {
        ceil_div(dims_product(self.dims@), self.ggml_type.spec_block_size())
            * self.ggml_type.spec_type_size()
    }

    /// Total number of elements in this tensor.
    pub fn n_elements(&self) -> (r: u64)
        requires
            dims_product_fits(self.dims@),
        ensures
            r == dims_product(self.dims@),
    {
        let mut p: u64 = 1;
        let mut i: usize = 0;
        assert(self.dims@.take(0) =~= Seq::<u64>::empty());
        while i < self.dims.len()
            invariant
                i <= self.dims.len(),
                dims_product_fits(self.dims@),
                p == dims_product(self.dims@.take(i as int)),
            decreases self.dims.len() - i,
        {
            let ghost d = self.dims@;
            assert(d.take(i as int + 1).drop_last() =~= d.take(i as int));
            assert(dims_product(d.take(i as int + 1)) <= u64::MAX);
            p = p * self.dims[i];
            i = i + 1;
        }
        assert(self.dims@.take(self.dims.len() as int) =~= self.dims@);
        p
    }

    /// Size of this tensor in bytes.
    pub fn size_bytes(&self) -> (r: u64)
        requires
            dims_product_fits(self.dims@),
            dims_product(self.dims@) <= usize::MAX,
            self.spec_size_bytes() <= usize::MAX,
        ensures
            r == self.spec_size_bytes(),
    {
        let n = self.n_elements() as usize;
        let bs = self.ggml_type.block_size();
        let ts = self.ggml_type.type_size();
        let q = n / bs;
        let blocks = if n % bs == 0 {
            q
        } else {
            assert(q < usize::MAX) by (nonlinear_arith)
                requires
                    bs > 0,
                    n % bs != 0,
                    q == n / bs,
                    n <= usize::MAX,
            {
                assert(bs != 1);
            }
            q + 1
        };
        assert(blocks == ceil_div(n as nat, bs as nat)) by (nonlinear_arith)
            requires
                bs > 0,
                blocks == n / bs + if n % bs == 0 { 0int } else { 1int },
                n >= 0,
        {
            assert(n == bs * (n / bs) + n % bs);
        }
        (blocks * ts) as u64
    }
}


/// A metadata value as the model sees it.
pub ghost enum ValueV {
    U8(u8),
    I8(i8),
    U16(u16),
    I16(i16),
    U32(u32),
    I32(i32),
    U64(u64),
    I64(i64),
    F32(u32),
    F64(u64),
    Bool(bool),
    Str(Seq<char>),
    Array(Seq<ValueV>),
}

/// A GGUF metadata value.  Floating-point values are kept as their raw
/// IEEE-754 bit patterns (`f32::from_bits` / `f64::from_bits` give the
/// number).  Array elements are never arrays themselves.
#[derive(Debug)]
pub enum GgufValue {
    U8(u8),
    I8(i8),
    U16(u16),
    I16(i16),
    U32(u32),
    I32(i32),
    U64(u64),
    I64(i64),
    F32(u32),
    F64(u64),
    Bool(bool),
    String(String),
    Array(Vec<GgufValue>),
}

impl GgufValue {
    /// The view of a value that is not an array (arrays map to an empty
    /// array: the format has no nested arrays).
    pub open spec fn scalar_view(self) -> ValueV {
        match self {
            GgufValue::U8(v) => ValueV::U8(v),
            GgufValue::I8(v) => ValueV::I8(v),
            GgufValue::U16(v) => ValueV::U16(v),
            GgufValue::I16(v) => ValueV::I16(v),
            GgufValue::U32(v) => ValueV::U32(v),
            GgufValue::I32(v) => ValueV::I32(v),
            GgufValue::U64(v) => ValueV::U64(v),
            GgufValue::I64(v) => ValueV::I64(v),
            GgufValue::F32(v) => ValueV::F32(v),
            GgufValue::F64(v) => ValueV::F64(v),
            GgufValue::Bool(v) => ValueV::Bool(v),
            GgufValue::String(s) => ValueV::Str(s@),
            GgufValue::Array(_) => ValueV::Array(Seq::empty()),
        }
    }
}

impl View for GgufValue {
    type V = ValueV;

    open spec fn view(&self) -> ValueV {
        match self {
            GgufValue::Array(a) => ValueV::Array(a@.map_values(|e: GgufValue| e.scalar_view())),
            _ => self.scalar_view(),
        }
    }
}

impl GgufValue {
    /// The value as a u32 (from U32, I32 or U64, reinterpreted or truncated).
    pub fn as_u32(&self) -> (r: Option<u32>)
        ensures
            r == match self@ {
                ValueV::U32(v) => Some(v),
                ValueV::I32(v) => Some(v as u32),
                ValueV::U64(v) => Some(v as u32),
                _ => None::<u32>,
            },
    {
        match self {
            GgufValue::U32(v) => Some(*v),
            GgufValue::I32(v) => Some(*v as u32),
            GgufValue::U64(v) => Some(*v as u32),
            _ => None,
        }
    }

    /// The value as a u64 (from U64 or U32).
    pub fn as_u64(&self) -> (r: Option<u64>)
        ensures
            r == match self@ {
                ValueV::U64(v) => Some(v),
                ValueV::U32(v) => Some(v as u64),
                _ => None::<u64>,
            },
    {
        match self {
            GgufValue::U64(v) => Some(*v),
            GgufValue::U32(v) => Some(*v as u64),
            _ => None,
        }
    }

    /// The value as a string slice, for String values.
    pub fn as_str(&self) -> (r: Option<&str>)
        ensures
            match self@ {
                ValueV::Str(s) => r is Some && r->0@ == s,
                _ => r is None,
            },
    {
        match self {
            GgufValue::String(s) => Some(s.as_str()),
            _ => None,
        }
    }

    /// The value as a bool, for Bool values.
    pub fn as_bool(&self) -> (r: Option<bool>)
        ensures
            r == match self@ {
                ValueV::Bool(b) => Some(b),
                _ => None::<bool>,
            },
    {
        match self {
            GgufValue::Bool(v) => Some(*v),
            _ => None,
        }
    }
}

/// One array element of element type `et` at `p`.
pub open spec fn spec_read_elem(b: Seq<u8>, p: int, et: u32) -> Result<(ValueV, int), GgufError> {
    if et == 0 {
        match spec_read_u8(b, p) { Ok((v, q)) => Ok((ValueV::U8(v), q)), Err(e) => Err(e) }
    } else if et == 4 {
        match spec_read_u32(b, p) { Ok((v, q)) => Ok((ValueV::U32(v), q)), Err(e) => Err(e) }
    } else if et == 5 {
        match spec_read_i32(b, p) { Ok((v, q)) => Ok((ValueV::I32(v), q)), Err(e) => Err(e) }
    } else if et == 6 {
        match spec_read_u32(b, p) { Ok((v, q)) => Ok((ValueV::F32(v), q)), Err(e) => Err(e) }
    } else if et == 8 {
        match spec_read_string(b, p) { Ok((v, q)) => Ok((ValueV::Str(v), q)), Err(e) => Err(e) }
    } else if et == 10 {
        match spec_read_u64(b, p) { Ok((v, q)) => Ok((ValueV::U64(v), q)), Err(e) => Err(e) }
    } else if et == 11 {
        match spec_read_i64(b, p) { Ok((v, q)) => Ok((ValueV::I64(v), q)), Err(e) => Err(e) }
    } else if et == 12 {
        match spec_read_u64(b, p) { Ok((v, q)) => Ok((ValueV::F64(v), q)), Err(e) => Err(e) }
    } else {
        Err(GgufError::UnknownArrayElementType(et))
    }
}

/// `n` consecutive array elements of type `et` starting at `p`.
pub open spec fn spec_read_elems(b: Seq<u8>, p: int, et: u32, n: nat) -> Result<(Seq<ValueV>, int), GgufError>
    decreases n,
{
    if n == 0 {
        Ok((Seq::empty(), p))
    } else {
        match spec_read_elems(b, p, et, (n - 1) as nat) {
            Err(e) => Err(e),
            Ok((vs, q)) => match spec_read_elem(b, q, et) {
                Err(e) => Err(e),
                Ok((v, r)) => Ok((vs.push(v), r)),
            },
        }
    }
}

/// Once reading `k` elements fails, reading more fails the same way.
proof fn lemma_elems_err(b: Seq<u8>, p: int, et: u32, k: nat, n: nat)
    requires
        k <= n,
        spec_read_elems(b, p, et, k) is Err,
    ensures
        spec_read_elems(b, p, et, n) == spec_read_elems(b, p, et, k),
    decreases n - k,
{
    if k < n {
        lemma_elems_err(b, p, et, k, (n - 1) as nat);
    }
}

/// A metadata value (type id, then payload) at `p`.
pub open spec fn spec_read_value(b: Seq<u8>, p: int) -> Result<(ValueV, int), GgufError> {
    match spec_read_u32(b, p) {
        Err(e) => Err(e),
        Ok((t, q)) => if t == 0 {
            match spec_read_u8(b, q) { Ok((v, r)) => Ok((ValueV::U8(v), r)), Err(e) => Err(e) }
        } else if t == 1 {
            match spec_read_u8(b, q) {
                Ok((v, r)) => Ok((ValueV::I8(to_signed(v as int, 128) as i8), r)),
                Err(e) => Err(e),
            }
        } else if t == 2 {
            match spec_read_u16(b, q) { Ok((v, r)) => Ok((ValueV::U16(v), r)), Err(e) => Err(e) }
        } else if t == 3 {
            match spec_read_u16(b, q) {
                Ok((v, r)) => Ok((ValueV::I16(to_signed(v as int, 32768) as i16), r)),
                Err(e) => Err(e),
            }
        } else if t == 4 {
            match spec_read_u32(b, q) { Ok((v, r)) => Ok((ValueV::U32(v), r)), Err(e) => Err(e) }
        } else if t == 5 {
            match spec_read_i32(b, q) { Ok((v, r)) => Ok((ValueV::I32(v), r)), Err(e) => Err(e) }
        } else if t == 6 {
            match spec_read_u32(b, q) { Ok((v, r)) => Ok((ValueV::F32(v), r)), Err(e) => Err(e) }
        } else if t == 7 {
            match spec_read_u8(b, q) { Ok((v, r)) => Ok((ValueV::Bool(v != 0), r)), Err(e) => Err(e) }
        } else if t == 8 {
            match spec_read_string(b, q) { Ok((v, r)) => Ok((ValueV::Str(v), r)), Err(e) => Err(e) }
        } else if t == 9 {
            match spec_read_u32(b, q) {
                Err(e) => Err(e),
                Ok((et, r)) => match spec_read_u64(b, r) {
                    Err(e) => Err(e),
                    Ok((count, r2)) => if count > MAX_ARRAY_LEN {
                        Err(GgufError::ArrayTooLarge(count))
                    } else {
                        match spec_read_elems(b, r2, et, count as nat) {
                            Err(e) => Err(e),
                            Ok((vs, r3)) => Ok((ValueV::Array(vs), r3)),
                        }
                    },
                },
            }
        } else if t == 10 {
            match spec_read_u64(b, q) { Ok((v, r)) => Ok((ValueV::U64(v), r)), Err(e) => Err(e) }
        } else if t == 11 {
            match spec_read_i64(b, q) { Ok((v, r)) => Ok((ValueV::I64(v), r)), Err(e) => Err(e) }
        } else if t == 12 {
            match spec_read_u64(b, q) { Ok((v, r)) => Ok((ValueV::F64(v), r)), Err(e) => Err(e) }
        } else {
            Err(GgufError::UnknownValueType(t))
        },
    }
}

/// Reads one array element of element type `et`.
fn read_elem(data: &[u8], pos: usize, et: u32) -> (r: Result<(GgufValue, usize), GgufError>)
    ensures
        match r {
            Ok((v, q)) => spec_read_elem(data@, pos as int, et)
                == Ok::<(ValueV, int), GgufError>((v.scalar_view(), q as int)),
            Err(e) => spec_read_elem(data@, pos as int, et) == Err::<(ValueV, int), GgufError>(e),
        },
{
    match et {
        0 => match read_u8(data, pos) { Ok((v, q)) => Ok((GgufValue::U8(v), q)), Err(e) => Err(e) },
        4 => match read_u32(data, pos) { Ok((v, q)) => Ok((GgufValue::U32(v), q)), Err(e) => Err(e) },
        5 => match read_i32(data, pos) { Ok((v, q)) => Ok((GgufValue::I32(v), q)), Err(e) => Err(e) },
        6 => match read_u32(data, pos) { Ok((v, q)) => Ok((GgufValue::F32(v), q)), Err(e) => Err(e) },
        8 => match read_string(data, pos) {
            Ok((v, q)) => Ok((GgufValue::String(v), q)),
            Err(e) => Err(e),
        },
        10 => match read_u64(data, pos) { Ok((v, q)) => Ok((GgufValue::U64(v), q)), Err(e) => Err(e) },
        11 => match read_i64(data, pos) { Ok((v, q)) => Ok((GgufValue::I64(v), q)), Err(e) => Err(e) },
        12 => match read_u64(data, pos) { Ok((v, q)) => Ok((GgufValue::F64(v), q)), Err(e) => Err(e) },
        _ => Err(GgufError::UnknownArrayElementType(et)),
    }
}

/// Reads one metadata value (type id, then payload) at `pos`.
pub fn read_value(data: &[u8], pos: usize) -> (r: Result<(GgufValue, usize), GgufError>)
    ensures
        match r {
            Ok((v, q)) => spec_read_value(data@, pos as int) == Ok::<(ValueV, int), GgufError>((v@, q as int)),
            Err(e) => spec_read_value(data@, pos as int) == Err::<(ValueV, int), GgufError>(e),
        },
{
    let (t, q) = match read_u32(data, pos) {
        Ok(x) => x,
        Err(e) => return Err(e),
    };
    match t {
        0 => match read_u8(data, q) { Ok((v, r)) => Ok((GgufValue::U8(v), r)), Err(e) => Err(e) },
        1 => match read_u8(data, q) {
            Ok((v, r)) => {
                let x: i8 = if v < 128 { v as i8 } else { ((v - 128) as i8) - 127 - 1 };
                Ok((GgufValue::I8(x), r))
            },
            Err(e) => Err(e),
        },
        2 => match read_u16(data, q) { Ok((v, r)) => Ok((GgufValue::U16(v), r)), Err(e) => Err(e) },
        3 => match read_u16(data, q) {
            Ok((v, r)) => {
                let x: i16 = if v < 32768 { v as i16 } else { ((v - 32768) as i16) - 32767 - 1 };
                Ok((GgufValue::I16(x), r))
            },
            Err(e) => Err(e),
        },
        4 => match read_u32(data, q) { Ok((v, r)) => Ok((GgufValue::U32(v), r)), Err(e) => Err(e) },
        5 => match read_i32(data, q) { Ok((v, r)) => Ok((GgufValue::I32(v), r)), Err(e) => Err(e) },
        6 => match read_u32(data, q) { Ok((v, r)) => Ok((GgufValue::F32(v), r)), Err(e) => Err(e) },
        7 => match read_u8(data, q) { Ok((v, r)) => Ok((GgufValue::Bool(v != 0), r)), Err(e) => Err(e) },
        8 => match read_string(data, q) {
            Ok((v, r)) => Ok((GgufValue::String(v), r)),
            Err(e) => Err(e),
        },
        9 => {
            let (et, r) = match read_u32(data, q) {
                Ok(x) => x,
                Err(e) => return Err(e),
            };
            let (count, r2) = match read_u64(data, r) {
                Ok(x) => x,
                Err(e) => return Err(e),
            };
            if count > MAX_ARRAY_LEN {
                return Err(GgufError::ArrayTooLarge(count));
            }
            let mut arr: Vec<GgufValue> = Vec::new();
            let mut cur = r2;
            let mut i: u64 = 0;
            assert(arr@.map_values(|e: GgufValue| e.scalar_view()) =~= Seq::<ValueV>::empty());
            #[verifier::loop_isolation(false)]
            while i < count
                invariant
                    i <= count,
                    count <= MAX_ARRAY_LEN,
                    spec_read_elems(data@, r2 as int, et, i as nat)
                        == Ok::<(Seq<ValueV>, int), GgufError>(
                        (arr@.map_values(|e: GgufValue| e.scalar_view()), cur as int)),
                decreases count - i,
            {
                match read_elem(data, cur, et) {
                    Ok((v, nq)) => {
                        let ghost old_arr = arr@;
                        arr.push(v);
                        assert(arr@.map_values(|e: GgufValue| e.scalar_view())
                            =~= old_arr.map_values(|e: GgufValue| e.scalar_view()).push(v.scalar_view()));
                        cur = nq;
                        assert(spec_read_elems(data@, r2 as int, et, (i + 1) as nat)
                            == Ok::<(Seq<ValueV>, int), GgufError>(
                            (arr@.map_values(|e: GgufValue| e.scalar_view()), cur as int)));
                    },
                    Err(e) => {
                        proof {
                            assert(spec_read_elems(data@, r2 as int, et, (i + 1) as nat)
                                == Err::<(Seq<ValueV>, int), GgufError>(e));
                            lemma_elems_err(data@, r2 as int, et, (i + 1) as nat, count as nat);
                        }
                        return Err(e);
                    },
                }
                i = i + 1;
            }
            Ok((GgufValue::Array(arr), cur))
        },
        10 => match read_u64(data, q) { Ok((v, r)) => Ok((GgufValue::U64(v), r)), Err(e) => Err(e) },
        11 => match read_i64(data, q) { Ok((v, r)) => Ok((GgufValue::I64(v), r)), Err(e) => Err(e) },
        12 => match read_u64(data, q) { Ok((v, r)) => Ok((GgufValue::F64(v), r)), Err(e) => Err(e) },
        _ => Err(GgufError::UnknownValueType(t)),
    }
}


/// A tensor descriptor as the model sees it.
pub ghost struct TensorV {
    pub name: Seq<char>,
    pub n_dims: u32,
    pub dims: Seq<u64>,
    pub ggml_type: GgmlType,
    pub offset: u64,
}

impl View for TensorInfo {
    type V = TensorV;

    open spec fn view(&self) -> TensorV {
        TensorV {
            name: self.name@,
            n_dims: self.n_dims,
            dims: self.dims@,
            ggml_type: self.ggml_type,
            offset: self.offset,
        }
    }
}

/// `n` consecutive u64 values at `p`.
pub open spec fn spec_read_dims(b: Seq<u8>, p: int, n: nat) -> Result<(Seq<u64>, int), GgufError>
    decreases n,
{
    if n == 0 {
        Ok((Seq::empty(), p))
    } else {
        match spec_read_dims(b, p, (n - 1) as nat) {
            Err(e) => Err(e),
            Ok((ds, q)) => match spec_read_u64(b, q) {
                Err(e) => Err(e),
                Ok((d, r)) => Ok((ds.push(d), r)),
            },
        }
    }
}

proof fn lemma_dims_err(b: Seq<u8>, p: int, k: nat, n: nat)
    requires
        k <= n,
        spec_read_dims(b, p, k) is Err,
    ensures
        spec_read_dims(b, p, n) == spec_read_dims(b, p, k),
    decreases n - k,
{
    if k < n {
        lemma_dims_err(b, p, k, (n - 1) as nat);
    }
}

/// One tensor descriptor at `p`: name, dimension count, dimensions,
/// type id, data offset.
pub open spec fn spec_read_tensor(b: Seq<u8>, p: int) -> Result<(TensorV, int), GgufError> {
    match spec_read_string(b, p) {
        Err(e) => Err(e),
        Ok((name, q1)) => match spec_read_u32(b, q1) {
            Err(e) => Err(e),
            Ok((n_dims, q2)) => match spec_read_dims(b, q2, n_dims as nat) {
                Err(e) => Err(e),
                Ok((dims, q3)) => match spec_read_u32(b, q3) {
                    Err(e) => Err(e),
                    Ok((tid, q4)) => match ggml_type_of(tid) {
                        None => Err(GgufError::UnknownGgmlType(tid)),
                        Some(t) => match spec_read_u64(b, q4) {
                            Err(e) => Err(e),
                            Ok((offset, q5)) => Ok((
                                TensorV { name, n_dims, dims, ggml_type: t, offset },
                                q5,
                            )),
                        },
                    },
                },
            },
        },
    }
}

/// `n` consecutive metadata key/value pairs at `p`.
pub open spec fn spec_read_kvs(b: Seq<u8>, p: int, n: nat) -> Result<(Seq<(Seq<char>, ValueV)>, int), GgufError>
    decreases n,
{
    if n == 0 {
        Ok((Seq::empty(), p))
    } else {
        match spec_read_kvs(b, p, (n - 1) as nat) {
            Err(e) => Err(e),
            Ok((kvs, q)) => match spec_read_string(b, q) {
                Err(e) => Err(e),
                Ok((k, r)) => match spec_read_value(b, r) {
                    Err(e) => Err(e),
                    Ok((v, r2)) => Ok((kvs.push((k, v)), r2)),
                },
            },
        }
    }
}

proof fn lemma_kvs_err(b: Seq<u8>, p: int, k: nat, n: nat)
    requires
        k <= n,
        spec_read_kvs(b, p, k) is Err,
    ensures
        spec_read_kvs(b, p, n) == spec_read_kvs(b, p, k),
    decreases n - k,
{
    if k < n {
        lemma_kvs_err(b, p, k, (n - 1) as nat);
    }
}

/// `n` consecutive tensor descriptors at `p`.
pub open spec fn spec_read_tensors(b: Seq<u8>, p: int, n: nat) -> Result<(Seq<TensorV>, int), GgufError>
    decreases n,
{
    if n == 0 {
        Ok((Seq::empty(), p))
    } else {
        match spec_read_tensors(b, p, (n - 1) as nat) {
            Err(e) => Err(e),
            Ok((ts, q)) => match spec_read_tensor(b, q) {
                Err(e) => Err(e),
                Ok((t, r)) => Ok((ts.push(t), r)),
            },
        }
    }
}

proof fn lemma_tensors_err(b: Seq<u8>, p: int, k: nat, n: nat)
    requires
        k <= n,
        spec_read_tensors(b, p, k) is Err,
    ensures
        spec_read_tensors(b, p, n) == spec_read_tensors(b, p, k),
    decreases n - k,
{
    if k < n {
        lemma_tensors_err(b, p, k, (n - 1) as nat);
    }
}

/// The value of the last entry with the given key (later entries replace
/// earlier ones).
pub open spec fn spec_lookup(kvs: Seq<(Seq<char>, ValueV)>, key: Seq<char>) -> Option<ValueV>
    decreases kvs.len(),
{
    if kvs.len() == 0 {
        None
    } else if kvs.last().0 == key {
        Some(kvs.last().1)
    } else {
        spec_lookup(kvs.drop_last(), key)
    }
}

/// The key under which the file states its data alignment.
pub open spec fn alignment_key() -> Seq<char> {
    seq!['g', 'e', 'n', 'e', 'r', 'a', 'l', '.', 'a', 'l', 'i', 'g', 'n', 'm', 'e', 'n', 't']
}

/// The data alignment: the "general.alignment" value if it is a U64 or U32,
/// else 32.
pub open spec fn spec_alignment(kvs: Seq<(Seq<char>, ValueV)>) -> u64 {
    match spec_lookup(kvs, alignment_key()) {
        Some(ValueV::U64(a)) => a,
        Some(ValueV::U32(a)) => a as u64,
        _ => 32,
    }
}

/// The parsed header of a GGUF file as the model sees it.
pub ghost struct FileV {
    pub version: u32,
    pub metadata: Seq<(Seq<char>, ValueV)>,
    pub tensors: Seq<TensorV>,
    pub data_offset: u64,
    pub alignment: u64,
}

/// What the header and tables of a GGUF file hold, up to the data offset:
/// (version, metadata, tensors, position after the tensor table).
pub open spec fn spec_tables(b: Seq<u8>) -> Result<(u32, Seq<(Seq<char>, ValueV)>, Seq<TensorV>, int), GgufError> {
    match spec_read_u32(b, 0) {
        Err(e) => Err(e),
        Ok((magic, p1)) => if magic != GGUF_MAGIC {
            Err(GgufError::InvalidMagic(magic))
        } else {
            match spec_read_u32(b, p1) {
                Err(e) => Err(e),
                Ok((version, p2)) => if version != GGUF_VERSION {
                    Err(GgufError::UnsupportedVersion(version))
                } else {
                    match spec_read_u64(b, p2) {
                        Err(e) => Err(e),
                        Ok((n_tensors, p3)) => match spec_read_u64(b, p3) {
                            Err(e) => Err(e),
                            Ok((n_kvs, p4)) => match spec_read_kvs(b, p4, n_kvs as nat) {
                                Err(e) => Err(e),
                                Ok((kvs, p5)) => match spec_read_tensors(b, p5, n_tensors as nat) {
                                    Err(e) => Err(e),
                                    Ok((ts, p6)) => Ok((version, kvs, ts, p6)),
                                },
                            },
                        },
                    }
                },
            }
        },
    }
}

/// The data section starts at the first multiple of the alignment at or
/// after the end of the tensor table; this holds when that is computable.
pub open spec fn layout_ok(b: Seq<u8>) -> bool {
    match spec_tables(b) {
        Ok((_, kvs, _, end)) => {
            let a = spec_alignment(kvs);
            a != 0 && ceil_div(end as nat, a as nat) * a <= u64::MAX
        },
        Err(_) => true,
    }
}

/// The parsed header of a GGUF file.
pub open spec fn spec_parse(b: Seq<u8>) -> Result<FileV, GgufError> {
    match spec_tables(b) {
        Err(e) => Err(e),
        Ok((version, kvs, ts, end)) => {
            let a = spec_alignment(kvs);
            Ok(FileV {
                version,
                metadata: kvs,
                tensors: ts,
                data_offset: (ceil_div(end as nat, a as nat) * a) as u64,
                alignment: a,
            })
        },
    }
}

/// Parsed GGUF file header: metadata and tensor index.  Metadata entries
/// stand in file order; a key that occurs twice is looked up by its last
/// occurrence.
#[derive(Debug)]
pub struct GgufFile {
    pub version: u32,
    pub metadata: Vec<(String, GgufValue)>,
    pub tensors: Vec<TensorInfo>,
    pub data_offset: u64,
    pub alignment: u64,
}

impl View for GgufFile {
    type V = FileV;

    open spec fn view(&self) -> FileV {
        FileV {
            version: self.version,
            metadata: self.metadata@.map_values(|kv: (String, GgufValue)| (kv.0@, kv.1@)),
            tensors: self.tensors@.map_values(|t: TensorInfo| t@),
            data_offset: self.data_offset,
            alignment: self.alignment,
        }
    }
}


/// Reads one tensor descriptor at `pos`.
fn read_tensor(data: &[u8], pos: usize) -> (r: Result<(TensorInfo, usize), GgufError>)
    ensures
        match r {
            Ok((t, q)) => spec_read_tensor(data@, pos as int) == Ok::<(TensorV, int), GgufError>((t@, q as int)),
            Err(e) => spec_read_tensor(data@, pos as int) == Err::<(TensorV, int), GgufError>(e),
        },
{
    let (name, q1) = match read_string(data, pos) {
        Ok(x) => x,
        Err(e) => return Err(e),
    };
    let (n_dims, q2) = match read_u32(data, q1) {
        Ok(x) => x,
        Err(e) => return Err(e),
    };
    let mut dims: Vec<u64> = Vec::new();
    let mut cur = q2;
    let mut i: u32 = 0;
    #[verifier::loop_isolation(false)]
    while i < n_dims
        invariant
            i <= n_dims,
            spec_read_dims(data@, q2 as int, i as nat) == Ok::<(Seq<u64>, int), GgufError>((dims@, cur as int)),
        decreases n_dims - i,
    {
        match read_u64(data, cur) {
            Ok((d, nq)) => {
                dims.push(d);
                cur = nq;
            },
            Err(e) => {
                proof {
                    lemma_dims_err(data@, q2 as int, (i + 1) as nat, n_dims as nat);
                }
                return Err(e);
            },
        }
        i = i + 1;
    }
    let (tid, q4) = match read_u32(data, cur) {
        Ok(x) => x,
        Err(e) => return Err(e),
    };
    let ggml_type = match GgmlType::from_u32(tid) {
        Ok(t) => t,
        Err(e) => return Err(e),
    };
    let (offset, q5) = match read_u64(data, q4) {
        Ok(x) => x,
        Err(e) => return Err(e),
    };
    Ok((TensorInfo { name, n_dims, dims, ggml_type, offset }, q5))
}

/// Reads header, metadata and tensor table.
fn read_tables(data: &[u8]) -> (r: Result<(u32, Vec<(String, GgufValue)>, Vec<TensorInfo>, usize), GgufError>)
    ensures
        match r {
            Ok((v, kvs, ts, end)) => spec_tables(data@) == Ok::<(u32, Seq<(Seq<char>, ValueV)>, Seq<TensorV>, int), GgufError>((
                v,
                kvs@.map_values(|kv: (String, GgufValue)| (kv.0@, kv.1@)),
                ts@.map_values(|t: TensorInfo| t@),
                end as int,
            )),
            Err(e) => spec_tables(data@) == Err::<(u32, Seq<(Seq<char>, ValueV)>, Seq<TensorV>, int), GgufError>(e),
        },
{
    let (magic, p1) = match read_u32(data, 0) {
        Ok(x) => x,
        Err(e) => return Err(e),
    };
    if magic != GGUF_MAGIC {
        return Err(GgufError::InvalidMagic(magic));
    }
    let (version, p2) = match read_u32(data, p1) {
        Ok(x) => x,
        Err(e) => return Err(e),
    };
    if version != GGUF_VERSION {
        return Err(GgufError::UnsupportedVersion(version));
    }
    let (n_tensors, p3) = match read_u64(data, p2) {
        Ok(x) => x,
        Err(e) => return Err(e),
    };
    let (n_kvs, p4) = match read_u64(data, p3) {
        Ok(x) => x,
        Err(e) => return Err(e),
    };
    let mut kvs: Vec<(String, GgufValue)> = Vec::new();
    let mut cur = p4;
    let mut i: u64 = 0;
    assert(kvs@.map_values(|kv: (String, GgufValue)| (kv.0@, kv.1@)) =~= Seq::<(Seq<char>, ValueV)>::empty());
    #[verifier::loop_isolation(false)]
    while i < n_kvs
        invariant
            i <= n_kvs,
            spec_read_kvs(data@, p4 as int, i as nat) == Ok::<(Seq<(Seq<char>, ValueV)>, int), GgufError>((
                kvs@.map_values(|kv: (String, GgufValue)| (kv.0@, kv.1@)),
                cur as int,
            )),
        decreases n_kvs - i,
    {
        let (key, q) = match read_string(data, cur) {
            Ok(x) => x,
            Err(e) => {
                proof {
                    lemma_kvs_err(data@, p4 as int, (i + 1) as nat, n_kvs as nat);
                }
                return Err(e);
            },
        };
        let (value, q2) = match read_value(data, q) {
            Ok(x) => x,
            Err(e) => {
                proof {
                    lemma_kvs_err(data@, p4 as int, (i + 1) as nat, n_kvs as nat);
                }
                return Err(e);
            },
        };
        let ghost old_kvs = kvs@;
        let ghost kv_view = (key@, value@);
        kvs.push((key, value));
        assert(kvs@.map_values(|kv: (String, GgufValue)| (kv.0@, kv.1@))
            =~= old_kvs.map_values(|kv: (String, GgufValue)| (kv.0@, kv.1@)).push(kv_view));
        cur = q2;
        i = i + 1;
    }
    let p5 = cur;
    let mut tensors: Vec<TensorInfo> = Vec::new();
    let mut j: u64 = 0;
    assert(tensors@.map_values(|t: TensorInfo| t@) =~= Seq::<TensorV>::empty());
    #[verifier::loop_isolation(false)]
    while j < n_tensors
        invariant
            j <= n_tensors,
            spec_read_tensors(data@, p5 as int, j as nat) == Ok::<(Seq<TensorV>, int), GgufError>((
                tensors@.map_values(|t: TensorInfo| t@),
                cur as int,
            )),
        decreases n_tensors - j,
    {
        match read_tensor(data, cur) {
            Ok((t, q)) => {
                let ghost old_ts = tensors@;
                let ghost tv = t@;
                tensors.push(t);
                assert(tensors@.map_values(|t: TensorInfo| t@) =~= old_ts.map_values(|t: TensorInfo| t@).push(tv));
                cur = q;
            },
            Err(e) => {
                proof {
                    lemma_tensors_err(data@, p5 as int, (j + 1) as nat, n_tensors as nat);
                }
                return Err(e);
            },
        }
        j = j + 1;
    }
    Ok((version, kvs, tensors, cur))
}


/// Index of the last entry with the given key, if any.
fn find_last(kvs: &Vec<(String, GgufValue)>, key: &str) -> (r: Option<usize>)
    ensures
        match spec_lookup(kvs@.map_values(|kv: (String, GgufValue)| (kv.0@, kv.1@)), key@) {
            Some(v) => r is Some && r->0 < kvs.len() && kvs@[r->0 as int].1@ == v,
            None => r is None,
        },
{
    let ghost view = kvs@.map_values(|kv: (String, GgufValue)| (kv.0@, kv.1@));
    let mut i: usize = kvs.len();
    assert(view.take(kvs.len() as int) =~= view);
    while i > 0
        invariant
            i <= kvs.len(),
            view == kvs@.map_values(|kv: (String, GgufValue)| (kv.0@, kv.1@)),
            spec_lookup(view, key@) == spec_lookup(view.take(i as int), key@),
        decreases i,
    {
        let ghost pre = view.take(i as int);
        assert(pre.drop_last() =~= view.take(i - 1));
        assert(pre.last() == view[i - 1]);
        if str_eq(kvs[i - 1].0.as_str(), key) {
            return Some(i - 1);
        }
        i = i - 1;
    }
    None
}

/// The alignment stated by the metadata ("general.alignment"), 32 by default.
fn alignment_of(kvs: &Vec<(String, GgufValue)>) -> (r: u64)
    ensures
        r == spec_alignment(kvs@.map_values(|kv: (String, GgufValue)| (kv.0@, kv.1@))),
{
    let key = "general.alignment";
    proof {
        reveal_strlit("general.alignment");
        assert(key@ =~= alignment_key());
    }
    match find_last(kvs, key) {
        Some(i) => match kvs[i].1.as_u64() {
            Some(a) => a,
            None => 32,
        },
        None => 32,
    }
}

impl GgufFile {
    /// Parses a GGUF header from the bytes of the file.  Where the header
    /// parses, its alignment must be nonzero and the aligned data offset must
    /// fit in 64 bits (`try_parse` checks this and reports it).
    pub fn parse(data: &[u8]) -> (r: Result<GgufFile, GgufError>)
        requires
            layout_ok(data@),
        ensures
            match r {
                Ok(f) => spec_parse(data@) == Ok::<FileV, GgufError>(f@),
                Err(e) => spec_parse(data@) == Err::<FileV, GgufError>(e),
            },
    {
        let (version, metadata, tensors, end) = match read_tables(data) {
            Ok(x) => x,
            Err(e) => return Err(e),
        };
        let alignment = alignment_of(&metadata);
        let end64 = end as u64;
        let q = end64 / alignment;
        let blocks = if end64 % alignment == 0 {
            q
        } else {
            assert(q < u64::MAX) by (nonlinear_arith)
                requires
                    alignment > 0,
                    end64 % alignment != 0,
                    q == end64 / alignment,
            {
                assert(alignment != 1);
            }
            q + 1
        };
        assert(blocks == ceil_div(end as nat, alignment as nat)) by (nonlinear_arith)
            requires
                alignment > 0,
                blocks == end64 / alignment + if end64 % alignment == 0 { 0int } else { 1int },
                end64 == end,
        {
            assert(end64 == alignment * (end64 / alignment) + end64 % alignment);
        }
        let data_offset = blocks * alignment;
        Ok(GgufFile { version, metadata, tensors, data_offset, alignment })
    }

    /// Parses a GGUF header, reporting a zero alignment or an aligned data
    /// offset beyond 64 bits as `BadAlignment`.
    pub fn try_parse(data: &[u8]) -> (r: Result<GgufFile, GgufError>)
        ensures
            layout_ok(data@) ==> match r {
                Ok(f) => spec_parse(data@) == Ok::<FileV, GgufError>(f@),
                Err(e) => spec_parse(data@) == Err::<FileV, GgufError>(e),
            },
            !layout_ok(data@) ==> r == Err::<GgufFile, GgufError>(
                GgufError::BadAlignment(spec_parse(data@)->Ok_0.alignment)),
    {
        let (version, metadata, tensors, end) = match read_tables(data) {
            Ok(x) => x,
            Err(e) => return Err(e),
        };
        let alignment = alignment_of(&metadata);
        if alignment == 0 {
            return Err(GgufError::BadAlignment(alignment));
        }
        let end64 = end as u64;
        let q = end64 / alignment;
        let blocks = if end64 % alignment == 0 {
            q
        } else {
            assert(q < u64::MAX) by (nonlinear_arith)
                requires
                    alignment > 0,
                    end64 % alignment != 0,
                    q == end64 / alignment,
            {
                assert(alignment != 1);
            }
            q + 1
        };
        assert(blocks == ceil_div(end as nat, alignment as nat)) by (nonlinear_arith)
            requires
                alignment > 0,
                blocks == end64 / alignment + if end64 % alignment == 0 { 0int } else { 1int },
                end64 == end,
        {
            assert(end64 == alignment * (end64 / alignment) + end64 % alignment);
        }
        if blocks > u64::MAX / alignment {
            assert(blocks * alignment > u64::MAX) by (nonlinear_arith)
                requires
                    alignment > 0,
                    blocks > u64::MAX / alignment,
            ;
            return Err(GgufError::BadAlignment(alignment));
        }
        assert(blocks * alignment <= u64::MAX) by (nonlinear_arith)
            requires
                alignment > 0,
                blocks <= u64::MAX / alignment,
        ;
        let data_offset = blocks * alignment;
        Ok(GgufFile { version, metadata, tensors, data_offset, alignment })
    }

    /// The metadata value under `key` (its last occurrence).
    pub fn get(&self, key: &str) -> (r: Option<&GgufValue>)
        ensures
            match spec_lookup(self@.metadata, key@) {
                Some(v) => r is Some && r->0@ == v,
                None => r is None,
            },
    {
        match find_last(&self.metadata, key) {
            Some(i) => Some(&self.metadata[i].1),
            None => None,
        }
    }

    /// The model architecture ("general.architecture"), if it is a string.
    pub fn architecture(&self) -> (r: Option<&str>)
        ensures
            match spec_lookup(self@.metadata, "general.architecture"@) {
                Some(ValueV::Str(s)) => r is Some && r->0@ == s,
                _ => r is None,
            },
    {
        match self.get("general.architecture") {
            Some(v) => v.as_str(),
            None => None,
        }
    }

    /// The model name ("general.name"), if it is a string.
    pub fn model_name(&self) -> (r: Option<&str>)
        ensures
            match spec_lookup(self@.metadata, "general.name"@) {
                Some(ValueV::Str(s)) => r is Some && r->0@ == s,
                _ => r is None,
            },
    {
        match self.get("general.name") {
            Some(v) => v.as_str(),
            None => None,
        }
    }

    /// A metadata value read as a u32.
    pub fn get_u32(&self, key: &str) -> (r: Option<u32>)
        ensures
            r == match spec_lookup(self@.metadata, key@) {
                Some(ValueV::U32(v)) => Some(v),
                Some(ValueV::I32(v)) => Some(v as u32),
                Some(ValueV::U64(v)) => Some(v as u32),
                _ => None::<u32>,
            },
    {
        match self.get(key) {
            Some(v) => v.as_u32(),
            None => None,
        }
    }
}


/// The data section of a parsed file starts on a multiple of the alignment,
/// at or after the end of the header.
pub proof fn lemma_data_offset_aligned(b: Seq<u8>)
    requires
        layout_ok(b),
        spec_parse(b) is Ok,
    ensures
        spec_parse(b)->Ok_0.alignment > 0,
        spec_parse(b)->Ok_0.data_offset % spec_parse(b)->Ok_0.alignment == 0,
        spec_parse(b)->Ok_0.data_offset >= spec_tables(b)->Ok_0.3,
{
    let (version, kvs, ts, end) = spec_tables(b)->Ok_0;
    let a = spec_alignment(kvs);
    let n = end as nat;
    let c = ceil_div(n, a as nat);
    assert(c * a % (a as int) == 0) by (nonlinear_arith)
        requires a > 0, c >= 0;
    if end >= 0 {
        assert(c * a >= n) by (nonlinear_arith)
            requires a > 0, n >= 0, c == (n + a - 1) / (a as int);
    } else {
        assert(c * a >= 0) by (nonlinear_arith)
            requires a > 0, c >= 0;
    }
}


/// The type ID of a metadata value at `p`: four bytes, least significant
/// first.
pub open spec fn type_id_at(b: Seq<u8>, p: int) -> int {
    b[p] + 256 * b[p + 1] + 65536 * b[p + 2] + 16777216 * b[p + 3]
}

/// A metadata value of a fixed-size type reads its payload right after the
/// four type bytes, least significant byte first: a bool (type 7) is true
/// exactly when its byte is not 0; u8 (0), i8 (1), u16 (2), i16 (3), u32
/// (4), i32 (5) and u64 (10) values are their bytes read as unsigned or two's
/// complement numbers; the position moves past the payload, and a payload
/// cut short by the end of the bytes is an error.
pub proof fn lemma_fixed_size_values(b: Seq<u8>, p: int)
    requires
        0 <= p,
        p + 4 <= b.len(),
    ensures
        ({
            let t = type_id_at(b, p);
            let q = p + 4;
            &&& t == 7 && q + 1 <= b.len() ==> spec_read_value(b, p) == Ok::<(ValueV, int), GgufError>(
                (ValueV::Bool(b[q] != 0), q + 1))
            &&& t == 0 && q + 1 <= b.len() ==> spec_read_value(b, p) == Ok::<(ValueV, int), GgufError>(
                (ValueV::U8(b[q]), q + 1))
            &&& t == 1 && q + 1 <= b.len() ==> (spec_read_value(b, p) matches Ok((ValueV::I8(x), r))
                && x == (if b[q] < 128 { b[q] as int } else { b[q] - 256 }) && r == q + 1)
            &&& t == 2 && q + 2 <= b.len() ==> (spec_read_value(b, p) matches Ok((ValueV::U16(x), r))
                && x == b[q] + 256 * b[q + 1] && r == q + 2)
            &&& t == 3 && q + 2 <= b.len() ==> (spec_read_value(b, p) matches Ok((ValueV::I16(x), r))
                && x == (if b[q + 1] < 128 { b[q] + 256 * b[q + 1] } else { b[q] + 256 * b[q + 1] - 65536 })
                && r == q + 2)
            &&& t == 4 && q + 4 <= b.len() ==> (spec_read_value(b, p) matches Ok((ValueV::U32(x), r))
                && x == type_id_at(b, q) && r == q + 4)
            &&& t == 5 && q + 4 <= b.len() ==> (spec_read_value(b, p) matches Ok((ValueV::I32(x), r))
                && x == (if b[q + 3] < 128 { type_id_at(b, q) } else { type_id_at(b, q) - 4294967296 })
                && r == q + 4)
            &&& t == 10 && q + 8 <= b.len() ==> (spec_read_value(b, p) matches Ok((ValueV::U64(x), r))
                && x == type_id_at(b, q) + 4294967296 * type_id_at(b, q + 4) && r == q + 8)
            &&& (t == 0 || t == 1 || t == 7) && q + 1 > b.len() ==> spec_read_value(b, p)
                == Err::<(ValueV, int), GgufError>(GgufError::UnexpectedEof)
            &&& t > 12 ==> spec_read_value(b, p) == Err::<(ValueV, int), GgufError>(GgufError::UnknownValueType(t as u32))
        }),
{
    let t = type_id_at(b, p);
    let q = p + 4;
    assert(le4(b, p) == t);
    assert(0 <= t < 4294967296);
    if q + 8 <= b.len() {
        assert(le8(b, q) == type_id_at(b, q) + 4294967296 * type_id_at(b, q + 4));
        assert(0 <= type_id_at(b, q) < 4294967296);
        assert(0 <= type_id_at(b, q + 4) < 4294967296);
    }
    if q + 4 <= b.len() {
        assert(le4(b, q) == type_id_at(b, q));
        assert(0 <= type_id_at(b, q) < 4294967296);
        assert(type_id_at(b, q) >= 2147483648 <==> b[q + 3] >= 128);
    }
}


/// A string metadata value (type 8) is a length of eight bytes, least
/// significant first, then that many bytes: where the length is at most
/// 1 MiB and the bytes are there and are UTF-8, the value is the string
/// whose UTF-8 encoding is exactly those bytes, and the position moves past
/// them; a longer length is refused, as is a string cut short by the end of
/// the bytes or bytes that are not UTF-8.
pub proof fn lemma_string_value(b: Seq<u8>, p: int)
    requires
        0 <= p,
        p + 12 <= b.len(),
        type_id_at(b, p) == 8,
    ensures
        ({
            let n = type_id_at(b, p + 4) + 4294967296 * type_id_at(b, p + 8);
            let q = p + 12;
            &&& n > 1048576 ==> spec_read_value(b, p)
                == Err::<(ValueV, int), GgufError>(GgufError::StringTooLong(n as u64))
            &&& n <= 1048576 && q + n > b.len() ==> spec_read_value(b, p)
                == Err::<(ValueV, int), GgufError>(GgufError::UnexpectedEof)
            &&& n <= 1048576 && q + n <= b.len() && !valid_utf8(b.subrange(q, q + n)) ==> spec_read_value(b, p)
                == Err::<(ValueV, int), GgufError>(GgufError::InvalidUtf8)
            &&& n <= 1048576 && q + n <= b.len() && valid_utf8(b.subrange(q, q + n)) ==> (
                spec_read_value(b, p) matches Ok((ValueV::Str(t), r))
                && encode_utf8(t) == b.subrange(q, q + n) && r == q + n)
        }),
{
    assert(le4(b, p) == type_id_at(b, p));
    assert(le8(b, p + 4) == type_id_at(b, p + 4) + 4294967296 * type_id_at(b, p + 8));
    assert(0 <= type_id_at(b, p + 4) < 4294967296);
    assert(0 <= type_id_at(b, p + 8) < 4294967296);
    let n = type_id_at(b, p + 4) + 4294967296 * type_id_at(b, p + 8);
    let q = p + 12;
    if n <= 1048576 && q + n <= b.len() && valid_utf8(b.subrange(q, q + n)) {
        decode_utf8_encode_utf8(b.subrange(q, q + n));
    }
}

} // verus!
