//! Writing arrays in NumPy's `.npy` format (version 3.0): the text header
//! that describes the element type and shape, its framing and padding, and
//! the little-endian bytes of the elements.
//!
//! Floating-point elements are held by their IEEE-754 bit patterns, so the
//! bytes written are exactly those of the values they stand for.

use vstd::prelude::*;
use vstd::string::*;
use vstd::utf8::encode_utf8;
use vstd::bytes::{spec_u32_to_le_bytes, spec_u32_from_le_bytes, u32_to_le_bytes, lemma_auto_spec_u32_to_from_le_bytes};
use vstd::slice::slice_to_vec;
use crate::text::{
    spec_decimal, push_decimal, is_digit, lemma_decimal_digits, lemma_decimal_first_digit,
    lemma_decimal_injective,
};

verus! {

/// The entries of a shape tuple: each dimension followed by `", "`.
pub open spec fn shape_entries(shape: Seq<usize>) -> Seq<char>
    decreases shape.len(),
{
    if shape.len() == 0 {
        seq![]
    } else {
        shape_entries(shape.drop_last()) + spec_decimal(shape.last() as nat) + seq![',', ' ']
    }
}

/// The text of a shape as a Python tuple: `"("`, each dimension followed by
/// `", "`, with the last character removed and `")"` appended.  A shape of
/// one dimension `n` gives `"(n,)"`, of two `"(n, m,)"`.
pub open spec fn spec_format_shape(shape: Seq<usize>) -> Seq<char> {
    (seq!['('] + shape_entries(shape)).drop_last().push(')')
}

/// Formats a shape as a Python tuple, as `.npy` headers hold it.
pub fn format_shape(vec: &[usize]) -> (res: String)
    ensures
        res@ == spec_format_shape(vec@),
{
    let mut res = String::new();
    let mut i: usize = 0;
    while i < vec.len()
        invariant
            0 <= i <= vec.len(),
            res@ == (seq!['('] + shape_entries(vec@.take(i as int))).drop_last(),
        decreases vec.len() - i,
    {
        proof { reveal_strlit("("); reveal_strlit(" "); reveal_strlit(","); }
        let ghost prev = seq!['('] + shape_entries(vec@.take(i as int));
        assert(vec@.take(i + 1).drop_last() =~= vec@.take(i as int));
        if i == 0 {
            assert(prev =~= seq!['(']);
            res.append("(");
        } else {
            assert(prev.last() == ' ');
            res.append(" ");
        }
        assert(prev.len() > 0);
        assert(prev.drop_last().push(prev.last()) =~= prev);
        assert(res@ =~= prev);
        push_decimal(&mut res, vec[i] as u64);
        res.append(",");
        assert(shape_entries(vec@.take(i + 1)) =~= shape_entries(vec@.take(i as int))
            + spec_decimal(vec@[i as int] as nat) + seq![',', ' ']);
        assert(res@ =~= (seq!['('] + shape_entries(vec@.take(i + 1))).drop_last());
        i = i + 1;
    }
    assert(vec@.take(vec.len() as int) =~= vec@);
    res.append(")");
    proof { reveal_strlit(")"); }
    res
}

/// Element types that `.npy` files can hold, with the type descriptor the
/// header gives them.
pub trait NumpyDType {
    const DTYPE: &'static str;
}

/// A 32-bit float, held by its IEEE-754 bit pattern.
#[derive(Clone, Copy)]
pub struct F32Bits(pub u32);

/// A 64-bit float, held by its IEEE-754 bit pattern.
#[derive(Clone, Copy)]
pub struct F64Bits(pub u64);

impl NumpyDType for F32Bits {
    const DTYPE: &'static str = "<f4";
}

impl NumpyDType for F64Bits {
    const DTYPE: &'static str = "<f8";
}

/// The header text: a Python dict literal with the descriptor, the memory
/// order and the shape.
pub open spec fn header_chars(dtype: Seq<char>, shape: Seq<usize>) -> Seq<char> {
    "{'descr': '"@ + dtype + "', 'fortran_order': False, 'shape': "@ + spec_format_shape(shape) + " }"@
}

/// The preamble length the header padding is computed for.  Magic (6
/// bytes), version (2) and a 2-byte length field would make 10; version 3.0,
/// which is what gets written, has a 4-byte length field.
pub open spec fn preamble_len() -> nat {
    10
}

/// The number of spaces put after the header text, before its closing
/// newline: enough for `preamble_len()` bytes and the padded header to fill
/// whole 64-byte blocks.
pub open spec fn npy_padding(header_len: nat) -> int {
    (64 - (preamble_len() + header_len) % 64) % 64 - 1
}

/// Whether a header of this length can be framed: the computation
/// of the padding underflows when preamble and header already end on a
/// 64-byte boundary.
pub open spec fn header_len_ok(header_len: nat) -> bool {
    &&& (preamble_len() + header_len) % 64 != 0
    &&& header_len + 64 <= usize::MAX
}

/// The header bytes followed by the padding spaces and a newline.
pub open spec fn padded_header(header: Seq<u8>) -> Seq<u8> {
    header + Seq::new(npy_padding(header.len()) as nat, |i: int| 0x20u8) + seq![0x0au8]
}

/// `\x93NUMPY`.
pub open spec fn npy_magic() -> Seq<u8> {
    seq![0x93u8, 0x4eu8, 0x55u8, 0x4du8, 0x50u8, 0x59u8]
}

/// Everything a `.npy` file holds before its data: magic, version 3.0, the
/// length of the padded header as a little-endian `u32` (taken modulo
/// 2^32, as a cast to `u32` does), and the padded header.
pub open spec fn npy_prefix(header: Seq<u8>) -> Seq<u8> {
    let h = padded_header(header);
    npy_magic() + seq![3u8, 0u8] + spec_u32_to_le_bytes((h.len() % 0x1_0000_0000) as u32) + h
}

/// Appends magic, version, header length and the padded header to `out`.
pub fn write_npy_prefix(header: Vec<u8>, out: &mut Vec<u8>)
    requires
        header_len_ok(header@.len()),
    ensures
        final(out)@ == old(out)@ + npy_prefix(header@),
{
    let mut header = header;
    let ghost h0 = header@;
    let total_len = 10 + header.len();
    let padding_needed = (64 - (total_len % 64)) % 64 - 1;
    let mut k: usize = 0;
    while k < padding_needed
        invariant
            k <= padding_needed,
            padding_needed == npy_padding(h0.len()),
            header@ == h0 + Seq::new(k as nat, |i: int| 0x20u8),
        decreases padding_needed - k,
    {
        header.push(0x20);
        assert(header@ =~= h0 + Seq::new((k + 1) as nat, |i: int| 0x20u8));
        k = k + 1;
    }
    header.push(0x0a);
    assert(header@ =~= padded_header(h0));
    let header_len: u32 = ((header.len() as u64) % 0x1_0000_0000) as u32;
    let len_bytes = u32_to_le_bytes(header_len);
    out.push(0x93);
    out.push(0x4e);
    out.push(0x55);
    out.push(0x4d);
    out.push(0x50);
    out.push(0x59);
    out.push(3);
    out.push(0);
    let mut j: usize = 0;
    let ghost mid = out@;
    while j < len_bytes.len()
        invariant
            j <= len_bytes@.len(),
            out@ == mid + len_bytes@.take(j as int),
        decreases len_bytes.len() - j,
    {
        out.push(len_bytes[j]);
        assert(len_bytes@.take(j + 1) =~= len_bytes@.take(j as int).push(len_bytes@[j as int]));
        j = j + 1;
    }
    assert(len_bytes@.take(len_bytes@.len() as int) =~= len_bytes@);
    let ghost mid2 = out@;
    let mut j: usize = 0;
    while j < header.len()
        invariant
            j <= header@.len(),
            out@ == mid2 + header@.take(j as int),
        decreases header.len() - j,
    {
        out.push(header[j]);
        assert(header@.take(j + 1) =~= header@.take(j as int).push(header@[j as int]));
        j = j + 1;
    }
    assert(header@.take(header@.len() as int) =~= header@);
    assert(final(out)@ =~= old(out)@ + npy_prefix(h0));
}


/// A three-component vector of 32-bit floats, held by the IEEE-754 bit
/// patterns of its components.
#[derive(Clone, Copy)]
pub struct Vec3Bits {
    pub x: u32,
    pub y: u32,
    pub z: u32,
}

/// The little-endian bytes of one vector: `x`, then `y`, then `z`.
pub open spec fn vec3_le_bytes(v: Vec3Bits) -> Seq<u8> {
    spec_u32_to_le_bytes(v.x) + spec_u32_to_le_bytes(v.y) + spec_u32_to_le_bytes(v.z)
}

/// The little-endian bytes of a sequence of vectors, one after the other.
pub open spec fn vec3s_le_bytes(vs: Seq<Vec3Bits>) -> Seq<u8>
    decreases vs.len(),
{
    if vs.len() == 0 {
        seq![]
    } else {
        vec3s_le_bytes(vs.drop_last()) + vec3_le_bytes(vs.last())
    }
}

/// The little-endian bytes of a sequence of 32-bit floats.
pub open spec fn f32s_le_bytes(vs: Seq<F32Bits>) -> Seq<u8>
    decreases vs.len(),
{
    if vs.len() == 0 {
        seq![]
    } else {
        f32s_le_bytes(vs.drop_last()) + spec_u32_to_le_bytes(vs.last().0)
    }
}

/// The little-endian bytes of rows of vectors, row after row.
pub open spec fn vec3_rows_le_bytes<const N: usize>(rows: Seq<[Vec3Bits; N]>) -> Seq<u8>
    decreases rows.len(),
{
    if rows.len() == 0 {
        seq![]
    } else {
        vec3_rows_le_bytes(rows.drop_last()) + vec3s_le_bytes(rows.last()@)
    }
}

/// The little-endian bytes of rows of 32-bit floats, row after row.
pub open spec fn f32_rows_le_bytes<const N: usize>(rows: Seq<[F32Bits; N]>) -> Seq<u8>
    decreases rows.len(),
{
    if rows.len() == 0 {
        seq![]
    } else {
        f32_rows_le_bytes(rows.drop_last()) + f32s_le_bytes(rows.last()@)
    }
}

fn push_u32_le(out: &mut Vec<u8>, x: u32)
    ensures
        final(out)@ == old(out)@ + spec_u32_to_le_bytes(x),
{
    let bytes = u32_to_le_bytes(x);
    out.push(bytes[0]);
    out.push(bytes[1]);
    out.push(bytes[2]);
    out.push(bytes[3]);
    assert(final(out)@ =~= old(out)@ + bytes@);
}

fn push_vec3s(out: &mut Vec<u8>, vs: &[Vec3Bits])
    ensures
        final(out)@ == old(out)@ + vec3s_le_bytes(vs@),
{
    let mut i: usize = 0;
    while i < vs.len()
        invariant
            i <= vs@.len(),
            out@ == old(out)@ + vec3s_le_bytes(vs@.take(i as int)),
        decreases vs.len() - i,
    {
        let v = vs[i];
        push_u32_le(out, v.x);
        push_u32_le(out, v.y);
        push_u32_le(out, v.z);
        assert(vs@.take(i + 1).drop_last() =~= vs@.take(i as int));
        assert(out@ =~= old(out)@ + vec3s_le_bytes(vs@.take(i + 1)));
        i = i + 1;
    }
    assert(vs@.take(vs@.len() as int) =~= vs@);
}

fn push_f32s(out: &mut Vec<u8>, vs: &[F32Bits])
    ensures
        final(out)@ == old(out)@ + f32s_le_bytes(vs@),
{
    let mut i: usize = 0;
    while i < vs.len()
        invariant
            i <= vs@.len(),
            out@ == old(out)@ + f32s_le_bytes(vs@.take(i as int)),
        decreases vs.len() - i,
    {
        push_u32_le(out, vs[i].0);
        assert(vs@.take(i + 1).drop_last() =~= vs@.take(i as int));
        assert(out@ =~= old(out)@ + f32s_le_bytes(vs@.take(i + 1)));
        i = i + 1;
    }
    assert(vs@.take(vs@.len() as int) =~= vs@);
}

/// Arrays that can be written as `.npy` files.
pub trait Numpy: Sized {
    type DTYPE: NumpyDType;

    /// The dimensions of the array.
    spec fn spec_shape(&self) -> Seq<usize>;

    /// The bytes of the elements, in row-major order.
    spec fn spec_data(&self) -> Seq<u8>;

    fn shape(&self) -> (res: Vec<usize>)
        ensures
            res@ == self.spec_shape(),
    ;

    /// Appends the bytes of the elements to `writer`.
    fn write(self, writer: &mut Vec<u8>)
        ensures
            final(writer)@ == old(writer)@ + self.spec_data(),
    ;

    /// The header text, as UTF-8 bytes.
    fn get_header(&self) -> (res: Vec<u8>)
        ensures
            res@ == encode_utf8(header_chars(<Self::DTYPE as NumpyDType>::DTYPE@, self.spec_shape())),
    {
        let shape = format_shape(self.shape().as_slice());
        let mut text = String::new();
        text.append("{'descr': '");
        text.append(<Self::DTYPE as NumpyDType>::DTYPE);
        text.append("', 'fortran_order': False, 'shape': ");
        text.append(shape.as_str());
        text.append(" }");
        assert(text@ =~= header_chars(<Self::DTYPE as NumpyDType>::DTYPE@, self.spec_shape()));
        slice_to_vec(text.as_str().as_bytes())
    }

    /// Appends a complete `.npy` file to `writer`: magic, version, header
    /// length, padded header and the element bytes.
    fn write_npy(self, writer: &mut Vec<u8>)
        requires
            header_len_ok(
                encode_utf8(header_chars(<Self::DTYPE as NumpyDType>::DTYPE@, self.spec_shape())).len(),
            ),
        ensures
            final(writer)@ == old(writer)@ + npy_prefix(
                encode_utf8(header_chars(<Self::DTYPE as NumpyDType>::DTYPE@, self.spec_shape())),
            ) + self.spec_data(),
    {
        let header = self.get_header();
        write_npy_prefix(header, writer);
        self.write(writer);
    }
}

impl<'a> Numpy for &'a [Vec3Bits] {
    type DTYPE = F32Bits;

    open spec fn spec_shape(&self) -> Seq<usize> {
        seq![self@.len() as usize, 3usize]
    }

    open spec fn spec_data(&self) -> Seq<u8> {
        vec3s_le_bytes(self@)
    }

    fn shape(&self) -> (res: Vec<usize>) {
        let res = vec![self.len(), 3];
        assert(res@ =~= seq![self@.len() as usize, 3usize]);
        res
    }

    fn write(self, writer: &mut Vec<u8>) {
        push_vec3s(writer, self);
    }
}

impl<'a> Numpy for &'a [F32Bits] {
    type DTYPE = F32Bits;

    open spec fn spec_shape(&self) -> Seq<usize> {
        seq![self@.len() as usize]
    }

    open spec fn spec_data(&self) -> Seq<u8> {
        f32s_le_bytes(self@)
    }

    fn shape(&self) -> (res: Vec<usize>) {
        let res = vec![self.len()];
        assert(res@ =~= seq![self@.len() as usize]);
        res
    }

    fn write(self, writer: &mut Vec<u8>) {
        push_f32s(writer, self);
    }
}

impl<'a, const N: usize> Numpy for &'a [[Vec3Bits; N]] {
    type DTYPE = F32Bits;

    open spec fn spec_shape(&self) -> Seq<usize> {
        seq![self@.len() as usize, N, 3usize]
    }

    open spec fn spec_data(&self) -> Seq<u8> {
        vec3_rows_le_bytes(self@)
    }

    fn shape(&self) -> (res: Vec<usize>) {
        let res = vec![self.len(), N, 3];
        assert(res@ =~= seq![self@.len() as usize, N, 3usize]);
        res
    }

    fn write(self, writer: &mut Vec<u8>) {
        let mut i: usize = 0;
        while i < self.len()
            invariant
                i <= self@.len(),
                writer@ == old(writer)@ + vec3_rows_le_bytes(self@.take(i as int)),
            decreases self.len() - i,
        {
            push_vec3s(writer, self[i].as_slice());
            assert(self@.take(i + 1).drop_last() =~= self@.take(i as int));
            assert(writer@ =~= old(writer)@ + vec3_rows_le_bytes(self@.take(i + 1)));
            i = i + 1;
        }
        assert(self@.take(self@.len() as int) =~= self@);
    }
}

impl<'a, const N: usize> Numpy for &'a [[F32Bits; N]] {
    type DTYPE = F32Bits;

    open spec fn spec_shape(&self) -> Seq<usize> {
        seq![self@.len() as usize, N]
    }

    open spec fn spec_data(&self) -> Seq<u8> {
        f32_rows_le_bytes(self@)
    }

    fn shape(&self) -> (res: Vec<usize>) {
        let res = vec![self.len(), N];
        assert(res@ =~= seq![self@.len() as usize, N]);
        res
    }

    fn write(self, writer: &mut Vec<u8>) {
        let mut i: usize = 0;
        while i < self.len()
            invariant
                i <= self@.len(),
                writer@ == old(writer)@ + f32_rows_le_bytes(self@.take(i as int)),
            decreases self.len() - i,
        {
            push_f32s(writer, self[i].as_slice());
            assert(self@.take(i + 1).drop_last() =~= self@.take(i as int));
            assert(writer@ =~= old(writer)@ + f32_rows_le_bytes(self@.take(i + 1)));
            i = i + 1;
        }
        assert(self@.take(self@.len() as int) =~= self@);
    }
}


/// The number of elements an array of this shape holds.
pub open spec fn shape_product(shape: Seq<usize>) -> int
    decreases shape.len(),
{
    if shape.len() == 0 {
        1
    } else {
        shape_product(shape.drop_last()) * shape.last()
    }
}

/// The padding is computed for a 10-byte preamble, while version 3.0
/// writes a 4-byte length field and so a 12-byte preamble: preamble and
/// padded header together end two bytes past a 64-byte boundary.
pub proof fn lemma_npy_prefix_len(header: Seq<u8>)
    requires
        header_len_ok(header.len()),
    ensures
        (preamble_len() + padded_header(header).len()) % 64 == 0,
        npy_prefix(header).len() == 12 + padded_header(header).len(),
        npy_prefix(header).len() % 64 == 2,
{
    lemma_auto_spec_u32_to_from_le_bytes();
    let h = padded_header(header);
    let r = (10 + header.len()) % 64;
    assert(0 < r < 64);
    assert(npy_padding(header.len()) == 63 - r);
    assert(h.len() == header.len() + 64 - r);
    assert((10 + header.len() + 64 - r) % 64 == 0) by (nonlinear_arith)
        requires r == (10 + header.len()) % 64;
    assert(spec_u32_to_le_bytes((h.len() % 0x1_0000_0000) as u32).len() == 4);
}

/// A reader of a `.npy` file written here finds the magic, version 3.0, a
/// length field that gives back the length of the padded header, the header
/// text itself right after the 12 preamble bytes, and the newline that ends
/// the padded header just before the data.
pub proof fn lemma_npy_prefix_read_back(header: Seq<u8>)
    requires
        header_len_ok(header.len()),
        header.len() + 64 < 0x1_0000_0000,
    ensures
        npy_prefix(header).subrange(0, 6) == npy_magic(),
        npy_prefix(header)[6] == 3u8,
        npy_prefix(header)[7] == 0u8,
        spec_u32_from_le_bytes(npy_prefix(header).subrange(8, 12)) == padded_header(header).len(),
        npy_prefix(header).len() == 12 + padded_header(header).len(),
        npy_prefix(header).subrange(12, 12 + header.len() as int) == header,
        npy_prefix(header).last() == 0x0au8,
{
    lemma_npy_prefix_len(header);
    lemma_auto_spec_u32_to_from_le_bytes();
    let h = padded_header(header);
    let p = npy_prefix(header);
    let field = (h.len() % 0x1_0000_0000) as u32;
    let len_bytes = spec_u32_to_le_bytes(field);
    assert(len_bytes.len() == 4);
    assert(p.subrange(0, 6) =~= npy_magic());
    assert(p.subrange(8, 12) =~= len_bytes);
    assert(field == h.len());
    assert(p.subrange(12, 12 + header.len() as int) =~= header);
}


proof fn lemma_vec3s_le_bytes_len(vs: Seq<Vec3Bits>)
    ensures
        vec3s_le_bytes(vs).len() == 12 * vs.len(),
    decreases vs.len(),
{
    lemma_auto_spec_u32_to_from_le_bytes();
    if vs.len() > 0 {
        lemma_vec3s_le_bytes_len(vs.drop_last());
    }
}

proof fn lemma_f32s_le_bytes_len(vs: Seq<F32Bits>)
    ensures
        f32s_le_bytes(vs).len() == 4 * vs.len(),
    decreases vs.len(),
{
    lemma_auto_spec_u32_to_from_le_bytes();
    if vs.len() > 0 {
        lemma_f32s_le_bytes_len(vs.drop_last());
    }
}

proof fn lemma_vec3_rows_le_bytes_len<const N: usize>(rows: Seq<[Vec3Bits; N]>)
    ensures
        vec3_rows_le_bytes(rows).len() == 12 * N * rows.len(),
    decreases rows.len(),
{
    if rows.len() > 0 {
        lemma_vec3_rows_le_bytes_len(rows.drop_last());
        lemma_vec3s_le_bytes_len(rows.last()@);
        assert(12 * N * (rows.len() - 1) + 12 * N == 12 * N * rows.len()) by (nonlinear_arith);
    }
}

proof fn lemma_f32_rows_le_bytes_len<const N: usize>(rows: Seq<[F32Bits; N]>)
    ensures
        f32_rows_le_bytes(rows).len() == 4 * N * rows.len(),
    decreases rows.len(),
{
    if rows.len() > 0 {
        lemma_f32_rows_le_bytes_len(rows.drop_last());
        lemma_f32s_le_bytes_len(rows.last()@);
        assert(4 * N * (rows.len() - 1) + 4 * N == 4 * N * rows.len()) by (nonlinear_arith);
    }
}

/// The shape written in the header of a slice of vectors describes its
/// data: four bytes for each of the `len × 3` floats.
pub proof fn lemma_vec3_slice_shape_matches_data(a: &[Vec3Bits])
    ensures
        Numpy::spec_data(&a).len() == 4 * shape_product(Numpy::spec_shape(&a)),
{
    lemma_vec3s_le_bytes_len(a@);
    let sh = Numpy::spec_shape(&a);
    assert(sh.drop_last().drop_last().len() == 0);
    reveal_with_fuel(shape_product, 4);
    assert(a.len() as int == a@.len());
    assert(shape_product(sh) == a@.len() * 3);
}

/// The shape written in the header of a slice of floats describes its data:
/// four bytes for each of the `len` floats.
pub proof fn lemma_f32_slice_shape_matches_data(a: &[F32Bits])
    ensures
        Numpy::spec_data(&a).len() == 4 * shape_product(Numpy::spec_shape(&a)),
{
    lemma_f32s_le_bytes_len(a@);
    let sh = Numpy::spec_shape(&a);
    assert(sh.drop_last().len() == 0);
    reveal_with_fuel(shape_product, 4);
    assert(a.len() as int == a@.len());
    assert(shape_product(sh) == a@.len());
}

/// The shape written in the header of rows of vectors describes its data:
/// four bytes for each of the `len × N × 3` floats.
pub proof fn lemma_vec3_rows_shape_matches_data<const N: usize>(a: &[[Vec3Bits; N]])
    ensures
        Numpy::spec_data(&a).len() == 4 * shape_product(Numpy::spec_shape(&a)),
{
    lemma_vec3_rows_le_bytes_len(a@);
    let sh = Numpy::spec_shape(&a);
    assert(sh.drop_last().drop_last().drop_last().len() == 0);
    reveal_with_fuel(shape_product, 4);
    assert(a.len() as int == a@.len());
    assert(shape_product(sh) == a@.len() * N * 3);
    assert(12 * N * a@.len() == 4 * (a@.len() * N * 3)) by (nonlinear_arith);
}

/// The shape written in the header of rows of floats describes its data:
/// four bytes for each of the `len × N` floats.
pub proof fn lemma_f32_rows_shape_matches_data<const N: usize>(a: &[[F32Bits; N]])
    ensures
        Numpy::spec_data(&a).len() == 4 * shape_product(Numpy::spec_shape(&a)),
{
    lemma_f32_rows_le_bytes_len(a@);
    let sh = Numpy::spec_shape(&a);
    assert(sh.drop_last().drop_last().len() == 0);
    reveal_with_fuel(shape_product, 4);
    assert(a.len() as int == a@.len());
    assert(shape_product(sh) == a@.len() * N);
    assert(4 * N * a@.len() == 4 * (a@.len() * N)) by (nonlinear_arith);
}


/// The descriptors the header gives the element types: `"<f4"` for 32-bit
/// and `"<f8"` for 64-bit floats.
pub proof fn lemma_dtype_descriptors()
    ensures
        <F32Bits as NumpyDType>::DTYPE@ == "<f4"@,
        <F64Bits as NumpyDType>::DTYPE@ == "<f8"@,
        <F32Bits as NumpyDType>::DTYPE@ == seq!['<', 'f', '4'],
        <F64Bits as NumpyDType>::DTYPE@ == seq!['<', 'f', '8'],
{
    reveal_strlit("<f4");
    reveal_strlit("<f8");
}

proof fn lemma_open_entries_shape(s: Seq<usize>)
    ensures
        s.len() == 0 ==> seq!['('] + shape_entries(s) == seq!['('],
        s.len() > 0 ==> seq!['('] + shape_entries(s) == (seq!['('] + shape_entries(s.drop_last()))
            + spec_decimal(s.last() as nat) + seq![',', ' '],
        s.len() > 0 ==> (seq!['('] + shape_entries(s)).len() >= 4,
        !is_digit((seq!['('] + shape_entries(s)).last()),
{
    if s.len() == 0 {
        assert(seq!['('] + shape_entries(s) =~= seq!['(']);
    } else {
        let x = seq!['('] + shape_entries(s.drop_last());
        assert(seq!['('] + shape_entries(s) =~= x + spec_decimal(s.last() as nat) + seq![',', ' ']);
        lemma_decimal_first_digit(s.last() as nat);
    }
}

proof fn lemma_open_entries_injective(a: Seq<usize>, b: Seq<usize>)
    ensures
        seq!['('] + shape_entries(a) == seq!['('] + shape_entries(b) ==> a == b,
    decreases a.len(),
{
    let ea = seq!['('] + shape_entries(a);
    let eb = seq!['('] + shape_entries(b);
    lemma_open_entries_shape(a);
    lemma_open_entries_shape(b);
    if ea == eb && a.len() > 0 && b.len() > 0 {
        let xa = seq!['('] + shape_entries(a.drop_last());
        let xb = seq!['('] + shape_entries(b.drop_last());
        let da = spec_decimal(a.last() as nat);
        let db = spec_decimal(b.last() as nat);
        lemma_open_entries_shape(a.drop_last());
        lemma_open_entries_shape(b.drop_last());
        lemma_decimal_digits(a.last() as nat);
        lemma_decimal_digits(b.last() as nat);
        lemma_decimal_first_digit(a.last() as nat);
        lemma_decimal_first_digit(b.last() as nat);
        let ta = xa + da;
        let tb = xb + db;
        assert(ta =~= ea.subrange(0, ea.len() - 2));
        assert(tb =~= eb.subrange(0, eb.len() - 2));
        assert(ta == tb);
        let l = ta.len();
        if da.len() == db.len() {
            assert(da =~= ta.subrange(l - da.len(), l as int));
            assert(db =~= tb.subrange(l - db.len(), l as int));
            assert(xa =~= ta.subrange(0, l - da.len()));
            assert(xb =~= tb.subrange(0, l - db.len()));
            lemma_decimal_injective(a.last() as nat, b.last() as nat);
            lemma_open_entries_injective(a.drop_last(), b.drop_last());
            assert(a =~= a.drop_last().push(a.last()));
            assert(b =~= b.drop_last().push(b.last()));
        } else if da.len() < db.len() {
            let i = l - da.len() - 1;
            assert(ta[i] == xa.last());
            assert(tb[i] == db[i - xb.len()]);
            assert(is_digit(db[i - xb.len()]));
        } else {
            let i = l - db.len() - 1;
            assert(tb[i] == xb.last());
            assert(ta[i] == da[i - xa.len()]);
            assert(is_digit(da[i - xa.len()]));
        }
    }
}

/// Different shapes are written as different texts, so the shape can be
/// read back from the tuple text of a header.
pub proof fn lemma_format_shape_injective(a: Seq<usize>, b: Seq<usize>)
    ensures
        spec_format_shape(a) == spec_format_shape(b) ==> a == b,
{
    let ea = seq!['('] + shape_entries(a);
    let eb = seq!['('] + shape_entries(b);
    lemma_open_entries_shape(a);
    lemma_open_entries_shape(b);
    if spec_format_shape(a) == spec_format_shape(b) {
        let fa = spec_format_shape(a);
        assert(ea.drop_last() =~= fa.drop_last());
        assert(eb.drop_last() =~= spec_format_shape(b).drop_last());
        if a.len() > 0 && b.len() > 0 {
            assert(ea.last() == ' ');
            assert(eb.last() == ' ');
            assert(ea =~= ea.drop_last().push(' '));
            assert(eb =~= eb.drop_last().push(' '));
        } else if a.len() == 0 && b.len() > 0 {
            assert(fa.len() == 1);
        } else if a.len() > 0 && b.len() == 0 {
            assert(fa.len() >= 4);
        }
        lemma_open_entries_injective(a, b);
    }
}


/// The shape a tuple text stands for: the shape whose text it is.
pub open spec fn read_shape(text: Seq<char>) -> Seq<usize> {
    choose|s: Seq<usize>| spec_format_shape(s) == text
}

/// Reading the tuple text of a shape gives back that shape, its dimensions
/// in order.
pub proof fn lemma_shape_text_read_back(shape: Seq<usize>)
    ensures
        read_shape(spec_format_shape(shape)) == shape,
{
    let text = spec_format_shape(shape);
    assert(exists|s: Seq<usize>| spec_format_shape(s) == text);
    let r = read_shape(text);
    lemma_format_shape_injective(r, shape);
}


proof fn lemma_vec3s_le_bytes_at(vs: Seq<Vec3Bits>, i: int)
    requires
        0 <= i < vs.len(),
    ensures
        vec3s_le_bytes(vs).subrange(12 * i, 12 * i + 12) == spec_u32_to_le_bytes(vs[i].x)
            + spec_u32_to_le_bytes(vs[i].y) + spec_u32_to_le_bytes(vs[i].z),
    decreases vs.len(),
{
    lemma_auto_spec_u32_to_from_le_bytes();
    lemma_vec3s_le_bytes_len(vs.drop_last());
    let p = vec3s_le_bytes(vs.drop_last());
    let w = vec3s_le_bytes(vs);
    assert(w == p + vec3_le_bytes(vs.last()));
    if i < vs.len() - 1 {
        lemma_vec3s_le_bytes_at(vs.drop_last(), i);
        assert(w.subrange(12 * i, 12 * i + 12) =~= p.subrange(12 * i, 12 * i + 12));
    } else {
        assert(w.subrange(12 * i, 12 * i + 12) =~= vec3_le_bytes(vs.last()));
    }
}

proof fn lemma_f32s_le_bytes_at(vs: Seq<F32Bits>, i: int)
    requires
        0 <= i < vs.len(),
    ensures
        f32s_le_bytes(vs).subrange(4 * i, 4 * i + 4) == spec_u32_to_le_bytes(vs[i].0),
    decreases vs.len(),
{
    lemma_auto_spec_u32_to_from_le_bytes();
    lemma_f32s_le_bytes_len(vs.drop_last());
    let p = f32s_le_bytes(vs.drop_last());
    let w = f32s_le_bytes(vs);
    if i < vs.len() - 1 {
        lemma_f32s_le_bytes_at(vs.drop_last(), i);
        assert(w.subrange(4 * i, 4 * i + 4) =~= p.subrange(4 * i, 4 * i + 4));
    } else {
        assert(w.subrange(4 * i, 4 * i + 4) =~= spec_u32_to_le_bytes(vs.last().0));
    }
}

proof fn lemma_vec3_rows_le_bytes_at<const N: usize>(rows: Seq<[Vec3Bits; N]>, r: int)
    requires
        0 <= r < rows.len(),
    ensures
        vec3_rows_le_bytes(rows).subrange(12 * N * r, 12 * N * r + 12 * N) == vec3s_le_bytes(rows[r]@),
    decreases rows.len(),
{
    lemma_vec3_rows_le_bytes_len(rows.drop_last());
    lemma_vec3s_le_bytes_len(rows.last()@);
    let p = vec3_rows_le_bytes(rows.drop_last());
    let w = vec3_rows_le_bytes(rows);
    assert(12 * N * (rows.len() - 1) == 12 * N * rows.len() - 12 * N) by (nonlinear_arith);
    assert(12 * N * r + 12 * N <= 12 * N * rows.len()) by (nonlinear_arith)
        requires r < rows.len(), 0 <= r;
    assert(0 <= 12 * N * r) by (nonlinear_arith) requires 0 <= r;
    if r < rows.len() - 1 {
        lemma_vec3_rows_le_bytes_at(rows.drop_last(), r);
        assert(12 * N * r + 12 * N <= 12 * N * (rows.len() - 1)) by (nonlinear_arith)
            requires r < rows.len() - 1, 0 <= r;
        assert(w.subrange(12 * N * r, 12 * N * r + 12 * N) =~= p.subrange(12 * N * r, 12 * N * r + 12 * N));
    } else {
        assert(w.subrange(12 * N * r, 12 * N * r + 12 * N) =~= vec3s_le_bytes(rows.last()@));
    }
}

proof fn lemma_f32_rows_le_bytes_at<const N: usize>(rows: Seq<[F32Bits; N]>, r: int)
    requires
        0 <= r < rows.len(),
    ensures
        f32_rows_le_bytes(rows).subrange(4 * N * r, 4 * N * r + 4 * N) == f32s_le_bytes(rows[r]@),
    decreases rows.len(),
{
    lemma_f32_rows_le_bytes_len(rows.drop_last());
    lemma_f32s_le_bytes_len(rows.last()@);
    let p = f32_rows_le_bytes(rows.drop_last());
    let w = f32_rows_le_bytes(rows);
    assert(4 * N * (rows.len() - 1) == 4 * N * rows.len() - 4 * N) by (nonlinear_arith);
    assert(4 * N * r + 4 * N <= 4 * N * rows.len()) by (nonlinear_arith)
        requires r < rows.len(), 0 <= r;
    assert(0 <= 4 * N * r) by (nonlinear_arith) requires 0 <= r;
    if r < rows.len() - 1 {
        lemma_f32_rows_le_bytes_at(rows.drop_last(), r);
        assert(4 * N * r + 4 * N <= 4 * N * (rows.len() - 1)) by (nonlinear_arith)
            requires r < rows.len() - 1, 0 <= r;
        assert(w.subrange(4 * N * r, 4 * N * r + 4 * N) =~= p.subrange(4 * N * r, 4 * N * r + 4 * N));
    } else {
        assert(w.subrange(4 * N * r, 4 * N * r + 4 * N) =~= f32s_le_bytes(rows.last()@));
    }
}

/// The data of a slice of vectors is row-major: 12 bytes per vector, in
/// order, and the 4-byte little-endian words at offsets `12 i`, `12 i + 4`
/// and `12 i + 8` read back as the `x`, `y` and `z` of vector `i`.
pub proof fn lemma_vec3_slice_element_bytes(a: &[Vec3Bits], i: int)
    requires
        0 <= i < a@.len(),
    ensures
        Numpy::spec_data(&a).len() == 12 * a@.len(),
        spec_u32_from_le_bytes(Numpy::spec_data(&a).subrange(12 * i, 12 * i + 4)) == a@[i].x,
        spec_u32_from_le_bytes(Numpy::spec_data(&a).subrange(12 * i + 4, 12 * i + 8)) == a@[i].y,
        spec_u32_from_le_bytes(Numpy::spec_data(&a).subrange(12 * i + 8, 12 * i + 12)) == a@[i].z,
{
    lemma_auto_spec_u32_to_from_le_bytes();
    lemma_vec3s_le_bytes_len(a@);
    lemma_vec3s_le_bytes_at(a@, i);
    let d = Numpy::spec_data(&a);
    let blk = d.subrange(12 * i, 12 * i + 12);
    assert(d.subrange(12 * i, 12 * i + 4) =~= blk.subrange(0, 4));
    assert(d.subrange(12 * i + 4, 12 * i + 8) =~= blk.subrange(4, 8));
    assert(d.subrange(12 * i + 8, 12 * i + 12) =~= blk.subrange(8, 12));
    assert(blk.subrange(0, 4) =~= spec_u32_to_le_bytes(a@[i].x));
    assert(blk.subrange(4, 8) =~= spec_u32_to_le_bytes(a@[i].y));
    assert(blk.subrange(8, 12) =~= spec_u32_to_le_bytes(a@[i].z));
}

/// The data of a slice of floats: 4 bytes per float, in order, and the
/// little-endian word at offset `4 i` reads back as float `i`.
pub proof fn lemma_f32_slice_element_bytes(a: &[F32Bits], i: int)
    requires
        0 <= i < a@.len(),
    ensures
        Numpy::spec_data(&a).len() == 4 * a@.len(),
        spec_u32_from_le_bytes(Numpy::spec_data(&a).subrange(4 * i, 4 * i + 4)) == a@[i].0,
{
    lemma_auto_spec_u32_to_from_le_bytes();
    lemma_f32s_le_bytes_len(a@);
    lemma_f32s_le_bytes_at(a@, i);
    let d = Numpy::spec_data(&a);
    assert(d == f32s_le_bytes(a@));
    assert(d.subrange(4 * i, 4 * i + 4) == spec_u32_to_le_bytes(a@[i].0));
    assert(spec_u32_to_le_bytes(a@[i].0).len() == 4);
}

/// The data of rows of vectors is row-major: vector `j` of row `r` is
/// element `N r + j`, and its components read back from the words at
/// offsets `12 (N r + j)`, `+ 4` and `+ 8`.
pub proof fn lemma_vec3_rows_element_bytes<const N: usize>(a: &[[Vec3Bits; N]], r: int, j: int)
    requires
        0 <= r < a@.len(),
        0 <= j < N,
    ensures
        Numpy::spec_data(&a).len() == 12 * N * a@.len(),
        spec_u32_from_le_bytes(Numpy::spec_data(&a).subrange(12 * (N * r + j), 12 * (N * r + j) + 4))
            == a@[r]@[j].x,
        spec_u32_from_le_bytes(Numpy::spec_data(&a).subrange(12 * (N * r + j) + 4, 12 * (N * r + j) + 8))
            == a@[r]@[j].y,
        spec_u32_from_le_bytes(Numpy::spec_data(&a).subrange(12 * (N * r + j) + 8, 12 * (N * r + j) + 12))
            == a@[r]@[j].z,
{
    lemma_auto_spec_u32_to_from_le_bytes();
    lemma_vec3_rows_le_bytes_len(a@);
    lemma_vec3_rows_le_bytes_at(a@, r);
    let row = a@[r]@;
    assert(row.len() == N);
    lemma_vec3s_le_bytes_at(row, j);
    let d = Numpy::spec_data(&a);
    let base = 12 * N * r;
    assert(12 * (N * r + j) == base + 12 * j) by (nonlinear_arith) requires base == 12 * N * r;
    assert(0 <= base) by (nonlinear_arith) requires base == 12 * N * r, 0 <= r;
    assert(base + 12 * N <= 12 * N * a@.len()) by (nonlinear_arith)
        requires base == 12 * N * r, 0 <= r < a@.len();
    assert(12 * j + 12 <= 12 * N);
    assert(d == vec3_rows_le_bytes(a@));
    let rb = d.subrange(base, base + 12 * N);
    let blk = rb.subrange(12 * j, 12 * j + 12);
    assert(d.subrange(base + 12 * j, base + 12 * j + 4) =~= blk.subrange(0, 4));
    assert(d.subrange(base + 12 * j + 4, base + 12 * j + 8) =~= blk.subrange(4, 8));
    assert(d.subrange(base + 12 * j + 8, base + 12 * j + 12) =~= blk.subrange(8, 12));
    assert(blk.subrange(0, 4) =~= spec_u32_to_le_bytes(row[j].x));
    assert(blk.subrange(4, 8) =~= spec_u32_to_le_bytes(row[j].y));
    assert(blk.subrange(8, 12) =~= spec_u32_to_le_bytes(row[j].z));
}

/// The data of rows of floats is row-major: float `j` of row `r` is
/// element `N r + j` and reads back from the word at offset `4 (N r + j)`.
pub proof fn lemma_f32_rows_element_bytes<const N: usize>(a: &[[F32Bits; N]], r: int, j: int)
    requires
        0 <= r < a@.len(),
        0 <= j < N,
    ensures
        Numpy::spec_data(&a).len() == 4 * N * a@.len(),
        spec_u32_from_le_bytes(Numpy::spec_data(&a).subrange(4 * (N * r + j), 4 * (N * r + j) + 4))
            == a@[r]@[j].0,
{
    lemma_auto_spec_u32_to_from_le_bytes();
    lemma_f32_rows_le_bytes_len(a@);
    lemma_f32_rows_le_bytes_at(a@, r);
    let row = a@[r]@;
    assert(row.len() == N);
    lemma_f32s_le_bytes_at(row, j);
    let d = Numpy::spec_data(&a);
    let base = 4 * N * r;
    assert(4 * (N * r + j) == base + 4 * j) by (nonlinear_arith) requires base == 4 * N * r;
    assert(0 <= base) by (nonlinear_arith) requires base == 4 * N * r, 0 <= r;
    assert(base + 4 * N <= 4 * N * a@.len()) by (nonlinear_arith)
        requires base == 4 * N * r, 0 <= r < a@.len();
    assert(4 * j + 4 <= 4 * N);
    assert(d == f32_rows_le_bytes(a@));
    let rb = d.subrange(base, base + 4 * N);
    assert(d.subrange(base + 4 * j, base + 4 * j + 4) =~= rb.subrange(4 * j, 4 * j + 4));
    assert(rb.subrange(4 * j, 4 * j + 4) == spec_u32_to_le_bytes(row[j].0));
}


/// How the tuple text grows with the shape: no dimensions give `")"`, one
/// dimension `n` gives `"(n,)"`, and appending a dimension `x` to a
/// non-empty shape replaces the closing `")"` by `" x,)"`.
pub proof fn lemma_format_shape_structure(shape: Seq<usize>, x: usize)
    ensures
        spec_format_shape(seq![]) == seq![')'],
        spec_format_shape(seq![x]) == seq!['('] + spec_decimal(x as nat) + seq![',', ')'],
        shape.len() > 0 ==> spec_format_shape(shape.push(x)) == spec_format_shape(shape).drop_last()
            + seq![' '] + spec_decimal(x as nat) + seq![',', ')'],
{
    let e0: Seq<usize> = seq![];
    assert(shape_entries(e0) =~= Seq::<char>::empty());
    assert(spec_format_shape(e0) =~= seq![')']);
    let one = seq![x];
    assert(one.drop_last() =~= e0);
    assert(shape_entries(one) =~= spec_decimal(x as nat) + seq![',', ' ']);
    assert(spec_format_shape(one) =~= seq!['('] + spec_decimal(x as nat) + seq![',', ')']);
    if shape.len() > 0 {
        let t = shape.push(x);
        assert(t.drop_last() =~= shape);
        lemma_open_entries_shape(shape);
        let e = seq!['('] + shape_entries(shape);
        assert(seq!['('] + shape_entries(t) =~= e + spec_decimal(x as nat) + seq![',', ' ']);
        assert(e.last() == ' ');
        assert(spec_format_shape(shape).drop_last() =~= e.drop_last());
        assert(e =~= e.drop_last() + seq![' ']);
        assert(spec_format_shape(t) =~= spec_format_shape(shape).drop_last() + seq![' ']
            + spec_decimal(x as nat) + seq![',', ')']);
    }
}


/// The header opens with the descriptor, declares C (row-major) order,
/// which is how the data is laid out, and closes with the shape text and
/// `" }"`.
pub proof fn lemma_header_layout(dtype: Seq<char>, shape: Seq<usize>)
    ensures
        ({
            let h = header_chars(dtype, shape);
            let d = dtype.len() as int;
            let t = spec_format_shape(shape);
            &&& h.subrange(11, 11 + d) == dtype
            &&& h.subrange(11 + d + 3, 11 + d + 25) == seq![
                '\'', 'f', 'o', 'r', 't', 'r', 'a', 'n', '_', 'o', 'r', 'd', 'e', 'r', '\'', ':', ' ',
                'F', 'a', 'l', 's', 'e']
            &&& h.subrange(11 + d + 36, 11 + d + 36 + t.len()) == t
            &&& h.len() == 11 + d + 36 + t.len() + 2
            &&& h.subrange(h.len() - 2, h.len() as int) == seq![' ', '}']
        }),
{
    reveal_strlit("{'descr': '");
    reveal_strlit("', 'fortran_order': False, 'shape': ");
    reveal_strlit(" }");
    let h = header_chars(dtype, shape);
    let d = dtype.len() as int;
    let t = spec_format_shape(shape);
    assert(h.subrange(11, 11 + d) =~= dtype);
    assert(h.subrange(11 + d + 3, 11 + d + 25) =~= seq![
        '\'', 'f', 'o', 'r', 't', 'r', 'a', 'n', '_', 'o', 'r', 'd', 'e', 'r', '\'', ':', ' ',
        'F', 'a', 'l', 's', 'e']);
    assert(h.subrange(11 + d + 36, 11 + d + 36 + t.len()) =~= t);
    assert(h.subrange(h.len() - 2, h.len() as int) =~= seq![' ', '}']);
}

} // verus!
