//! The binary record reader: fixed-width little-endian fields decoded from
//! an in-memory byte buffer through a seekable cursor.

use vstd::prelude::*;
use vstd::bytes::{
    spec_u16_from_le_bytes, spec_u32_from_le_bytes, spec_u64_from_le_bytes,
    u16_from_le_bytes, u32_from_le_bytes, u64_from_le_bytes,
};
use vstd::slice::slice_subrange;

use crate::error::LoadError;

verus! {

/// A cursor over the bytes of one whole map-data file.
pub struct ByteReader {
    data: Vec<u8>,
    pos: usize,
}

impl ByteReader {
    /// The bytes of the file.
    pub closed spec fn contents(&self) -> Seq<u8> {
        self.data@
    }

    /// The cursor, always within the contents.
    pub closed spec fn spec_pos(&self) -> nat {
        self.pos as nat
    }

    pub open spec fn wf(&self) -> bool {
        self.spec_pos() <= self.contents().len()
    }

    pub fn new(data: Vec<u8>) -> (r: Self)
        ensures
            r.contents() == data@,
            r.spec_pos() == 0,
            r.wf(),
    {
        ByteReader { data, pos: 0 }
    }

    /// Moves the cursor to `offset`, clamped to the end of the contents;
    /// a later read past the end fails with `TruncatedRead`.
    pub fn seek(&mut self, offset: u64)
        ensures
            final(self).contents() == old(self).contents(),
            final(self).wf(),
            final(self).spec_pos() == if offset <= old(self).contents().len() {
                offset as nat
            } else {
                old(self).contents().len()
            },
    {
        if offset <= self.data.len() as u64 {
            self.pos = offset as usize;
        } else {
            self.pos = self.data.len();
        }
    }

    /// The position of the cursor.
    pub fn position(&self) -> (r: usize)
        ensures
            r == self.spec_pos(),
    {
        self.pos
    }

    /// The whole contents, for handing a trailing payload to a decoder.
    pub fn bytes(&self) -> (r: &Vec<u8>)
        ensures
            r@ == self.contents(),
    {
        &self.data
    }
}

/// A fixed-width value decodable from `spec_size()` little-endian bytes.
pub trait ReadableFromBytes: Sized {
    /// Width of the encoding in bytes.
    spec fn spec_size() -> nat;

    /// The value the bytes encode.
    spec fn spec_read(bytes: Seq<u8>) -> Self;

    fn num_bytes() -> (n: usize)
        ensures
            n == Self::spec_size(),
            1 <= n <= 8,
    ;

    fn read(data: &Vec<u8>, pos: usize) -> (r: Self)
        requires
            pos + Self::spec_size() <= data@.len(),
        ensures
            r == Self::spec_read(data@.subrange(pos as int, pos + Self::spec_size())),
    ;
}

impl ReadableFromBytes for u16 {
    open spec fn spec_size() -> nat {
        2
    }

    open spec fn spec_read(bytes: Seq<u8>) -> u16 {
        spec_u16_from_le_bytes(bytes)
    }

    fn num_bytes() -> usize {
        2
    }

    fn read(data: &Vec<u8>, pos: usize) -> u16 {
        let _len = data.len();
        u16_from_le_bytes(slice_subrange(data.as_slice(), pos, pos + 2))
    }
}

/// The value a two-byte little-endian two's-complement field encodes.
pub open spec fn spec_i16_from_le_bytes(bytes: Seq<u8>) -> i16 {
    let u = spec_u16_from_le_bytes(bytes);
    if u < 0x8000 {
        u as i16
    } else {
        (u - 0x10000) as i16
    }
}

impl ReadableFromBytes for i16 {
    open spec fn spec_size() -> nat {
        2
    }

    open spec fn spec_read(bytes: Seq<u8>) -> i16 {
        spec_i16_from_le_bytes(bytes)
    }

    fn num_bytes() -> usize {
        2
    }

    fn read(data: &Vec<u8>, pos: usize) -> i16 {
        let _len = data.len();
        let u = u16_from_le_bytes(slice_subrange(data.as_slice(), pos, pos + 2));
        if u < 0x8000 {
            u as i16
        } else {
            ((u as i32) - 0x10000) as i16
        }
    }
}

impl ReadableFromBytes for u32 {
    open spec fn spec_size() -> nat {
        4
    }

    open spec fn spec_read(bytes: Seq<u8>) -> u32 {
        spec_u32_from_le_bytes(bytes)
    }

    fn num_bytes() -> usize {
        4
    }

    fn read(data: &Vec<u8>, pos: usize) -> u32 {
        let _len = data.len();
        u32_from_le_bytes(slice_subrange(data.as_slice(), pos, pos + 4))
    }
}

impl ReadableFromBytes for u64 {
    open spec fn spec_size() -> nat {
        8
    }

    open spec fn spec_read(bytes: Seq<u8>) -> u64 {
        spec_u64_from_le_bytes(bytes)
    }

    fn num_bytes() -> usize {
        8
    }

    fn read(data: &Vec<u8>, pos: usize) -> u64 {
        let _len = data.len();
        u64_from_le_bytes(slice_subrange(data.as_slice(), pos, pos + 8))
    }
}

/// Reads one fixed-width little-endian value at the cursor, advancing it;
/// fails with `TruncatedRead`, moving nothing, if fewer than `spec_size()`
/// bytes remain.
pub fn read_value<T: ReadableFromBytes>(reader: &mut ByteReader, into: &mut T) -> (r: Result<
    (),
    LoadError,
>)
    requires
        old(reader).wf(),
    ensures
        final(reader).contents() == old(reader).contents(),
        final(reader).wf(),
        match r {
            Ok(()) => {
                &&& old(reader).spec_pos() + T::spec_size() <= old(reader).contents().len()
                &&& final(reader).spec_pos() == old(reader).spec_pos() + T::spec_size()
                &&& *final(into) == T::spec_read(
                    old(reader).contents().subrange(
                        old(reader).spec_pos() as int,
                        (old(reader).spec_pos() + T::spec_size()) as int,
                    ),
                )
            },
            Err(e) => {
                &&& e == LoadError::TruncatedRead
                &&& old(reader).spec_pos() + T::spec_size() > old(reader).contents().len()
                &&& *final(into) == *old(into)
                &&& final(reader).spec_pos() == old(reader).spec_pos()
            },
        },
{
    let n = T::num_bytes();
    if reader.data.len() - reader.pos < n {
        return Err(LoadError::TruncatedRead);
    }
    *into = T::read(&reader.data, reader.pos);
    reader.pos = reader.pos + n;
    Ok(())
}

/// The two's-complement little-endian encoding of a 16-bit signed value.
pub open spec fn spec_i16_to_le_bytes(v: i16) -> Seq<u8> {
    vstd::bytes::spec_u16_to_le_bytes(
        (if v >= 0 {
            v as int
        } else {
            v + 0x10000
        }) as u16,
    )
}

/// Round trip: every fixed-width value the record reader decodes comes
/// back exactly from its own little-endian encoding.
pub proof fn lemma_le_round_trip(a: u16, b: u32, c: u64, d: i16)
    ensures
        spec_u16_from_le_bytes(vstd::bytes::spec_u16_to_le_bytes(a)) == a,
        spec_u32_from_le_bytes(vstd::bytes::spec_u32_to_le_bytes(b)) == b,
        spec_u64_from_le_bytes(vstd::bytes::spec_u64_to_le_bytes(c)) == c,
        spec_i16_from_le_bytes(spec_i16_to_le_bytes(d)) == d,
        vstd::bytes::spec_u16_to_le_bytes(a).len() == 2,
        vstd::bytes::spec_u32_to_le_bytes(b).len() == 4,
        vstd::bytes::spec_u64_to_le_bytes(c).len() == 8,
        spec_i16_to_le_bytes(d).len() == 2,
{
    vstd::bytes::lemma_auto_spec_u16_to_from_le_bytes();
    vstd::bytes::lemma_auto_spec_u32_to_from_le_bytes();
    vstd::bytes::lemma_auto_spec_u64_to_from_le_bytes();
    assert(vstd::bytes::spec_u16_to_le_bytes(a).len() == 2);
    assert(vstd::bytes::spec_u32_to_le_bytes(b).len() == 4);
    assert(vstd::bytes::spec_u64_to_le_bytes(c).len() == 8);
    let enc = (if d >= 0 {
        d as int
    } else {
        d + 0x10000
    }) as u16;
    assert(vstd::bytes::spec_u16_to_le_bytes(enc).len() == 2);
}

/// Reads `count` 64-bit little-endian offsets at the cursor: the offset
/// table both binary formats place after their header, one entry per
/// quadtree node in the canonical order.
pub fn read_offset_table(reader: &mut ByteReader, count: u32) -> (r: Result<Vec<u64>, LoadError>)
    requires
        old(reader).wf(),
    ensures
        final(reader).contents() == old(reader).contents(),
        final(reader).wf(),
        match r {
            Ok(offs) => {
                &&& old(reader).spec_pos() + 8 * count <= old(reader).contents().len()
                &&& final(reader).spec_pos() == old(reader).spec_pos() + 8 * count
                &&& offs@.len() == count
                &&& forall|i: int|
                    0 <= i < count ==> offs@[i] == spec_u64_from_le_bytes(
                        old(reader).contents().subrange(
                            old(reader).spec_pos() + 8 * i,
                            old(reader).spec_pos() + 8 * i + 8,
                        ),
                    )
            },
            Err(e) => {
                &&& e == LoadError::TruncatedRead
                &&& old(reader).contents().len() < old(reader).spec_pos() + 8 * count
            },
        },
{
    let ghost data = old(reader).contents();
    let ghost base = old(reader).spec_pos();
    let mut offs: Vec<u64> = Vec::new();
    let mut i: u32 = 0;
    while i < count
        invariant
            reader.wf(),
            data == old(reader).contents(),
            base == old(reader).spec_pos(),
            reader.contents() == data,
            i <= count,
            reader.spec_pos() == base + 8 * i,
            offs@.len() == i,
            forall|j: int|
                0 <= j < i ==> offs@[j] == spec_u64_from_le_bytes(
                    data.subrange(base + 8 * j, base + 8 * j + 8),
                ),
        decreases count - i,
    {
        let mut v: u64 = 0;
        if let Err(e) = read_value(reader, &mut v) {
            proof {
                assert(8 * i + 8 <= 8 * count);
            }
            return Err(e);
        }
        offs.push(v);
        i = i + 1;
    }
    Ok(offs)
}

/// Appends an alpha channel of 255 after every three bytes of a raw RGB
/// image, turning it into RGBA; trailing bytes of a partial pixel are
/// dropped.
pub fn interlace_alpha(image: &mut Vec<u8>)
    ensures
        final(image)@.len() == 4 * (old(image)@.len() / 3),
        forall|k: int|
            #![trigger final(image)@[4 * k]]
            0 <= k < old(image)@.len() / 3 ==> {
                &&& final(image)@[4 * k] == old(image)@[3 * k]
                &&& final(image)@[4 * k + 1] == old(image)@[3 * k + 1]
                &&& final(image)@[4 * k + 2] == old(image)@[3 * k + 2]
                &&& final(image)@[4 * k + 3] == 255
            },
{
    let pixels = image.len() / 3;
    proof {
        vstd::arithmetic::div_mod::lemma_fundamental_div_mod(image@.len() as int, 3);
    }
    let mut out: Vec<u8> = Vec::new();
    let mut k: usize = 0;
    while k < pixels
        invariant
            pixels == image@.len() / 3,
            3 * pixels <= image@.len(),
            image@.len() <= usize::MAX,
            0 <= k <= pixels,
            out@.len() == 4 * k,
            forall|j: int|
                #![trigger out@[4 * j]]
                0 <= j < k ==> {
                    &&& out@[4 * j] == image@[3 * j]
                    &&& out@[4 * j + 1] == image@[3 * j + 1]
                    &&& out@[4 * j + 2] == image@[3 * j + 2]
                    &&& out@[4 * j + 3] == 255
                },
        decreases pixels - k,
    {
        let ghost pre = out@;
        out.push(image[3 * k]);
        out.push(image[3 * k + 1]);
        out.push(image[3 * k + 2]);
        out.push(255);
        proof {
            let kk = k as int;
            assert(out@[4 * kk] == image@[3 * kk]);
            assert(out@[4 * kk + 1] == image@[3 * kk + 1]);
            assert(out@[4 * kk + 2] == image@[3 * kk + 2]);
            assert(out@[4 * kk + 3] == 255);
            assert forall|j: int| #![trigger out@[4 * j]] 0 <= j < kk implies {
                &&& out@[4 * j] == image@[3 * j]
                &&& out@[4 * j + 1] == image@[3 * j + 1]
                &&& out@[4 * j + 2] == image@[3 * j + 2]
                &&& out@[4 * j + 3] == 255
            } by {
                assert(pre[4 * j] == image@[3 * j]);
                assert(out@[4 * j] == pre[4 * j]);
                assert(out@[4 * j + 1] == pre[4 * j + 1]);
                assert(out@[4 * j + 2] == pre[4 * j + 2]);
                assert(out@[4 * j + 3] == pre[4 * j + 3]);
            }
        }
        k = k + 1;
    }
    *image = out;
}

} // verus!
