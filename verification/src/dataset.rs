//! The IDX dataset model: image records, their labels, and the decoder.

use crate::wire::{be_i32, read_be_u32};
use vstd::arithmetic::mul::lemma_mul_inequality;
use vstd::prelude::*;

verus! {

/// Magic number that opens a well-formed images blob.
pub const IMAGES_MAGIC: u32 = 2051;

/// Magic number that opens a well-formed labels blob.
pub const LABELS_MAGIC: u32 = 2049;

/// How a decode operation failed. Every failure aborts the whole operation:
/// no partial dataset and no partially labelled records are ever produced.
#[derive(Clone, Copy, Debug, PartialEq, Eq, Structural)]
pub enum DecodeError {
    /// The blob opens with the wrong magic number.
    FormatError,
    /// Fewer bytes are available than the header declares.
    TruncatedInputError,
    /// The label count does not match the number of decoded images.
    ConsistencyError,
    /// A record's pixel count disagrees with the shape requested of it.
    InternalShapeError,
}

/// One decoded image: its pixel bytes in row-major order, and its label once
/// labels have been loaded.
pub struct MnistImage {
    /// Row-major pixel values of the image, `rows * cols` bytes.
    pub image: Vec<u8>,
    /// Label of the image, unset until labels are loaded.
    pub label: Option<u8>,
}

impl MnistImage {
    /// The record's pixel bytes, in on-disk (row-major) order.
    pub open spec fn pixels(&self) -> Seq<u8> {
        self.image@
    }
}

/// An ordered sequence of image records, in on-disk order.
pub struct MnistDataset {
    pub images: Vec<MnistImage>,
}

/// The image count `N` an images blob declares (signed, big-endian).
pub open spec fn spec_image_count(b: Seq<u8>) -> int {
    be_i32(b, 4)
}

/// The row count `R` an images blob declares.
pub open spec fn spec_rows(b: Seq<u8>) -> int {
    be_i32(b, 8)
}

/// The column count `C` an images blob declares.
pub open spec fn spec_cols(b: Seq<u8>) -> int {
    be_i32(b, 12)
}

/// How many records the images blob asks to be read: a non-positive declared
/// count reads none.
pub open spec fn spec_record_count(b: Seq<u8>) -> int {
    if spec_image_count(b) <= 0 {
        0
    } else {
        spec_image_count(b)
    }
}

/// Bytes per image record, as the declared dimensions derive it.
pub open spec fn spec_record_len(b: Seq<u8>) -> int {
    spec_rows(b) * spec_cols(b)
}

/// A well-formed images blob: the images magic number, a full 16-byte header,
/// and enough bytes after it for every declared record. Trailing bytes beyond
/// the last record are permitted and ignored.
pub open spec fn images_well_formed(b: Seq<u8>) -> bool {
    &&& b.len() >= 16
    &&& be_i32(b, 0) == IMAGES_MAGIC
    &&& (spec_record_count(b) == 0 || (spec_rows(b) >= 0 && spec_cols(b) >= 0 && 16
        + spec_record_count(b) * spec_record_len(b) <= b.len()))
}

/// The pixel bytes of record `i` of an images blob: the `i`-th record-sized
/// slice after the header.
pub open spec fn spec_record(b: Seq<u8>, i: int) -> Seq<u8> {
    b.subrange(16 + i * spec_record_len(b), 16 + (i + 1) * spec_record_len(b))
}

/// The label count `M` a labels blob declares (signed, big-endian).
pub open spec fn spec_label_count(b: Seq<u8>) -> int {
    be_i32(b, 4)
}

/// A labels blob that matches a dataset of `n` records: the labels magic
/// number, a declared count equal to `n`, and one byte per label after the
/// 8-byte header. Trailing bytes are permitted and ignored.
pub open spec fn labels_well_formed(b: Seq<u8>, n: int) -> bool {
    &&& b.len() >= 8
    &&& be_i32(b, 0) == LABELS_MAGIC
    &&& spec_label_count(b) == n
    &&& 8 + n <= b.len()
}

/// Copies `count` bytes of `bytes` starting at `start` into a fresh vector.
pub(crate) fn copy_range(bytes: &Vec<u8>, start: usize, count: usize) -> (r: Vec<u8>)
    requires
        start + count <= bytes@.len(),
    ensures
        r@ == bytes@.subrange(start as int, start + count),
{
    let len = bytes.len();
    let mut r: Vec<u8> = Vec::new();
    let mut j: usize = 0;
    while j < count
        invariant
            j <= count,
            len == bytes@.len(),
            start + count <= len,
            r@ == bytes@.subrange(start as int, start + j),
        decreases count - j,
    {
        r.push(bytes[start + j]);
        assert(bytes@.subrange(start as int, start + j + 1) =~= bytes@.subrange(
            start as int,
            start + j,
        ).push(bytes@[start + j]));
        j = j + 1;
    }
    r
}

/// Everything `MnistDataset::load_images` promises of its result `r` for an
/// images blob `b`: a well-formed blob decodes into exactly its declared
/// records with labels unset, a wrong magic number is a format error, and a
/// blob too short for its own header or records is a truncation error.
pub open spec fn images_decode_post(b: Seq<u8>, r: Result<MnistDataset, DecodeError>) -> bool {
    match r {
        Ok(ds) => {
            &&& images_well_formed(b)
            &&& ds.images@.len() == spec_record_count(b)
            &&& forall|i: int|
                0 <= i < spec_record_count(b) ==> (#[trigger] ds.images@[i]).pixels()
                    == spec_record(b, i)
            &&& forall|i: int|
                0 <= i < spec_record_count(b) ==> (#[trigger] ds.images@[i]).label is None
        },
        Err(DecodeError::FormatError) => b.len() >= 4 && be_i32(b, 0) != IMAGES_MAGIC,
        Err(DecodeError::TruncatedInputError) => b.len() < 4 || (be_i32(b, 0) == IMAGES_MAGIC
            && !images_well_formed(b)),
        Err(_) => false,
    }
}

impl MnistDataset {
    /// Decodes an images blob into a dataset.
    ///
    /// The blob must open with the images magic number, followed by the
    /// record count `N` and the dimensions `R` and `C`, all signed big-endian
    /// 32-bit fields, followed by `N` records of `R * C` pixel bytes each.
    /// On success the dataset holds exactly the declared records, in on-disk
    /// order, every label unset. A wrong magic number or a buffer too short
    /// for its own header yields an error and no records at all.
    pub fn load_images(bytes: &Vec<u8>) -> (r: Result<MnistDataset, DecodeError>)
        ensures
            images_decode_post(bytes@, r),
    {
        if bytes.len() < 4 {
            return Err(DecodeError::TruncatedInputError);
        }
        let magic = read_be_u32(bytes, 0);
        if magic != IMAGES_MAGIC {
            return Err(DecodeError::FormatError);
        }
        if bytes.len() < 16 {
            return Err(DecodeError::TruncatedInputError);
        }
        let n_raw = read_be_u32(bytes, 4);
        let r_raw = read_be_u32(bytes, 8);
        let c_raw = read_be_u32(bytes, 12);

        // A non-positive declared count reads no records at all.
        let num_images: usize = if n_raw == 0 || n_raw >= 0x8000_0000 {
            0
        } else {
            n_raw as usize
        };
        assert(num_images == spec_record_count(bytes@));
        if num_images == 0 {
            return Ok(MnistDataset { images: Vec::new() });
        }

        // A negative dimension leaves no well-defined record size: with
        // records still to read, the input cannot supply them.
        if r_raw >= 0x8000_0000 || c_raw >= 0x8000_0000 {
            return Err(DecodeError::TruncatedInputError);
        }
        let ru = r_raw as u64;
        let cu = c_raw as u64;
        assert(ru * cu < 0x4000_0000_0000_0000) by (nonlinear_arith)
            requires
                ru < 0x8000_0000,
                cu < 0x8000_0000,
        ;
        let rec64: u64 = ru * cu;
        assert(rec64 == spec_record_len(bytes@));

        let mut images: Vec<MnistImage> = Vec::new();
        let mut off: usize = 16;
        let mut i: usize = 0;
        while i < num_images
            invariant
                bytes@.len() >= 16,
                be_i32(bytes@, 0) == IMAGES_MAGIC,
                num_images == spec_record_count(bytes@),
                num_images > 0,
                rec64 == spec_record_len(bytes@),
                rec64 >= 0,
                i <= num_images,
                images@.len() == i,
                off == 16 + i * rec64,
                off <= bytes@.len(),
                forall|k: int|
                    0 <= k < i ==> (#[trigger] images@[k]).pixels() == spec_record(bytes@, k),
                forall|k: int| 0 <= k < i ==> (#[trigger] images@[k]).label is None,
            decreases num_images - i,
        {
            let len = bytes.len();
            if ((len - off) as u64) < rec64 {
                proof {
                    assert((i + 1) * rec64 == i * rec64 + rec64) by (nonlinear_arith);
                    lemma_mul_inequality(i + 1, num_images as int, rec64 as int);
                }
                return Err(DecodeError::TruncatedInputError);
            }
            let rec: usize = rec64 as usize;
            let image = copy_range(bytes, off, rec);
            images.push(MnistImage { image, label: None });
            proof {
                assert((i + 1) * rec64 == i * rec64 + rec64) by (nonlinear_arith);
                assert(images@[i as int].pixels() == spec_record(bytes@, i as int));
            }
            off = off + rec;
            i = i + 1;
        }
        proof {
            assert(16 + spec_record_count(bytes@) * spec_record_len(bytes@) <= bytes@.len());
        }
        Ok(MnistDataset { images })
    }
}

/// Decodes a labels blob against the dataset `before`, yielding the
/// dataset `after` and the result `r`. Everything `load_labels` promises:
/// a matching blob assigns the `i`-th label byte to the `i`-th record
/// and touches nothing else; any failure leaves the dataset exactly as
/// it was.
pub open spec fn labels_decode_post(
        b: Seq<u8>,
        before: MnistDataset,
        after: MnistDataset,
        r: Result<(), DecodeError>,
    ) -> bool {
        match r {
            Ok(()) => {
                &&& labels_well_formed(b, before.images@.len() as int)
                &&& after.images@.len() == before.images@.len()
                &&& forall|i: int|
                    0 <= i < before.images@.len() ==> (#[trigger] after.images@[i]).pixels()
                        == before.images@[i].pixels()
                &&& forall|i: int|
                    0 <= i < before.images@.len() ==> (#[trigger] after.images@[i]).label == Some(
                        b[8 + i],
                    )
            },
            Err(e) => after == before && match e {
                DecodeError::FormatError => b.len() >= 4 && be_i32(b, 0) != LABELS_MAGIC,
                DecodeError::TruncatedInputError => b.len() < 4 || (be_i32(b, 0) == LABELS_MAGIC
                    && (b.len() < 8 || (spec_label_count(b) == before.images@.len() && b.len() < 8
                    + spec_label_count(b)))),
                DecodeError::ConsistencyError => b.len() >= 8 && be_i32(b, 0) == LABELS_MAGIC
                    && spec_label_count(b) != before.images@.len(),
                DecodeError::InternalShapeError => false,
            },
        }
    }

impl MnistDataset {
    /// Decodes a labels blob and assigns the `i`-th label byte to the `i`-th
    /// record, in strict positional order.
    ///
    /// The blob must open with the labels magic number, followed by the label
    /// count `M` as a signed big-endian 32-bit field, followed by `M` label
    /// bytes. `M` must equal the number of records already present. Labelling
    /// is all-or-nothing: on any failure the dataset is left exactly as it
    /// was, no record's label assigned.
    pub fn load_labels(&mut self, bytes: &Vec<u8>) -> (r: Result<(), DecodeError>)
        ensures
            labels_decode_post(bytes@, *old(self), *final(self), r),
    {
        if bytes.len() < 4 {
            return Err(DecodeError::TruncatedInputError);
        }
        let magic = read_be_u32(bytes, 0);
        if magic != LABELS_MAGIC {
            return Err(DecodeError::FormatError);
        }
        if bytes.len() < 8 {
            return Err(DecodeError::TruncatedInputError);
        }
        let m_raw = read_be_u32(bytes, 4);
        let n = self.images.len();

        // The declared count must equal the record count; a negative count
        // can never match one.
        if m_raw >= 0x8000_0000 || m_raw as usize != n {
            return Err(DecodeError::ConsistencyError);
        }

        // All labels must be present before any record is touched.
        if bytes.len() - 8 < n {
            return Err(DecodeError::TruncatedInputError);
        }

        let blen = bytes.len();
        let mut i: usize = 0;
        while i < n
            invariant
                n == self.images@.len(),
                n == old(self).images@.len(),
                blen == bytes@.len(),
                blen >= 8 + n,
                i <= n,
                forall|k: int|
                    0 <= k < i ==> (#[trigger] self.images@[k]).pixels()
                        == old(self).images@[k].pixels(),
                forall|k: int|
                    0 <= k < i ==> (#[trigger] self.images@[k]).label == Some(bytes@[8 + k]),
                forall|k: int|
                    i <= k < n ==> #[trigger] self.images@[k] == old(self).images@[k],
            decreases n - i,
        {
            self.images[i].label = Some(bytes[8 + i]);
            i = i + 1;
        }
        Ok(())
    }
}

} // verus!
