//! Decoder properties stated once for all inputs, proved from the public
//! contracts of `load_images` and `load_labels`.

use crate::dataset::{
    images_decode_post, images_well_formed, labels_decode_post, labels_well_formed,
    spec_label_count, spec_record, spec_record_count, spec_record_len, DecodeError, MnistDataset,
    IMAGES_MAGIC, LABELS_MAGIC,
};
use crate::wire::be_i32;
use vstd::arithmetic::mul::lemma_mul_inequality;
use vstd::prelude::*;

verus! {

/// Every well-formed images blob decodes successfully, into exactly the
/// declared number of records, each holding the pixel bytes of its on-disk
/// record — `rows * cols` of them — with its label unset.
pub proof fn lemma_images_decode_complete(b: Seq<u8>, r: Result<MnistDataset, DecodeError>)
    requires
        images_decode_post(b, r),
        images_well_formed(b),
    ensures
        r is Ok,
        r->Ok_0.images@.len() == spec_record_count(b),
        forall|i: int|
            0 <= i < spec_record_count(b) ==> (#[trigger] r->Ok_0.images@[i]).pixels()
                == spec_record(b, i),
        forall|i: int|
            0 <= i < spec_record_count(b) ==> (#[trigger] r->Ok_0.images@[i]).pixels().len()
                == spec_record_len(b),
        forall|i: int|
            0 <= i < spec_record_count(b) ==> (#[trigger] r->Ok_0.images@[i]).label is None,
{
    let n = spec_record_count(b);
    let rec = spec_record_len(b);
    assert forall|i: int| 0 <= i < n implies (#[trigger] r->Ok_0.images@[i]).pixels().len()
        == rec by {
        lemma_mul_inequality(i + 1, n, rec);
        assert((i + 1) * rec == i * rec + rec) by (nonlinear_arith);
        assert(i * rec >= 0) by (nonlinear_arith)
            requires
                i >= 0,
                rec >= 0,
        ;
    }
}

/// A blob that does not open with the images magic number is always rejected
/// as a format error, whatever its remaining content, and no records are
/// produced.
pub proof fn lemma_images_wrong_magic(b: Seq<u8>, r: Result<MnistDataset, DecodeError>)
    requires
        images_decode_post(b, r),
        b.len() >= 4,
        be_i32(b, 0) != IMAGES_MAGIC,
    ensures
        r == Err::<MnistDataset, DecodeError>(DecodeError::FormatError),
{
}

/// An images blob that opens with the right magic number but holds fewer
/// bytes than its header declares — cut short mid-header or mid-record — is
/// always rejected as truncated input, and no records are produced.
pub proof fn lemma_images_truncated(b: Seq<u8>, r: Result<MnistDataset, DecodeError>)
    requires
        images_decode_post(b, r),
        b.len() >= 4,
        be_i32(b, 0) == IMAGES_MAGIC,
        !images_well_formed(b),
    ensures
        r == Err::<MnistDataset, DecodeError>(DecodeError::TruncatedInputError),
{
}

/// A labels blob whose declared count differs from the dataset's record
/// count is rejected as inconsistent, and the dataset is left exactly as it
/// was — every label still as before.
pub proof fn lemma_labels_count_mismatch(
    b: Seq<u8>,
    before: MnistDataset,
    after: MnistDataset,
    r: Result<(), DecodeError>,
)
    requires
        labels_decode_post(b, before, after, r),
        b.len() >= 8,
        be_i32(b, 0) == LABELS_MAGIC,
        spec_label_count(b) != before.images@.len(),
    ensures
        r == Err::<(), DecodeError>(DecodeError::ConsistencyError),
        after == before,
{
}

/// Every labels blob that matches the dataset is accepted, and afterwards
/// record `i` carries label byte `i` of the blob, its pixels untouched, for
/// every `i`.
pub proof fn lemma_labels_assigned(
    b: Seq<u8>,
    before: MnistDataset,
    after: MnistDataset,
    r: Result<(), DecodeError>,
)
    requires
        labels_decode_post(b, before, after, r),
        labels_well_formed(b, before.images@.len() as int),
    ensures
        r is Ok,
        after.images@.len() == before.images@.len(),
        forall|i: int|
            0 <= i < before.images@.len() ==> (#[trigger] after.images@[i]).pixels()
                == before.images@[i].pixels(),
        forall|i: int|
            0 <= i < before.images@.len() ==> (#[trigger] after.images@[i]).label == Some(
                b[8 + i],
            ),
{
}

} // verus!
