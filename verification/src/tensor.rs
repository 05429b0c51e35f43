//! The tensor view of an image record: its pixels in the logical shape an
//! inference collaborator consumes.

use crate::dataset::{copy_range, DecodeError, MnistImage};
use vstd::arithmetic::mul::lemma_mul_inequality;
use vstd::prelude::*;

verus! {

/// One record's pixels arranged as a tensor of logical shape
/// (batch = 1, channels = 1, height = rows, width = cols); entry (0, 0, y, x)
/// is the byte at offset `y * cols + x`. Scaling each byte from [0, 255] down
/// to a float in [0.0, 1.0] yields the normalized tensor an inference engine
/// takes; that floating-point step belongs to the caller.
pub struct PixelTensor {
    pub rows: usize,
    pub cols: usize,
    pub data: Vec<u8>,
}

impl PixelTensor {
    /// A well-formed tensor holds exactly one byte per grid position.
    pub open spec fn wf(&self) -> bool {
        self.data@.len() == self.rows * self.cols
    }

    /// The byte at grid position (y, x).
    pub fn at(&self, y: usize, x: usize) -> (p: u8)
        requires
            self.wf(),
            y < self.rows,
            x < self.cols,
        ensures
            p == self.data@[y * self.cols + x],
    {
        let dlen = self.data.len();
        proof {
            assert(y * self.cols + x < self.rows * self.cols) by (nonlinear_arith)
                requires
                    y < self.rows,
                    x < self.cols,
            ;
        }
        assert(y * self.cols + x < dlen);
        self.data[y * self.cols + x]
    }
}

impl MnistImage {
    /// The record's tensor view for the requested shape.
    ///
    /// Succeeds exactly when the record holds `rows * cols` pixels; the
    /// tensor's data is then the pixel sequence itself, so entry (0, 0, y, x)
    /// is pixel `x + y * cols`. The view is pure: it is a function of the
    /// pixels and the requested shape alone, and the record is not consumed
    /// or mutated.
    pub fn to_tensor(&self, rows: usize, cols: usize) -> (r: Result<PixelTensor, DecodeError>)
        ensures
            match r {
                Ok(t) => {
                    &&& self.pixels().len() == rows * cols
                    &&& t.rows == rows
                    &&& t.cols == cols
                    &&& t.data@ == self.pixels()
                    &&& t.wf()
                },
                Err(e) => e == DecodeError::InternalShapeError && self.pixels().len() != rows
                    * cols,
            },
    {
        match rows.checked_mul(cols) {
            Some(p) => {
                if p == self.image.len() {
                    let data = copy_range(&self.image, 0, p);
                    assert(data@ =~= self.image@);
                    Ok(PixelTensor { rows, cols, data })
                } else {
                    Err(DecodeError::InternalShapeError)
                }
            },
            None => {
                // The requested shape overflows usize, so no vector of
                // pixels can match it.
                let len = self.image.len();
                assert(len < rows * cols);
                Err(DecodeError::InternalShapeError)
            },
        }
    }
}

/// Purity of the tensor view: two tensors drawn from the same record with the
/// same requested shape hold identical shape and bytes, so converting a
/// record twice yields identical output.
pub proof fn lemma_to_tensor_deterministic(
    img: &MnistImage,
    rows: usize,
    cols: usize,
    t1: PixelTensor,
    t2: PixelTensor,
)
    requires
        t1.rows == rows && t1.cols == cols && t1.data@ == img.pixels(),
        t2.rows == rows && t2.cols == cols && t2.data@ == img.pixels(),
    ensures
        t1.rows == t2.rows,
        t1.cols == t2.cols,
        t1.data@ == t2.data@,
{
}

/// Layout of the tensor view: for every grid position (y, x), the offset
/// `y * cols + x` is in bounds and the byte there is pixel `x + y * cols`
/// of the record.
pub proof fn lemma_tensor_layout(img: &MnistImage, t: PixelTensor)
    requires
        t.data@ == img.pixels(),
        img.pixels().len() == t.rows * t.cols,
    ensures
        forall|y: int, x: int|
            0 <= y < t.rows && 0 <= x < t.cols ==> 0 <= #[trigger] (y * t.cols + x)
                < t.data@.len() && t.data@[y * t.cols + x] == img.pixels()[x + y * t.cols],
{
    assert forall|y: int, x: int| 0 <= y < t.rows && 0 <= x < t.cols implies 0 <= #[trigger] (y
        * t.cols + x) < t.data@.len() && t.data@[y * t.cols + x] == img.pixels()[x + y
        * t.cols] by {
        assert(0 <= y * t.cols + x < t.rows * t.cols) by (nonlinear_arith)
            requires
                0 <= y < t.rows,
                0 <= x < t.cols,
        ;
    }
}

} // verus!
