//! A matrix of single-precision numbers that needs no tensor library: the
//! numbers are kept as their IEEE 754 bit patterns, row by row.

use vstd::prelude::*;

verus! {

/// Why a matrix cannot be made.
#[derive(Clone, Copy, Debug, PartialEq, Eq, Structural)]
pub enum MatError {
    /// The tensor has neither one nor two dimensions.
    RankNotOneOrTwo,
    /// A dimension does not fit the matrix's 32-bit shape.
    DimensionTooLarge,
    /// The tensor's elements are not single-precision numbers.
    NotSinglePrecision,
    /// The tensor's elements could not be read.
    UnreadableData,
    /// The tensor's dimensions ask for another number of elements than it holds.
    DataLengthMismatch,
    /// No variable has the name that was asked for.
    MissingVariable,
    /// The variable map is locked by a thread that panicked.
    Poisoned,
}

/// A matrix: `shape` holds the number of rows and the number of columns, and
/// `data` the elements row by row, each as the bit pattern of a
/// single-precision number.
#[derive(Clone, Debug)]
pub struct Mat {
    /// The elements.
    pub data: Vec<u32>,
    /// The number of rows and the number of columns.
    pub shape: Vec<i32>,
}

/// Why dimensions are refused, if they are: a matrix is made from one or two
/// dimensions, each of which fits a signed 32-bit number.
pub open spec fn dims_fault(dims: Seq<usize>) -> Option<MatError> {
    if dims.len() != 1 && dims.len() != 2 {
        Some(MatError::RankNotOneOrTwo)
    } else if exists|i: int| 0 <= i < dims.len() && #[trigger] dims[i] > i32::MAX {
        Some(MatError::DimensionTooLarge)
    } else {
        None
    }
}

/// The shape of the matrix for the given dimensions: one dimension makes a
/// column.
pub open spec fn shape_of(dims: Seq<usize>) -> Seq<i32> {
    if dims.len() == 1 {
        seq![dims[0] as i32, 1i32]
    } else {
        seq![dims[0] as i32, dims[1] as i32]
    }
}

/// The number of elements that the dimensions ask for.
pub open spec fn count_of(dims: Seq<usize>) -> int {
    if dims.len() == 1 {
        dims[0] as int
    } else {
        dims[0] * dims[1]
    }
}

/// Why a tensor, given by its dimensions and its elements, is refused, if it is.
pub open spec fn parts_fault(dims: Seq<usize>, data: Seq<u32>) -> Option<MatError> {
    if dims_fault(dims) is Some {
        dims_fault(dims)
    } else if data.len() != count_of(dims) {
        Some(MatError::DataLengthMismatch)
    } else {
        None
    }
}

/// The 32-bit word that the four bytes from `4 * i` on make, lowest byte first.
pub open spec fn le_word(bytes: Seq<u8>, i: int) -> u32 {
    (bytes[4 * i] + 0x100 * bytes[4 * i + 1] + 0x1_0000 * bytes[4 * i + 2] + 0x100_0000 * bytes[4
        * i + 3]) as u32
}

/// The 32-bit words of a byte string, lowest byte first, where its length is a
/// multiple of four.
pub fn words_from_le_bytes(bytes: &Vec<u8>) -> (r: Option<Vec<u32>>)
    ensures
        match r {
            Some(w) => bytes@.len() % 4 == 0 && w@.len() * 4 == bytes@.len() && forall|i: int|
                0 <= i < w@.len() ==> #[trigger] w@[i] == le_word(bytes@, i),
            None => bytes@.len() % 4 != 0,
        },
{
    let n: usize = bytes.len();
    if n % 4 != 0 {
        return None;
    }
    let mut words: Vec<u32> = Vec::new();
    let mut i: usize = 0;
    while i < n / 4
        invariant
            n == bytes@.len(),
            n % 4 == 0,
            0 <= i <= n / 4,
            words@.len() == i,
            forall|j: int| 0 <= j < i ==> #[trigger] words@[j] == le_word(bytes@, j),
        decreases n / 4 - i,
    {
        let b0: u32 = bytes[4 * i] as u32;
        let b1: u32 = bytes[4 * i + 1] as u32;
        let b2: u32 = bytes[4 * i + 2] as u32;
        let b3: u32 = bytes[4 * i + 3] as u32;
        words.push(b0 + 0x100 * b1 + 0x1_0000 * b2 + 0x100_0000 * b3);
        i = i + 1;
    }
    Some(words)
}

impl Mat {
    /// The matrix is sound: it has a number of rows and a number of columns,
    /// neither negative, and as many elements as they ask for.
    pub open spec fn wf(&self) -> bool {
        &&& self.shape@.len() == 2
        &&& self.shape@[0] >= 0
        &&& self.shape@[1] >= 0
        &&& self.data@.len() == self.shape@[0] * self.shape@[1]
    }

    /// The matrix of a tensor that is given by its dimensions and its elements
    /// in row-major order. A tensor of one dimension becomes a column; one of
    /// two dimensions keeps its shape; any other is refused, as is a
    /// dimension beyond the 32-bit range and a number of elements that the
    /// dimensions do not ask for.
    pub fn from_parts(dims: &Vec<usize>, data: Vec<u32>) -> (r: Result<Mat, MatError>)
        ensures
            match r {
                Ok(m) => parts_fault(dims@, data@) is None && m.wf() && m.shape@ == shape_of(dims@)
                    && m.data@ == data@,
                Err(e) => parts_fault(dims@, data@) == Some(e),
            },
    {
        let rank: usize = dims.len();
        if rank != 1 && rank != 2 {
            return Err(MatError::RankNotOneOrTwo);
        }
        let rows: usize = dims[0];
        if rows > i32::MAX as usize {
            return Err(MatError::DimensionTooLarge);
        }
        let cols: usize = if rank == 2 {
            dims[1]
        } else {
            1
        };
        if cols > i32::MAX as usize {
            return Err(MatError::DimensionTooLarge);
        }
        assert(dims_fault(dims@) is None);
        assert(count_of(dims@) == rows * cols) by (nonlinear_arith)
            requires
                count_of(dims@) == if rank == 1 {
                    rows as int
                } else {
                    rows * cols
                },
                rank == 1 ==> cols == 1,
        ;
        assert(rows * cols <= 0x7fff_ffff * 0x7fff_ffff) by (nonlinear_arith)
            requires
                0 <= rows <= 0x7fff_ffff,
                0 <= cols <= 0x7fff_ffff,
        ;
        let count: u64 = (rows as u64) * (cols as u64);
        if data.len() as u64 != count {
            return Err(MatError::DataLengthMismatch);
        }
        let mut shape: Vec<i32> = Vec::new();
        shape.push(rows as i32);
        shape.push(cols as i32);
        assert(shape@ =~= shape_of(dims@));
        Ok(Mat { data, shape })
    }
}

} // verus!
