//! What this library reads from the tensors and variable maps of the candle
//! crates, and the matrix that it makes of a tensor.

use vstd::prelude::*;
use crate::mat::{
    count_of, dims_fault, parts_fault, shape_of, words_from_le_bytes, Mat, MatError,
};

verus! {

/// The tensor of `candle_core`: a handle, of which this library knows what
/// the functions below say and nothing more.
#[verifier::external_type_specification]
#[verifier::external_body]
pub struct ExTensor(candle_core::Tensor);

/// The variable map of `candle_nn`: named variables behind a lock.
#[verifier::external_type_specification]
#[verifier::external_body]
pub struct ExVarMap(candle_nn::VarMap);

/// The error of `candle_core`, which the operators on its tensors return. It
/// is declared because the tensor is; no function here takes or returns it.
#[verifier::external_type_specification]
#[verifier::external_body]
pub struct ExTensorError(candle_core::Error);

/// The variable of `candle_core`: a tensor whose elements can be set anew.
#[verifier::external_type_specification]
#[verifier::external_body]
pub struct ExVar(candle_core::Var);

/// The guard of a locked `std::sync::Mutex`: while it lives, the lock is held.
#[verifier::external_type_specification]
#[verifier::external_body]
#[verifier::reject_recursive_types(T)]
pub struct ExMutexGuard<'a, T: ?Sized + 'a>(std::sync::MutexGuard<'a, T>);

/// The dimensions of a tensor, outermost first.
pub uninterp spec fn tensor_dims(t: candle_core::Tensor) -> Seq<usize>;

/// The number of bytes that one element of a tensor takes.
pub uninterp spec fn tensor_elem_width(t: candle_core::Tensor) -> usize;

/// Whether the elements of a tensor are floating-point numbers.
pub uninterp spec fn tensor_holds_floats(t: candle_core::Tensor) -> bool;

/// What a locked variable map holds: under each name of a variable the
/// dimensions of its tensor, the byte width of one element, and whether the
/// elements are floating-point numbers. None of this changes while the lock
/// is held: nothing else can reach the map, and a variable that is set anew
/// keeps its dimensions and its element type.
pub uninterp spec fn vars_held(
    vars: std::sync::MutexGuard<'_, std::collections::HashMap<String, candle_core::Var>>,
) -> Map<Seq<char>, (Seq<usize>, usize, bool)>;

/// The dimensions of a tensor, the byte width of one element, and whether
/// the elements are floating-point numbers.
pub open spec fn kind_of(t: candle_core::Tensor) -> (Seq<usize>, usize, bool) {
    (tensor_dims(t), tensor_elem_width(t), tensor_holds_floats(t))
}

/// What a variable map says of a name.
pub enum Lookup {
    /// The variable of that name holds this tensor.
    Found(candle_core::Tensor),
    /// There is no variable of that name.
    Missing,
    /// The map is locked by a thread that panicked.
    Poisoned,
}

/// The product of the dimensions: the number of elements of a tensor.
pub open spec fn product_of(dims: Seq<usize>) -> int
    decreases dims.len(),
{
    if dims.len() == 0 {
        1
    } else {
        product_of(dims.drop_last()) * dims.last()
    }
}

/// Calls `candle_nn::VarMap::data` and `std::sync::Mutex::lock` on what it
/// returns. The guard is handed out where the lock was taken, and nothing
/// where the lock is poisoned. Nothing is claimed of the outcome.
#[verifier::external_body]
pub(crate) fn lock_vars(vm: &candle_nn::VarMap) -> (r: Option<
    std::sync::MutexGuard<'_, std::collections::HashMap<String, candle_core::Var>>,
>) {
    match vm.data().lock() {
        Ok(vars) => Some(vars),
        Err(_) => None,
    }
}

/// Calls `HashMap::get` on the locked variables and `candle_core::Var::as_tensor`
/// on the variable that it finds, and copies the handle of that tensor. A
/// tensor comes back exactly where the map holds a variable of that name,
/// and it is that variable's tensor, with its dimensions and element type.
#[verifier::external_body]
fn find_var(
    vars: &std::sync::MutexGuard<'_, std::collections::HashMap<String, candle_core::Var>>,
    name: &str,
) -> (r: Option<candle_core::Tensor>)
    ensures
        match r {
            Some(t) => vars_held(*vars).contains_key(name@) && vars_held(*vars)[name@] == kind_of(
                t,
            ),
            None => !vars_held(*vars).contains_key(name@),
        },
{
    match vars.get(name) {
        Some(var) => Some(var.as_tensor().clone()),
        None => None,
    }
}

/// Calls `candle_core::Tensor::dims`: the sizes of the tensor's dimensions,
/// which the tensor keeps for as long as it lives.
#[verifier::external_body]
fn dims(t: &candle_core::Tensor) -> (r: Vec<usize>)
    ensures
        r@ == tensor_dims(*t),
{
    t.dims().to_vec()
}

/// Calls `candle_core::DType::size_in_bytes` on the tensor's element type:
/// the number of bytes of one element, four for single precision.
#[verifier::external_body]
fn elem_width(t: &candle_core::Tensor) -> (r: usize)
    ensures
        r == tensor_elem_width(*t),
{
    t.dtype().size_in_bytes()
}

/// Calls `candle_core::DType::is_float` on the tensor's element type.
#[verifier::external_body]
fn holds_floats(t: &candle_core::Tensor) -> (r: bool)
    ensures
        r == tensor_holds_floats(*t),
{
    t.dtype().is_float()
}

/// Calls `candle_core::Tensor::write_bytes`, which writes the elements in
/// row-major order, each lowest byte first and each in as many bytes as the
/// element type takes. So what is written, where the call succeeds, is as
/// long as the element width times the number of elements; this is claimed
/// where the number of elements is one that the machine can count. Which
/// bytes they are is not claimed: a variable's elements may change while its
/// tensor lives.
#[verifier::external_body]
fn le_bytes(t: &candle_core::Tensor) -> (r: Option<Vec<u8>>)
    ensures
        r is Some && product_of(tensor_dims(*t)) <= usize::MAX ==> r.unwrap()@.len()
            == tensor_elem_width(*t) * product_of(tensor_dims(*t)),
{
    let mut out: Vec<u8> = Vec::new();
    match t.write_bytes(&mut out) {
        Ok(()) => Some(out),
        Err(_) => None,
    }
}

/// Why a tensor is refused before its elements are read, if it is: its
/// dimensions must make a matrix, and its elements must be single-precision
/// numbers, the floating-point numbers of four bytes.
pub open spec fn tensor_fault(t: candle_core::Tensor) -> Option<MatError> {
    kind_fault(kind_of(t))
}

/// Why a tensor of the given dimensions, element width and element kind is
/// refused before its elements are read, if it is.
pub open spec fn kind_fault(kind: (Seq<usize>, usize, bool)) -> Option<MatError> {
    if dims_fault(kind.0) is Some {
        dims_fault(kind.0)
    } else if !kind.2 || kind.1 != 4 {
        Some(MatError::NotSinglePrecision)
    } else {
        None
    }
}

/// `e` is an error of reading the elements of a tensor that makes a matrix:
/// they could not be read, or, on a machine that cannot count them, they are
/// not as many as the dimensions ask for.
pub open spec fn unread(t: candle_core::Tensor, e: MatError) -> bool {
    unread_dims(tensor_dims(t), e)
}

/// `e` is an error of reading the elements of a tensor of the given
/// dimensions.
pub open spec fn unread_dims(dims: Seq<usize>, e: MatError) -> bool {
    e == MatError::UnreadableData || (product_of(dims) > usize::MAX && e
        == MatError::DataLengthMismatch)
}

/// The tensor has one or two dimensions and holds single-precision numbers.
pub open spec fn holds_a_matrix(t: candle_core::Tensor) -> bool {
    &&& tensor_dims(t).len() == 1 || tensor_dims(t).len() == 2
    &&& tensor_holds_floats(t)
    &&& tensor_elem_width(t) == 4
}

/// Of one or two dimensions the product is the number of elements that a
/// matrix of these dimensions has.
pub proof fn lemma_product_of_matrix(dims: Seq<usize>)
    requires
        dims.len() == 1 || dims.len() == 2,
    ensures
        product_of(dims) == count_of(dims),
{
    reveal_with_fuel(product_of, 3);
    if dims.len() == 1 {
        assert(dims.drop_last().len() == 0);
        assert(1 * dims[0] == dims[0]);
    } else {
        assert(dims.drop_last().drop_last().len() == 0);
        assert(dims.drop_last().last() == dims[0]);
        assert(1 * dims[0] == dims[0]);
    }
}

/// Why a tensor, given by what was read from it, is refused, if it is.
pub open spec fn raw_fault(
    dims: Seq<usize>,
    elem_width: usize,
    floats: bool,
    bytes: Option<Seq<u8>>,
) -> Option<MatError> {
    if dims_fault(dims) is Some {
        dims_fault(dims)
    } else if !floats || elem_width != 4 {
        Some(MatError::NotSinglePrecision)
    } else if bytes is None || bytes.unwrap().len() % 4 != 0 {
        Some(MatError::UnreadableData)
    } else if bytes.unwrap().len() != 4 * count_of(dims) {
        Some(MatError::DataLengthMismatch)
    } else {
        None
    }
}

impl Mat {
    /// The matrix of a tensor that is given by what was read from it: its
    /// dimensions, the width and the kind of its elements, and its elements
    /// as bytes in row-major order, each element lowest byte first.
    pub fn from_raw(dims: &Vec<usize>, elem_width: usize, floats: bool, bytes: Option<Vec<u8>>) -> (r:
        Result<Mat, MatError>)
        ensures
            match r {
                Ok(m) => {
                    &&& raw_fault(dims@, elem_width, floats, view_of(bytes)) is None
                    &&& m.wf()
                    &&& m.shape@ == shape_of(dims@)
                    &&& m.data@.len() * 4 == bytes.unwrap()@.len()
                    &&& forall|i: int|
                        0 <= i < m.data@.len() ==> #[trigger] m.data@[i] == crate::mat::le_word(
                            bytes.unwrap()@,
                            i,
                        )
                },
                Err(e) => raw_fault(dims@, elem_width, floats, view_of(bytes)) == Some(e),
            },
    {
        let rank: usize = dims.len();
        if rank != 1 && rank != 2 {
            return Err(MatError::RankNotOneOrTwo);
        }
        if dims[0] > i32::MAX as usize || (rank == 2 && dims[1] > i32::MAX as usize) {
            return Err(MatError::DimensionTooLarge);
        }
        assert(dims_fault(dims@) is None);
        if !floats || elem_width != 4 {
            return Err(MatError::NotSinglePrecision);
        }
        let words: Vec<u32> = match bytes {
            Some(b) => match words_from_le_bytes(&b) {
                Some(w) => w,
                None => {
                    return Err(MatError::UnreadableData);
                },
            },
            None => {
                return Err(MatError::UnreadableData);
            },
        };
        let made = Mat::from_parts(dims, words);
        proof {
            assert(parts_fault(dims@, words@) is Some ==> parts_fault(dims@, words@) == Some(
                MatError::DataLengthMismatch,
            ));
        }
        made
    }

    /// The matrix of a tensor of one or two dimensions that holds
    /// single-precision numbers. A tensor of one dimension becomes a column,
    /// one of two dimensions keeps its shape, and the elements are taken in
    /// row-major order. A dimension beyond the 32-bit range is refused before
    /// any element is read, and a tensor whose elements cannot be read is
    /// refused too.
    pub fn from_tensor(t: &candle_core::Tensor) -> (r: Result<Mat, MatError>)
        requires
            holds_a_matrix(*t),
        ensures
            match r {
                Ok(m) => tensor_fault(*t) is None && m.wf() && m.shape@ == shape_of(
                    tensor_dims(*t),
                ),
                Err(e) => match tensor_fault(*t) {
                    Some(fault) => e == fault && e == MatError::DimensionTooLarge,
                    None => unread(*t, e),
                },
            },
    {
        let d: Vec<usize> = dims(t);
        if d[0] > i32::MAX as usize || (d.len() == 2 && d[1] > i32::MAX as usize) {
            return Err(MatError::DimensionTooLarge);
        }
        assert(dims_fault(d@) is None);
        let bytes: Option<Vec<u8>> = le_bytes(t);
        proof {
            lemma_product_of_matrix(d@);
        }
        Mat::from_raw(&d, 4, true, bytes)
    }

    /// The matrix of any tensor, if it makes one: the tensor is looked at
    /// first, and one of another rank, or of elements other than
    /// single-precision numbers, is refused before its elements are read.
    pub fn try_from_tensor(t: &candle_core::Tensor) -> (r: Result<Mat, MatError>)
        ensures
            match r {
                Ok(m) => tensor_fault(*t) is None && m.wf() && m.shape@ == shape_of(
                    tensor_dims(*t),
                ),
                Err(e) => match tensor_fault(*t) {
                    Some(fault) => e == fault,
                    None => unread(*t, e),
                },
            },
    {
        let d: Vec<usize> = dims(t);
        let rank: usize = d.len();
        if rank != 1 && rank != 2 {
            return Err(MatError::RankNotOneOrTwo);
        }
        if d[0] > i32::MAX as usize || (rank == 2 && d[1] > i32::MAX as usize) {
            return Err(MatError::DimensionTooLarge);
        }
        assert(dims_fault(d@) is None);
        if !holds_floats(t) || elem_width(t) != 4 {
            return Err(MatError::NotSinglePrecision);
        }
        Mat::from_tensor(t)
    }
}

/// The bytes that were read, as mathematics.
pub open spec fn view_of(bytes: Option<Vec<u8>>) -> Option<Seq<u8>> {
    match bytes {
        Some(b) => Some(b@),
        None => None,
    }
}

/// The answer `found` is what a map that holds `held` says of the name
/// `name`: the tensor of the variable of that name, or that there is none.
pub open spec fn says(
    held: Map<Seq<char>, (Seq<usize>, usize, bool)>,
    name: Seq<char>,
    found: Lookup,
) -> bool {
    match found {
        Lookup::Found(t) => held.contains_key(name) && held[name] == kind_of(t),
        Lookup::Missing => !held.contains_key(name),
        Lookup::Poisoned => false,
    }
}

/// A map that holds `held` has a variable of the name `name`, and its tensor
/// makes a matrix as far as can be told without reading its elements.
pub open spec fn cleared(held: Map<Seq<char>, (Seq<usize>, usize, bool)>, name: Seq<char>) -> bool {
    held.contains_key(name) && kind_fault(held[name]) is None
}

/// `r` is what is made of the variable of the name `name` in a map that
/// holds `held`: the matrix of its tensor, in the shape that the tensor's
/// dimensions ask for; or the reason why there is none: no variable of that
/// name, a tensor that makes no matrix, or elements that could not be read.
pub open spec fn made_under(
    held: Map<Seq<char>, (Seq<usize>, usize, bool)>,
    name: Seq<char>,
    r: Result<Mat, MatError>,
) -> bool {
    if !held.contains_key(name) {
        r is Err && r->Err_0 == MatError::MissingVariable
    } else {
        match r {
            Ok(m) => kind_fault(held[name]) is None && m.wf() && m.shape@ == shape_of(held[name].0),
            Err(e) => match kind_fault(held[name]) {
                Some(fault) => e == fault,
                None => unread_dims(held[name].0, e),
            },
        }
    }
}

/// Reads the variable of the given name from a variable map and makes a
/// matrix of its tensor. The map is locked for the while; a poisoned lock
/// is an error.
pub fn mat_of_variable(vm: &candle_nn::VarMap, name: &str) -> (r: Result<Mat, MatError>)
    ensures
        r is Ok ==> r.unwrap().wf(),
        (r is Err && r->Err_0 == MatError::Poisoned) || exists|
            held: Map<Seq<char>, (Seq<usize>, usize, bool)>,
        | made_under(held, name@, r),
{
    match lock_vars(vm) {
        Some(vars) => {
            let r = mat_of_locked(&vars, name);
            assert(made_under(vars_held(vars), name@, r));
            r
        },
        None => Err(MatError::Poisoned),
    }
}

/// Reads the variable of the given name from the locked variables of a map
/// and makes a matrix of its tensor.
pub fn mat_of_locked(
    vars: &std::sync::MutexGuard<'_, std::collections::HashMap<String, candle_core::Var>>,
    name: &str,
) -> (r: Result<Mat, MatError>)
    ensures
        made_under(vars_held(*vars), name@, r),
{
    mat_of_lookup(lookup_in(vars, name))
}

/// What the locked variables say of a name.
pub fn lookup_in(
    vars: &std::sync::MutexGuard<'_, std::collections::HashMap<String, candle_core::Var>>,
    name: &str,
) -> (r: Lookup)
    ensures
        says(vars_held(*vars), name@, r),
{
    match find_var(vars, name) {
        Some(t) => Lookup::Found(t),
        None => Lookup::Missing,
    }
}

/// `r` is what is made of the answer `found` of a variable map: of a tensor
/// its matrix, or the reason why it makes none; of a name without a variable
/// and of a poisoned lock the error that says so.
pub open spec fn made_of(found: Lookup, r: Result<Mat, MatError>) -> bool {
    match found {
        Lookup::Found(t) => match r {
            Ok(m) => tensor_fault(t) is None && m.wf() && m.shape@ == shape_of(tensor_dims(t)),
            Err(e) => match tensor_fault(t) {
                Some(fault) => e == fault,
                None => unread(t, e),
            },
        },
        Lookup::Missing => r is Err && r->Err_0 == MatError::MissingVariable,
        Lookup::Poisoned => r is Err && r->Err_0 == MatError::Poisoned,
    }
}

/// Makes a matrix of what a variable map said of a name: the matrix of the
/// tensor that was found, and an error where no variable has the name or the
/// map's lock is poisoned.
pub fn mat_of_lookup(found: Lookup) -> (r: Result<Mat, MatError>)
    ensures
        made_of(found, r),
{
    match found {
        Lookup::Found(t) => Mat::try_from_tensor(&t),
        Lookup::Missing => Err(MatError::MissingVariable),
        Lookup::Poisoned => Err(MatError::Poisoned),
    }
}

} // verus!
