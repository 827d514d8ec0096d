//! A multilayer perceptron as plain matrices: one weight matrix and one bias
//! for each layer, taken by name out of a table of variables.

use vstd::prelude::*;
use crate::mat::{parts_fault, shape_of, Mat, MatError};
use crate::tensor::{cleared, lock_vars, made_under, mat_of_locked, vars_held};

verus! {

/// A tensor with its name, as plain values: the dimensions, outermost first,
/// and the elements in row-major order, each as the bit pattern of a
/// single-precision number.
#[derive(Clone, Debug)]
pub struct NamedTensor {
    /// The name.
    pub name: String,
    /// The dimensions.
    pub dims: Vec<usize>,
    /// The elements.
    pub data: Vec<u32>,
}

/// The variables of a trained model, each with its name.
#[derive(Clone, Debug)]
pub struct VarTable {
    /// The variables.
    pub variables: Vec<NamedTensor>,
}

/// The place of the first variable, from place `from` on, that has the name
/// `name`, if there is one.
pub open spec fn scan(vars: Seq<NamedTensor>, name: Seq<char>, from: int) -> Option<int>
    decreases vars.len() - from,
{
    if from < 0 || from >= vars.len() {
        None
    } else if vars[from].name@ == name {
        Some(from)
    } else {
        scan(vars, name, from + 1)
    }
}

/// The shape and the elements of the matrix that the variable of the name
/// `name` makes, or why there is no such matrix.
pub open spec fn built(vars: Seq<NamedTensor>, name: Seq<char>) -> Result<
    (Seq<i32>, Seq<u32>),
    MatError,
> {
    match scan(vars, name, 0) {
        None => Err(MatError::MissingVariable),
        Some(k) => match parts_fault(vars[k].dims@, vars[k].data@) {
            Some(e) => Err(e),
            None => Ok((shape_of(vars[k].dims@), vars[k].data@)),
        },
    }
}

/// The matrices `mats` are those that the variables of the names `names`
/// make, name by name.
pub open spec fn all_built(vars: Seq<NamedTensor>, names: Seq<&str>, mats: Seq<Mat>) -> bool {
    &&& mats.len() == names.len()
    &&& forall|i: int|
        0 <= i < names.len() ==> (#[trigger] mats[i]).wf() && built(vars, names[i]@) == Ok::<
            (Seq<i32>, Seq<u32>),
            MatError,
        >((mats[i].shape@, mats[i].data@))
}

/// The first of the names `names` whose variable makes no matrix fails with `e`.
pub open spec fn fails_with(vars: Seq<NamedTensor>, names: Seq<&str>, e: MatError) -> bool {
    exists|i: int|
        0 <= i < names.len() && #[trigger] built(vars, names[i]@) == Err::<
            (Seq<i32>, Seq<u32>),
            MatError,
        >(e) && forall|j: int| 0 <= j < i ==> (#[trigger] built(vars, names[j]@)) is Ok
}

/// Every one of the names `names` has a variable that makes a matrix.
pub open spec fn none_fails(vars: Seq<NamedTensor>, names: Seq<&str>) -> bool {
    forall|i: int| 0 <= i < names.len() ==> (#[trigger] built(vars, names[i]@)) is Ok
}

impl VarTable {
    /// The place of the first variable of the given name, if there is one.
    pub fn position(&self, name: &str) -> (r: Option<usize>)
        ensures
            match r {
                Some(k) => scan(self.variables@, name@, 0) == Some(k as int) && k
                    < self.variables@.len(),
                None => scan(self.variables@, name@, 0) is None,
            },
    {
        let wanted: String = name.to_owned();
        let mut i: usize = 0;
        while i < self.variables.len()
            invariant
                0 <= i <= self.variables@.len(),
                wanted@ == name@,
                scan(self.variables@, name@, 0) == scan(self.variables@, name@, i as int),
            decreases self.variables@.len() - i,
        {
            if self.variables[i].name == wanted {
                return Some(i);
            }
            i = i + 1;
        }
        None
    }

    /// The matrix that the variable of the given name makes.
    pub fn mat(&self, name: &str) -> (r: Result<Mat, MatError>)
        ensures
            match r {
                Ok(m) => m.wf() && built(self.variables@, name@) == Ok::<
                    (Seq<i32>, Seq<u32>),
                    MatError,
                >((m.shape@, m.data@)),
                Err(e) => built(self.variables@, name@) == Err::<(Seq<i32>, Seq<u32>), MatError>(e),
            },
    {
        match self.position(name) {
            None => Err(MatError::MissingVariable),
            Some(k) => {
                let data: Vec<u32> = self.variables[k].data.clone();
                assert(data@ =~= self.variables@[k as int].data@);
                Mat::from_parts(&self.variables[k].dims, data)
            },
        }
    }

    /// The matrices that the variables of the given names make, name by name.
    /// The first name that has no variable, or whose variable makes no
    /// matrix, ends the work with its error.
    pub fn mats(&self, names: &[&str]) -> (r: Result<Vec<Mat>, MatError>)
        ensures
            match r {
                Ok(ms) => all_built(self.variables@, names@, ms@),
                Err(e) => fails_with(self.variables@, names@, e),
            },
    {
        let mut out: Vec<Mat> = Vec::new();
        let mut i: usize = 0;
        while i < names.len()
            invariant
                0 <= i <= names@.len(),
                all_built(self.variables@, names@.take(i as int), out@),
            decreases names@.len() - i,
        {
            match self.mat(names[i]) {
                Ok(m) => {
                    out.push(m);
                },
                Err(e) => {
                    assert forall|j: int| 0 <= j < i implies (#[trigger] built(
                        self.variables@,
                        names@[j]@,
                    )) is Ok by {
                        assert(out@[j].wf());
                        assert(names@.take(i as int)[j] == names@[j]);
                    }
                    assert(built(self.variables@, names@[i as int]@) == Err::<
                        (Seq<i32>, Seq<u32>),
                        MatError,
                    >(e));
                    return Err(e);
                },
            }
            i = i + 1;
        }
        assert(names@.take(i as int) =~= names@);
        Ok(out)
    }
}

/// A multilayer perceptron: the weight matrices and the biases, layer by layer.
#[derive(Clone, Debug)]
pub struct Mlp {
    ws: Vec<Mat>,
    bs: Vec<Mat>,
}

impl Mlp {
    /// The weight matrices, layer by layer.
    pub closed spec fn spec_ws(&self) -> Seq<Mat> {
        self.ws@
    }

    /// The biases, layer by layer.
    pub closed spec fn spec_bs(&self) -> Seq<Mat> {
        self.bs@
    }

    /// Every matrix of the network is sound.
    pub open spec fn wf(&self) -> bool {
        &&& forall|i: int| 0 <= i < self.spec_ws().len() ==> (#[trigger] self.spec_ws()[i]).wf()
        &&& forall|i: int| 0 <= i < self.spec_bs().len() ==> (#[trigger] self.spec_bs()[i]).wf()
    }

    /// The network of the given weight matrices and biases.
    pub fn new(ws: Vec<Mat>, bs: Vec<Mat>) -> (r: Mlp)
        ensures
            r.spec_ws() == ws@,
            r.spec_bs() == bs@,
    {
        Mlp { ws, bs }
    }

    /// The weight matrices, layer by layer.
    pub fn ws(&self) -> (r: &Vec<Mat>)
        ensures
            r@ == self.spec_ws(),
    {
        &self.ws
    }

    /// The biases, layer by layer.
    pub fn bs(&self) -> (r: &Vec<Mat>)
        ensures
            r@ == self.spec_bs(),
    {
        &self.bs
    }

    /// The network whose weight matrices and biases are the variables of the
    /// given names in a table of variables. Every name must have a variable,
    /// and every such variable must make a matrix.
    pub fn from_varstore(vs: &VarTable, w_names: &[&str], b_names: &[&str]) -> (r: Mlp)
        requires
            none_fails(vs.variables@, w_names@),
            none_fails(vs.variables@, b_names@),
        ensures
            r.wf(),
            all_built(vs.variables@, w_names@, r.spec_ws()),
            all_built(vs.variables@, b_names@, r.spec_bs()),
    {
        match Mlp::try_from_varstore(vs, w_names, b_names) {
            Ok(mlp) => mlp,
            Err(e) => {
                proof {
                    if fails_with(vs.variables@, w_names@, e) {
                        let i = choose|i: int|
                            0 <= i < w_names@.len() && #[trigger] built(
                                vs.variables@,
                                w_names@[i]@,
                            ) == Err::<(Seq<i32>, Seq<u32>), MatError>(e);
                        assert(built(vs.variables@, w_names@[i]@) is Ok);
                    } else {
                        let i = choose|i: int|
                            0 <= i < b_names@.len() && #[trigger] built(
                                vs.variables@,
                                b_names@[i]@,
                            ) == Err::<(Seq<i32>, Seq<u32>), MatError>(e);
                        assert(built(vs.variables@, b_names@[i]@) is Ok);
                    }
                }
                unreached()
            },
        }
    }

    /// The network whose weight matrices and biases are the variables of the
    /// given names in a table of variables, if they make one. The weights are
    /// looked at first, then the biases; the first name that has no variable,
    /// or whose variable makes no matrix, ends the work with its error.
    pub fn try_from_varstore(vs: &VarTable, w_names: &[&str], b_names: &[&str]) -> (r: Result<
        Mlp,
        MatError,
    >)
        ensures
            match r {
                Ok(mlp) => mlp.wf() && all_built(vs.variables@, w_names@, mlp.spec_ws())
                    && all_built(vs.variables@, b_names@, mlp.spec_bs()),
                Err(e) => fails_with(vs.variables@, w_names@, e) || (none_fails(
                    vs.variables@,
                    w_names@,
                ) && fails_with(vs.variables@, b_names@, e)),
            },
    {
        let ws: Vec<Mat> = match vs.mats(w_names) {
            Ok(ms) => ms,
            Err(e) => {
                return Err(e);
            },
        };
        proof {
            assert forall|i: int| 0 <= i < w_names@.len() implies (#[trigger] built(
                vs.variables@,
                w_names@[i]@,
            )) is Ok by {
                assert(ws@[i].wf());
            }
        }
        let bs: Vec<Mat> = match vs.mats(b_names) {
            Ok(ms) => ms,
            Err(e) => {
                return Err(e);
            },
        };
        Ok(Mlp { ws, bs })
    }

    /// The network whose weight matrices and biases are the variables of the
    /// given names in a variable map. The map is locked once for all names.
    /// The weights are read first, then the biases, each matrix made of the
    /// variable of its own name; the first name that has no variable, or
    /// whose tensor makes no matrix, ends the work with its error, and so
    /// does a poisoned lock. Without names the map is not touched.
    pub fn from_varmap(vm: &candle_nn::VarMap, w_names: &[&str], b_names: &[&str]) -> (r: Result<
        Mlp,
        MatError,
    >)
        ensures
            w_names@.len() + b_names@.len() == 0 ==> r is Ok,
            (r is Err && r->Err_0 == MatError::Poisoned) || exists|
                held: Map<Seq<char>, (Seq<usize>, usize, bool)>,
            | network_of(held, w_names@, b_names@, r),
    {
        if w_names.len() == 0 && b_names.len() == 0 {
            let r: Result<Mlp, MatError> = Ok(Mlp { ws: Vec::new(), bs: Vec::new() });
            assert(network_of(Map::empty(), w_names@, b_names@, r));
            return r;
        }
        match lock_vars(vm) {
            Some(vars) => {
                let r = Mlp::from_locked(&vars, w_names, b_names);
                assert(network_of(vars_held(vars), w_names@, b_names@, r));
                r
            },
            None => Err(MatError::Poisoned),
        }
    }

    /// The network whose weight matrices and biases are the variables of the
    /// given names among the locked variables of a map. The weights are read
    /// first, then the biases, each matrix made of the variable of its own
    /// name; the first name that has no variable, or whose tensor makes no
    /// matrix, ends the work with its error.
    pub fn from_locked(
        vars: &std::sync::MutexGuard<'_, std::collections::HashMap<String, candle_core::Var>>,
        w_names: &[&str],
        b_names: &[&str],
    ) -> (r: Result<Mlp, MatError>)
        ensures
            network_of(vars_held(*vars), w_names@, b_names@, r),
    {
        let ws: Vec<Mat> = match mats_of_locked(vars, w_names) {
            Ok(ms) => ms,
            Err(e) => {
                return Err(e);
            },
        };
        let bs: Vec<Mat> = match mats_of_locked(vars, b_names) {
            Ok(ms) => ms,
            Err(e) => {
                return Err(e);
            },
        };
        Ok(Mlp { ws, bs })
    }
}

/// The matrices `mats` are those of the variables of the names `names` in a
/// map that holds `held`, name by name: each in the shape that the tensor of
/// its own name asks for.
pub open spec fn all_made(
    held: Map<Seq<char>, (Seq<usize>, usize, bool)>,
    names: Seq<&str>,
    mats: Seq<Mat>,
) -> bool {
    &&& mats.len() == names.len()
    &&& forall|i: int|
        #![trigger mats[i]]
        #![trigger names[i]]
        0 <= i < names.len() ==> made_under(held, names[i]@, Ok::<Mat, MatError>(mats[i]))
}

/// Every one of the names `names` has a variable in a map that holds `held`,
/// and each of them makes a matrix as far as can be told without reading it.
pub open spec fn all_cleared(held: Map<Seq<char>, (Seq<usize>, usize, bool)>, names: Seq<&str>) -> bool {
    forall|i: int| 0 <= i < names.len() ==> cleared(held, (#[trigger] names[i])@)
}

/// The first of the names `names` whose variable makes no matrix, in a map
/// that holds `held`, fails with `e`.
pub open spec fn refused(
    held: Map<Seq<char>, (Seq<usize>, usize, bool)>,
    names: Seq<&str>,
    e: MatError,
) -> bool {
    exists|k: int|
        0 <= k < names.len() && made_under(held, (#[trigger] names[k])@, Err::<Mat, MatError>(e))
            && all_cleared(held, names.take(k))
}

/// `r` is the network that a map that holds `held` makes of the names of the
/// weights and of the biases: every matrix that of its own name; or the error
/// of the first name that fails, the weights being looked at before the
/// biases.
pub open spec fn network_of(
    held: Map<Seq<char>, (Seq<usize>, usize, bool)>,
    w_names: Seq<&str>,
    b_names: Seq<&str>,
    r: Result<Mlp, MatError>,
) -> bool {
    match r {
        Ok(mlp) => mlp.wf() && all_made(held, w_names, mlp.spec_ws()) && all_made(
            held,
            b_names,
            mlp.spec_bs(),
        ),
        Err(e) => refused(held, w_names, e) || (all_cleared(held, w_names) && refused(
            held,
            b_names,
            e,
        )),
    }
}

/// Reads the variables of the given names from the locked variables of a
/// map, name by name, and makes a matrix of each. The first name that has no
/// variable, or whose tensor makes no matrix, ends the work with its error.
pub fn mats_of_locked(
    vars: &std::sync::MutexGuard<'_, std::collections::HashMap<String, candle_core::Var>>,
    names: &[&str],
) -> (r: Result<Vec<Mat>, MatError>)
    ensures
        match r {
            Ok(ms) => all_made(vars_held(*vars), names@, ms@) && all_cleared(
                vars_held(*vars),
                names@,
            ) && forall|i: int| 0 <= i < ms@.len() ==> (#[trigger] ms@[i]).wf(),
            Err(e) => refused(vars_held(*vars), names@, e),
        },
{
    let ghost held = vars_held(*vars);
    let mut out: Vec<Mat> = Vec::new();
    let mut i: usize = 0;
    while i < names.len()
        invariant
            0 <= i <= names@.len(),
            held == vars_held(*vars),
            all_made(held, names@.take(i as int), out@),
            all_cleared(held, names@.take(i as int)),
            forall|j: int| 0 <= j < out@.len() ==> (#[trigger] out@[j]).wf(),
        decreases names@.len() - i,
    {
        let ghost before: Seq<Mat> = out@;
        match mat_of_locked(vars, names[i]) {
            Ok(m) => {
                out.push(m);
                proof {
                    let upto = names@.take(i + 1);
                    assert forall|j: int| 0 <= j < upto.len() implies made_under(
                        held,
                        upto[j]@,
                        Ok::<Mat, MatError>(#[trigger] out@[j]),
                    ) by {
                        if j < i {
                            assert(names@.take(i as int)[j] == upto[j]);
                            assert(out@[j] == before[j]);
                        } else {
                            assert(out@[j] == m);
                        }
                    }
                    assert forall|j: int| 0 <= j < upto.len() implies cleared(
                        held,
                        (#[trigger] upto[j])@,
                    ) by {
                        if j < i {
                            assert(names@.take(i as int)[j] == upto[j]);
                        }
                    }
                }
            },
            Err(e) => {
                assert(made_under(held, names@[i as int]@, Err::<Mat, MatError>(e)));
                return Err(e);
            },
        }
        i = i + 1;
    }
    assert(names@.take(i as int) =~= names@);
    Ok(out)
}

} // verus!
