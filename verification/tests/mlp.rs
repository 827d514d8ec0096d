use border_async::mat::{words_from_le_bytes, Mat, MatError};
use border_async::mlp::{Mlp, NamedTensor, VarTable};
use border_async::mlp_agent::MlpAgent;
use border_async::mlp::mats_of_locked;
use border_async::tensor::{lookup_in, mat_of_locked, mat_of_lookup, mat_of_variable, Lookup};
use candle_core::{DType, Device, Tensor, Var};
use candle_nn::VarMap;

fn bits(values: &[f32]) -> Vec<u32> {
    values.iter().map(|v| v.to_bits()).collect()
}

fn named(name: &str, dims: &[usize], values: &[f32]) -> NamedTensor {
    NamedTensor { name: name.to_string(), dims: dims.to_vec(), data: bits(values) }
}

fn table() -> VarTable {
    VarTable {
        variables: vec![
            named("l0.weight", &[2, 3], &[1., 2., 3., 4., 5., 6.]),
            named("l0.bias", &[2], &[0.5, -0.5]),
            named("l1.weight", &[1, 2], &[7., 8.]),
            named("l1.bias", &[1], &[9.]),
            named("l0.bias", &[2], &[100., 200.]),
            named("cube", &[1, 1, 1], &[1.]),
            named("short", &[2, 2], &[1., 2., 3.]),
        ],
    }
}

fn var_map() -> VarMap {
    let vm = VarMap::new();
    {
        let mut vars = vm.data().lock().unwrap();
        let w0 = Tensor::new(&[[1f32, 2., 3.], [4., 5., 6.]], &Device::Cpu).unwrap();
        let b0 = Tensor::new(&[0.5f32, -0.5], &Device::Cpu).unwrap();
        let w1 = Tensor::new(&[[7f32, 8.]], &Device::Cpu).unwrap();
        let b1 = Tensor::new(&[9f32], &Device::Cpu).unwrap();
        let cube = Tensor::zeros((2, 2, 2), DType::F32, &Device::Cpu).unwrap();
        let double = Tensor::new(&[1f64, 2.], &Device::Cpu).unwrap();
        vars.insert("l0.weight".to_string(), Var::from_tensor(&w0).unwrap());
        vars.insert("l0.bias".to_string(), Var::from_tensor(&b0).unwrap());
        vars.insert("l1.weight".to_string(), Var::from_tensor(&w1).unwrap());
        vars.insert("l1.bias".to_string(), Var::from_tensor(&b1).unwrap());
        vars.insert("cube".to_string(), Var::from_tensor(&cube).unwrap());
        vars.insert("double".to_string(), Var::from_tensor(&double).unwrap());
    }
    vm
}

#[test]
fn words_are_read_lowest_byte_first() {
    let bytes = vec![0x78, 0x56, 0x34, 0x12, 0x00, 0x00, 0x80, 0x3f];
    assert_eq!(words_from_le_bytes(&bytes), Some(vec![0x1234_5678, 0x3f80_0000]));
    assert_eq!(words_from_le_bytes(&vec![]), Some(vec![]));
    assert_eq!(words_from_le_bytes(&vec![0xff, 0xff, 0xff, 0xff]), Some(vec![u32::MAX]));
}

#[test]
fn words_need_a_multiple_of_four_bytes() {
    assert_eq!(words_from_le_bytes(&vec![1]), None);
    assert_eq!(words_from_le_bytes(&vec![1, 2, 3, 4, 5, 6]), None);
}

#[test]
fn one_dimension_makes_a_column() {
    let m = Mat::from_parts(&vec![3], bits(&[1., 2., 3.])).ok().unwrap();
    assert_eq!(m.shape, vec![3, 1]);
    assert_eq!(m.data, bits(&[1., 2., 3.]));
}

#[test]
fn two_dimensions_keep_their_shape() {
    let m = Mat::from_parts(&vec![2, 3], bits(&[1., 2., 3., 4., 5., 6.])).ok().unwrap();
    assert_eq!(m.shape, vec![2, 3]);
    assert_eq!(m.data, bits(&[1., 2., 3., 4., 5., 6.]));
}

#[test]
fn an_empty_matrix_is_a_matrix() {
    let m = Mat::from_parts(&vec![0, 5], vec![]).ok().unwrap();
    assert_eq!(m.shape, vec![0, 5]);
    assert!(m.data.is_empty());
}

#[test]
fn from_parts_refuses_other_ranks() {
    assert_eq!(Mat::from_parts(&vec![], vec![]).err(), Some(MatError::RankNotOneOrTwo));
    assert_eq!(
        Mat::from_parts(&vec![1, 1, 1], bits(&[1.])).err(),
        Some(MatError::RankNotOneOrTwo)
    );
}

#[test]
fn from_parts_refuses_a_dimension_beyond_32_bits() {
    let big = i32::MAX as usize + 1;
    assert_eq!(Mat::from_parts(&vec![big], vec![]).err(), Some(MatError::DimensionTooLarge));
    assert_eq!(Mat::from_parts(&vec![1, big], vec![]).err(), Some(MatError::DimensionTooLarge));
}

#[test]
fn from_parts_refuses_a_wrong_number_of_elements() {
    assert_eq!(
        Mat::from_parts(&vec![2, 2], bits(&[1., 2., 3.])).err(),
        Some(MatError::DataLengthMismatch)
    );
    assert_eq!(Mat::from_parts(&vec![2], bits(&[1.])).err(), Some(MatError::DataLengthMismatch));
}

#[test]
fn from_raw_reads_the_elements_from_their_bytes() {
    let bytes: Vec<u8> = [1f32, -2.5].iter().flat_map(|v| v.to_le_bytes()).collect();
    let m = Mat::from_raw(&vec![2], 4, true, Some(bytes)).ok().unwrap();
    assert_eq!(m.shape, vec![2, 1]);
    assert_eq!(m.data, bits(&[1., -2.5]));
}

#[test]
fn from_raw_refuses_what_is_not_single_precision() {
    let bytes = vec![0u8; 8];
    assert_eq!(
        Mat::from_raw(&vec![2], 4, false, Some(bytes.clone())).err(),
        Some(MatError::NotSinglePrecision)
    );
    assert_eq!(
        Mat::from_raw(&vec![1], 8, true, Some(bytes.clone())).err(),
        Some(MatError::NotSinglePrecision)
    );
    assert_eq!(
        Mat::from_raw(&vec![1, 1, 1], 8, true, Some(bytes)).err(),
        Some(MatError::RankNotOneOrTwo)
    );
}

#[test]
fn from_raw_refuses_bytes_that_do_not_fit() {
    assert_eq!(Mat::from_raw(&vec![2], 4, true, None).err(), Some(MatError::UnreadableData));
    assert_eq!(
        Mat::from_raw(&vec![2], 4, true, Some(vec![0; 7])).err(),
        Some(MatError::UnreadableData)
    );
    assert_eq!(
        Mat::from_raw(&vec![2], 4, true, Some(vec![0; 12])).err(),
        Some(MatError::DataLengthMismatch)
    );
}

#[test]
fn a_tensor_of_one_dimension_becomes_a_column() {
    let t = Tensor::new(&[1f32, 2., 3.], &Device::Cpu).unwrap();
    let m = Mat::from_tensor(&t).ok().unwrap();
    assert_eq!(m.shape, vec![3, 1]);
    assert_eq!(m.data, bits(&[1., 2., 3.]));
}

#[test]
fn a_tensor_of_two_dimensions_is_read_row_by_row() {
    let t = Tensor::new(&[[1f32, 2.], [3., 4.], [5., 6.]], &Device::Cpu).unwrap();
    let m = Mat::from_tensor(&t).ok().unwrap();
    assert_eq!(m.shape, vec![3, 2]);
    assert_eq!(m.data, bits(&[1., 2., 3., 4., 5., 6.]));
    let flipped = Mat::from_tensor(&t.t().unwrap()).ok().unwrap();
    assert_eq!(flipped.shape, vec![2, 3]);
    assert_eq!(flipped.data, bits(&[1., 3., 5., 2., 4., 6.]));
}

#[test]
fn a_tensor_of_another_rank_is_refused() {
    let cube = Tensor::zeros((2, 2, 2), DType::F32, &Device::Cpu).unwrap();
    assert_eq!(Mat::try_from_tensor(&cube).err(), Some(MatError::RankNotOneOrTwo));
    let scalar = Tensor::new(1f32, &Device::Cpu).unwrap();
    assert_eq!(Mat::try_from_tensor(&scalar).err(), Some(MatError::RankNotOneOrTwo));
}

#[test]
fn a_tensor_of_other_elements_is_refused() {
    let words = Tensor::new(&[1u32, 2], &Device::Cpu).unwrap();
    assert_eq!(Mat::try_from_tensor(&words).err(), Some(MatError::NotSinglePrecision));
    let doubles = Tensor::new(&[1f64, 2.], &Device::Cpu).unwrap();
    assert_eq!(Mat::try_from_tensor(&doubles).err(), Some(MatError::NotSinglePrecision));
    let halves = Tensor::new(&[1f32, 2.], &Device::Cpu).unwrap().to_dtype(DType::BF16).unwrap();
    assert_eq!(Mat::try_from_tensor(&halves).err(), Some(MatError::NotSinglePrecision));
}

#[test]
fn a_variable_is_read_by_its_name() {
    let vm = var_map();
    let m = mat_of_variable(&vm, "l0.weight").ok().unwrap();
    assert_eq!(m.shape, vec![2, 3]);
    assert_eq!(m.data, bits(&[1., 2., 3., 4., 5., 6.]));
    assert_eq!(mat_of_variable(&vm, "nothing").err(), Some(MatError::MissingVariable));
    assert_eq!(mat_of_variable(&vm, "cube").err(), Some(MatError::RankNotOneOrTwo));
    assert_eq!(mat_of_variable(&vm, "double").err(), Some(MatError::NotSinglePrecision));
}

#[test]
fn from_varmap_reads_the_layers_in_order() {
    let vm = var_map();
    let mlp =
        Mlp::from_varmap(&vm, &["l0.weight", "l1.weight"], &["l0.bias", "l1.bias"]).ok().unwrap();
    assert_eq!(mlp.ws().len(), 2);
    assert_eq!(mlp.bs().len(), 2);
    assert_eq!(mlp.ws()[0].shape, vec![2, 3]);
    assert_eq!(mlp.ws()[0].data, bits(&[1., 2., 3., 4., 5., 6.]));
    assert_eq!(mlp.ws()[1].shape, vec![1, 2]);
    assert_eq!(mlp.ws()[1].data, bits(&[7., 8.]));
    assert_eq!(mlp.bs()[0].shape, vec![2, 1]);
    assert_eq!(mlp.bs()[0].data, bits(&[0.5, -0.5]));
    assert_eq!(mlp.bs()[1].shape, vec![1, 1]);
    assert_eq!(mlp.bs()[1].data, bits(&[9.]));
}

#[test]
fn from_varmap_sees_a_variable_that_was_set_anew() {
    let mut vm = var_map();
    let fresh = Tensor::new(&[1.5f32, 2.5], &Device::Cpu).unwrap();
    vm.set_one("l0.bias", &fresh).unwrap();
    let mlp = Mlp::from_varmap(&vm, &[], &["l0.bias"]).ok().unwrap();
    assert_eq!(mlp.bs()[0].data, bits(&[1.5, 2.5]));
}

#[test]
fn from_varmap_fails_on_the_first_bad_name() {
    let vm = var_map();
    assert_eq!(
        Mlp::from_varmap(&vm, &["l0.weight", "absent"], &["cube"]).err(),
        Some(MatError::MissingVariable)
    );
    assert_eq!(
        Mlp::from_varmap(&vm, &["l0.weight"], &["cube", "absent"]).err(),
        Some(MatError::RankNotOneOrTwo)
    );
    assert_eq!(
        Mlp::from_varmap(&vm, &["double"], &["absent"]).err(),
        Some(MatError::NotSinglePrecision)
    );
}

#[test]
fn from_varmap_without_names_reads_nothing() {
    let mlp = Mlp::from_varmap(&VarMap::new(), &[], &[]).ok().unwrap();
    assert!(mlp.ws().is_empty());
    assert!(mlp.bs().is_empty());
}

#[test]
fn the_table_finds_the_first_variable_of_a_name() {
    let t = table();
    assert_eq!(t.position("l0.weight"), Some(0));
    assert_eq!(t.position("l0.bias"), Some(1));
    assert_eq!(t.position("short"), Some(6));
    assert_eq!(t.position("absent"), None);
    assert_eq!(t.position(""), None);
    let m = t.mat("l0.bias").ok().unwrap();
    assert_eq!(m.shape, vec![2, 1]);
    assert_eq!(m.data, bits(&[0.5, -0.5]));
}

#[test]
fn from_varstore_reads_the_layers_in_order() {
    let mlp = Mlp::from_varstore(&table(), &["l0.weight", "l1.weight"], &["l0.bias", "l1.bias"]);
    assert_eq!(mlp.ws().len(), 2);
    assert_eq!(mlp.ws()[0].shape, vec![2, 3]);
    assert_eq!(mlp.ws()[0].data, bits(&[1., 2., 3., 4., 5., 6.]));
    assert_eq!(mlp.ws()[1].shape, vec![1, 2]);
    assert_eq!(mlp.ws()[1].data, bits(&[7., 8.]));
    assert_eq!(mlp.bs().len(), 2);
    assert_eq!(mlp.bs()[0].shape, vec![2, 1]);
    assert_eq!(mlp.bs()[0].data, bits(&[0.5, -0.5]));
    assert_eq!(mlp.bs()[1].shape, vec![1, 1]);
    assert_eq!(mlp.bs()[1].data, bits(&[9.]));
}

#[test]
fn try_from_varstore_fails_on_the_first_bad_name() {
    let t = table();
    assert_eq!(
        Mlp::try_from_varstore(&t, &["l0.weight", "absent", "cube"], &[]).err(),
        Some(MatError::MissingVariable)
    );
    assert_eq!(
        Mlp::try_from_varstore(&t, &["cube", "absent"], &[]).err(),
        Some(MatError::RankNotOneOrTwo)
    );
    assert_eq!(
        Mlp::try_from_varstore(&t, &["l0.weight"], &["short", "absent"]).err(),
        Some(MatError::DataLengthMismatch)
    );
    assert_eq!(
        Mlp::try_from_varstore(&t, &["absent"], &["short"]).err(),
        Some(MatError::MissingVariable)
    );
}

#[test]
fn from_varstore_and_from_varmap_agree() {
    let names_w = ["l0.weight", "l1.weight"];
    let names_b = ["l0.bias", "l1.bias"];
    let from_table = Mlp::from_varstore(&table(), &names_w, &names_b);
    let from_map = Mlp::from_varmap(&var_map(), &names_w, &names_b).ok().unwrap();
    for layer in 0..2 {
        assert_eq!(from_table.ws()[layer].shape, from_map.ws()[layer].shape);
        assert_eq!(from_table.ws()[layer].data, from_map.ws()[layer].data);
        assert_eq!(from_table.bs()[layer].shape, from_map.bs()[layer].shape);
        assert_eq!(from_table.bs()[layer].data, from_map.bs()[layer].data);
    }
}

#[test]
fn the_agent_keeps_its_network() {
    let mlp = Mlp::from_varstore(&table(), &["l1.weight"], &["l1.bias"]);
    let agent = MlpAgent::new(mlp);
    assert_eq!(agent.mlp().ws().len(), 1);
    assert_eq!(agent.mlp().ws()[0].data, bits(&[7., 8.]));
    assert_eq!(agent.mlp().bs()[0].data, bits(&[9.]));
    let copy = agent.clone();
    assert_eq!(copy.mlp().ws()[0].shape, vec![1, 2]);
    let built = Mlp::new(vec![], vec![]);
    assert!(MlpAgent::new(built).mlp().bs().is_empty());
}

#[test]
fn a_name_without_a_variable_makes_no_matrix() {
    assert_eq!(mat_of_lookup(Lookup::Missing).err(), Some(MatError::MissingVariable));
}

#[test]
fn a_poisoned_map_makes_no_matrix() {
    assert_eq!(mat_of_lookup(Lookup::Poisoned).err(), Some(MatError::Poisoned));
}

#[test]
fn a_tensor_that_was_found_makes_its_matrix() {
    let t = Tensor::new(&[[1f32, 2.], [3., 4.]], &Device::Cpu).unwrap();
    let m = mat_of_lookup(Lookup::Found(t)).ok().unwrap();
    assert_eq!(m.shape, vec![2, 2]);
    assert_eq!(m.data, bits(&[1., 2., 3., 4.]));
    let cube = Tensor::zeros((1, 2, 3), DType::F32, &Device::Cpu).unwrap();
    assert_eq!(mat_of_lookup(Lookup::Found(cube)).err(), Some(MatError::RankNotOneOrTwo));
    let words = Tensor::new(&[1u32, 2], &Device::Cpu).unwrap();
    assert_eq!(mat_of_lookup(Lookup::Found(words)).err(), Some(MatError::NotSinglePrecision));
}

#[test]
fn try_from_varstore_gives_what_from_varstore_gives() {
    let names_w = ["l0.weight", "l1.weight"];
    let names_b = ["l0.bias", "l1.bias"];
    let tried = Mlp::try_from_varstore(&table(), &names_w, &names_b).ok().unwrap();
    let made = Mlp::from_varstore(&table(), &names_w, &names_b);
    for layer in 0..2 {
        assert_eq!(tried.ws()[layer].shape, made.ws()[layer].shape);
        assert_eq!(tried.ws()[layer].data, made.ws()[layer].data);
        assert_eq!(tried.bs()[layer].shape, made.bs()[layer].shape);
        assert_eq!(tried.bs()[layer].data, made.bs()[layer].data);
    }
}

#[test]
fn try_from_tensor_gives_what_from_tensor_gives() {
    let t = Tensor::new(&[[1f32, 2., 3.], [4., 5., 6.]], &Device::Cpu).unwrap();
    let tried = Mat::try_from_tensor(&t).ok().unwrap();
    let made = Mat::from_tensor(&t).ok().unwrap();
    assert_eq!(tried.shape, vec![2, 3]);
    assert_eq!(tried.shape, made.shape);
    assert_eq!(tried.data, made.data);
}

#[test]
fn a_tensor_with_a_dimension_beyond_32_bits_is_refused() {
    let wide = Tensor::zeros((1usize << 31, 0), DType::F32, &Device::Cpu).unwrap();
    assert_eq!(Mat::try_from_tensor(&wide).err(), Some(MatError::DimensionTooLarge));
    assert_eq!(Mat::from_tensor(&wide).err(), Some(MatError::DimensionTooLarge));
    let empty = Tensor::zeros((3, 0), DType::F32, &Device::Cpu).unwrap();
    let m = Mat::try_from_tensor(&empty).ok().unwrap();
    assert_eq!(m.shape, vec![3, 0]);
    assert!(m.data.is_empty());
}

#[test]
fn each_matrix_is_that_of_its_own_name() {
    let vm = var_map();
    let vars = vm.data().lock().unwrap();
    let mlp = Mlp::from_locked(&vars, &["l1.weight", "l0.weight"], &["l1.bias", "l0.bias", "l1.bias"])
        .ok()
        .unwrap();
    assert_eq!(mlp.ws().len(), 2);
    assert_eq!(mlp.ws()[0].shape, vec![1, 2]);
    assert_eq!(mlp.ws()[0].data, bits(&[7., 8.]));
    assert_eq!(mlp.ws()[1].shape, vec![2, 3]);
    assert_eq!(mlp.ws()[1].data, bits(&[1., 2., 3., 4., 5., 6.]));
    assert_eq!(mlp.bs().len(), 3);
    assert_eq!(mlp.bs()[0].data, bits(&[9.]));
    assert_eq!(mlp.bs()[1].data, bits(&[0.5, -0.5]));
    assert_eq!(mlp.bs()[2].data, bits(&[9.]));
}

#[test]
fn the_weights_are_refused_before_the_biases() {
    let vm = var_map();
    let vars = vm.data().lock().unwrap();
    assert_eq!(
        Mlp::from_locked(&vars, &["cube"], &["absent"]).err(),
        Some(MatError::RankNotOneOrTwo)
    );
    assert_eq!(
        Mlp::from_locked(&vars, &["l0.weight", "double", "absent"], &["cube"]).err(),
        Some(MatError::NotSinglePrecision)
    );
    assert_eq!(
        Mlp::from_locked(&vars, &["l0.weight"], &["l0.bias", "absent", "cube"]).err(),
        Some(MatError::MissingVariable)
    );
    assert!(Mlp::from_locked(&vars, &[], &[]).is_ok());
}

#[test]
fn the_locked_variables_are_read_name_by_name() {
    let vm = var_map();
    let vars = vm.data().lock().unwrap();
    let ms = mats_of_locked(&vars, &["l0.bias", "l1.weight"]).ok().unwrap();
    assert_eq!(ms.len(), 2);
    assert_eq!(ms[0].shape, vec![2, 1]);
    assert_eq!(ms[1].shape, vec![1, 2]);
    assert_eq!(mats_of_locked(&vars, &["l0.bias", "absent"]).err(), Some(MatError::MissingVariable));
    let m = mat_of_locked(&vars, "l1.bias").ok().unwrap();
    assert_eq!(m.data, bits(&[9.]));
    assert_eq!(mat_of_locked(&vars, "absent").err(), Some(MatError::MissingVariable));
    assert!(matches!(lookup_in(&vars, "l0.weight"), Lookup::Found(_)));
    assert!(matches!(lookup_in(&vars, "absent"), Lookup::Missing));
}
