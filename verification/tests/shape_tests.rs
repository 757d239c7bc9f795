use rusttransformer::shape::{flat_index, head_index, unflat_index, ModelPlan, Shape};

#[test]
fn plan_derives_flat_and_concat_sizes() {
    let plan = ModelPlan::new(3, 3, 1, 1, 9).unwrap();
    assert_eq!(plan.num_words, 3);
    assert_eq!(plan.dimensionality, 3);
    assert_eq!(plan.num_encoders, 1);
    assert_eq!(plan.num_heads, 1);
    assert_eq!(plan.hidden_layer_size, 9);
    assert_eq!(plan.flat_size, 9);
    assert_eq!(plan.concat_size, 9);
}

#[test]
fn plan_with_several_heads_concatenates_them_all() {
    let plan = ModelPlan::new(4, 6, 2, 3, 48).unwrap();
    assert_eq!(plan.flat_size, 24);
    assert_eq!(plan.concat_size, 72);
}

#[test]
fn plan_rejects_zero_dimensions() {
    assert!(ModelPlan::new(0, 3, 1, 1, 9).is_none());
    assert!(ModelPlan::new(3, 0, 1, 1, 9).is_none());
    assert!(ModelPlan::new(3, 3, 0, 1, 9).is_none());
    assert!(ModelPlan::new(3, 3, 1, 0, 9).is_none());
    assert!(ModelPlan::new(3, 3, 1, 1, 0).is_none());
}

#[test]
fn plan_rejects_unaddressable_sizes() {
    assert!(ModelPlan::new(usize::MAX, 2, 1, 1, 1).is_none());
    assert!(ModelPlan::new(usize::MAX / 2, 3, 1, 2, 1).is_none());
}

#[test]
fn flattening_walks_row_by_row() {
    let shape = Shape { rows: 3, cols: 4 };
    assert_eq!(flat_index(0, 0, shape), 0);
    assert_eq!(flat_index(0, 3, shape), 3);
    assert_eq!(flat_index(1, 0, shape), 4);
    assert_eq!(flat_index(2, 3, shape), 11);
}

#[test]
fn unflattening_inverts_flattening() {
    let shape = Shape { rows: 3, cols: 4 };
    for row in 0..3 {
        for col in 0..4 {
            let idx = flat_index(row, col, shape);
            assert_eq!(unflat_index(idx, shape), (row, col));
        }
    }
}

#[test]
fn head_outputs_occupy_disjoint_slices() {
    let shape = Shape { rows: 2, cols: 3 };
    assert_eq!(head_index(0, 0, 0, shape, 2), 0);
    assert_eq!(head_index(0, 1, 2, shape, 2), 5);
    assert_eq!(head_index(1, 0, 0, shape, 2), 6);
    assert_eq!(head_index(1, 1, 2, shape, 2), 11);
}
