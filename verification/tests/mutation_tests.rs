use moly::mutation::{VecEffect, VecMutation};

#[test]
fn test_insert_effect_reports_inserted_items() {
    let base = vec![10, 20, 30];
    let mutation = VecMutation::Insert(1, vec![11, 12]);
    let effects = mutation.effects(&base);
    assert_eq!(effects, vec![VecEffect::Insert(1, vec![11, 12])]);
}

#[test]
fn test_remove_effect_reports_removed_items_only() {
    let base = vec![10, 20, 30, 40];
    let mutation: VecMutation<i32> = VecMutation::Remove(1, 3);
    let effects = mutation.effects(&base);
    assert_eq!(effects, vec![VecEffect::Remove(1, 3, vec![20, 30])]);
}

#[test]
fn test_update_effect_reports_from_and_to() {
    let base = vec![10, 20, 30];
    let mutation = VecMutation::Update(2, 33);
    let effects = mutation.effects(&base);
    assert_eq!(effects, vec![VecEffect::Update(2, 30, 33)]);
}

#[test]
fn test_out_of_bounds_mutation_has_no_effect() {
    let base = vec![10, 20];
    let mutation = VecMutation::Insert(3, vec![1]);
    assert!(mutation.effects(&base).is_empty());

    let mut target = base.clone();
    mutation.apply(&mut target);
    assert_eq!(target, base);
}

#[test]
fn test_apply_insert_update_remove() {
    let mut target = vec![1, 2, 5];

    VecMutation::Insert(2, vec![3, 4]).apply(&mut target);
    assert_eq!(target, vec![1, 2, 3, 4, 5]);

    VecMutation::Update(0, 9).apply(&mut target);
    assert_eq!(target, vec![9, 2, 3, 4, 5]);

    VecMutation::Remove(1, 3).apply(&mut target);
    assert_eq!(target, vec![9, 4, 5]);

    VecMutation::Remove(0, 3).apply(&mut target);
    assert_eq!(target, Vec::<i32>::new());
}

#[test]
fn test_mutation_replays_on_a_copy() {
    let canonical = vec!["a".to_string(), "b".to_string()];
    let mutation = VecMutation::Insert(2, vec!["c".to_string()]);

    let mut first = canonical.clone();
    let mut second = canonical.clone();
    mutation.apply(&mut first);
    mutation.apply(&mut second);
    assert_eq!(first, second);
    assert_eq!(first, vec!["a".to_string(), "b".to_string(), "c".to_string()]);
}
