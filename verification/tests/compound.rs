use rust_learning::compound::{
    array_to_vec, element_at, filled, get_checked, make_person, person_fields, push_all, sample_arrays,
    vec_len_and_capacity,
};

#[test]
fn person_tuple() {
    let person = make_person("Anoop", 38, true);
    assert_eq!(person.0, "Anoop");
    assert_eq!(person.1, 38);
    assert!(person.2);
    let (name, age, active) = person_fields(&person);
    assert_eq!(name, "Anoop");
    assert_eq!(*age, 38);
    assert!(*active);
    assert_eq!(person.0, "Anoop");
}

#[test]
fn sample_array_values() {
    let (arr, zeros) = sample_arrays();
    assert_eq!(arr, [1, 2, 3, 4, 5]);
    assert_eq!(zeros, [0, 0, 0]);
    assert_eq!(arr.len(), 5);
}

#[test]
fn element_at_reads_index() {
    let (arr, _) = sample_arrays();
    assert_eq!(element_at(&arr, 2), 3);
    assert_eq!(element_at(&arr, 4), 5);
}

#[test]
fn get_checked_out_of_bounds_is_none() {
    let (arr, _) = sample_arrays();
    assert_eq!(get_checked(&arr, 10), None);
    assert_eq!(get_checked(&arr, 5), None);
}

#[test]
fn get_checked_in_bounds() {
    let (arr, _) = sample_arrays();
    assert_eq!(get_checked(&arr, 2), Some(&3));
    assert_eq!(get_checked(&arr, 0), Some(&1));
}

#[test]
fn vec_grows_by_push() {
    let mut v: Vec<i32> = vec![1, 2, 3];
    push_all(&mut v, &[4, 5]);
    assert_eq!(v, vec![1, 2, 3, 4, 5]);
    let (len, cap) = vec_len_and_capacity(&v);
    assert_eq!(len, 5);
    assert!(cap >= 5);
}

#[test]
fn push_nothing_keeps_vec() {
    let mut v: Vec<i32> = vec![7];
    push_all(&mut v, &[]);
    assert_eq!(v, vec![7]);
}

#[test]
fn array_into_vec() {
    assert_eq!(array_to_vec([10, 20, 30]), vec![10, 20, 30]);
    let fixed: [i32; 3] = [1, 2, 3];
    assert_eq!(array_to_vec(fixed).len(), 3);
}

#[test]
fn repeat_expression_fills_every_slot() {
    let sevens: [u8; 4] = filled(7);
    assert_eq!(sevens, [7, 7, 7, 7]);
    let zeros: [i32; 3] = filled(0);
    assert_eq!(zeros, [0, 0, 0]);
    let none: [char; 0] = filled('a');
    assert_eq!(none.len(), 0);
}
