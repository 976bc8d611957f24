use vstd::prelude::*;
use crate::stack_heap::GrowableString;

verus! {

/// A person as a tuple of mixed types: name, age and whether active.
pub fn make_person(name: &str, age: i32, active: bool) -> (r: (String, i32, bool))
    ensures
        r.0@ == name@,
        r.1 == age,
        r.2 == active,
{
    (GrowableString::from_str(name).into_string(), age, active)
}

/// Borrows each field of a person tuple, leaving the tuple whole.
pub fn person_fields(person: &(String, i32, bool)) -> (r: (&String, &i32, &bool))
    ensures
        *r.0 == person.0,
        *r.1 == person.1,
        *r.2 == person.2,
{
    let (name, age, active) = person;
    (name, age, active)
}

/// The repeat expression `[v; N]`: an array of length `N` whose every
/// element is `v`.
pub fn filled<T: Copy, const N: usize>(v: T) -> (r: [T; N])
    ensures
        r@.len() == N,
        forall|i: int| 0 <= i < N ==> r@[i] == v,
{
    broadcast use vstd::array::axiom_spec_array_fill_for_copy_type;
    [v; N]
}

/// The sample arrays `[1, 2, 3, 4, 5]` and `[0; 3]`.
pub fn sample_arrays() -> (r: ([i32; 5], [i32; 3]))
    ensures
        r.0@ == seq![1i32, 2, 3, 4, 5],
        r.1@ == seq![0i32, 0, 0],
{
    let arr: [i32; 5] = [1, 2, 3, 4, 5];
    let zeros: [i32; 3] = filled(0);
    assert(zeros@ =~= seq![0i32, 0, 0]);
    (arr, zeros)
}

/// Reads the element at `i`, which must be in bounds.
pub fn element_at(arr: &[i32], i: usize) -> (r: i32)
    requires
        i < arr@.len(),
    ensures
        r == arr@[i as int],
{
    arr[i]
}

/// Reads the element at `i` without ever panicking: `None` exactly when `i`
/// is out of bounds, as `<[T]>::get` does.
pub fn get_checked(arr: &[i32], i: usize) -> (r: Option<&i32>)
    ensures
        r == (if i < arr@.len() { Some(&arr@[i as int]) } else { None }),
{
    if i < arr.len() {
        Some(&arr[i])
    } else {
        None
    }
}

/// Grows a vector by pushing `items` one at a time.
pub fn push_all(v: &mut Vec<i32>, items: &[i32])
    ensures
        final(v)@ == old(v)@ + items@,
{
    let mut i: usize = 0;
    while i < items.len()
        invariant
            i <= items@.len(),
            v@ == old(v)@ + items@.take(i as int),
        decreases items@.len() - i,
    {
        v.push(items[i]);
        assert(items@.take(i + 1) =~= items@.take(i as int).push(items@[i as int]));
        i = i + 1;
    }
    assert(items@.take(items@.len() as int) =~= items@);
}

/// `Vec::capacity`: the number of elements the vector can hold without
/// reallocating, which the standard library guarantees is never less than
/// its length. Which value it is depends on the allocator and is not stated.
#[verifier::external_body]
fn vec_capacity(v: &Vec<i32>) -> (r: usize)
    ensures
        r >= v@.len(),
{
    v.capacity()
}

/// Observes the length and capacity of a vector.
pub fn vec_len_and_capacity(v: &Vec<i32>) -> (r: (usize, usize))
    ensures
        r.0 == v@.len(),
        r.1 >= r.0,
{
    (v.len(), vec_capacity(v))
}

/// `Vec::from` on an array: a vector holding the array's elements in order.
#[verifier::external_body]
fn vec_from_array<const N: usize>(arr: [i32; N]) -> (r: Vec<i32>)
    ensures
        r@ == arr@,
{
    Vec::from(arr)
}

/// Moves the elements of a fixed-size array into a growable vector.
pub fn array_to_vec<const N: usize>(arr: [i32; N]) -> (r: Vec<i32>)
    ensures
        r@ == arr@,
{
    vec_from_array(arr)
}

} // verus!
