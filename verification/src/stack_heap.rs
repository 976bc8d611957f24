use vstd::prelude::*;
pub use crate::growable::{utf8_len, GrowableString};

verus! {

/// The UTF-8 encoding of a concatenation is the concatenation of the
/// encodings.
proof fn lemma_utf8_len_concat(a: Seq<char>, b: Seq<char>)
    ensures
        utf8_len(a + b) == utf8_len(a) + utf8_len(b),
    decreases a.len(),
{
    if a.len() == 0 {
        assert(a + b =~= b);
    } else {
        assert((a + b).drop_first() =~= a.drop_first() + b);
        assert((a + b)[0] == a[0]);
        lemma_utf8_len_concat(a.drop_first(), b);
    }
}

/// Observes the length and capacity of a string.
pub fn len_and_capacity(s: &GrowableString) -> (r: (usize, usize))
    ensures
        r.0 == utf8_len(s@),
        r.1 == s.buffer_size(),
        r.1 >= r.0,
{
    (s.len(), s.capacity())
}

/// Appends `suffix` to a string that this function owns; only an owner can
/// grow its buffer, and it never shrinks.
pub fn grow_owned(owned: GrowableString, suffix: &str) -> (r: GrowableString)
    ensures
        r@ == owned@ + suffix@,
        r.buffer_size() >= owned.buffer_size(),
{
    let mut owned = owned;
    owned.push_str(suffix);
    owned
}

/// `Into::<String>::into` on a string slice: an owned copy of its characters.
#[verifier::external_body]
fn str_into_string(s: &str) -> (r: String)
    ensures
        r@ == s@,
{
    s.into()
}

/// The four ways of turning a borrowed string slice into an owned `String`.
pub struct Conversions {
    pub from: String,
    pub to_string: String,
    pub to_owned: String,
    pub into: String,
}

/// Converts `s` with `String::from`, `to_string`, `to_owned` and `into`;
/// all four give an owned string with the same characters as `s`.
pub fn conversions(s: &str) -> (r: Conversions)
    ensures
        r.from@ == s@,
        r.to_string@ == s@,
        r.to_owned@ == s@,
        r.into@ == s@,
{
    broadcast use vstd::string::to_string_from_display_ensures_for_str;
    let from = GrowableString::from_str(s).into_string();
    let to_string = s.to_string();
    let to_owned = s.to_owned();
    let into = str_into_string(s);
    Conversions { from, to_string, to_owned, into }
}

/// Sizes in bytes of the handles that live on the stack.
pub struct HandleSizes {
    /// A borrowed string slice: pointer and length.
    pub str_ref_bytes: usize,
    /// An owned string: pointer, length and capacity.
    pub string_bytes: usize,
    /// A reference to an `i32`: a pointer.
    pub int_ref_bytes: usize,
}

/// `std::mem::size_of::<&str>()`: a reference to a string slice is a pointer
/// and a length; the language reference notes that pointers to dynamically
/// sized types are currently twice the size of pointers to sized ones, a
/// behaviour it describes without guaranteeing it for the future.
#[verifier::external_body]
fn str_ref_size() -> (r: usize)
    ensures
        r == vstd::layout::size_of::<&str>(),
        r == 2 * vstd::layout::size_of::<usize>(),
{
    std::mem::size_of::<&str>()
}

/// `std::mem::size_of::<String>()`: a `String` is a pointer, a length and a
/// capacity, the vector's triplet that the standard library documents as
/// "no more, no less", each one word.
#[verifier::external_body]
fn string_size() -> (r: usize)
    ensures
        r == vstd::layout::size_of::<String>(),
        r == 3 * vstd::layout::size_of::<usize>(),
{
    std::mem::size_of::<String>()
}

/// The sizes of `&str`, `String` and `&i32` count their fields: two words
/// (pointer and length), three words (pointer, length and capacity) and one
/// word (a pointer), a word being the size of a `usize`.
pub fn handle_sizes() -> (r: HandleSizes)
    ensures
        r.str_ref_bytes == vstd::layout::size_of::<&str>(),
        r.string_bytes == vstd::layout::size_of::<String>(),
        r.int_ref_bytes == vstd::layout::size_of::<&i32>(),
        r.str_ref_bytes == 2 * vstd::layout::size_of::<usize>(),
        r.string_bytes == 3 * vstd::layout::size_of::<usize>(),
        r.int_ref_bytes == vstd::layout::size_of::<usize>(),
        usize::BITS == 64 ==> r.str_ref_bytes == 16 && r.string_bytes == 24 && r.int_ref_bytes == 8,
{
    broadcast use {
        vstd::layout::layout_of_primitives,
        vstd::layout::layout_of_references_and_pointers,
        vstd::layout::layout_of_references_and_pointers_for_sized_types,
    };
    HandleSizes {
        str_ref_bytes: str_ref_size(),
        string_bytes: string_size(),
        int_ref_bytes: std::mem::size_of::<&i32>(),
    }
}

/// Length and capacity of a string before and after one append.
pub struct CapacityReport {
    pub first_len: usize,
    pub first_cap: usize,
    pub full_len: usize,
    pub full_cap: usize,
    /// The string after the append.
    pub grown: GrowableString,
}

/// Builds an owned copy of `start`, observes its length and capacity, appends
/// `suffix` in one push and observes them again. Lengths count bytes; the
/// length grows by the bytes of `suffix`; each capacity is at least its
/// length, and the append never lowers the capacity; the grown string is
/// returned, and the last capacity observed is the size of its buffer.
pub fn capacity_report(start: &str, suffix: &str) -> (r: CapacityReport)
    ensures
        r.first_len == utf8_len(start@),
        r.first_cap >= r.first_len,
        r.full_len == utf8_len(start@ + suffix@),
        r.full_len == r.first_len + utf8_len(suffix@),
        r.full_cap >= r.full_len,
        r.full_cap >= r.first_cap,
        r.grown@ == start@ + suffix@,
        r.full_cap == r.grown.buffer_size(),
        r.grown.buffer_history() == seq![r.first_cap as nat, r.full_cap as nat],
{
    let mut name = GrowableString::from_str(start);
    let (first_len, first_cap): (usize, usize) = len_and_capacity(&name);
    name.push_str(suffix);
    let (full_len, full_cap): (usize, usize) = len_and_capacity(&name);
    proof {
        lemma_utf8_len_concat(start@, suffix@);
    }
    CapacityReport { first_len, first_cap, full_len, full_cap, grown: name }
}

/// The capacity in force after the observations `obs`, starting from `start`.
pub open spec fn current_capacity(start: usize, obs: Seq<(usize, usize)>) -> usize {
    if obs.len() == 0 {
        start
    } else {
        obs.last().1
    }
}

/// The observations `(length, capacity)` at which the capacity changed from
/// the one in force before, in order, starting from capacity `start`.
pub open spec fn spec_capacity_steps(start: usize, obs: Seq<(usize, usize)>) -> Seq<(usize, usize)>
    decreases obs.len(),
{
    if obs.len() == 0 {
        Seq::empty()
    } else {
        let before = obs.drop_last();
        let rest = spec_capacity_steps(start, before);
        if obs.last().1 != current_capacity(start, before) {
            rest.push(obs.last())
        } else {
            rest
        }
    }
}

/// Keeps, from observations of `(length, capacity)` taken after successive
/// pushes, those at which the capacity differs from the one before; the
/// capacity before the first observation is `start_cap`.
pub fn capacity_steps(start_cap: usize, observed: &Vec<(usize, usize)>) -> (steps: Vec<(usize, usize)>)
    ensures
        steps@ == spec_capacity_steps(start_cap, observed@),
{
    let mut steps: Vec<(usize, usize)> = Vec::new();
    let mut last_cap: usize = start_cap;
    let mut i: usize = 0;
    while i < observed.len()
        invariant
            i <= observed.len(),
            steps@ == spec_capacity_steps(start_cap, observed@.take(i as int)),
            last_cap == current_capacity(start_cap, observed@.take(i as int)),
        decreases observed.len() - i,
    {
        let (len, cap): (usize, usize) = observed[i];
        assert(observed@.take(i + 1).drop_last() =~= observed@.take(i as int));
        if cap != last_cap {
            steps.push((len, cap));
            last_cap = cap;
        }
        i = i + 1;
    }
    assert(observed@.take(observed.len() as int) =~= observed@);
    steps
}

/// The recorded capacity steps are observations, at most one per
/// observation; each step changes the capacity (the first one away from
/// `start`); and the capacity in force after the last step is the one in
/// force after the last observation.
pub proof fn lemma_capacity_steps(start: usize, obs: Seq<(usize, usize)>)
    ensures
        ({
            let steps = spec_capacity_steps(start, obs);
            &&& steps.len() <= obs.len()
            &&& forall|k: int|
                0 <= k < steps.len() ==> exists|j: int| 0 <= j < obs.len() && obs[j] == #[trigger] steps[k]
            &&& forall|k: int|
                0 <= k < steps.len() ==> (#[trigger] steps[k]).1 != (if k == 0 {
                    start
                } else {
                    steps[k - 1].1
                })
            &&& current_capacity(start, steps) == current_capacity(start, obs)
        }),
    decreases obs.len(),
{
    if obs.len() > 0 {
        let before = obs.drop_last();
        lemma_capacity_steps(start, before);
        let rest = spec_capacity_steps(start, before);
        let steps = spec_capacity_steps(start, obs);
        assert forall|k: int| 0 <= k < steps.len() implies exists|j: int|
            0 <= j < obs.len() && obs[j] == #[trigger] steps[k] by {
            if k < rest.len() {
                let j = choose|j: int| 0 <= j < before.len() && before[j] == rest[k];
                assert(obs[j] == steps[k]);
            } else {
                assert(obs[obs.len() - 1] == steps[k]);
            }
        }
    }
}

/// What pushing characters one at a time showed of a string's capacity.
pub struct GrowthLog {
    /// Length of the empty string before the first push.
    pub start_len: usize,
    /// Capacity of the empty string before the first push.
    pub start_cap: usize,
    /// `(length, capacity)` after each push, in order.
    pub observed: Vec<(usize, usize)>,
    /// The observations at which the capacity changed.
    pub steps: Vec<(usize, usize)>,
    /// The string after the last push.
    pub built: GrowableString,
}

/// The capacity in force before observation `j`.
pub open spec fn capacity_before(start: usize, obs: Seq<(usize, usize)>, j: int) -> usize {
    if j == 0 {
        start
    } else {
        obs[j - 1].1
    }
}

/// No change is missed: every observation whose capacity differs from the
/// one in force before it is recorded as a step.
pub proof fn lemma_capacity_steps_complete(start: usize, obs: Seq<(usize, usize)>, j: int)
    requires
        0 <= j < obs.len(),
        obs[j].1 != capacity_before(start, obs, j),
    ensures
        exists|k: int|
            0 <= k < spec_capacity_steps(start, obs).len() && spec_capacity_steps(start, obs)[k]
                == obs[j],
    decreases obs.len(),
{
    let before = obs.drop_last();
    let rest = spec_capacity_steps(start, before);
    let steps = spec_capacity_steps(start, obs);
    let n = obs.len() - 1;
    if j < n {
        assert(before[j] == obs[j]);
        assert(capacity_before(start, before, j) == capacity_before(start, obs, j));
        lemma_capacity_steps_complete(start, before, j);
        let k = choose|k: int| 0 <= k < rest.len() && rest[k] == before[j];
        assert(steps[k] == obs[j]);
    } else {
        assert(current_capacity(start, before) == capacity_before(start, obs, n));
        assert(steps[steps.len() - 1] == obs[j]);
    }
}

/// Nothing else is recorded: every step is an observation whose capacity
/// differs from the one in force before it.
pub proof fn lemma_capacity_steps_sound(start: usize, obs: Seq<(usize, usize)>, k: int)
    requires
        0 <= k < spec_capacity_steps(start, obs).len(),
    ensures
        exists|j: int|
            0 <= j < obs.len() && obs[j] == spec_capacity_steps(start, obs)[k] && obs[j].1
                != capacity_before(start, obs, j),
    decreases obs.len(),
{
    let before = obs.drop_last();
    let rest = spec_capacity_steps(start, before);
    let steps = spec_capacity_steps(start, obs);
    let n = obs.len() - 1;
    if k < rest.len() {
        lemma_capacity_steps_sound(start, before, k);
        let j = choose|j: int|
            0 <= j < before.len() && before[j] == rest[k] && before[j].1 != capacity_before(
                start,
                before,
                j,
            );
        assert(obs[j] == steps[k]);
        assert(capacity_before(start, before, j) == capacity_before(start, obs, j));
    } else {
        assert(current_capacity(start, before) == capacity_before(start, obs, n));
        assert(obs[n] == steps[k]);
    }
}

/// Whether the capacities observed never fall, starting from `start`.
pub open spec fn capacities_grow(start: usize, obs: Seq<(usize, usize)>) -> bool {
    forall|j: int|
        0 <= j < obs.len() ==> (if j == 0 {
            start
        } else {
            obs[j - 1].1
        }) <= (#[trigger] obs[j]).1
}

/// Where the observed capacities never fall, each recorded step raises the
/// capacity: the steps' capacities strictly increase, starting above `start`.
pub proof fn lemma_capacity_steps_increase(start: usize, obs: Seq<(usize, usize)>)
    requires
        capacities_grow(start, obs),
    ensures
        ({
            let steps = spec_capacity_steps(start, obs);
            forall|k: int|
                0 <= k < steps.len() ==> (if k == 0 {
                    start
                } else {
                    steps[k - 1].1
                }) < (#[trigger] steps[k]).1
        }),
    decreases obs.len(),
{
    if obs.len() > 0 {
        let before = obs.drop_last();
        assert forall|j: int| 0 <= j < before.len() implies (if j == 0 {
            start
        } else {
            before[j - 1].1
        }) <= (#[trigger] before[j]).1 by {
            assert(before[j] == obs[j]);
            if j > 0 {
                assert(before[j - 1] == obs[j - 1]);
            }
        }
        lemma_capacity_steps_increase(start, before);
        lemma_capacity_steps(start, before);
        let j = obs.len() - 1;
        assert((if j == 0 { start } else { obs[j - 1].1 }) <= obs[j].1);
        if j > 0 {
            assert(obs[j - 1] == before.last());
        }
    }
}

/// Pushes the characters of `text` one at a time onto an empty `String`,
/// observing length and capacity after each push, and keeps the points at
/// which the capacity changed. The empty string starts with capacity 0; each
/// capacity is at least the length it was observed with and none is lower
/// than the one before; how far each one runs ahead is the allocator's choice.
/// The built string is returned, and the capacity in force after the last
/// observation is the size of its buffer.
pub fn growth_steps(text: &str) -> (r: GrowthLog)
    ensures
        r.start_len == 0,
        r.start_cap == 0,
        r.observed@.len() == text@.len(),
        forall|j: int|
            0 <= j < r.observed@.len() ==> {
                &&& (#[trigger] r.observed@[j]).0 == utf8_len(text@.take(j + 1))
                &&& r.observed@[j].1 >= r.observed@[j].0
            },
        capacities_grow(r.start_cap, r.observed@),
        r.steps@ == spec_capacity_steps(r.start_cap, r.observed@),
        r.built@ == text@,
        current_capacity(r.start_cap, r.observed@) == r.built.buffer_size(),
        r.built.buffer_history().len() == r.observed@.len() + 1,
        r.built.buffer_history()[0] == r.start_cap,
        forall|j: int|
            0 <= j < r.observed@.len() ==> (#[trigger] r.observed@[j]).1 == r.built.buffer_history()[j + 1],
{
    broadcast use vstd::string::axiom_spec_iter;
    let mut s = GrowableString::new();
    let (start_len, start_cap): (usize, usize) = len_and_capacity(&s);
    let mut observed: Vec<(usize, usize)> = Vec::new();
    for c in it: text.chars()
        invariant
            it.seq() == text@,
            s@ == text@.take(it.index()),
            observed@.len() == it.index(),
            start_cap == 0,
            forall|j: int|
                0 <= j < observed@.len() ==> {
                    &&& (#[trigger] observed@[j]).0 == utf8_len(text@.take(j + 1))
                    &&& observed@[j].1 >= observed@[j].0
                },
            capacities_grow(start_cap, observed@),
            s.buffer_size() == current_capacity(start_cap, observed@),
            s.buffer_history().len() == observed@.len() + 1,
            s.buffer_history()[0] == start_cap,
            forall|j: int|
                0 <= j < observed@.len() ==> (#[trigger] observed@[j]).1 == s.buffer_history()[j + 1],
    {
        let ghost old_history = s.buffer_history();
        let ghost old_observed = observed@;
        s.push(c);
        assert(s@ =~= text@.take(it.index() + 1));
        let step: (usize, usize) = len_and_capacity(&s);
        observed.push(step);
        proof {
            let h = s.buffer_history();
            assert(h == old_history.push(s.buffer_size()));
            assert forall|j: int| 0 <= j < observed@.len() implies (#[trigger] observed@[j]).1 == h[j + 1] by {
                if j < old_observed.len() {
                    assert(observed@[j] == old_observed[j]);
                    assert(h[j + 1] == old_history[j + 1]);
                }
            }
        }
    }
    let steps = capacity_steps(start_cap, &observed);
    assert(text@.take(text@.len() as int) =~= text@);
    GrowthLog { start_len, start_cap, observed, steps, built: s }
}

} // verus!
