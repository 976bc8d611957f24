use rust_learning::stack_heap::{
    capacity_report, capacity_steps, conversions, grow_owned, growth_steps, handle_sizes,
    len_and_capacity, GrowableString,
};

#[test]
fn conversions_all_agree() {
    let c = conversions("Anoop");
    assert_eq!(c.from, "Anoop");
    assert_eq!(c.to_string, "Anoop");
    assert_eq!(c.to_owned, "Anoop");
    assert_eq!(c.into, "Anoop");
}

#[test]
fn conversions_of_empty_text() {
    let c = conversions("");
    assert_eq!(c.from, "");
    assert_eq!(c.into, "");
}

#[test]
fn owner_grows() {
    let owned = GrowableString::from_str("Anoop");
    let before = owned.capacity();
    let grown = grow_owned(owned, " K.S. Nair");
    assert_eq!(grown.as_str(), "Anoop K.S. Nair");
    assert!(grown.capacity() >= before);
    assert_eq!(grown.into_string(), "Anoop K.S. Nair");
}

#[test]
fn handle_sizes_match_layout() {
    let h = handle_sizes();
    assert_eq!(h.str_ref_bytes, std::mem::size_of::<&str>());
    assert_eq!(h.string_bytes, std::mem::size_of::<String>());
    assert_eq!(h.int_ref_bytes, std::mem::size_of::<usize>());
    assert_eq!(h.str_ref_bytes, 2 * std::mem::size_of::<usize>());
    assert_eq!(h.string_bytes, 3 * std::mem::size_of::<usize>());
    if usize::BITS == 64 {
        assert_eq!((h.str_ref_bytes, h.string_bytes, h.int_ref_bytes), (16, 24, 8));
    }
}

#[test]
fn byte_len_counts_utf8_bytes() {
    assert_eq!(GrowableString::from_str("Anoop").len(), 5);
    assert_eq!(GrowableString::from_str("h\u{e9}llo").len(), 6);
    assert_eq!(GrowableString::new().len(), 0);
}

#[test]
fn len_never_exceeds_capacity() {
    let mut s = GrowableString::new();
    assert_eq!(len_and_capacity(&s), (0, 0));
    s.push('x');
    s.push_str("yz");
    let (len, cap) = len_and_capacity(&s);
    assert_eq!(len, 3);
    assert!(cap >= 3);
    assert_eq!(s.as_str(), "xyz");
}

#[test]
fn capacity_report_after_one_big_push() {
    let r = capacity_report("Anoop", "Kuttikattu Sukumaran Nair");
    assert_eq!(r.first_len, 5);
    assert!(r.first_cap >= 5);
    assert_eq!(r.full_len, 30);
    assert!(r.full_cap >= 30);
    assert!(r.full_cap >= r.first_cap);
    assert_eq!(r.grown.capacity(), r.full_cap);
    assert_eq!(r.grown.as_str(), "AnoopKuttikattu Sukumaran Nair");
}

#[test]
fn capacity_steps_keeps_changes_only() {
    let observed = vec![(1, 8), (2, 8), (8, 8), (9, 16), (10, 16)];
    assert_eq!(capacity_steps(0, &observed), vec![(1, 8), (9, 16)]);
}

#[test]
fn capacity_steps_without_change() {
    assert_eq!(capacity_steps(8, &vec![(1, 8), (2, 8)]), vec![]);
    assert_eq!(capacity_steps(8, &vec![]), vec![]);
}

#[test]
fn capacity_steps_first_change_from_start() {
    assert_eq!(capacity_steps(4, &vec![(1, 4), (5, 9)]), vec![(5, 9)]);
}

#[test]
fn growth_steps_over_alphabet() {
    let log = growth_steps("abcdefghijklmnopqrstuvwxyz");
    assert_eq!(log.start_len, 0);
    assert_eq!(log.start_cap, 0);
    assert_eq!(log.observed.len(), 26);
    let mut last = log.start_cap;
    for (_, cap) in &log.observed {
        assert!(*cap >= last);
        last = *cap;
    }
    for (j, (len, cap)) in log.observed.iter().enumerate() {
        assert_eq!(*len, j + 1);
        assert!(*cap >= *len);
    }
    assert_eq!(log.steps, capacity_steps(log.start_cap, &log.observed));
    assert!(!log.steps.is_empty());
    let mut prev = log.start_cap;
    for (len, cap) in &log.steps {
        assert!(*cap > prev);
        assert!(*cap >= *len);
        assert!(log.observed.contains(&(*len, *cap)));
        prev = *cap;
    }
    assert_eq!(prev, log.observed[25].1);
    assert_eq!(log.built.capacity(), prev);
    assert_eq!(log.built.as_str(), "abcdefghijklmnopqrstuvwxyz");
}

#[test]
fn growth_steps_count_bytes() {
    let log = growth_steps("a\u{fc}b");
    let lens: Vec<usize> = log.observed.iter().map(|o| o.0).collect();
    assert_eq!(lens, vec![1, 3, 4]);
}

#[test]
fn growth_steps_of_empty_text() {
    let log = growth_steps("");
    assert!(log.observed.is_empty());
    assert!(log.steps.is_empty());
    assert_eq!(log.built.capacity(), 0);
}
