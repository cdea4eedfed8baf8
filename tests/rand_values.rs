use regd_testing::rand::{
    accept_name, generate, generate_alphanumeric, generate_bytes, generate_range,
    generate_range_inclusive, propose_name, Lookup, NameStep,
};

fn is_alnum(c: char) -> bool {
    c.is_ascii_uppercase() || c.is_ascii_lowercase() || c.is_ascii_digit()
}

#[test]
fn range_ten_to_twenty_stays_inside() {
    for _ in 0..1000 {
        let x: i32 = generate_range(10..20);
        assert!((10..20).contains(&x));
    }
}

#[test]
fn range_covers_every_value_of_a_small_range() {
    let mut seen = [false; 4];
    for _ in 0..2000 {
        let x: u32 = generate_range(0..4);
        seen[x as usize] = true;
    }
    assert!(seen.iter().all(|s| *s));
}

#[test]
fn range_of_width_one_gives_its_only_value() {
    let x: u64 = generate_range(7..8);
    assert_eq!(x, 7);
    let y: i64 = generate_range(-3..-2);
    assert_eq!(y, -3);
}

#[test]
fn range_with_negative_bounds() {
    for _ in 0..500 {
        let x: i64 = generate_range(-50..-40);
        assert!(x >= -50 && x < -40);
    }
}

#[test]
fn range_near_the_top_of_usize() {
    for _ in 0..100 {
        let x: usize = generate_range(usize::MAX - 2..usize::MAX);
        assert!(x == usize::MAX - 2 || x == usize::MAX - 1);
    }
}

#[test]
#[allow(unused_comparisons)]
fn generate_gives_values_of_the_type() {
    let a: u32 = generate();
    let b: u8 = generate();
    assert!(a <= u32::MAX);
    assert!(b <= u8::MAX);
}

#[test]
fn bytes_of_each_length() {
    assert!(generate_bytes(0).is_empty());
    assert_eq!(generate_bytes(1).len(), 1);
    assert_eq!(generate_bytes(16).len(), 16);
    assert_eq!(generate_bytes(4096).len(), 4096);
}

#[test]
fn bytes_are_not_all_equal() {
    let b = generate_bytes(256);
    assert!(b.iter().any(|x| *x != b[0]));
}

#[test]
fn alphanumeric_length_and_alphabet() {
    assert_eq!(generate_alphanumeric(0), "");
    for n in [1usize, 12, 100] {
        let s = generate_alphanumeric(n);
        assert_eq!(s.chars().count(), n);
        assert_eq!(s.len(), n);
        assert!(s.chars().all(is_alnum));
    }
}

#[test]
fn alphanumeric_uses_more_than_one_symbol() {
    let s = generate_alphanumeric(200);
    let first = s.chars().next().unwrap();
    assert!(s.chars().any(|c| c != first));
}

#[test]
fn proposed_names_are_alphanumeric() {
    let s = propose_name(8);
    assert_eq!(s.len(), 8);
    assert!(s.chars().all(is_alnum));
}

#[test]
fn free_name_is_accepted() {
    match accept_name("abc".to_string(), Lookup::Absent) {
        NameStep::Use(n) => assert_eq!(n, "abc"),
        _ => panic!("a free name must be used"),
    }
}

#[test]
fn taken_name_is_refused() {
    assert!(matches!(accept_name("abc".to_string(), Lookup::Present), NameStep::Retry));
}

#[test]
fn failed_lookup_ends_the_search() {
    assert!(matches!(accept_name("abc".to_string(), Lookup::Failed), NameStep::Fail));
}

#[test]
fn name_search_avoids_taken_names() {
    let taken = ["a", "b", "c"];
    let name = loop {
        let candidate = propose_name(1);
        let lookup = if taken.contains(&candidate.as_str()) {
            Lookup::Present
        } else {
            Lookup::Absent
        };
        match accept_name(candidate, lookup) {
            NameStep::Use(n) => break n,
            NameStep::Retry => {}
            NameStep::Fail => panic!("no lookup failed"),
        }
    };
    assert_eq!(name.len(), 1);
    assert!(!taken.contains(&name.as_str()));
}

#[test]
fn inclusive_range_of_one_value() {
    let x: i32 = generate_range_inclusive(7..=7);
    assert_eq!(x, 7);
}

#[test]
fn inclusive_range_reaches_both_ends() {
    let mut seen = [false; 3];
    for _ in 0..1000 {
        let x: u8 = generate_range_inclusive(253..=255);
        assert!(x >= 253);
        seen[(x - 253) as usize] = true;
    }
    assert!(seen.iter().all(|s| *s));
}

#[test]
fn inclusive_range_over_a_whole_type() {
    let x: i8 = generate_range_inclusive(i8::MIN..=i8::MAX);
    assert!(x >= i8::MIN);
    let y: u128 = generate_range_inclusive(0..=u128::MAX);
    assert!(y <= u128::MAX);
}

#[test]
fn ranges_of_the_other_widths() {
    for _ in 0..200 {
        let a: u16 = generate_range(1000..1010);
        assert!((1000..1010).contains(&a));
        let b: i16 = generate_range(-5..5);
        assert!((-5..5).contains(&b));
        let c: i128 = generate_range(-(1i128 << 100)..-(1i128 << 100) + 3);
        assert!(c >= -(1i128 << 100) && c < -(1i128 << 100) + 3);
        let d: u8 = generate_range(0..1);
        assert_eq!(d, 0);
    }
}
