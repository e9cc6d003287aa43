use crash_metrics::symbols::{module_names, parse_hex_u64, resolve, split_bytes};

fn names(field: &[u8]) -> Vec<Vec<u8>> {
    module_names(&field.to_vec())
}

#[test]
fn resolve_picks_closest_preceding_module() {
    let modules = b"A;1000;10;g1;1;B;2000;20;g2;1".to_vec();
    assert_eq!(resolve(0x1050, &modules), b"A");
    assert_eq!(resolve(0x1FF0, &modules), b"A");
    assert_eq!(resolve(0x2010, &modules), b"B");
    assert_eq!(resolve(0x0FF0, &modules), b"unknown");
}

#[test]
fn resolve_first_module_wins_ties() {
    let modules = b"A;1000;10;g1;1;B;1000;20;g2;1".to_vec();
    assert_eq!(resolve(0x1500, &modules), b"A");
}

#[test]
fn resolve_skips_malformed_groups() {
    // The second group's base address is not hexadecimal.
    let modules = b"A;zzzz;10;g1;1;B;1000;20;g2;1".to_vec();
    assert_eq!(resolve(0x1500, &modules), b"B");
    // A trailing incomplete group is never consulted.
    let partial = b"A;1000;10;g1;1;B;500".to_vec();
    assert_eq!(resolve(0x700, &partial), b"unknown");
    assert_eq!(resolve(0x1200, &partial), b"A");
}

#[test]
fn resolve_takes_a_qualifying_module_even_at_the_largest_delta() {
    // A module based at 0 qualifies for every address, including the one
    // whose distance from the base is the largest possible value.
    let modules = b"A;0;10;g1;1".to_vec();
    assert_eq!(resolve(u64::MAX, &modules), b"A");
    assert_eq!(resolve(0, &modules), b"A");
    // The first of two such modules wins the tie.
    let two = b"A;0;10;g1;1;B;0;20;g2;1".to_vec();
    assert_eq!(resolve(u64::MAX, &two), b"A");
}

#[test]
fn resolve_on_empty_field_is_unknown() {
    assert_eq!(resolve(0x1000, &Vec::new()), b"unknown");
}

#[test]
fn resolve_exact_base_address() {
    let modules = b"A;1000;10;g1;1".to_vec();
    assert_eq!(resolve(0x1000, &modules), b"A");
    assert_eq!(resolve(0xFFF, &modules), b"unknown");
}

#[test]
fn parse_hex_accepts_bare_hex_numerals() {
    assert_eq!(parse_hex_u64(&b"0".to_vec()), Some(0));
    assert_eq!(parse_hex_u64(&b"ff".to_vec()), Some(255));
    assert_eq!(parse_hex_u64(&b"FF".to_vec()), Some(255));
    assert_eq!(parse_hex_u64(&b"140000000".to_vec()), Some(0x1_4000_0000));
    assert_eq!(
        parse_hex_u64(&b"ffffffffffffffff".to_vec()),
        Some(u64::MAX)
    );
    assert_eq!(parse_hex_u64(&b"00000000000000000001".to_vec()), Some(1));
}

#[test]
fn parse_hex_rejects_bad_numerals() {
    assert_eq!(parse_hex_u64(&Vec::new()), None);
    assert_eq!(parse_hex_u64(&b"g1".to_vec()), None);
    assert_eq!(parse_hex_u64(&b"12 ".to_vec()), None);
    assert_eq!(parse_hex_u64(&b"+12".to_vec()), None);
    // One past u64::MAX.
    assert_eq!(parse_hex_u64(&b"10000000000000000".to_vec()), None);
}

#[test]
fn split_bytes_matches_string_split() {
    let split = |s: &[u8]| -> Vec<Vec<u8>> { split_bytes(&s.to_vec(), b';') };
    assert_eq!(split(b"a;bc;d"), vec![b"a".to_vec(), b"bc".to_vec(), b"d".to_vec()]);
    assert_eq!(split(b""), vec![b"".to_vec()]);
    assert_eq!(split(b";"), vec![b"".to_vec(), b"".to_vec()]);
    assert_eq!(split(b"a;;b"), vec![b"a".to_vec(), b"".to_vec(), b"b".to_vec()]);
    assert_eq!(split(b"ab;"), vec![b"ab".to_vec(), b"".to_vec()]);
}

#[test]
fn module_names_lists_first_token_of_each_chunk() {
    assert_eq!(
        names(b"A;1000;10;g1;1;B;2000;20;g2;1"),
        vec![b"A".to_vec(), b"B".to_vec()]
    );
    // An incomplete trailing chunk still contributes its first token to the
    // displayed list.
    assert_eq!(
        names(b"A;1000;10;g1;1;B;2000"),
        vec![b"A".to_vec(), b"B".to_vec()]
    );
    assert_eq!(names(b""), vec![b"".to_vec()]);
}
