use solana_vanity::matcher::fast_prefix_compare;
use solana_vanity::matcher::find_match;
use solana_vanity::matcher::matching_prefix;
use solana_vanity::prefix::build_prefix_table;
use solana_vanity::prefix::PrefixEntry;

fn table_of(prefixes: &[&str]) -> Vec<PrefixEntry> {
    let owned: Vec<String> = prefixes.iter().map(|p| p.to_string()).collect();
    build_prefix_table(&owned)
}

#[test]
fn compare_short_prefix_matches() {
    assert!(fast_prefix_compare(b"ABxyz123", b"AB"));
    assert!(fast_prefix_compare(b"ABxyz123", b"ABxyz123"));
}

#[test]
fn compare_short_prefix_differs() {
    assert!(!fast_prefix_compare(b"ABxyz123", b"AC"));
    assert!(!fast_prefix_compare(b"ABxyz123", b"ABxyz124"));
}

#[test]
fn compare_is_case_sensitive() {
    assert!(!fast_prefix_compare(b"ABxyz", b"ab"));
    assert!(!fast_prefix_compare(b"abxyz", b"AB"));
}

#[test]
fn compare_empty_prefix_always_matches() {
    assert!(fast_prefix_compare(b"ABxyz", b""));
    assert!(fast_prefix_compare(b"", b""));
}

#[test]
fn compare_encoded_shorter_than_prefix() {
    assert!(!fast_prefix_compare(b"AB", b"ABC"));
    assert!(!fast_prefix_compare(b"", b"A"));
    assert!(!fast_prefix_compare(b"ABCDEFGHJ", b"ABCDEFGHJK"));
}

#[test]
fn compare_long_prefix_matches() {
    let encoded = b"ABCDEFGHJKLMNPQRSTUVWXYZabcdefghijkmnopqrstuvwxyz";
    assert!(fast_prefix_compare(encoded, b"ABCDEFGHJ"));
    assert!(fast_prefix_compare(encoded, b"ABCDEFGHJKLMNPQR"));
    assert!(fast_prefix_compare(encoded, b"ABCDEFGHJKLMNPQRSTUVW"));
    assert!(fast_prefix_compare(encoded, encoded));
}

#[test]
fn compare_long_prefix_differs_in_first_block() {
    let encoded = b"ABCDEFGHJKLMNPQRSTUVWXYZ";
    assert!(!fast_prefix_compare(encoded, b"ABCxEFGHJKLMNPQRSTU"));
}

#[test]
fn compare_long_prefix_differs_in_later_block() {
    let encoded = b"ABCDEFGHJKLMNPQRSTUVWXYZ";
    assert!(!fast_prefix_compare(encoded, b"ABCDEFGHJKLMxPQRSTU"));
}

#[test]
fn compare_long_prefix_differs_in_remainder() {
    let encoded = b"ABCDEFGHJKLMNPQRSTUVWXYZ";
    assert!(!fast_prefix_compare(encoded, b"ABCDEFGHJKLMNPQRSTx"));
    assert!(!fast_prefix_compare(encoded, b"ABCDEFGHx"));
}

#[test]
fn compare_long_prefix_of_whole_blocks() {
    let encoded = b"ABCDEFGHJKLMNPQRSTUVWXYZ";
    assert!(fast_prefix_compare(encoded, b"ABCDEFGHJKLMNPQR"));
    assert!(!fast_prefix_compare(encoded, b"ABCDEFGHJKLMNPQx"));
    assert!(!fast_prefix_compare(encoded, b"xBCDEFGHJKLMNPQR"));
}

#[test]
fn compare_agrees_with_starts_with() {
    let encoded: &[u8] = b"7Zp3kQ9mAbCdEfGhJkLmNoPqRsTuVwXyZ2345678";
    for n in 0..=encoded.len() {
        assert!(fast_prefix_compare(encoded, &encoded[..n]));
        if n > 0 {
            for at in 0..n {
                let mut other = encoded[..n].to_vec();
                other[at] ^= 1;
                assert_eq!(fast_prefix_compare(encoded, &other), encoded.starts_with(&other));
                assert!(!fast_prefix_compare(encoded, &other));
            }
        }
    }
}

#[test]
fn table_keeps_order_and_duplicates() {
    let table = table_of(&["AB", "So", "AB", ""]);
    assert_eq!(table.len(), 4);
    assert_eq!(table[0].text(), "AB");
    assert_eq!(table[1].text(), "So");
    assert_eq!(table[2].text(), "AB");
    assert_eq!(table[3].text(), "");
}

#[test]
fn table_of_nothing_is_empty() {
    let table = build_prefix_table(&[]);
    assert!(table.is_empty());
}

#[test]
fn entry_holds_bytes_and_length_of_its_text() {
    let entry = PrefixEntry::new("Sol");
    assert_eq!(entry.text(), "Sol");
    assert_eq!(entry.bytes(), b"Sol");
    assert_eq!(entry.len(), 3);
    let wide = PrefixEntry::new("é1");
    assert_eq!(wide.bytes(), "é1".as_bytes());
    assert_eq!(wide.len(), 3);
}

#[test]
fn matcher_finds_single_prefix() {
    let table = table_of(&["AB"]);
    assert_eq!(find_match("ABxyz", &table), Some(0));
    assert_eq!(matching_prefix("ABxyz", &table), Some("AB".to_string()));
}

#[test]
fn matcher_reports_no_match() {
    let table = table_of(&["AB", "CD"]);
    assert_eq!(find_match("xyzAB", &table), None);
    assert_eq!(matching_prefix("xyzAB", &table), None);
}

#[test]
fn matcher_on_empty_table_finds_nothing() {
    let table = table_of(&[]);
    assert_eq!(find_match("ABxyz", &table), None);
    assert_eq!(matching_prefix("ABxyz", &table), None);
}

#[test]
fn matcher_prefers_earlier_entry() {
    let table = table_of(&["AB", "A"]);
    assert_eq!(find_match("ABxyz", &table), Some(0));
    assert_eq!(matching_prefix("ABxyz", &table), Some("AB".to_string()));
    let swapped = table_of(&["A", "AB"]);
    assert_eq!(find_match("ABxyz", &swapped), Some(0));
    assert_eq!(matching_prefix("ABxyz", &swapped), Some("A".to_string()));
}

#[test]
fn matcher_prefers_earlier_entry_every_time() {
    let table = table_of(&["zz", "ABx", "AB", "A"]);
    for _ in 0..100 {
        assert_eq!(find_match("ABxyz", &table), Some(1));
        assert_eq!(matching_prefix("ABxyz", &table), Some("ABx".to_string()));
    }
}

#[test]
fn matcher_skips_entries_that_do_not_match() {
    let table = table_of(&["CD", "ABy", "ABx"]);
    assert_eq!(find_match("ABxyz", &table), Some(2));
    assert_eq!(matching_prefix("ABxyz", &table), Some("ABx".to_string()));
}

#[test]
fn matcher_is_deterministic() {
    let table = table_of(&["So", "AB", "1"]);
    let first = matching_prefix("ABxyz", &table);
    for _ in 0..50 {
        assert_eq!(matching_prefix("ABxyz", &table), first);
    }
    let none = matching_prefix("zzz", &table);
    for _ in 0..50 {
        assert_eq!(matching_prefix("zzz", &table), none);
    }
}

#[test]
fn address_shorter_than_prefix_never_matches() {
    let table = table_of(&["ABxyz1", "ABxyz"]);
    assert_eq!(find_match("ABxy", &table), None);
    assert_eq!(find_match("ABxyz", &table), Some(1));
    assert_eq!(find_match("", &table), None);
    let long = table_of(&["ABCDEFGHJKLMNPQRST"]);
    assert_eq!(find_match("ABCDEFGHJKLMNPQRS", &long), None);
}

#[test]
fn matcher_is_case_sensitive() {
    let table = table_of(&["ab"]);
    assert_eq!(find_match("ABxyz", &table), None);
    assert_eq!(find_match("abxyz", &table), Some(0));
}

#[test]
fn empty_prefix_matches_every_address() {
    let table = table_of(&["zz", ""]);
    assert_eq!(find_match("ABxyz", &table), Some(1));
    assert_eq!(matching_prefix("", &table), Some(String::new()));
}

#[test]
fn duplicate_prefix_answers_with_first_copy() {
    let table = table_of(&["CD", "AB", "AB"]);
    assert_eq!(find_match("ABxyz", &table), Some(1));
}

#[test]
fn matcher_compares_wide_characters_whole() {
    let table = table_of(&["é"]);
    assert_eq!(find_match("éa", &table), Some(0));
    assert_eq!(find_match("e", &table), None);
    assert_eq!(find_match("è", &table), None);
    let two = table_of(&["ab"]);
    assert_eq!(find_match("é", &two), None);
}
