use maestro_install::text::{lex_le_exec, lex_lt_exec, parse_u64, split_on, trim, u64_to_dec};

#[test]
fn decimal_formatting() {
    assert_eq!(u64_to_dec(0), "0");
    assert_eq!(u64_to_dec(7), "7");
    assert_eq!(u64_to_dec(1024), "1024");
    assert_eq!(u64_to_dec(u64::MAX), "18446744073709551615");
}

#[test]
fn decimal_parsing() {
    assert_eq!(parse_u64("0"), Some(0));
    assert_eq!(parse_u64("262144"), Some(262144));
    assert_eq!(parse_u64("18446744073709551615"), Some(u64::MAX));
    assert_eq!(parse_u64("18446744073709551616"), None);
    assert_eq!(parse_u64(""), None);
    assert_eq!(parse_u64("12a"), None);
}

#[test]
fn splitting() {
    let r = split_on("a,b,,c", ',');
    assert_eq!(r, vec!["a", "b", "", "c"]);
    let r = split_on("", ',');
    assert_eq!(r, vec![""]);
    let r = split_on("x\n", '\n');
    assert_eq!(r, vec!["x", ""]);
}

#[test]
fn trimming() {
    assert_eq!(trim("  a b \t"), "a b");
    assert_eq!(trim("a"), "a");
    assert_eq!(trim(" \t "), "");
    assert_eq!(trim(""), "");
}

#[test]
fn lexicographic_order() {
    assert!(lex_le_exec("/", "/boot"));
    assert!(lex_lt_exec("/", "/boot"));
    assert!(lex_le_exec("/boot", "/boot"));
    assert!(!lex_lt_exec("/boot", "/boot"));
    assert!(!lex_le_exec("/data", "/boot"));
}
