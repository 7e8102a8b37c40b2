use queryscript::ast::Ident;
use queryscript::text::{decimal_text, sort_idents};

fn sorted(names: &[&str]) -> Vec<String> {
    let idents = names.iter().map(|n| Ident::new(n)).collect();
    sort_idents(idents).into_iter().map(|i| i.value).collect()
}

#[test]
fn numbers_are_written_in_decimal() {
    for n in [0u64, 1, 9, 10, 99, 100, 12345, 1000000007, u64::MAX] {
        assert_eq!(decimal_text(n), n.to_string());
    }
}

#[test]
fn names_are_sorted_as_strings() {
    let names = ["b", "a10", "a2", "B", "", "\u{e9}", "z", "a", "\u{10ffff}", "\u{ffff}", "ab", "b"];
    let mut expected: Vec<String> = names.iter().map(|n| n.to_string()).collect();
    expected.sort();
    assert_eq!(sorted(&names), expected);
}

#[test]
fn nothing_is_sorted_to_nothing() {
    assert_eq!(sorted(&[]), Vec::<String>::new());
}
