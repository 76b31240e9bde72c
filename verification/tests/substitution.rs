use collurgy::template::{substitute, Placeholder};
use collurgy::text::{chars_of, string_of};

fn rule(token: &str, value: &str) -> Placeholder {
    Placeholder { token: chars_of(token), value: chars_of(value) }
}

fn run(text: &str, table: &Vec<Placeholder>) -> String {
    string_of(&substitute(&chars_of(text), table))
}

#[test]
fn every_occurrence_is_replaced() {
    let table = vec![rule("{A}", "1"), rule("{B}", "22")];
    assert_eq!(run("{A}-{B}-{A}", &table), "1-22-1");
    assert_eq!(run("{A}{A}{B}", &table), "1122");
}

#[test]
fn text_without_tokens_is_kept() {
    let table = vec![rule("{A}", "1")];
    assert_eq!(run("plain text", &table), "plain text");
    assert_eq!(run("", &table), "");
    assert_eq!(run("{unknown} {A", &table), "{unknown} {A");
}

#[test]
fn an_empty_table_changes_nothing() {
    assert_eq!(run("{A}{B}", &Vec::new()), "{A}{B}");
}

#[test]
fn emitted_text_is_not_scanned_again() {
    let table = vec![rule("{R1}", "12"), rule("{R12}", "99"), rule("{X}", "{R1}")];
    assert_eq!(run("{R{R1}}", &table), "{R12}");
    assert_eq!(run("{X}", &table), "{R1}");
    assert_eq!(run("{R12}", &table), "99");
}

#[test]
fn the_first_rule_of_the_table_wins() {
    let table = vec![rule("{A}", "first"), rule("{A}", "second"), rule("{A}b", "longer")];
    assert_eq!(run("{A}b", &table), "firstb");
    let table = vec![rule("{A}b", "longer"), rule("{A}", "first")];
    assert_eq!(run("{A}b{A}", &table), "longerfirst");
}

#[test]
fn a_rule_with_an_empty_token_never_applies() {
    let table = vec![rule("", "x"), rule("{A}", "1")];
    assert_eq!(run("a{A}", &table), "a1");
}

#[test]
fn a_token_is_found_behind_a_stray_brace() {
    let table = vec![rule("{R1}", "7")];
    assert_eq!(run("{{R1}", &table), "{7");
    assert_eq!(run("{R1}}", &table), "7}");
    assert_eq!(run("{R1", &table), "{R1");
}

#[test]
fn a_value_may_be_empty() {
    let table = vec![rule("{A}", "")];
    assert_eq!(run("x{A}y", &table), "xy");
}
