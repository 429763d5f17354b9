use biblizap_table::request::{split_ids, split_on_spaces, trim_text, SearchFor, SnowballParameters};

#[test]
fn ids_are_trimmed_and_split_on_spaces() {
    assert_eq!(split_ids("  10.1/a 123456 lens:9  "), vec!["10.1/a", "123456", "lens:9"]);
    assert_eq!(split_ids("one"), vec!["one"]);
    assert_eq!(split_ids(""), vec![""]);
    assert_eq!(split_ids("a  b"), vec!["a", "", "b"]);
}

#[test]
fn split_on_spaces_keeps_empty_pieces() {
    assert_eq!(split_on_spaces(" a "), vec!["", "a", ""]);
    assert_eq!(split_on_spaces("é ü"), vec!["é", "ü"]);
}

#[test]
fn direction_labels() {
    assert_eq!(SearchFor::from_label("References"), SearchFor::References);
    assert_eq!(SearchFor::from_label("Citations"), SearchFor::Citations);
    assert_eq!(SearchFor::from_label("Both"), SearchFor::Both);
    assert_eq!(SearchFor::from_label("sideways"), SearchFor::Both);
    assert_eq!(SearchFor::default(), SearchFor::Both);
}

#[test]
fn parameters_from_form() {
    let p = SnowballParameters::from_form(" a b ", 2, 20, "Citations");
    assert_eq!(p.input_id_list, vec!["a".to_string(), "b".to_string()]);
    assert_eq!(p.depth, 2);
    assert_eq!(p.output_max_size, 20);
    assert_eq!(p.search_for, SearchFor::Citations);
}

#[test]
fn trimming_drops_unicode_whitespace_at_both_ends() {
    assert_eq!(trim_text("\t a b \n"), "a b");
    assert_eq!(trim_text("\u{3000}x\u{a0}"), "x");
    assert_eq!(trim_text("   "), "");
    assert_eq!(trim_text(""), "");
    assert_eq!(split_ids("\n 1 2\t"), vec!["1", "2"]);
}
