use shinbun::json::{decode_strings, encode_strings};

#[test]
fn strings_are_written_as_a_json_list() {
    assert_eq!(encode_strings(&Vec::new()), "[]");
    assert_eq!(encode_strings(&vec!["a".to_string(), "b\"c".to_string()]), "[\"a\",\"b\\\"c\"]");
}

#[test]
fn a_json_list_is_read_as_strings() {
    assert_eq!(decode_strings("[]"), Some(Vec::new()));
    assert_eq!(
        decode_strings(" [\"a\", \"b\\\"c\"] "),
        Some(vec!["a".to_string(), "b\"c".to_string()])
    );
}

#[test]
fn what_is_no_list_of_strings_is_not_read() {
    assert_eq!(decode_strings(""), None);
    assert_eq!(decode_strings("[1, 2]"), None);
    assert_eq!(decode_strings("{\"a\": 1}"), None);
    assert_eq!(decode_strings("[\"a\""), None);
}

#[test]
fn reading_undoes_writing() {
    let list = vec!["https://example.org/a?b=c&d".to_string(), "日本語\n\t".to_string()];
    assert_eq!(decode_strings(&encode_strings(&list)), Some(list));
}
