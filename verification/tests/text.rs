use csv_merge::text::{normalize_header, resolve_input_path, split_names};

fn b(s: &str) -> Vec<u8> {
    s.as_bytes().to_vec()
}

#[test]
fn splits_on_commas() {
    assert_eq!(split_names(&b("a,b")), vec![b("a"), b("b")]);
}

#[test]
fn split_keeps_empty_segments() {
    assert_eq!(split_names(&b("a,,b")), vec![b("a"), b(""), b("b")]);
    assert_eq!(split_names(&b(",a,")), vec![b(""), b("a"), b("")]);
}

#[test]
fn split_of_empty_input_is_one_empty_name() {
    assert_eq!(split_names(&b("")), vec![b("")]);
}

#[test]
fn split_does_not_trim_whitespace() {
    assert_eq!(split_names(&b("a , b")), vec![b("a "), b(" b")]);
}

#[test]
fn split_without_commas_is_the_whole_input() {
    assert_eq!(split_names(&b("alpha")), vec![b("alpha")]);
}

#[test]
fn resolves_plain_root() {
    let r = resolve_input_path(&b("/tmp/in"), &b("a"), &b("data.csv"));
    assert_eq!(r, b("/tmp/in/a/data.csv"));
}

#[test]
fn resolves_root_with_trailing_slash() {
    let r = resolve_input_path(&b("./"), &b("a"), &b("data.csv"));
    assert_eq!(r, b("./a/data.csv"));
}

#[test]
fn resolves_empty_root() {
    let r = resolve_input_path(&b(""), &b("a"), &b("data.csv"));
    assert_eq!(r, b("a/data.csv"));
}

#[test]
fn resolves_empty_folder_name() {
    let r = resolve_input_path(&b("/tmp/in"), &b(""), &b("data.csv"));
    assert_eq!(r, b("/tmp/in/data.csv"));
}

#[test]
fn normalizes_crlf_ending() {
    assert_eq!(normalize_header(&b("h1,h2\r\n")), b("h1,h2\n"));
}

#[test]
fn keeps_bare_lf_ending() {
    assert_eq!(normalize_header(&b("h1,h2\n")), b("h1,h2\n"));
}

#[test]
fn keeps_header_without_line_ending() {
    assert_eq!(normalize_header(&b("h1,h2")), b("h1,h2"));
    assert_eq!(normalize_header(&b("")), b(""));
    assert_eq!(normalize_header(&b("h\r")), b("h\r"));
}

#[test]
fn keeps_interior_carriage_return() {
    assert_eq!(normalize_header(&b("a\rb\r\n")), b("a\rb\n"));
}
