use csv_merge::aggregate::{merge_all, Aggregator, FileContent, FolderInput};
use csv_merge::ErrorMode;

fn b(s: &str) -> Vec<u8> {
    s.as_bytes().to_vec()
}

fn present(name: &str, header: &str, body: &[&str]) -> FolderInput {
    FolderInput {
        name: b(name),
        content: Some(FileContent {
            header: b(header),
            body: body.iter().map(|l| b(l)).collect(),
        }),
    }
}

fn absent(name: &str) -> FolderInput {
    FolderInput { name: b(name), content: None }
}

#[test]
fn merges_two_folders() {
    let folders = vec![
        present("a", "h1,h2\n", &["1,2"]),
        present("b", "h1,h2\n", &["3,4"]),
    ];
    let r = merge_all(&b("src"), ErrorMode::Panic, &folders);
    assert_eq!(r, Ok(b("src,h1,h2\na,1,2\nb,3,4\n")));
}

#[test]
fn skip_mode_omits_missing_folder() {
    let folders = vec![present("a", "h1,h2\n", &["1,2"]), absent("b")];
    let r = merge_all(&b("src"), ErrorMode::Skip, &folders);
    assert_eq!(r, Ok(b("src,h1,h2\na,1,2\n")));
}

#[test]
fn panic_mode_aborts_on_missing_folder() {
    let folders = vec![present("a", "h1,h2\n", &["1,2"]), absent("b")];
    let r = merge_all(&b("src"), ErrorMode::Panic, &folders);
    assert_eq!(r, Err(b("b")));
}

#[test]
fn panic_mode_aborts_regardless_of_later_folders() {
    let folders = vec![
        present("a", "h1,h2\n", &["1,2"]),
        absent("b"),
        present("c", "h1,h2\n", &["5,6"]),
    ];
    let r = merge_all(&b("src"), ErrorMode::Panic, &folders);
    assert_eq!(r, Err(b("b")));
}

#[test]
fn skip_mode_still_processes_later_folders() {
    let folders = vec![
        absent("a"),
        present("b", "h1,h2\n", &["3,4"]),
        present("c", "h1,h2\n", &["5,6"]),
    ];
    let r = merge_all(&b("src"), ErrorMode::Skip, &folders);
    assert_eq!(r, Ok(b("src,h1,h2\nb,3,4\nc,5,6\n")));
}

#[test]
fn identical_runs_give_identical_output() {
    let folders = vec![
        present("a", "h1,h2\n", &["1,2", "9,9"]),
        present("b", "h1,h2\n", &["3,4"]),
    ];
    let first = merge_all(&b("src"), ErrorMode::Panic, &folders);
    let second = merge_all(&b("src"), ErrorMode::Panic, &folders);
    assert_eq!(first, second);
}

#[test]
fn exactly_one_header_line() {
    let folders = vec![
        present("a", "h1,h2\n", &["1,2"]),
        present("b", "h1,h2\n", &["3,4"]),
        present("c", "h1,h2\n", &[]),
    ];
    let out = merge_all(&b("src"), ErrorMode::Panic, &folders).unwrap();
    let text = String::from_utf8(out).unwrap();
    assert_eq!(text.matches("h1,h2").count(), 1);
    assert!(text.starts_with("src,h1,h2\n"));
}

#[test]
fn body_lines_keep_their_order() {
    let folders = vec![
        present("a", "h\n", &["first", "second", "third"]),
        present("b", "h\n", &["fourth"]),
    ];
    let r = merge_all(&b("col"), ErrorMode::Panic, &folders);
    assert_eq!(r, Ok(b("col,h\na,first\na,second\na,third\nb,fourth\n")));
}

#[test]
fn crlf_header_is_normalized() {
    let folders = vec![present("a", "h1,h2\r\n", &["1,2"])];
    let r = merge_all(&b("src"), ErrorMode::Panic, &folders);
    assert_eq!(r, Ok(b("src,h1,h2\na,1,2\n")));
}

#[test]
fn empty_first_file_claims_the_header() {
    let folders = vec![present("a", "", &[]), present("b", "h1,h2\n", &["3,4"])];
    let r = merge_all(&b("src"), ErrorMode::Panic, &folders);
    assert_eq!(r, Ok(b("src,b,3,4\n")));
}

#[test]
fn header_without_newline_is_kept_as_is() {
    let folders = vec![present("a", "h1,h2", &[]), present("b", "h1,h2\n", &["3,4"])];
    let r = merge_all(&b("src"), ErrorMode::Panic, &folders);
    assert_eq!(r, Ok(b("src,h1,h2b,3,4\n")));
}

#[test]
fn no_folders_give_empty_output() {
    let folders: Vec<FolderInput> = Vec::new();
    let r = merge_all(&b("src"), ErrorMode::Panic, &folders);
    assert_eq!(r, Ok(Vec::new()));
}

#[test]
fn all_folders_missing_under_skip_give_empty_output() {
    let folders = vec![absent("a"), absent("b")];
    let r = merge_all(&b("src"), ErrorMode::Skip, &folders);
    assert_eq!(r, Ok(Vec::new()));
}

#[test]
fn empty_folder_name_is_a_literal_prefix() {
    let folders = vec![present("", "h\n", &["1"])];
    let r = merge_all(&b("src"), ErrorMode::Panic, &folders);
    assert_eq!(r, Ok(b("src,h\n,1\n")));
}

#[test]
fn aggregator_steps_match_batch_merge() {
    let a = present("a", "h1,h2\n", &["1,2"]);
    let b_folder = present("b", "h1,h2\n", &["3,4"]);
    let mut agg = Aggregator::new(b("src"), ErrorMode::Panic);
    assert_eq!(agg.process_folder(&a.name, &a.content), Ok(()));
    assert_eq!(agg.process_folder(&b_folder.name, &b_folder.content), Ok(()));
    let out = agg.finish();
    assert_eq!(out, b("src,h1,h2\na,1,2\nb,3,4\n"));
}

#[test]
fn aggregator_reports_missing_folder_by_name() {
    let missing = absent("gone");
    let mut agg = Aggregator::new(b("src"), ErrorMode::Panic);
    assert_eq!(agg.process_folder(&missing.name, &missing.content), Err(b("gone")));
}

#[test]
fn aggregator_skip_leaves_state_untouched() {
    let a = present("a", "h\n", &["1"]);
    let missing = absent("gone");
    let mut agg = Aggregator::new(b("src"), ErrorMode::Skip);
    assert_eq!(agg.process_folder(&missing.name, &missing.content), Ok(()));
    assert_eq!(agg.process_folder(&a.name, &a.content), Ok(()));
    assert_eq!(agg.finish(), b("src,h\na,1\n"));
}
