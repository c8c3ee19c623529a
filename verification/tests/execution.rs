use cj::cli::OsArg;
use cj::execution::Execution;

#[test]
fn raw_execution_does_not_append_a_line_feed() {
    let mut output = Vec::new();
    Execution::raw(b"first\0second\0".to_vec()).write_to(&mut output);
    assert_eq!(output, b"first\0second\0");
}

#[test]
fn text_and_paths_end_with_a_line_feed() {
    let mut output = Vec::new();
    Execution::stdout("cj 1.0".into()).write_to(&mut output);
    assert_eq!(output, b"cj 1.0\n");
    let mut path = Vec::new();
    Execution::path(&OsArg::Raw(b"/srv/\xff".to_vec()), false).unwrap().write_to(&mut path);
    assert_eq!(path, b"/srv/\xff\n");
    assert!(Execution::path(&OsArg::Raw(b"x".to_vec()), true).is_err());
    assert!(!Execution::silent().write_stdout);
}

#[test]
fn text_paths_round_trip_through_their_bytes() {
    let path = cj::cli::OsArg::Text("/srv/été/x".into());
    let bytes = cj::path_bytes::output_bytes(&path, false).unwrap();
    assert_eq!(bytes, "/srv/été/x".as_bytes().to_vec());
    assert_eq!(cj::path_bytes::from_bytes(&bytes, "bad", true), Ok(path));
}
