use cli_utils::path_buf::PathBuf;
use cli_utils::std_streams::{
    line_item, lines_iterator, remove_eol, write_to_file, InputSource, OutputTarget, StreamIdent,
    STREAM_PATH_STR,
};

fn cleaned(input: &str) -> String {
    let mut line = String::from(input);
    remove_eol(&mut line);
    line
}

#[test]
fn test_remove_eol_simple_none() {
    assert_eq!("my lines text", cleaned("my lines text"));
}

#[test]
fn test_remove_eol_simple_nl() {
    assert_eq!("my lines text", cleaned("my lines text\n"));
}

#[test]
fn test_remove_eol_simple_cr_nl() {
    assert_eq!("my lines text", cleaned("my lines text\r\n"));
}

#[test]
fn test_remove_eol_simple_nl_cr() {
    assert_eq!("my lines text\n\r", cleaned("my lines text\n\r"));
}

#[test]
fn test_remove_eol_simple_cr() {
    assert_eq!("my lines text\r", cleaned("my lines text\r"));
}

#[test]
fn remove_eol_takes_one_end_of_line_only() {
    assert_eq!("", cleaned(""));
    assert_eq!("", cleaned("\n"));
    assert_eq!("", cleaned("\r\n"));
    assert_eq!("a\n", cleaned("a\n\n"));
    assert_eq!("a\r", cleaned("a\r\r\n"));
    assert_eq!("\u{e9}t\u{e9}", cleaned("\u{e9}t\u{e9}\r\n"));
}

#[test]
fn test_lines_iterator_simple_1() {
    assert_eq!(
        lines_iterator("line 1\nline 2\nline 3", false),
        vec!["line 1\n", "line 2\n", "line 3"]
    );
}

#[test]
fn test_lines_iterator_simple_2() {
    assert_eq!(
        lines_iterator("line 1\nline 2\nline 3\n", false),
        vec!["line 1\n", "line 2\n", "line 3\n"]
    );
}

#[test]
fn test_lines_iterator_windows_1() {
    assert_eq!(
        lines_iterator("line 1\r\nline 2\r\nline 3", false),
        vec!["line 1\r\n", "line 2\r\n", "line 3"]
    );
}

#[test]
fn test_lines_iterator_windows_2() {
    assert_eq!(
        lines_iterator("line 1\r\nline 2\r\nline 3\r\n", false),
        vec!["line 1\r\n", "line 2\r\n", "line 3\r\n"]
    );
}

#[test]
fn test_lines_iterator_mixed_1() {
    assert_eq!(
        lines_iterator("line 1\nline 2\r\nline 3", false),
        vec!["line 1\n", "line 2\r\n", "line 3"]
    );
}

#[test]
fn test_lines_iterator_mixed_2() {
    assert_eq!(
        lines_iterator("line 1\r\nline 2\nline 3", false),
        vec!["line 1\r\n", "line 2\n", "line 3"]
    );
}

#[test]
fn test_lines_iterator_mixed_3() {
    assert_eq!(
        lines_iterator("line 1\nline 2\r\nline 3\n", false),
        vec!["line 1\n", "line 2\r\n", "line 3\n"]
    );
}

#[test]
fn test_lines_iterator_mixed_4() {
    assert_eq!(
        lines_iterator("line 1\r\nline 2\nline 3\r\n", false),
        vec!["line 1\r\n", "line 2\n", "line 3\r\n"]
    );
}

fn stripped_lines_are_the_three(input: &str) {
    assert_eq!(lines_iterator(input, true), vec!["line 1", "line 2", "line 3"]);
}

#[test]
fn test_lines_iterator_strip_simple_1() {
    stripped_lines_are_the_three("line 1\nline 2\nline 3");
}

#[test]
fn test_lines_iterator_strip_simple_2() {
    stripped_lines_are_the_three("line 1\nline 2\nline 3\n");
}

#[test]
fn test_lines_iterator_strip_windows_1() {
    stripped_lines_are_the_three("line 1\r\nline 2\r\nline 3");
}

#[test]
fn test_lines_iterator_strip_windows_2() {
    stripped_lines_are_the_three("line 1\r\nline 2\r\nline 3\r\n");
}

#[test]
fn test_lines_iterator_strip_mixed_1() {
    stripped_lines_are_the_three("line 1\nline 2\r\nline 3");
}

#[test]
fn test_lines_iterator_strip_mixed_2() {
    stripped_lines_are_the_three("line 1\r\nline 2\nline 3");
}

#[test]
fn test_lines_iterator_strip_mixed_3() {
    stripped_lines_are_the_three("line 1\nline 2\r\nline 3\n");
}

#[test]
fn test_lines_iterator_strip_mixed_4() {
    stripped_lines_are_the_three("line 1\r\nline 2\nline 3\r\n");
}

#[test]
fn lines_of_an_empty_text_and_of_empty_lines() {
    assert_eq!(lines_iterator("", false), Vec::<String>::new());
    assert_eq!(lines_iterator("", true), Vec::<String>::new());
    assert_eq!(lines_iterator("\n\n", false), vec!["\n", "\n"]);
    assert_eq!(lines_iterator("\n\n", true), vec!["", ""]);
    assert_eq!(lines_iterator("a\r", true), vec!["a\r"]);
}

#[test]
fn a_read_of_no_byte_ends_the_lines() {
    assert!(line_item(Ok(0), String::new(), true).is_none());
    assert!(line_item(Ok(0), String::new(), false).is_none());
}

#[test]
fn a_read_line_is_handed_on_with_or_without_its_end() {
    let kept = line_item(Ok(8), "line 1\r\n".to_string(), false);
    assert_eq!(kept.unwrap().unwrap(), "line 1\r\n");
    let stripped = line_item(Ok(8), "line 1\r\n".to_string(), true);
    assert_eq!(stripped.unwrap().unwrap(), "line 1");
}

#[test]
fn a_failed_read_is_handed_on() {
    let failed = std::io::Error::new(std::io::ErrorKind::InvalidData, "not utf-8");
    let item = line_item(Err(failed), String::new(), true);
    assert_eq!(item.unwrap().unwrap_err().kind(), std::io::ErrorKind::InvalidData);
}

fn named_by_option(input: Option<&PathBuf>, expected_path: bool) {
    for direction in [false, true] {
        let expected = if expected_path {
            StreamIdent::Path(input.unwrap().clone(), direction)
        } else {
            StreamIdent::new_std(direction)
        };
        assert_eq!(StreamIdent::from_path_opt(input, direction), expected);
        assert_eq!(StreamIdent::from_path_buf_opt(input.cloned(), direction), expected);
    }
}

#[test]
fn stream_ident_from_path_opt_none() {
    named_by_option(None, false);
}

#[test]
fn stream_ident_from_path_opt_std_str_const() {
    named_by_option(Some(PathBuf::from(STREAM_PATH_STR).as_path()), false);
}

#[test]
fn stream_ident_from_path_opt_std_str_lit() {
    named_by_option(Some(PathBuf::from("-").as_path()), false);
}

#[test]
fn stream_ident_from_path_opt_path() {
    named_by_option(Some(PathBuf::from("/pth/x").as_path()), true);
}

#[test]
fn stream_ident_from_a_path() {
    assert_eq!(StreamIdent::from_path(&PathBuf::from("-"), true), StreamIdent::StdIn);
    assert_eq!(StreamIdent::from_path(&PathBuf::from("-"), false), StreamIdent::StdOut);
    assert_eq!(
        StreamIdent::from_path_buf(PathBuf::from("x/y"), false),
        StreamIdent::Path(PathBuf::from("x/y"), false)
    );
    assert_eq!(StreamIdent::new_std(true), StreamIdent::StdIn);
    assert_eq!(StreamIdent::new_std(false), StreamIdent::StdOut);
}

#[test]
fn descriptions_of_stream_idents() {
    assert_eq!(StreamIdent::StdIn.description(), "stdin");
    assert_eq!(StreamIdent::StdOut.description(), "stdout");
    assert_eq!(
        StreamIdent::Path(PathBuf::from("/pth/x"), true).description(),
        "file-system stream (in): '/pth/x'"
    );
    assert_eq!(
        StreamIdent::Path(PathBuf::from("/pth/x"), false).description(),
        "file-system stream (out): '/pth/x'"
    );
}

#[test]
fn only_an_input_can_be_read() {
    assert_eq!(StreamIdent::StdIn.create_input_reader().unwrap(), InputSource::Stdin);
    assert_eq!(
        StreamIdent::Path(PathBuf::from("-"), true).create_input_reader().unwrap(),
        InputSource::File(PathBuf::from("-"))
    );
    let refused = StreamIdent::StdOut.create_input_reader().unwrap_err();
    assert_eq!(refused.kind(), std::io::ErrorKind::Other);
    assert_eq!(
        refused.to_string(),
        "Can not create an input reader from an output stream identifier!"
    );
    assert!(StreamIdent::Path(PathBuf::from("x"), false).create_input_reader().is_err());
}

#[test]
fn only_an_output_can_be_written() {
    assert_eq!(StreamIdent::StdOut.create_output_writer().unwrap(), OutputTarget::Stdout);
    assert_eq!(
        StreamIdent::Path(PathBuf::from("x"), false).create_output_writer().unwrap(),
        OutputTarget::File(PathBuf::from("x"))
    );
    let refused = StreamIdent::StdIn.create_output_writer().unwrap_err();
    assert_eq!(
        refused.to_string(),
        "Can not create an output writer from an input stream identifier!"
    );
    assert!(StreamIdent::Path(PathBuf::from("x"), true).create_output_writer().is_err());
}

#[test]
fn writing_to_a_stream_ident() {
    let lines = vec!["a".to_string(), "".to_string(), "b\r".to_string()];
    let written = write_to_file(&lines, &StreamIdent::StdOut).unwrap();
    assert_eq!(written.target, OutputTarget::Stdout);
    assert_eq!(written.text, "a\n\nb\r\n");
    let to_file = write_to_file(&lines, &StreamIdent::Path(PathBuf::from("o.txt"), false)).unwrap();
    assert_eq!(to_file.target, OutputTarget::File(PathBuf::from("o.txt")));
    assert!(write_to_file(&lines, &StreamIdent::StdIn).is_err());
    assert!(write_to_file(&lines, &StreamIdent::Path(PathBuf::from("o.txt"), true)).is_err());
}

#[test]
fn a_copy_of_a_stream_ident_names_the_same_stream() {
    for ident in [
        StreamIdent::StdIn,
        StreamIdent::StdOut,
        StreamIdent::Path(PathBuf::from("a/b"), true),
        StreamIdent::Path(PathBuf::from("a/b"), false),
    ] {
        assert_eq!(ident.clone(), ident);
    }
    assert_ne!(
        StreamIdent::Path(PathBuf::from("a/b"), true),
        StreamIdent::Path(PathBuf::from("a/b"), false)
    );
}

#[test]
fn joined_lines_end_each_with_a_line_feed() {
    assert_eq!(cli_utils::join_lines(&Vec::new()), "");
    assert_eq!(cli_utils::join_lines(&vec!["".to_string()]), "\n");
    assert_eq!(
        cli_utils::join_lines(&vec!["a".to_string(), "b\n".to_string(), "c".to_string()]),
        "a\nb\n\nc\n"
    );
}

#[test]
fn the_lines_of_a_text_give_it_back() {
    for text in ["", "a", "a\n", "\n", "a\r\nb\n\nc", "\r\n\r\n", "x\ny\r"] {
        assert_eq!(lines_iterator(text, false).concat(), text);
        for line in lines_iterator(text, true) {
            assert!(!line.contains('\n'));
        }
    }
}
