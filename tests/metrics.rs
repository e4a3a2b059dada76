use wc_metrics::{
    get_all_count, get_byte_count, get_char_count, get_for_file, get_line_count, get_word_count,
    render_table, report_table, Cli,
};

fn flags(c: bool, m: bool, w: bool, l: bool, files: &[&str]) -> Cli {
    Cli {
        get_byte_count: c,
        get_char_count: m,
        get_word_count: w,
        get_line_count: l,
        file_path: files.iter().map(|s| s.to_string()).collect(),
    }
}

fn pairs(m: &indexmap::IndexMap<String, usize>) -> Vec<(String, usize)> {
    m.iter().map(|(k, v)| (k.clone(), *v)).collect()
}

fn s(t: &str) -> String {
    t.to_string()
}

#[test]
fn hello_world_counts() {
    assert_eq!(get_all_count(b"hello world\n").unwrap(), (12, 11, 2, 2));
    let text = s("hello world\n");
    assert_eq!(get_byte_count(text.as_bytes()).unwrap(), 12);
    assert_eq!(get_char_count(&text).unwrap(), 11);
    assert_eq!(get_word_count(&text).unwrap(), 2);
    assert_eq!(get_line_count(&text).unwrap(), 2);
}

#[test]
fn empty_source_counts() {
    assert_eq!(get_all_count(b"").unwrap(), (0, 0, 0, 1));
    let r = get_for_file(&Cli::default(), b"");
    assert_eq!(
        pairs(&r),
        vec![(s("Bytes"), 0), (s("Chars"), 0), (s("Words"), 0), (s("Lines"), 1)]
    );
}

#[test]
fn line_count_is_line_feeds_plus_one() {
    assert_eq!(get_line_count(&s("")).unwrap(), 1);
    assert_eq!(get_line_count(&s("abc")).unwrap(), 1);
    assert_eq!(get_line_count(&s("a\nb")).unwrap(), 2);
    assert_eq!(get_line_count(&s("a\nb\n")).unwrap(), 3);
    assert_eq!(get_line_count(&s("\n\n\n")).unwrap(), 4);
    assert_eq!(get_line_count(&s("a\r\nb")).unwrap(), 2);
}

#[test]
fn char_count_leaves_out_line_breaks() {
    assert_eq!(get_char_count(&s("a\r\nb\n")).unwrap(), 2);
    assert_eq!(get_char_count(&s("\r\r\n\n")).unwrap(), 0);
    assert_eq!(get_char_count(&s("héllo\twörld")).unwrap(), 11);
    assert_eq!(get_char_count(&s("日本語")).unwrap(), 3);
}

#[test]
fn byte_count_is_raw_length() {
    assert_eq!(get_byte_count(b"").unwrap(), 0);
    assert_eq!(get_byte_count("日本語".as_bytes()).unwrap(), 9);
    let invalid: &[u8] = &[0xff, b'a', 0xfe, b'\n'];
    assert_eq!(get_byte_count(invalid).unwrap(), 4);
    assert_eq!(get_all_count(invalid).unwrap().0, 4);
}

#[test]
fn invalid_bytes_decode_to_replacement_characters() {
    let invalid: &[u8] = &[0xff, b'a', 0xfe, b'\n'];
    assert_eq!(get_all_count(invalid).unwrap(), (4, 3, 1, 2));
    let split: &[u8] = &[0xe6, 0x97, b' ', b'x'];
    assert_eq!(get_all_count(split).unwrap(), (4, 3, 2, 1));
}

#[test]
fn word_count_ignores_white_space_runs() {
    assert_eq!(get_word_count(&s("a b")).unwrap(), 2);
    assert_eq!(get_word_count(&s("  \t a b")).unwrap(), 2);
    assert_eq!(get_word_count(&s("a b \n\n ")).unwrap(), 2);
    assert_eq!(get_word_count(&s("a \t\r\n  b")).unwrap(), 2);
    assert_eq!(get_word_count(&s("a\u{a0}b\u{3000}c")).unwrap(), 3);
    assert_eq!(get_word_count(&s("")).unwrap(), 0);
    assert_eq!(get_word_count(&s(" \t\n")).unwrap(), 0);
    assert_eq!(get_word_count(&s("one")).unwrap(), 1);
}

#[test]
fn report_twice_is_the_same() {
    let c = flags(false, true, false, true, &[]);
    let a = get_for_file(&c, b"x y\nz");
    let b = get_for_file(&c, b"x y\nz");
    assert_eq!(pairs(&a), pairs(&b));
    assert_eq!(pairs(&a), vec![(s("Chars"), 4), (s("Lines"), 2)]);
}

#[test]
fn no_flags_reports_all_four() {
    let src = b"one two\nthree\r\n";
    let none = get_for_file(&flags(false, false, false, false, &[]), src);
    let all = get_for_file(&flags(true, true, true, true, &[]), src);
    assert_eq!(pairs(&none), pairs(&all));
    assert_eq!(
        pairs(&none),
        vec![(s("Bytes"), 15), (s("Chars"), 12), (s("Words"), 3), (s("Lines"), 3)]
    );
}

#[test]
fn chosen_metrics_keep_fixed_order() {
    let r = get_for_file(&flags(false, false, true, true, &[]), b"a b\n");
    assert_eq!(pairs(&r), vec![(s("Words"), 2), (s("Lines"), 2)]);
    let r = get_for_file(&flags(true, true, false, false, &[]), b"a b\n");
    assert_eq!(pairs(&r), vec![(s("Bytes"), 4), (s("Chars"), 3)]);
}

#[test]
fn two_files_words_and_lines() {
    let c = flags(false, false, true, true, &["a", "b"]);
    let out = report_table(&c, &vec![b"a b\n".to_vec(), b"c\nd\n".to_vec()]);
    assert_eq!(out, "2\t2\ta\n2\t3\tb\nWords\tLines");
}

#[test]
fn standard_input_bytes_only() {
    let c = flags(true, false, false, false, &[]);
    let out = report_table(&c, &vec![b"xyz".to_vec()]);
    assert_eq!(out, "3\t\nBytes");
}

#[test]
fn default_table_for_hello_world() {
    let out = report_table(&Cli::default(), &vec![b"hello world\n".to_vec()]);
    assert_eq!(out, "12\t11\t2\t2\t\nBytes\tChars\tWords\tLines");
}

#[test]
fn table_prints_large_counts_in_decimal() {
    let big = vec![b'x'; 1234];
    let out = report_table(&flags(true, true, false, false, &["big"]), &vec![big]);
    assert_eq!(out, "1234\t1234\tbig\nBytes\tChars");
}

#[test]
fn table_of_no_reports_is_empty() {
    assert_eq!(render_table(&vec![], &vec![]), "");
}

#[test]
fn table_labels_come_from_first_report() {
    let c = flags(false, false, true, false, &[]);
    let a = get_for_file(&c, b"x");
    let b = get_for_file(&flags(true, false, false, false, &[]), b"yy");
    let out = render_table(&vec![a, b], &vec![s("first")]);
    assert_eq!(out, "1\tfirst\n2\t\nWords");
}
