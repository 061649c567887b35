use apyr::logbuf::LogBuf;

#[test]
fn write_appends_whole_lines() {
    let mut b = LogBuf::new();
    assert_eq!(b.len(), 0);
    b.write("alpha\n".to_string());
    b.write("beta\n".to_string());
    assert_eq!(b.len(), 2);
    assert_eq!(b.tmp_read(), &vec!["alpha\n".to_string(), "beta\n".to_string()]);
    assert_eq!(b.get(1), "beta\n");
}

#[test]
fn raw_text_is_the_concatenation_of_lines() {
    let mut b = LogBuf::new();
    assert_eq!(b.read(), "");
    b.write("ab".to_string());
    b.write("".to_string());
    b.write("cd".to_string());
    assert_eq!(b.read(), "abcd");
    assert_eq!(b.len(), 3);
}

#[test]
fn get_range_clamps_both_ends() {
    let mut b = LogBuf::new();
    b.write("a".to_string());
    b.write("b".to_string());
    b.write("c".to_string());
    assert_eq!(b.get_range(0, 2), vec!["a".to_string(), "b".to_string()]);
    assert_eq!(b.get_range(1, 99), vec!["b".to_string(), "c".to_string()]);
    assert_eq!(b.get_range(7, 9), Vec::<String>::new());
    assert_eq!(b.get_range(2, 0), Vec::<String>::new());
}
