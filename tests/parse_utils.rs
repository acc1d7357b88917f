use rherkin::parse_utils::{blank_lines, eol, line_block, non_newline, until_eol};

fn chars(s: &str) -> Vec<char> {
    s.chars().collect()
}

#[test]
fn non_newline_accepts_only_line_characters() {
    assert!(non_newline('a'));
    assert!(non_newline(' '));
    assert!(!non_newline('\n'));
    assert!(!non_newline('\r'));
}

#[test]
fn eol_takes_a_newline_or_the_end() {
    assert_eq!(eol(&chars("\n"), 0), Ok(1));
    assert_eq!(eol(&chars(""), 0), Ok(0));
    assert_eq!(eol(&chars("ab"), 2), Ok(0));
    assert_eq!(eol(&chars("ab"), 1), Err(1));
    assert_eq!(eol(&chars("\r\n"), 0), Err(0));
}

#[test]
fn until_eol_reads_one_line() {
    // "abc" then the newline: three characters of text, four consumed
    assert_eq!(until_eol(&chars("abc\ndef"), 0), Ok((3, 4)));
    // the last line may end with the text
    assert_eq!(until_eol(&chars("abc\ndef"), 4), Ok((3, 3)));
    // an empty line is not a line of text
    assert_eq!(until_eol(&chars("\nabc"), 0), Err(0));
    assert_eq!(until_eol(&chars("ab\r\n"), 0), Err(2));
}

#[test]
fn line_block_stops_at_a_blank_line() {
    // "abc\ndef" is the block's text; "\nghi" is left
    assert_eq!(line_block(&chars("abc\ndef\n\nghi"), 0), (7, 8));
    assert_eq!(line_block(&chars("\nabc"), 0), (0, 0));
    assert_eq!(line_block(&chars("one"), 0), (3, 3));
}

#[test]
fn blank_lines_take_the_whole_run() {
    assert_eq!(blank_lines(&chars("\n\n\nx"), 0), Ok(3));
    assert_eq!(blank_lines(&chars("x\n"), 0), Err(0));
    assert_eq!(blank_lines(&chars(""), 0), Err(0));
}
