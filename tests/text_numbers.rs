use git_tools::numeric::{parse_u32, parse_usize, push_decimal, push_signed_decimal};
use git_tools::text::{split_lines, split_words, trim_chars};

fn chars(s: &str) -> Vec<char> {
    s.chars().collect()
}

fn strs(v: Vec<Vec<char>>) -> Vec<String> {
    v.into_iter().map(|l| l.into_iter().collect()).collect()
}

#[test]
fn lines_follow_str_lines() {
    for text in ["", "a", "a\n", "a\r\nb", "\n\n", "x\r", "a\n\r\nb\n"] {
        let want: Vec<String> = text.lines().map(|l| l.to_string()).collect();
        assert_eq!(strs(split_lines(&chars(text))), want, "{:?}", text);
    }
}

#[test]
fn words_and_trim_follow_std() {
    for text in ["", "  a b\t c\u{3000}d ", "@@ -1,2 +3 @@ fn"] {
        let want: Vec<String> = text.split_whitespace().map(|w| w.to_string()).collect();
        assert_eq!(strs(split_words(&chars(text))), want);
        let t: String = trim_chars(&chars(text)).into_iter().collect();
        assert_eq!(t, text.trim());
    }
}

#[test]
fn unsigned_parsing_follows_str_parse() {
    for text in ["0", "+17", "4294967295", "4294967296", "", "+", "-1", "1a", "007"] {
        assert_eq!(parse_u32(&chars(text)), text.parse::<u32>().ok(), "{:?}", text);
        assert_eq!(parse_usize(&chars(text)), text.parse::<usize>().ok(), "{:?}", text);
    }
}

#[test]
fn decimal_formatting() {
    let mut s = String::from("n=");
    push_decimal(&mut s, 0);
    push_decimal(&mut s, 1090);
    push_signed_decimal(&mut s, -42);
    push_signed_decimal(&mut s, i64::MIN);
    assert_eq!(s, format!("n=01090-42{}", i64::MIN));
}
