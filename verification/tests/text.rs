use rustoki::text::{
    chars_of, eq_ignore_ascii_case_chars, find_chars, push_decimal, replace_all_chars, split_once_chars,
    split_words, string_of, trim_chars, trim_start_matches_chars,
};

fn v(s: &str) -> Vec<char> {
    s.chars().collect()
}

#[test]
fn words_agree_with_split_whitespace() {
    for s in ["", "  a  b\tc\n", "one", " \u{3000}wide\u{3000}space ", "x\u{85}y"] {
        let ours: Vec<String> = split_words(&v(s)).iter().map(|w| w.iter().collect()).collect();
        let std_words: Vec<String> = s.split_whitespace().map(String::from).collect();
        assert_eq!(ours, std_words, "text {:?}", s);
        assert!(ours.iter().all(|w| !w.is_empty() && !w.chars().any(char::is_whitespace)));
    }
}

#[test]
fn trimming_agrees_with_std() {
    for s in ["", "  a b  ", "\u{2003}x\u{2003}", "none"] {
        assert_eq!(string_of(&trim_chars(&v(s))), s.trim());
    }
    assert_eq!(string_of(&trim_start_matches_chars(&v("<!<!x<!"), &v("<!"))), "x<!");
}

#[test]
fn searching_and_replacing() {
    assert_eq!(find_chars(&v("abcabc"), &v("ca")), Some(2));
    assert_eq!(find_chars(&v("abc"), &v("x")), None);
    assert_eq!(string_of(&replace_all_chars(&v("a-ab-a"), &v("-a"), &v(""))), "a-ab-a".replace("-a", ""));
    assert_eq!(string_of(&replace_all_chars(&v("aaa"), &v("aa"), &v("b"))), "aaa".replace("aa", "b"));
    assert_eq!(split_once_chars(&v("k:v:w"), ':'), Some((v("k"), v("v:w"))));
    assert_eq!(split_once_chars(&v("kv"), ':'), None);
    assert!(eq_ignore_ascii_case_chars(&v("TrUe"), &v("true")));
    assert!(!eq_ignore_ascii_case_chars(&v("É"), &v("é")));
}

#[test]
fn decimals() {
    for n in [0u64, 7, 10, 12345, u64::MAX] {
        let mut s = String::from("n=");
        push_decimal(&mut s, n);
        assert_eq!(s, format!("n={}", n));
    }
    assert_eq!(chars_of("héllo"), v("héllo"));
}
