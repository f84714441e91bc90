use noctalia::shell::shell_quote;

fn read_back(word: &str) -> Option<String> {
    let chars: Vec<char> = word.chars().collect();
    let mut out = String::new();
    let mut in_quotes = false;
    let mut i = 0;
    while i < chars.len() {
        let c = chars[i];
        if in_quotes {
            if c == '\'' {
                in_quotes = false;
            } else {
                out.push(c);
            }
            i += 1;
        } else if c == '\'' {
            in_quotes = true;
            i += 1;
        } else if c == '\\' && i + 1 < chars.len() && chars[i + 1] == '\'' {
            out.push('\'');
            i += 2;
        } else {
            return None;
        }
    }
    if in_quotes {
        None
    } else {
        Some(out)
    }
}

#[test]
fn plain_text_is_wrapped_in_quotes() {
    assert_eq!(shell_quote(""), "''");
    assert_eq!(shell_quote("abc"), "'abc'");
    assert_eq!(shell_quote("/tmp/a b"), "'/tmp/a b'");
    assert_eq!(shell_quote("$HOME;`rm`\"x\"\\"), "'$HOME;`rm`\"x\"\\'");
}

#[test]
fn single_quotes_are_escaped() {
    assert_eq!(shell_quote("it's"), "'it'\\''s'");
    assert_eq!(shell_quote("'"), "''\\'''");
    assert_eq!(shell_quote("''"), "''\\'''\\'''");
    assert_eq!(shell_quote("a'"), "'a'\\'''");
    assert_eq!(shell_quote("'a"), "''\\''a'");
}

#[test]
fn quoted_text_reads_back() {
    for s in [
        "", "plain", "it's", "'", "''", "a'b'c", "'; rm -rf / #", "x\\'y", "\u{e9}'\u{1F600}",
        "new\nline", "tab\t'", "\\", "'\\''",
    ] {
        assert_eq!(read_back(&shell_quote(s)).as_deref(), Some(s), "{:?}", s);
    }
}
