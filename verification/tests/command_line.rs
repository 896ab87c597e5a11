use startchatgpt::command_line::{command_line, NUL_IN_ARGUMENT_MESSAGE};

fn wide(s: &str) -> Vec<u16> {
    s.encode_utf16().collect()
}

/// The C runtime's documented argument rules, for checking the encoding.
fn split(line: &[u16]) -> Vec<Vec<u16>> {
    let (bs, quote) = (b'\\' as u16, b'"' as u16);
    let mut args = Vec::new();
    let mut current = Vec::new();
    let mut started = false;
    let mut quoted = false;
    let mut i = 0;
    while i < line.len() {
        let mut n = 0;
        while i + n < line.len() && line[i + n] == bs {
            n += 1;
        }
        if i + n < line.len() && line[i + n] == quote {
            current.extend(std::iter::repeat(bs).take(n / 2));
            if n % 2 == 0 {
                quoted = !quoted;
            } else {
                current.push(quote);
            }
            started = true;
            i += n + 1;
        } else if n > 0 {
            current.extend(std::iter::repeat(bs).take(n));
            started = true;
            i += n;
        } else if !quoted && (line[i] == b' ' as u16 || line[i] == b'\t' as u16) {
            if started {
                args.push(std::mem::take(&mut current));
                started = false;
            }
            i += 1;
        } else {
            current.push(line[i]);
            started = true;
            i += 1;
        }
    }
    if started {
        args.push(current);
    }
    args
}

#[test]
fn rejects_embedded_null() {
    assert!(command_line(&vec![wide("bad\0argument")]).is_err());
}

#[test]
fn embedded_null_error_names_the_reason() {
    let error = command_line(&vec![wide("ok"), wide("\0")]).unwrap_err();
    assert_eq!(error, NUL_IN_ARGUMENT_MESSAGE);
}

#[test]
fn activation_arguments_split_back_into_the_same_arguments() {
    let args: Vec<Vec<u16>> = [
        "ChatGPT.exe",
        "",
        "--proxy-server=http://127.0.0.1:10808",
        "a b",
        "a\"b",
        "C:\\目录 空格\\",
        "\\\\\"",
        "中文🙂",
    ]
    .iter()
    .map(|a| wide(a))
    .collect();
    let line = command_line(&args).unwrap();
    assert_eq!(line.last(), Some(&0));
    assert_eq!(split(&line[..line.len() - 1]), args);
}

#[test]
fn escapes_backslashes_only_before_quotes() {
    let line = command_line(&vec![wide("a\\b"), wide("c\\"), wide("\\\"")]).unwrap();
    let expected: Vec<u16> = wide("\"a\\b\" \"c\\\\\" \"\\\\\\\"\"").into_iter().chain([0]).collect();
    assert_eq!(line, expected);
    assert_eq!(command_line(&vec![]).unwrap(), vec![0]);
}
