use startchatgpt::decimal::decimal_string;
use startchatgpt::text::{executable_key, is_executable, trim};

#[test]
fn trims_unicode_white_space() {
    assert_eq!(trim("\u{2028} a b \u{85}\t"), "a b");
    assert_eq!(trim("   "), "");
    assert_eq!(trim("x"), "x");
}

#[test]
fn executable_keys_ignore_case_and_slash_direction() {
    assert_eq!(executable_key("C:/Program Files/App/ChatGPT.EXE"), "c:\\program files\\app\\chatgpt.exe");
    assert_eq!(executable_key("Ä/Ö"), "ä\\ö");
    let key = executable_key("C:/Apps/ChatGPT.exe");
    assert!(is_executable("C:\\APPS\\chatgpt.EXE", &key));
    assert!(!is_executable("C:\\Apps\\Other.exe", &key));
}

#[test]
fn writes_numbers_in_decimal() {
    assert_eq!(decimal_string(0), "0");
    assert_eq!(decimal_string(7004), "7004");
    assert_eq!(decimal_string(u64::MAX), u64::MAX.to_string());
}
