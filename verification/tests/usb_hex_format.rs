use panduza_utils::usb_hex::format_usb_ids_as_hex;

fn rewrite(s: &str) -> String {
    String::from_utf8(format_usb_ids_as_hex(s.as_bytes())).expect("utf-8 output")
}

#[test]
fn test_vid_and_pid_become_hex() {
    let input = "{\n  \"vid\": 1027,\n  \"pid\": 24577\n}";
    let expected = "{\n  \"vid\": 0x0403,\n  \"pid\": 0x6001\n}";
    assert_eq!(rewrite(input), expected);
}

#[test]
fn test_whitespace_after_key_is_normalized() {
    assert_eq!(rewrite("\"pid\":\n   7,"), "\"pid\": 0x0007,");
    assert_eq!(rewrite("\"vid\":65535"), "\"vid\": 0xFFFF");
}

#[test]
fn test_value_too_large_becomes_zero() {
    assert_eq!(rewrite("\"vid\": 99999"), "\"vid\": 0x0000");
}

#[test]
fn test_non_numeric_value_is_kept() {
    let input = "\"vid\": \"abc\"";
    assert_eq!(rewrite(input), input);
}

#[test]
fn test_other_keys_are_kept() {
    let input = "{\"port\": 1883, \"name\": \"usb vid pid\"}";
    assert_eq!(rewrite(input), input);
}

#[test]
fn test_empty_text() {
    assert_eq!(rewrite(""), "");
}
