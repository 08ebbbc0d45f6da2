use music_player::command::{parse_command, parse_position, strip_prefix, Command};

fn cs(s: &str) -> Vec<char> {
    s.chars().collect()
}

#[test]
fn add_names_the_directory_that_follows() {
    assert_eq!(parse_command("add /music"), Command::AddDirectory("/music".to_string()));
    assert_eq!(parse_command("  add /my music \n"), Command::AddDirectory("/my music".to_string()));
    assert_eq!(parse_command("add  x"), Command::AddDirectory(" x".to_string()));
    assert_eq!(parse_command("add add x"), Command::AddDirectory("x".to_string()));
    assert_eq!(parse_command("add add"), Command::AddDirectory("add".to_string()));
}

#[test]
fn remove_names_the_position_that_follows() {
    assert_eq!(parse_command("remove 0"), Command::RemoveDirectory(0));
    assert_eq!(parse_command(" remove 12 "), Command::RemoveDirectory(12));
    assert_eq!(parse_command("remove +3"), Command::RemoveDirectory(3));
    assert_eq!(parse_command("remove 007"), Command::RemoveDirectory(7));
    assert_eq!(parse_command("remove remove 4"), Command::RemoveDirectory(4));
}

#[test]
fn remove_without_a_position_is_unknown() {
    assert_eq!(parse_command("remove x"), Command::Unknown);
    assert_eq!(parse_command("remove -1"), Command::Unknown);
    assert_eq!(parse_command("remove  1"), Command::Unknown);
    assert_eq!(parse_command("remove 1 2"), Command::Unknown);
    assert_eq!(parse_command("remove +"), Command::Unknown);
    assert_eq!(parse_command("remove 99999999999999999999999999"), Command::Unknown);
}

#[test]
fn other_lines_are_unknown() {
    assert_eq!(parse_command(""), Command::Unknown);
    assert_eq!(parse_command("add"), Command::Unknown);
    assert_eq!(parse_command("add "), Command::Unknown);
    assert_eq!(parse_command("remove"), Command::Unknown);
    assert_eq!(parse_command("Add x"), Command::Unknown);
    assert_eq!(parse_command("addx"), Command::Unknown);
    assert_eq!(parse_command("quit"), Command::Unknown);
}

#[test]
fn strip_prefix_removes_every_leading_copy() {
    let strip = |s: &str, p: &str| -> String { strip_prefix(&cs(s), &cs(p)).iter().collect() };
    assert_eq!(strip("add add x", "add "), "x");
    assert_eq!(strip("add x", "add "), "x");
    assert_eq!(strip("x add ", "add "), "x add ");
    assert_eq!(strip("aaa", "a"), "");
    assert_eq!(strip("aaa", "aa"), "a");
    assert_eq!(strip("abc", ""), "abc");
    assert_eq!(strip("", "a"), "");
    for (s, p) in [("add add x", "add "), ("aaab", "a"), ("abab", "ab"), ("x", "xy")] {
        assert_eq!(strip(s, p), s.trim_start_matches(p));
    }
}

#[test]
fn parse_position_reads_decimal_numbers() {
    assert_eq!(parse_position(&cs("0")), Some(0));
    assert_eq!(parse_position(&cs("42")), Some(42));
    assert_eq!(parse_position(&cs("+42")), Some(42));
    assert_eq!(parse_position(&cs("000")), Some(0));
    assert_eq!(parse_position(&cs(&usize::MAX.to_string())), Some(usize::MAX));
}

#[test]
fn parse_position_refuses_what_is_no_position() {
    assert_eq!(parse_position(&cs("")), None);
    assert_eq!(parse_position(&cs("+")), None);
    assert_eq!(parse_position(&cs("++1")), None);
    assert_eq!(parse_position(&cs("-1")), None);
    assert_eq!(parse_position(&cs("1a")), None);
    assert_eq!(parse_position(&cs("a1")), None);
    assert_eq!(parse_position(&cs(" 1")), None);
    assert_eq!(parse_position(&cs("1 ")), None);
    assert_eq!(parse_position(&cs("١")), None);
    let too_large = format!("{}0", usize::MAX);
    assert_eq!(parse_position(&cs(&too_large)), None);
    let one_more = (usize::MAX as u128 + 1).to_string();
    assert_eq!(parse_position(&cs(&one_more)), None);
}

#[test]
fn parse_position_agrees_with_std() {
    let near = usize::MAX / 10;
    let mut samples: Vec<String> = vec![
        "", "+", "-", "0", "+0", "-0", "9", "10", "0010", "1_000", "12x", "x12", "+ 1", "1+",
        "18446744073709551615", "18446744073709551616", "18446744073709551625",
        "184467440737095516150",
    ]
    .into_iter()
    .map(String::from)
    .collect();
    for k in 0..20 {
        samples.push(format!("{}{}", near, k));
        samples.push(format!("{}{}", near + 1, k % 10));
    }
    for s in samples {
        assert_eq!(parse_position(&cs(&s)), s.parse::<usize>().ok(), "{:?}", s);
    }
}
