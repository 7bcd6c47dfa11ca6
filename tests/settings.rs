use tls_flood::settings::{agent_lines, limit_from_setting, parse_i64};
use tls_flood::state::DEFAULT_LIMIT;

#[test]
fn parse_i64_matches_std() {
    let cases = [
        "0", "42", "-7", "+15", "", "-", "+", "12a", " 5", "5 ", "007",
        "9223372036854775807", "9223372036854775808", "-9223372036854775808",
        "-9223372036854775809", "99999999999999999999999", "--1", "1_000",
    ];
    for c in cases {
        assert_eq!(parse_i64(c), c.parse::<i64>().ok(), "input {:?}", c);
    }
}

#[test]
fn limit_setting_or_default() {
    assert_eq!(limit_from_setting(None), DEFAULT_LIMIT);
    assert_eq!(limit_from_setting(Some("250")), 250);
    assert_eq!(limit_from_setting(Some("lots")), DEFAULT_LIMIT);
    assert_eq!(limit_from_setting(Some("-3")), -3);
}

#[test]
fn agent_lines_drop_blank_lines_and_endings() {
    let text = "Agent A\r\n\n   \nAgent B\n\t\r\nAgent C";
    assert_eq!(agent_lines(text), vec!["Agent A", "Agent B", "Agent C"]);
}

#[test]
fn agent_lines_match_std_lines() {
    let texts = ["", "\n", "a\n", "a\r\nb\r\n", "x\ry\n", "  lead\ntrail  \n", "end\r", "\u{3000}\nz"];
    for t in texts {
        let expected: Vec<String> = t
            .lines()
            .filter(|l| !l.trim().is_empty())
            .map(|l| l.to_string())
            .collect();
        assert_eq!(agent_lines(t), expected, "input {:?}", t);
    }
}
