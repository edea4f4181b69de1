use rhymonic::text::{format_duration, i32_to_string, join_strings, split_at_commas, u64_to_string};

#[test]
fn decimal_numbers() {
    assert_eq!(u64_to_string(0), "0");
    assert_eq!(u64_to_string(7), "7");
    assert_eq!(u64_to_string(1234), "1234");
    assert_eq!(u64_to_string(u64::MAX), u64::MAX.to_string());
}

#[test]
fn signed_numbers() {
    assert_eq!(i32_to_string(0), "0");
    assert_eq!(i32_to_string(12), "12");
    assert_eq!(i32_to_string(-42), "-42");
    assert_eq!(i32_to_string(i32::MIN), "-2147483648");
    assert_eq!(i32_to_string(i32::MAX), "2147483647");
}

#[test]
fn durations_below_an_hour() {
    assert_eq!(format_duration(0), "0:00");
    assert_eq!(format_duration(999), "0:00");
    assert_eq!(format_duration(59_999), "0:59");
    assert_eq!(format_duration(65_000), "1:05");
    assert_eq!(format_duration(754_000), "12:34");
    assert_eq!(format_duration(3_599_999), "59:59");
}

#[test]
fn durations_from_an_hour() {
    assert_eq!(format_duration(3_600_000), "1:00:00");
    assert_eq!(format_duration(3_725_999), "1:02:05");
    assert_eq!(format_duration(36_061_000), "10:01:01");
}

#[test]
fn joining() {
    let parts = vec!["a".to_string(), "b".to_string(), "c".to_string()];
    assert_eq!(join_strings(&parts, ", "), "a, b, c");
    assert_eq!(join_strings(&vec![], ", "), "");
    assert_eq!(join_strings(&vec!["x".to_string()], ", "), "x");
    assert_eq!(join_strings(&vec!["".to_string(), "".to_string()], ","), ",");
}

#[test]
fn splitting_at_commas() {
    assert_eq!(split_at_commas("Rock,Pop"), vec!["Rock", "Pop"]);
    assert_eq!(split_at_commas("Rock, Pop"), vec!["Rock", " Pop"]);
    assert_eq!(split_at_commas(""), vec![""]);
    assert_eq!(split_at_commas("a,"), vec!["a", ""]);
    assert_eq!(split_at_commas(",,"), vec!["", "", ""]);
    assert_eq!(split_at_commas("Électro,Ünïcode"), vec!["Électro", "Ünïcode"]);
}

#[test]
fn split_matches_str_split() {
    for s in ["", ",", "a", "a,b", ",a,", "x,,y", "Jazz;Blues,Soul"] {
        let expected: Vec<String> = s.split(',').map(|p| p.to_string()).collect();
        assert_eq!(split_at_commas(s), expected);
    }
}

#[test]
fn split_then_join_gives_text_back() {
    for s in ["", ",", "Rock,Pop", "a,,b,", "no commas here", "é,ü"] {
        let parts = split_at_commas(s);
        assert_eq!(join_strings(&parts, ","), s);
        assert!(parts.iter().all(|p| !p.contains(',')));
    }
}
