use appreels::number::{decimal_string, parse_i32, parse_u32, NumberError};

fn chars(s: &str) -> Vec<char> {
    s.chars().collect()
}

#[test]
fn numbers_parse_as_str_parse_does() {
    for s in [
        "", "+", "-", "0", "-0", "+7", "007", "2147483647", "2147483648", "-2147483648",
        "-2147483649", "4294967295", "4294967296", "12a", " 1", "99999999999x", "٣", "+-1",
    ] {
        let want_i: Result<i32, _> = s.parse::<i32>();
        let got_i = parse_i32(&chars(s));
        match (&want_i, &got_i) {
            (Ok(a), Ok(b)) => assert_eq!(a, b, "{s:?}"),
            (Err(e), Err(k)) => assert_eq!(e.to_string(), k.message(), "{s:?}"),
            _ => panic!("i32 mismatch on {s:?}: {want_i:?} vs {got_i:?}"),
        }
        let want_u: Result<u32, _> = s.parse::<u32>();
        let got_u = parse_u32(&chars(s));
        match (&want_u, &got_u) {
            (Ok(a), Ok(b)) => assert_eq!(a, b, "{s:?}"),
            (Err(e), Err(k)) => assert_eq!(e.to_string(), k.message(), "{s:?}"),
            _ => panic!("u32 mismatch on {s:?}: {want_u:?} vs {got_u:?}"),
        }
    }
    assert_eq!(parse_u32(&chars("")), Err(NumberError::Empty));
}

#[test]
fn decimals_are_written_without_leading_zeros() {
    assert_eq!(decimal_string(0), "0");
    assert_eq!(decimal_string(1500), "1500");
    assert_eq!(decimal_string(u64::MAX), u64::MAX.to_string());
}
