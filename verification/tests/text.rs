use rist_netsim::text::{parse_u64, u64_to_decimal};

#[test]
fn decimal_rendering_parses_back() {
    for n in [0u64, 7, 10, 99, 12345, u64::MAX] {
        let s = u64_to_decimal(n);
        let cs: Vec<char> = s.chars().collect();
        assert_eq!(parse_u64(&cs), Some(n));
        assert_eq!(s, n.to_string());
    }
    let plus: Vec<char> = "+42".chars().collect();
    assert_eq!(parse_u64(&plus), Some(42));
    let over: Vec<char> = "18446744073709551616".chars().collect();
    assert_eq!(parse_u64(&over), None);
    let bad: Vec<char> = "4x".chars().collect();
    assert_eq!(parse_u64(&bad), None);
}
