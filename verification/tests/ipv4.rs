use wallpaper_tool::ipv4::is_ipv4;

#[test]
fn addresses_in_dotted_form() {
    assert!(is_ipv4("0.0.0.0"));
    assert!(is_ipv4("192.168.1.20"));
    assert!(is_ipv4("255.255.255.255"));
}

#[test]
fn other_texts_are_no_addresses() {
    assert!(!is_ipv4(""));
    assert!(!is_ipv4("1.2.3"));
    assert!(!is_ipv4("1.2.3.4.5"));
    assert!(!is_ipv4("1.2.3."));
    assert!(!is_ipv4(".1.2.3"));
    assert!(!is_ipv4("1..2.3"));
    assert!(!is_ipv4("256.1.1.1"));
    assert!(!is_ipv4("1.1.1.1000"));
    assert!(!is_ipv4("01.2.3.4"));
    assert!(!is_ipv4("1.2.3.00"));
    assert!(!is_ipv4(" 1.2.3.4"));
    assert!(!is_ipv4("1.2.3.4 "));
    assert!(!is_ipv4("+1.2.3.4"));
    assert!(!is_ipv4("1.2.3.٤"));
    assert!(!is_ipv4("a.b.c.d"));
}

#[test]
fn no_address_of_version_six_is_one_of_version_four() {
    assert!(!is_ipv4("fe80::1"));
    assert!(!is_ipv4("::1"));
    assert!(!is_ipv4("::ffff:1.2.3.4"));
}

fn four_plain_bytes(text: &str) -> bool {
    let parts: Vec<&str> = text.split('.').collect();
    parts.len() == 4
        && parts.iter().all(|part| match part.parse::<u8>() {
            Ok(number) => number.to_string() == *part,
            Err(_) => false,
        })
}

#[test]
fn addresses_are_four_plain_bytes() {
    let numbers = ["", "0", "1", "9", "10", "99", "100", "199", "249", "255", "256", "260", "300",
        "00", "01", "1 ", "-1", "1000"];
    for first in numbers {
        for second in numbers {
            for rest in ["3.4", "3", "3.4.5", "3.255", "3.256", "3.", ""] {
                let text = format!("{}.{}.{}", first, second, rest);
                assert_eq!(is_ipv4(&text), four_plain_bytes(&text), "{}", text);
            }
        }
    }
}
