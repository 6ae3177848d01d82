use smart_home::config::{parse_config, parse_u64};

#[test]
fn reads_address_and_period() {
    let config = parse_config("# emulator\naddress=127.0.0.1:55441\n\n  period_ms = 1000 \r\n").unwrap();
    assert_eq!(config.address, "127.0.0.1:55441");
    assert_eq!(config.period_ms, 1000);
}

#[test]
fn later_lines_win() {
    let config = parse_config("address=a\nperiod_ms=5\naddress=b").unwrap();
    assert_eq!(config.address, "b");
    assert_eq!(config.period_ms, 5);
}

#[test]
fn reports_each_kind_of_problem() {
    assert_eq!(parse_config("address").unwrap_err(), "некорректная строка конфига: `address`");
    assert_eq!(parse_config("port=1").unwrap_err(), "неизвестный ключ конфига `port`");
    assert_eq!(
        parse_config("address=a\nperiod_ms=ten").unwrap_err(),
        "некорректное значение `period_ms=ten`: invalid digit found in string"
    );
    assert_eq!(parse_config("period_ms=1").unwrap_err(), "в конфиге отсутствует ключ `address`");
    assert_eq!(parse_config("address=a").unwrap_err(), "в конфиге отсутствует ключ `period_ms`");
    assert_eq!(parse_config("").unwrap_err(), "в конфиге отсутствует ключ `address`");
}

#[test]
fn the_first_problem_stops_the_reading() {
    assert_eq!(parse_config("bad line\nport=1").unwrap_err(), "некорректная строка конфига: `bad line`");
}

#[test]
fn parse_u64_agrees_with_str_parse() {
    for s in [
        "0", "+7", "18446744073709551615", "18446744073709551616", "", "+", "-1", "1x", "99999999999999999999x",
        " 1", "007",
    ] {
        let expected = s.parse::<u64>().map_err(|e| e.to_string());
        assert_eq!(parse_u64(s), expected, "{s:?}");
    }
}
