use flowrs_backend::numeric::{parse_signed, parse_unsigned};
use flowrs_backend::text::{
    chars_of, contains, ends_with, replace, split, starts_with, str_contains, str_eq, string_of,
    trim_end_matches,
};
use flowrs_backend::types::trading_pairs;

fn cs(s: &str) -> Vec<char> {
    s.chars().collect()
}

fn st(v: Vec<char>) -> String {
    v.into_iter().collect()
}

#[test]
fn chars_and_strings() {
    assert_eq!(chars_of("aé€"), vec!['a', 'é', '€']);
    assert_eq!(string_of(&vec!['a', 'é', '€']), "aé€");
    assert!(str_eq("abc", "abc"));
    assert!(!str_eq("abc", "abd"));
    assert!(!str_eq("abc", "ab"));
    assert!(str_eq("", ""));
}

#[test]
fn finding_text() {
    assert!(str_contains("x@depth@100ms", "@depth"));
    assert!(!str_contains("x@dept", "@depth"));
    assert!(str_contains("abc", ""));
    assert!(str_contains("", ""));
    assert!(!str_contains("", "a"));
    assert!(contains(&cs("aab"), &cs("ab")));
    assert!(starts_with(&cs("orderbook.1"), &cs("orderbook")));
    assert!(!starts_with(&cs("order"), &cs("orderbook")));
    assert!(ends_with(&cs("BTCUSDT"), &cs("USDT")));
    assert!(!ends_with(&cs("USD"), &cs("USDT")));
}

#[test]
fn splitting() {
    let parts: Vec<String> = split(&cs("orderbook.50.BTCUSDT"), '.').into_iter().map(st).collect();
    assert_eq!(parts, vec!["orderbook", "50", "BTCUSDT"]);
    let parts: Vec<String> = split(&cs(""), '.').into_iter().map(st).collect();
    assert_eq!(parts, vec![""]);
    let parts: Vec<String> = split(&cs(".a..b."), '.').into_iter().map(st).collect();
    assert_eq!(parts, vec!["", "a", "", "b", ""]);
}

#[test]
fn replacing_and_trimming() {
    assert_eq!(st(replace(&cs("BTC-USD"), &cs("-USD"), &cs("USDT"))), "BTCUSDT");
    assert_eq!(st(replace(&cs("-USD-USD-US"), &cs("-USD"), &cs("x"))), "xx-US");
    assert_eq!(st(replace(&cs("aaa"), &cs("aa"), &cs("b"))), "ba");
    assert_eq!(st(replace(&cs("abc"), &cs(""), &cs("x"))), "abc");
    assert_eq!(st(trim_end_matches(&cs("BTCUSDT"), &cs("USDT"))), "BTC");
    assert_eq!(st(trim_end_matches(&cs("BTCUSDTUSDT"), &cs("USDT"))), "BTC");
    assert_eq!(st(trim_end_matches(&cs("USDT"), &cs("USDT"))), "");
    assert_eq!(st(trim_end_matches(&cs("BTCUSD"), &cs("USDT"))), "BTCUSD");
    assert_eq!(st(trim_end_matches(&cs("abc"), &cs(""))), "abc");
}

#[test]
fn integers_from_text() {
    assert_eq!(parse_unsigned("0"), Some(0));
    assert_eq!(parse_unsigned("18446744073709551615"), Some(u64::MAX));
    assert_eq!(parse_unsigned("18446744073709551616"), None);
    assert_eq!(parse_unsigned("99999999999999999999999"), None);
    assert_eq!(parse_unsigned(""), None);
    assert_eq!(parse_unsigned("-1"), None);
    assert_eq!(parse_unsigned("1.0"), None);
    assert_eq!(parse_signed("-9223372036854775808"), Some(i64::MIN));
    assert_eq!(parse_signed("-9223372036854775809"), None);
    assert_eq!(parse_signed("9223372036854775807"), Some(i64::MAX));
    assert_eq!(parse_signed("9223372036854775808"), None);
    assert_eq!(parse_signed("-0"), Some(0));
    assert_eq!(parse_signed("-"), None);
    assert_eq!(parse_signed("12"), Some(12));
    assert_eq!(parse_signed("1e3"), None);
}

#[test]
fn the_trading_pairs() {
    assert_eq!(
        trading_pairs(),
        vec![
            "BTCUSDT", "ETHUSDT", "SOLUSDT", "XRPUSDT", "DOGEUSDT", "ADAUSDT", "AVAXUSDT",
            "DOTUSDT", "LINKUSDT"
        ]
    );
}
