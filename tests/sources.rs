use tiny_feeder::exchange::{binance, bitget, bitmart, coinbase, crypto, gate, huobi, kraken, mexc, okx};
use tiny_feeder::keys::{
    is_valid_base64_key, is_valid_mnemonic, key_bytes_valid, merge_keys, strip_input, SuiKey,
};
use tiny_feeder::logger::Logger;
use tiny_feeder::prom::Prom;
use tiny_feeder::quotes::{fill_quotes, parse_price, parse_volume, ParseError, QuoteRow};

fn coins() -> Vec<String> {
    vec!["BTC".to_string(), "ETH".to_string(), "USDT".to_string()]
}

#[test]
fn binance_urls_and_pairs() {
    assert_eq!(
        binance::get_latest_price_url_v2(&coins(), "USDT"),
        "https://api.binance.com/api/v3/ticker?type=MINI&symbols=[\"BTCUSDT\",\"ETHUSDT\"]"
    );
    assert_eq!(
        binance::get_latest_price_url("USDT", "USD"),
        "https://api.binance.us/api/v3/ticker?symbol=USDTUSD"
    );
    assert_eq!(binance::get_pairs(&coins(), "USDT")[1], "ETHUSDT");
}

#[test]
fn exchange_pair_keys() {
    assert_eq!(okx::get_pairs(&coins(), "USDT")[0], "BTC-USDT");
    assert_eq!(gate::get_pairs(&coins(), "USDT")[0], "BTC_USDT");
    assert_eq!(bitmart::get_pairs(&coins(), "USDT")[0], "BTC_USDT");
    assert_eq!(crypto::get_pairs(&coins(), "USD")[2], "USDT_USD");
    assert_eq!(mexc::get_pairs(&coins(), "USDT")[0], "BTCUSDT");
    assert_eq!(bitget::get_pairs(&coins(), "USDT")[0], "BTCUSDT");
    assert_eq!(kraken::get_pairs(&coins(), "USD")[2], "USDTZUSD");
    assert_eq!(coinbase::get_pairs(&coins(), "USD")[2], "USDT");
    assert_eq!(huobi::get_pairs(&coins(), "USDT")[0], "btcusdt");
}

#[test]
fn exchange_urls() {
    assert_eq!(okx::get_latest_price_url_v2(), "https://www.okx.com/api/v5/market/tickers?instType=SPOT");
    assert_eq!(gate::get_latest_price_url_v2(), "https://api.gateio.ws/api/v4/spot/tickers");
    assert_eq!(mexc::get_latest_price_url_v2(), "https://api.mexc.com/api/v3/ticker/24hr");
    assert_eq!(bitget::get_latest_price_url_v2(), "https://api.bitget.com/api/spot/v1/market/tickers");
    assert_eq!(bitmart::get_latest_price_url_v2(), "https://api-cloud.bitmart.com/spot/v2/ticker");
    assert_eq!(
        bitmart::get_latest_price_url("BTC", "USDT"),
        "https://api-cloud.bitmart.com/spot/v1/ticker_detail?symbol=BTC_USDT"
    );
    assert_eq!(
        coinbase::get_latest_price_url("USDT", "USD"),
        "https://api.coinbase.com/v2/prices/USDT-USD/spot"
    );
    assert_eq!(
        crypto::get_latest_price_url("USDT", "USD"),
        "https://api.crypto.com/v2/public/get-ticker?instrument_name=USDT_USD"
    );
    assert_eq!(
        kraken::get_latest_price_url("USDT", "USD"),
        "https://api.kraken.com/0/public/Ticker?pair=USDTUSD"
    );
    assert_eq!(
        huobi::get_latest_price_url("BTC", "USDT"),
        "https://api.huobi.pro/market/detail/merged?symbol=btcusdt"
    );
    assert_eq!(huobi::get_latest_price_url_v2(), "https://api.huobi.pro//market/tickers");
}

#[test]
fn quotes_align_to_assets_and_drop_stale_rows() {
    let keys = binance::get_pairs(&coins(), "USDT");
    let rows = vec![
        QuoteRow { key: "ETHUSDT".to_string(), price: 2000, volume: 7, ts: Some(9_000) },
        QuoteRow { key: "BTCUSDT".to_string(), price: 30000, volume: 3, ts: Some(1_000) },
        QuoteRow { key: "XYZUSDT".to_string(), price: 1, volume: 1, ts: None },
        QuoteRow { key: "USDTUSDT".to_string(), price: 1, volume: 2, ts: None },
    ];
    let (p, v) = fill_quotes(&keys, &rows, 10_000, 5_000);
    assert_eq!(p, vec![0, 2000, 1]);
    assert_eq!(v, vec![0, 7, 2]);
}

#[test]
fn base64_key_validation() {
    let zeros = "A".repeat(44);
    assert!(is_valid_base64_key(&zeros));
    let flagged = format!("AQ{}", "A".repeat(42));
    assert!(!is_valid_base64_key(&flagged));
    assert!(!is_valid_base64_key("AAAA"));
    assert!(!is_valid_base64_key(""));
    assert!(key_bytes_valid(&vec![0u8; 33]));
    assert!(!key_bytes_valid(&vec![0u8; 32]));
}

#[test]
fn mnemonic_validation() {
    let good = "abandon abandon abandon abandon abandon abandon abandon abandon abandon abandon abandon about";
    assert!(is_valid_mnemonic(good));
    let bad = "abandon abandon abandon abandon abandon abandon abandon abandon abandon abandon abandon abandon";
    assert!(!is_valid_mnemonic(bad));
    assert!(!is_valid_mnemonic(""));
}

#[test]
fn typed_input_is_normalised() {
    assert_eq!(strip_input("  abandon   ability\t x \n"), "abandon ability\tx");
    assert_eq!(strip_input(" \t "), "");
    assert_eq!(strip_input("key"), "key");
}

#[test]
fn key_sources_override_in_order() {
    let typed = SuiKey { key: "typed".to_string(), mnemonic: "".to_string() };
    let k = merge_keys(typed, Some("env".to_string()), None, "", "words").unwrap();
    assert_eq!(k.key, "env");
    assert_eq!(k.mnemonic, "words");
    let typed = SuiKey { key: "typed".to_string(), mnemonic: "".to_string() };
    let k = merge_keys(typed, Some("env".to_string()), None, "flag", "").unwrap();
    assert_eq!(k.key, "flag");
    let none = SuiKey { key: "".to_string(), mnemonic: "".to_string() };
    assert!(merge_keys(none, None, None, "", "").is_none());
}

#[test]
fn logger_and_metrics_records() {
    let l = Logger::new(true, false, "/opt/feeder");
    assert_eq!(l.file_name, "/opt/feeder/tiny.log");
    assert_eq!(l.roll_name, "/opt/feeder/tiny.log.{}");
    let p = Prom::new(
        "job".to_string(),
        "http://gw".to_string(),
        "i".to_string(),
        "d".to_string(),
        "u".to_string(),
        "p".to_string(),
    );
    assert_eq!(p.url, "http://gw");
}

#[test]
fn decimal_texts_in_fixed_point() {
    assert_eq!(parse_price("30000.125"), Ok(30_000_125_000_000));
    assert_eq!(parse_price("1"), Ok(1_000_000_000));
    assert_eq!(parse_price("0.0000000019"), Ok(1));
    assert_eq!(parse_price(".5"), Ok(500_000_000));
    assert_eq!(parse_price("7."), Ok(7_000_000_000));
    assert_eq!(parse_price(""), Err(ParseError::Malformed));
    assert_eq!(parse_price("."), Err(ParseError::Malformed));
    assert_eq!(parse_price("1.2.3"), Err(ParseError::Malformed));
    assert_eq!(parse_price("-1"), Err(ParseError::Malformed));
    assert_eq!(parse_price("1e5"), Err(ParseError::Malformed));
    assert_eq!(parse_price("18446744073.709551615"), Ok(u64::MAX));
    assert_eq!(parse_price("18446744073.709551616"), Err(ParseError::TooLarge));
    assert_eq!(parse_price("99999999999999999999999"), Err(ParseError::TooLarge));
    assert_eq!(parse_volume("99999999999999999999999"), Some(u64::MAX));
    assert_eq!(parse_volume("12.5"), Some(12_500_000_000));
    assert_eq!(parse_volume("x"), None);
}
