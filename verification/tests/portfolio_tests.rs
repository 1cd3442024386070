use rust_workshop::portfolio::holdings::{compare_bytes, Place, Portfolio};
use rust_workshop::portfolio::{
    pick_quotes, change_url, coin_ids, prices_url, symbol_to_id, CoinGeckoAdapter, JsonStorage,
};

#[test]
fn symbols_map_to_ids() {
    assert_eq!(symbol_to_id("BTC"), "bitcoin");
    assert_eq!(symbol_to_id("eth"), "ethereum");
    assert_eq!(symbol_to_id("Sol"), "solana");
    assert_eq!(symbol_to_id("USDT"), "tether");
    assert_eq!(symbol_to_id("usdc"), "usd-coin");
    assert_eq!(symbol_to_id("BNB"), "binancecoin");
    assert_eq!(symbol_to_id("DOGE"), "doge");
}

#[test]
fn addresses_list_the_ids() {
    let symbols = vec![String::from("btc"), String::from("ETH"), String::from("ada")];
    assert_eq!(coin_ids(&symbols), "bitcoin,ethereum,ada");
    assert_eq!(coin_ids(&[]), "");
    assert_eq!(
        prices_url(&symbols, "eur"),
        "https://api.coingecko.com/api/v3/simple/price?ids=bitcoin,ethereum,ada&vs_currencies=eur"
    );
    assert_eq!(
        change_url(&symbols[..1]),
        "https://api.coingecko.com/api/v3/simple/price?ids=bitcoin&vs_currencies=usd&include_24hr_change=true"
    );
}

#[test]
fn storage_keeps_its_path() {
    let storage = JsonStorage::new(std::path::PathBuf::from("temp/portfolio.json"));
    assert_eq!(storage.path(), &std::path::PathBuf::from("temp/portfolio.json"));
    let _feed = CoinGeckoAdapter;
}

fn symbols_of(p: &Portfolio<f64>) -> Vec<String> {
    p.assets().iter().map(|a| a.symbol.clone()).collect()
}

#[test]
fn adding_merges_by_upper_case_symbol() {
    let mut p: Portfolio<f64> = Portfolio::new();
    p.add(String::from("btc"), 0.5, |a, b| a + b);
    p.add(String::from("BTC"), 0.25, |a, b| a + b);
    p.add(String::from("eth"), 2.0, |a, b| a + b);
    let assets = p.assets();
    assert_eq!(assets.len(), 2);
    assert_eq!(assets[0].symbol, "BTC");
    assert_eq!(assets[0].amount, 0.75);
    assert_eq!(assets[1].symbol, "ETH");
    assert_eq!(assets[1].amount, 2.0);
}

#[test]
fn assets_come_in_symbol_order() {
    let mut p: Portfolio<f64> = Portfolio::new();
    for s in ["sol", "ada", "usdt", "btc", "eth", "bnb"] {
        p.add(String::from(s), 1.0, |a, b| a + b);
    }
    assert_eq!(symbols_of(&p), vec!["ADA", "BNB", "BTC", "ETH", "SOL", "USDT"]);
}

#[test]
fn removing_reports_whether_held() {
    let mut p: Portfolio<f64> = Portfolio::new();
    p.add(String::from("eth"), 3.0, |a, b| a + b);
    assert!(!p.remove("btc"));
    assert!(p.remove("Eth"));
    assert!(!p.remove("ETH"));
    assert!(p.assets().is_empty());
}

#[test]
fn add_then_remove_leaves_the_rest() {
    let mut p: Portfolio<i64> = Portfolio::new();
    p.add(String::from("btc"), 1, |a, b| a + b);
    p.add(String::from("doge"), 7, |a, b| a + b);
    assert!(p.remove("doge"));
    let assets = p.assets();
    assert_eq!(assets.len(), 1);
    assert_eq!(assets[0].symbol, "BTC");
    assert_eq!(assets[0].amount, 1);
}

#[test]
fn merge_function_decides_the_new_amount() {
    let mut p: Portfolio<i64> = Portfolio::new();
    p.add(String::from("sol"), 10, |a, b| a + b);
    p.add(String::from("sol"), 4, |a, b| a - b);
    assert_eq!(p.assets()[0].amount, 6);
}

#[test]
fn byte_order_of_symbols() {
    assert!(matches!(compare_bytes(b"ABC", b"ABD"), Place::Before));
    assert!(matches!(compare_bytes(b"AB", b"ABC"), Place::Before));
    assert!(matches!(compare_bytes(b"ABC", b"ABC"), Place::Same));
    assert!(matches!(compare_bytes(b"B", b"ABC"), Place::After));
    assert!(matches!(compare_bytes(b"", b""), Place::Same));
    assert!(matches!(compare_bytes("Ж".as_bytes(), b"Z"), Place::After));
}

fn reply(rows: &[(&str, &[(&str, f64)])]) -> Vec<(String, Vec<(String, f64)>)> {
    rows.iter()
        .map(|(id, fields)| {
            (
                id.to_string(),
                fields.iter().map(|(n, v)| (n.to_string(), *v)).collect(),
            )
        })
        .collect()
}

#[test]
fn quotes_are_read_by_coin_id_and_field() {
    let r = reply(&[
        ("bitcoin", &[("usd", 65000.0), ("eur", 60000.0)]),
        ("ethereum", &[("usd", 3000.0)]),
        ("ada", &[("usd", 0.5)]),
    ]);
    let symbols = vec![String::from("btc"), String::from("Eth"), String::from("sol"), String::from("ada")];
    let q = pick_quotes(&symbols, &r, "usd");
    assert_eq!(
        q,
        vec![
            (String::from("BTC"), 65000.0),
            (String::from("ETH"), 3000.0),
            (String::from("ADA"), 0.5),
        ]
    );
    let eur = pick_quotes(&symbols, &r, "eur");
    assert_eq!(eur, vec![(String::from("BTC"), 60000.0)]);
}

#[test]
fn quotes_of_an_empty_reply_are_empty() {
    let symbols = vec![String::from("btc")];
    assert!(pick_quotes::<f64>(&symbols, &[], "usd").is_empty());
    let r = reply(&[("bitcoin", &[("usd_24h_change", -1.5)])]);
    assert_eq!(pick_quotes(&symbols, &r, "usd_24h_change"), vec![(String::from("BTC"), -1.5)]);
}
