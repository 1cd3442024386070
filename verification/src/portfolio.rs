//! The portfolio tracker's pure parts: mapping ticker symbols to price
//! service ids, building the price service addresses, and the storage and
//! price-feed handles.
use vstd::prelude::*;
use crate::collections::views_of;
use crate::text::{lowercase, str_eq, to_lowercase, to_uppercase, uppercase};

pub mod holdings;

verus! {

/// The price service id of a lowercased ticker symbol: the well-known
/// tickers have their own ids, any other symbol is its own id.
pub open spec fn coin_id(lower: Seq<char>) -> Seq<char> {
    if lower == "btc"@ {
        "bitcoin"@
    } else if lower == "eth"@ {
        "ethereum"@
    } else if lower == "sol"@ {
        "solana"@
    } else if lower == "usdt"@ {
        "tether"@
    } else if lower == "usdc"@ {
        "usd-coin"@
    } else if lower == "bnb"@ {
        "binancecoin"@
    } else {
        lower
    }
}

/// One of the six tickers whose price service id differs from the ticker.
pub open spec fn renamed_ticker(lower: Seq<char>) -> bool {
    ||| lower == "btc"@
    ||| lower == "eth"@
    ||| lower == "sol"@
    ||| lower == "usdt"@
    ||| lower == "usdc"@
    ||| lower == "bnb"@
}

/// Only the six listed tickers are renamed: any other lowercased symbol is
/// its own price service id, and each of the six gets its coin's name.
pub proof fn only_listed_tickers_are_renamed(lower: Seq<char>)
    ensures
        !renamed_ticker(lower) ==> coin_id(lower) == lower,
        lower == "btc"@ ==> coin_id(lower) == "bitcoin"@,
        lower == "eth"@ ==> coin_id(lower) == "ethereum"@,
        lower == "sol"@ ==> coin_id(lower) == "solana"@,
        lower == "usdt"@ ==> coin_id(lower) == "tether"@,
        lower == "usdc"@ ==> coin_id(lower) == "usd-coin"@,
        lower == "bnb"@ ==> coin_id(lower) == "binancecoin"@,
{
    reveal_strlit("btc");
    reveal_strlit("eth");
    reveal_strlit("sol");
    reveal_strlit("usdt");
    reveal_strlit("usdc");
    reveal_strlit("bnb");
    assert("eth"@[0] != "btc"@[0]);
    assert("sol"@[0] != "btc"@[0] && "sol"@[0] != "eth"@[0]);
    assert("usdc"@[3] != "usdt"@[3]);
    assert("bnb"@[1] != "btc"@[1] && "bnb"@[0] != "eth"@[0] && "bnb"@[0] != "sol"@[0]);
}

/// Only `btc` (and `bitcoin` itself) is priced as Bitcoin.
pub proof fn bitcoin_only_for_btc(lower: Seq<char>)
    requires
        coin_id(lower) == "bitcoin"@,
    ensures
        lower == "btc"@ || lower == "bitcoin"@,
{
    reveal_strlit("bitcoin");
    reveal_strlit("ethereum");
    reveal_strlit("solana");
    reveal_strlit("tether");
    reveal_strlit("usd-coin");
    reveal_strlit("binancecoin");
    reveal_strlit("btc");
    reveal_strlit("eth");
    reveal_strlit("sol");
    reveal_strlit("usdt");
    reveal_strlit("usdc");
    reveal_strlit("bnb");
    if lower != "btc"@ && lower != "bitcoin"@ {
        if lower == "eth"@ {
            assert("ethereum"@[0] != "bitcoin"@[0]);
        } else if lower == "sol"@ {
            assert("solana"@[0] != "bitcoin"@[0]);
        } else if lower == "usdt"@ {
            assert("tether"@[0] != "bitcoin"@[0]);
        } else if lower == "usdc"@ {
            assert("usd-coin"@[0] != "bitcoin"@[0]);
        } else if lower == "bnb"@ {
            assert("binancecoin"@[2] != "bitcoin"@[2]);
        }
    }
}

/// The price service id of a ticker symbol, in any letter case.
pub fn symbol_to_id(symbol: &str) -> (r: String)
    ensures
        r@ == coin_id(lowercase(symbol@)),
        !renamed_ticker(lowercase(symbol@)) ==> r@ == lowercase(symbol@),
{
    let lower = to_lowercase(symbol);
    let l = lower.as_str();
    if str_eq(l, "btc") {
        String::from_str("bitcoin")
    } else if str_eq(l, "eth") {
        String::from_str("ethereum")
    } else if str_eq(l, "sol") {
        String::from_str("solana")
    } else if str_eq(l, "usdt") {
        String::from_str("tether")
    } else if str_eq(l, "usdc") {
        String::from_str("usd-coin")
    } else if str_eq(l, "bnb") {
        String::from_str("binancecoin")
    } else {
        lower
    }
}

/// The ids of the symbols, in order.
pub open spec fn coin_ids_of(symbols: Seq<String>) -> Seq<Seq<char>> {
    symbols.map_values(|s: String| coin_id(lowercase(s@)))
}

/// The words joined by commas.
pub open spec fn comma_joined(words: Seq<Seq<char>>) -> Seq<char>
    decreases words.len(),
{
    if words.len() == 0 {
        Seq::empty()
    } else if words.len() == 1 {
        words[0]
    } else {
        comma_joined(words.drop_last()) + ","@ + words.last()
    }
}

/// The price service ids of the symbols, joined by commas.
pub fn coin_ids(symbols: &[String]) -> (r: String)
    ensures
        r@ == comma_joined(coin_ids_of(symbols@)),
{
    let mut acc = String::new();
    let mut i: usize = 0;
    while i < symbols.len()
        invariant
            i <= symbols@.len(),
            acc@ == comma_joined(coin_ids_of(symbols@).take(i as int)),
        decreases symbols@.len() - i,
    {
        let ghost ids = coin_ids_of(symbols@);
        assert(ids.take(i + 1).drop_last() =~= ids.take(i as int));
        let id = symbol_to_id(symbols[i].as_str());
        if i > 0 {
            acc.append(",");
        }
        acc.append(id.as_str());
        assert(ids.take(i + 1).last() == id@);
        i = i + 1;
    }
    assert(coin_ids_of(symbols@).take(symbols@.len() as int) =~= coin_ids_of(symbols@));
    acc
}

/// The address of the prices of `symbols` in `currency`.
pub fn prices_url(symbols: &[String], currency: &str) -> (r: String)
    ensures
        r@ == "https://api.coingecko.com/api/v3/simple/price?ids="@ + comma_joined(
            coin_ids_of(symbols@),
        ) + "&vs_currencies="@ + currency@,
{
    let mut s = String::from_str("https://api.coingecko.com/api/v3/simple/price?ids=");
    s.append(coin_ids(symbols).as_str());
    s.append("&vs_currencies=");
    s.append(currency);
    s
}

/// The address of the 24-hour price changes of `symbols`.
pub fn change_url(symbols: &[String]) -> (r: String)
    ensures
        r@ == "https://api.coingecko.com/api/v3/simple/price?ids="@ + comma_joined(
            coin_ids_of(symbols@),
        ) + "&vs_currencies=usd&include_24hr_change=true"@,
{
    let mut s = String::from_str("https://api.coingecko.com/api/v3/simple/price?ids=");
    s.append(coin_ids(symbols).as_str());
    s.append("&vs_currencies=usd&include_24hr_change=true");
    s
}

/// A price service reply as plain values: for each coin id, its named
/// values.
pub open spec fn reply_view<V>(t: Seq<(String, Vec<(String, V)>)>) -> Seq<(Seq<char>, Seq<(Seq<char>, V)>)> {
    t.map_values(|r: (String, Vec<(String, V)>)| (r.0@, named_values_view(r.1@)))
}

/// Named values as plain values.
pub open spec fn named_values_view<V>(row: Seq<(String, V)>) -> Seq<(Seq<char>, V)> {
    row.map_values(|f: (String, V)| (f.0@, f.1))
}

/// The value of the first entry named `name`, if any.
pub open spec fn first_named<V>(row: Seq<(Seq<char>, V)>, name: Seq<char>) -> Option<V>
    decreases row.len(),
{
    if row.len() == 0 {
        None
    } else if row[0].0 == name {
        Some(row[0].1)
    } else {
        first_named(row.drop_first(), name)
    }
}

/// The quote the reply gives for `symbol` under `field`: the field of the
/// symbol's coin id, if the reply has both.
pub open spec fn quote_of<V>(reply: Seq<(Seq<char>, Seq<(Seq<char>, V)>)>, symbol: Seq<char>, field: Seq<char>) -> Option<V> {
    match first_named(reply, coin_id(lowercase(symbol))) {
        Some(row) => first_named(row, field),
        None => None,
    }
}

/// For each symbol in order that the reply quotes, the symbol in upper case
/// and its quote.
pub open spec fn quotes_of<V>(symbols: Seq<Seq<char>>, reply: Seq<(Seq<char>, Seq<(Seq<char>, V)>)>, field: Seq<char>) -> Seq<(Seq<char>, V)>
    decreases symbols.len(),
{
    if symbols.len() == 0 {
        Seq::empty()
    } else {
        let rest = quotes_of(symbols.drop_last(), reply, field);
        match quote_of(reply, symbols.last(), field) {
            Some(v) => rest.push((uppercase(symbols.last()), v)),
            None => rest,
        }
    }
}

/// Scanning from `i` finds what scanning from the start finds, when no
/// entry before `i` has the name.
proof fn lemma_first_named_skip<V>(row: Seq<(Seq<char>, V)>, name: Seq<char>, i: int)
    requires
        0 <= i < row.len(),
        row[i].0 != name,
        first_named(row, name) == first_named(row.skip(i), name),
    ensures
        first_named(row, name) == first_named(row.skip(i + 1), name),
{
    assert(row.skip(i).drop_first() =~= row.skip(i + 1));
}

/// The value named `name` among `row`, the first such, if any.
fn find_named<V: Copy>(row: &Vec<(String, V)>, name: &str) -> (r: Option<V>)
    ensures
        r == first_named(named_values_view(row@), name@),
{
    let ghost v = named_values_view(row@);
    let mut i: usize = 0;
    assert(v.skip(0) =~= v);
    while i < row.len()
        invariant
            i <= row@.len(),
            v == named_values_view(row@),
            first_named(v, name@) == first_named(v.skip(i as int), name@),
        decreases row@.len() - i,
    {
        if str_eq(row[i].0.as_str(), name) {
            return Some(row[i].1);
        }
        proof {
            lemma_first_named_skip(v, name@, i as int);
        }
        i = i + 1;
    }
    assert(v.skip(i as int) =~= Seq::<(Seq<char>, V)>::empty());
    None
}

/// The named values of coin `id` in the reply, the first such, if any.
fn find_coin<'a, V>(reply: &'a [(String, Vec<(String, V)>)], id: &str) -> (r: Option<&'a Vec<(String, V)>>)
    ensures
        match r {
            Some(row) => first_named(reply_view(reply@), id@) == Some(named_values_view(row@)),
            None => first_named(reply_view(reply@), id@) is None,
        },
{
    let ghost v = reply_view(reply@);
    let mut i: usize = 0;
    assert(v.skip(0) =~= v);
    while i < reply.len()
        invariant
            i <= reply@.len(),
            v == reply_view(reply@),
            first_named(v, id@) == first_named(v.skip(i as int), id@),
        decreases reply@.len() - i,
    {
        if str_eq(reply[i].0.as_str(), id) {
            return Some(&reply[i].1);
        }
        proof {
            lemma_first_named_skip(v, id@, i as int);
        }
        i = i + 1;
    }
    assert(v.skip(i as int) =~= Seq::<(Seq<char>, Seq<(Seq<char>, V)>)>::empty());
    None
}

/// The value that the reply gives coin `id` under `field`: the first row of
/// that id, and in it the first value of that name.
pub fn reply_value<V: Copy>(reply: &[(String, Vec<(String, V)>)], id: &str, field: &str) -> (r: Option<V>)
    ensures
        r == match first_named(reply_view(reply@), id@) {
            Some(row) => first_named(row, field@),
            None => None,
        },
{
    match find_coin(reply, id) {
        Some(row) => find_named(row, field),
        None => None,
    }
}

/// Reads the quotes of `symbols` under `field` out of a price service
/// reply: each symbol whose coin id the reply lists with that field gives
/// its upper-case form and the value, in the order of `symbols`.
pub fn pick_quotes<V: Copy>(symbols: &[String], reply: &[(String, Vec<(String, V)>)], field: &str) -> (r: Vec<(String, V)>)
    ensures
        named_values_view(r@) == quotes_of(views_of(symbols@), reply_view(reply@), field@),
{
    let mut r: Vec<(String, V)> = Vec::new();
    let mut i: usize = 0;
    while i < symbols.len()
        invariant
            i <= symbols@.len(),
            named_values_view(r@) == quotes_of(views_of(symbols@).take(i as int), reply_view(reply@), field@),
        decreases symbols@.len() - i,
    {
        let ghost names = views_of(symbols@);
        assert(names.take(i + 1).drop_last() =~= names.take(i as int));
        assert(names.take(i + 1).last() == symbols@[i as int]@);
        let id = symbol_to_id(symbols[i].as_str());
        match find_coin(reply, id.as_str()) {
            Some(row) => {
                match find_named(row, field) {
                    Some(value) => {
                        let upper = to_uppercase(symbols[i].as_str());
                        let ghost before = named_values_view(r@);
                        r.push((upper, value));
                        assert(named_values_view(r@) =~= before.push((upper@, value)));
                    },
                    None => {},
                }
            },
            None => {},
        }
        i = i + 1;
    }
    assert(views_of(symbols@).take(symbols@.len() as int) =~= views_of(symbols@));
    r
}

/// The price feed backed by the public CoinGecko service.
pub struct CoinGeckoAdapter;

#[verifier::external_type_specification]
#[verifier::external_body]
pub struct ExPathBuf(std::path::PathBuf);

/// A portfolio kept as a JSON file at a path.
pub struct JsonStorage {
    path: std::path::PathBuf,
}

impl JsonStorage {
    /// The file the storage reads and writes.
    pub closed spec fn location(&self) -> std::path::PathBuf {
        self.path
    }

    pub fn new(path: std::path::PathBuf) -> (r: Self)
        ensures
            r.location() == path,
    {
        Self { path }
    }

    /// The file the storage reads and writes.
    pub fn path(&self) -> (r: &std::path::PathBuf)
        ensures
            *r == self.location(),
    {
        &self.path
    }
}

} // verus!
