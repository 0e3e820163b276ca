//! Venue response decoding and request signing.
//!
//! The venue answers with decimal strings; the verified decoders below
//! turn them into fixed-point samples and order books.  Authenticated
//! requests carry an HMAC-SHA-256 signature in lowercase hex; the two
//! cryptographic calls are trusted, the composition is verified.

use vstd::prelude::*;

use crate::decimal::{parse_fixed, parse_fixed_spec};
use crate::util::str_eq;
use crate::types::{OrderBook, Price, MAX_AMOUNT};
use vstd::string::StringSliceAdditionalSpecFns;
use vstd::utf8::encode_utf8;

verus! {

/// The venue's price ticker answer: symbol and a decimal price string.
#[derive(Debug, Clone)]
pub struct BinancePrice {
    pub symbol: String,
    pub price: String,
}

/// The venue's 24-hour ticker answer.
#[derive(Debug, Clone)]
pub struct BinanceTicker {
    pub symbol: String,
    pub price: String,
    pub volume: String,
}

/// The venue's depth answer: price levels as pairs of decimal strings.
#[derive(Debug, Clone)]
#[allow(non_snake_case)]
pub struct BinanceOrderBook {
    pub lastUpdateId: u64,
    pub bids: Vec<(String, String)>,
    pub asks: Vec<(String, String)>,
}

/// Whether a configuration value selects simulation mode: exactly the
/// text `true` does.
pub fn testnet_selected(value: &str) -> (r: bool)
    ensures
        r == (value@ == "true"@),
{
    str_eq(value, "true")
}

/// The venue endpoint for the chosen mode.
pub fn venue_base_url(testnet: bool) -> (r: String)
    ensures
        testnet ==> r@ == "https://testnet.binance.vision"@,
        !testnet ==> r@ == "https://api.binance.com"@,
{
    if testnet {
        "https://testnet.binance.vision".to_owned()
    } else {
        "https://api.binance.com".to_owned()
    }
}

/// The HMAC-SHA-256 tag of a message under a key: a function of the
/// two arguments alone, left uninterpreted.
pub uninterp spec fn hmac_sha256_of(key: Seq<u8>, msg: Seq<u8>) -> Seq<u8>;

/// Relies on the hmac crate's `Hmac<Sha256>`: the tag depends on key
/// and message alone, and is 32 bytes long.  HMAC accepts keys of any
/// length, so `new_from_slice` cannot fail.
#[verifier::external_body]
fn hmac_sha256(key: &[u8], msg: &[u8]) -> (r: Vec<u8>)
    ensures
        r@ == hmac_sha256_of(key@, msg@),
        r@.len() == 32,
{
    let mut mac = <hmac::Hmac<sha2::Sha256> as hmac::KeyInit>::new_from_slice(key).expect(
        "HMAC accepts keys of any length",
    );
    hmac::Mac::update(&mut mac, msg);
    hmac::Mac::finalize(mac).into_bytes().to_vec()
}

/// The lowercase hex digit of a nibble.
pub open spec fn hex_digit(n: int) -> char {
    if n == 0 {
        '0'
    } else if n == 1 {
        '1'
    } else if n == 2 {
        '2'
    } else if n == 3 {
        '3'
    } else if n == 4 {
        '4'
    } else if n == 5 {
        '5'
    } else if n == 6 {
        '6'
    } else if n == 7 {
        '7'
    } else if n == 8 {
        '8'
    } else if n == 9 {
        '9'
    } else if n == 10 {
        'a'
    } else if n == 11 {
        'b'
    } else if n == 12 {
        'c'
    } else if n == 13 {
        'd'
    } else if n == 14 {
        'e'
    } else {
        'f'
    }
}

/// Lowercase hexadecimal rendering: two digits per byte, most
/// significant nibble first.
pub open spec fn hex_of(bytes: Seq<u8>) -> Seq<char>
    decreases bytes.len(),
{
    if bytes.len() == 0 {
        Seq::empty()
    } else {
        hex_of(bytes.drop_last()) + seq![
            hex_digit((bytes.last() / 16) as int),
            hex_digit((bytes.last() % 16) as int),
        ]
    }
}

/// Relies on hex::encode: lowercase hexadecimal, two digits per byte,
/// most significant nibble first.
#[verifier::external_body]
fn hex_encode(data: &Vec<u8>) -> (r: String)
    ensures
        r@ == hex_of(data@),
{
    hex::encode(data)
}

/// The venue's request signature: the HMAC-SHA-256 tag of the query
/// string under the secret key, rendered as lowercase hex.
pub fn generate_signature(secret_key: &str, query_string: &str) -> (r: String)
    ensures
        r@ == hex_of(hmac_sha256_of(secret_key.spec_bytes(), query_string.spec_bytes())),
        r@.len() == 64,
{
    let digest = hmac_sha256(secret_key.as_bytes(), query_string.as_bytes());
    proof {
        lemma_hex_of_len(digest@);
    }
    hex_encode(&digest)
}

/// Hex doubles the length.
proof fn lemma_hex_of_len(bytes: Seq<u8>)
    ensures
        hex_of(bytes).len() == 2 * bytes.len(),
    decreases bytes.len(),
{
    if bytes.len() > 0 {
        lemma_hex_of_len(bytes.drop_last());
    }
}

/// Decodes the venue's price ticker into a sample, given the
/// separately fetched volume and the observation time.
pub fn price_from_binance(bp: &BinancePrice, volume: i64, timestamp: u64) -> (r: Result<
    Price,
    String,
>)
    requires
        0 <= volume <= MAX_AMOUNT,
    ensures
        match r {
            Ok(p) => {
                &&& parse_fixed_spec(encode_utf8(bp.price@)) == Some(p.price as int)
                &&& p.symbol@ == bp.symbol@
                &&& p.timestamp == timestamp
                &&& p.volume == volume
                &&& p.wf()
            },
            Err(_) => parse_fixed_spec(encode_utf8(bp.price@)) is None,
        },
        r is Ok <==> parse_fixed_spec(encode_utf8(bp.price@)) is Some,
{
    match parse_fixed(bp.price.as_str()) {
        Some(v) => Ok(Price { symbol: bp.symbol.clone(), price: v, timestamp, volume }),
        None => Err("Failed to parse price".to_owned()),
    }
}

/// Decodes the 24-hour ticker's traded volume.
pub fn volume_from_ticker(t: &BinanceTicker) -> (r: Result<i64, String>)
    ensures
        match r {
            Ok(v) => parse_fixed_spec(encode_utf8(t.volume@)) == Some(v as int) && 0 <= v
                <= MAX_AMOUNT,
            Err(_) => parse_fixed_spec(encode_utf8(t.volume@)) is None,
        },
        r is Ok <==> parse_fixed_spec(encode_utf8(t.volume@)) is Some,
{
    match parse_fixed(t.volume.as_str()) {
        Some(v) => Ok(v),
        None => Err("Failed to parse volume".to_owned()),
    }
}

/// Whether every level of the snapshot parses.
pub open spec fn levels_parse(levels: Seq<(String, String)>) -> bool {
    forall|i: int|
        0 <= i < levels.len() ==> parse_fixed_spec(#[trigger] encode_utf8(levels[i].0@)) is Some
            && parse_fixed_spec(encode_utf8(levels[i].1@)) is Some
}

/// How decoded levels relate to the venue's strings.
pub open spec fn levels_decoded(levels: Seq<(String, String)>, out: Seq<(i64, i64)>) -> bool {
    &&& out.len() == levels.len()
    &&& forall|i: int|
        0 <= i < levels.len() ==> parse_fixed_spec(#[trigger] encode_utf8(levels[i].0@)) == Some(
            out[i].0 as int,
        ) && parse_fixed_spec(encode_utf8(levels[i].1@)) == Some(out[i].1 as int)
}

/// Decodes one side of the depth snapshot.
fn decode_levels(levels: &Vec<(String, String)>) -> (r: Result<Vec<(i64, i64)>, String>)
    ensures
        r is Ok <==> levels_parse(levels@),
        match r {
            Ok(out) => levels_decoded(levels@, out@),
            Err(_) => true,
        },
{
    let mut out: Vec<(i64, i64)> = Vec::new();
    let n = levels.len();
    let mut i: usize = 0;
    while i < n
        invariant
            0 <= i <= n,
            n == levels@.len(),
            out@.len() == i,
            forall|k: int|
                0 <= k < i ==> parse_fixed_spec(#[trigger] encode_utf8(levels@[k].0@)) == Some(
                    out@[k].0 as int,
                ) && parse_fixed_spec(encode_utf8(levels@[k].1@)) == Some(out@[k].1 as int),
        decreases n - i,
    {
        let p = parse_fixed(levels[i].0.as_str());
        let q = parse_fixed(levels[i].1.as_str());
        match (p, q) {
            (Some(pv), Some(qv)) => {
                out.push((pv, qv));
            },
            _ => {
                return Err("Failed to parse order book level".to_owned());
            },
        }
        i += 1;
    }
    Ok(out)
}

/// Decodes the venue's depth snapshot into an order book, bid and ask
/// levels in the venue's arrangement.
pub fn orderbook_from_binance(ob: &BinanceOrderBook, symbol: &str, timestamp: u64) -> (r: Result<
    OrderBook,
    String,
>)
    ensures
        r is Ok <==> levels_parse(ob.bids@) && levels_parse(ob.asks@),
        match r {
            Ok(book) => {
                &&& book.symbol@ == symbol@
                &&& book.timestamp == timestamp
                &&& levels_decoded(ob.bids@, book.bids@)
                &&& levels_decoded(ob.asks@, book.asks@)
            },
            Err(_) => true,
        },
{
    let bids = match decode_levels(&ob.bids) {
        Ok(v) => v,
        Err(e) => {
            return Err(e);
        },
    };
    let asks = match decode_levels(&ob.asks) {
        Ok(v) => v,
        Err(e) => {
            return Err(e);
        },
    };
    Ok(OrderBook { symbol: symbol.to_owned(), bids, asks, timestamp })
}

} // verus!
