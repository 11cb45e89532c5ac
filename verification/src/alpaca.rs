//! The broker client's plain settings: credentials, base URLs, request
//! headers, endpoint addresses, and the reading of option contract symbols.
use vstd::prelude::*;
use crate::records::{trim_text, trimmed};
use crate::text::{ascii_digit, chars_of, is_ascii_digit, push_char, str_equal, string_from_chars, string_of};

verus! {

pub const ALPACA_PAPER_URL: &'static str = "https://paper-api.alpaca.markets/v2";
pub const ALPACA_LIVE_URL: &'static str = "https://api.alpaca.markets/v2";
pub const ALPACA_DATA_URL: &'static str = "https://data.alpaca.markets/v2";
pub const ALPACA_OPTIONS_URL: &'static str = "https://data.alpaca.markets/v1beta1/options";

pub open spec fn paper_url() -> Seq<char> {
    "https://paper-api.alpaca.markets/v2"@
}

pub open spec fn live_url() -> Seq<char> {
    "https://api.alpaca.markets/v2"@
}

pub open spec fn data_url() -> Seq<char> {
    "https://data.alpaca.markets/v2"@
}

pub open spec fn options_url() -> Seq<char> {
    "https://data.alpaca.markets/v1beta1/options"@
}

/// The broker credentials and the trading API address they are used with.
#[derive(Clone)]
pub struct AlpacaClient {
    pub api_key: String,
    pub api_secret: String,
    pub base_url: String,
}

impl AlpacaClient {
    /// The client for the environment's settings: the key and the secret are
    /// required; the environment `live` selects the live API, any other
    /// value or none the paper API.
    pub fn new(api_key: Option<String>, api_secret: Option<String>, environment: Option<String>) -> (r: Result<Self, &'static str>)
        ensures
            api_key is None ==> (r matches Err(e) && e@ == "ALPACA_API_KEY not set"@),
            api_key is Some && api_secret is None ==> (r matches Err(e) && e@ == "ALPACA_API_SECRET not set"@),
            r is Ok <==> (api_key is Some && api_secret is Some),
            r matches Ok(c) ==> {
                &&& c.api_key@ == api_key->0@
                &&& c.api_secret@ == api_secret->0@
                &&& c.base_url@ == if (environment matches Some(e) && e@ == "live"@) { live_url() } else { paper_url() }
            },
    {
        let api_key = match api_key {
            Some(k) => k,
            None => return Err("ALPACA_API_KEY not set"),
        };
        let api_secret = match api_secret {
            Some(s) => s,
            None => return Err("ALPACA_API_SECRET not set"),
        };
        let live = match &environment {
            Some(e) => str_equal(e.as_str(), "live"),
            None => false,
        };
        let base_url = if live { string_of(ALPACA_LIVE_URL) } else { string_of(ALPACA_PAPER_URL) };
        Ok(AlpacaClient { api_key, api_secret, base_url })
    }

    /// A paper-trading client with the given keys.
    pub fn with_keys(api_key: &str, api_secret: &str) -> (r: Result<Self, &'static str>)
        ensures
            r matches Ok(c) && c.api_key@ == api_key@ && c.api_secret@ == api_secret@ && c.base_url@ == paper_url(),
    {
        Ok(AlpacaClient { api_key: string_of(api_key), api_secret: string_of(api_secret), base_url: string_of(ALPACA_PAPER_URL) })
    }

    /// A client with the given keys for the saved environment: `live`
    /// selects the live API, any other value the paper API.
    pub fn for_environment(api_key: &str, api_secret: &str, environment: &str) -> (c: Self)
        ensures
            c.api_key@ == api_key@,
            c.api_secret@ == api_secret@,
            c.base_url@ == if environment@ == "live"@ { live_url() } else { paper_url() },
    {
        let base_url = if str_equal(environment, "live") { string_of(ALPACA_LIVE_URL) } else { string_of(ALPACA_PAPER_URL) };
        AlpacaClient { api_key: string_of(api_key), api_secret: string_of(api_secret), base_url }
    }

    /// The credential headers; a header whose value is not a valid header
    /// value is left out.
    pub fn build_headers(&self) -> (h: Vec<(String, String)>)
        ensures
            h@.len() == (if valid_header_text(self.api_key@) { 1int } else { 0 }) + (if valid_header_text(self.api_secret@) { 1int } else { 0 }),
            valid_header_text(self.api_key@) ==> h@[0].0@ == "APCA-API-KEY-ID"@ && h@[0].1@ == self.api_key@,
            valid_header_text(self.api_secret@) ==> h@[h@.len() - 1].0@ == "APCA-API-SECRET-KEY"@ && h@[h@.len() - 1].1@ == self.api_secret@,
    {
        let mut h: Vec<(String, String)> = Vec::new();
        if header_value_ok(self.api_key.as_str()) {
            h.push((string_of("APCA-API-KEY-ID"), self.api_key.clone()));
        }
        if header_value_ok(self.api_secret.as_str()) {
            h.push((string_of("APCA-API-SECRET-KEY"), self.api_secret.clone()));
        }
        h
    }

    pub fn account_url(&self) -> (u: String)
        ensures
            u@ == self.base_url@ + "/account"@,
    {
        self.base_url.clone().concat("/account")
    }

    pub fn positions_url(&self) -> (u: String)
        ensures
            u@ == self.base_url@ + "/positions"@,
    {
        self.base_url.clone().concat("/positions")
    }

    /// The orders address, with a status filter when one is given.
    pub fn orders_url(&self, status: Option<&str>) -> (u: String)
        ensures
            status is None ==> u@ == self.base_url@ + "/orders"@,
            status matches Some(s) ==> u@ == self.base_url@ + "/orders"@ + "?status="@ + s@,
    {
        let u = self.base_url.clone().concat("/orders");
        match status {
            Some(s) => u.concat("?status=").concat(s),
            None => u,
        }
    }

    pub fn order_url(&self, order_id: &str) -> (u: String)
        ensures
            u@ == self.base_url@ + "/orders/"@ + order_id@,
    {
        self.base_url.clone().concat("/orders/").concat(order_id)
    }
}

/// Whether every byte of a text may stand in an HTTP header value: visible
/// ASCII, space, tab, or a byte of 128 or more.
pub open spec fn valid_header_text(s: Seq<char>) -> bool {
    forall|i: int| 0 <= i < vstd::utf8::encode_utf8(s).len() ==> {
        let b = #[trigger] vstd::utf8::encode_utf8(s)[i];
        (b >= 32 && b != 127) || b == 9
    }
}

/// Whether `HeaderValue::from_str` accepts the text. It rejects exactly the
/// texts with a byte below 32 other than tab, or the byte 127.
#[verifier::external_body]
fn header_value_ok(s: &str) -> (r: bool)
    ensures
        r == valid_header_text(s@),
{
    reqwest::header::HeaderValue::from_str(s).is_ok()
}

/// The latest-quote address of a stock under a market data address
/// (normally [`ALPACA_DATA_URL`]).
pub fn quote_url(data_base: &str, symbol: &str) -> (u: String)
    ensures
        u@ == data_base@ + "/stocks/"@ + symbol@ + "/quotes/latest"@,
{
    string_of(data_base).concat("/stocks/").concat(symbol).concat("/quotes/latest")
}

/// The option snapshots address of an underlying, for calls or puts, under
/// an options data address (normally [`ALPACA_OPTIONS_URL`]).
pub fn option_snapshots_url(options_base: &str, underlying: &str, option_type: &str) -> (u: String)
    ensures
        u@ == options_base@ + "/snapshots/"@ + underlying@ + "?feed=indicative&type="@ + option_type@,
{
    string_of(options_base).concat("/snapshots/").concat(underlying).concat("?feed=indicative&type=").concat(option_type)
}

// ------------------------------------------------------------------
// Option contract symbols
// ------------------------------------------------------------------

/// Bytes that a character takes in UTF-8.
pub open spec fn char_utf8_len(c: char) -> nat {
    if (c as u32) < 0x80 {
        1
    } else if (c as u32) < 0x800 {
        2
    } else if (c as u32) < 0x10000 {
        3
    } else {
        4
    }
}

/// Bytes that a text takes in UTF-8.
pub open spec fn utf8_len(s: Seq<char>) -> nat
    decreases s.len(),
{
    if s.len() == 0 {
        0
    } else {
        utf8_len(s.drop_last()) + char_utf8_len(s.last())
    }
}

/// The position of the first ASCII digit.
pub open spec fn first_digit(s: Seq<char>) -> Option<int> {
    if exists|i: int| 0 <= i < s.len() && is_ascii_digit(s[i]) {
        Some(choose|i: int| 0 <= i < s.len() && is_ascii_digit(s[i]) && forall|j: int| 0 <= j < i ==> !is_ascii_digit(s[j]))
    } else {
        None
    }
}

/// Whether the `n` characters from `i` on are all ASCII digits.
pub open spec fn digits_from(s: Seq<char>, i: int, n: int) -> bool {
    i + n <= s.len() && forall|k: int| i <= k < i + n ==> is_ascii_digit(#[trigger] s[k])
}

/// The text without its spaces.
pub open spec fn without_spaces(s: Seq<char>) -> Seq<char>
    decreases s.len(),
{
    if s.len() == 0 {
        s
    } else if s.last() == ' ' {
        without_spaces(s.drop_last())
    } else {
        without_spaces(s.drop_last()).push(s.last())
    }
}

/// The underlying of an OCC option symbol (root, six date digits, C or P,
/// strike): the text before the first digit when six digits follow there;
/// otherwise the first six characters, trimmed.
pub open spec fn occ_underlying(s: Seq<char>) -> Seq<char> {
    match first_digit(s) {
        Some(i) if digits_from(s, i, 6) => s.take(i),
        _ => trimmed(s.take(if s.len() < 6 { s.len() as int } else { 6 })),
    }
}

/// The option type of an OCC symbol: with spaces removed, the character six
/// bytes after the first digit's byte offset is read as a character
/// position; `P` means a put, anything else (or nothing) a call.
pub open spec fn occ_is_put(s: Seq<char>) -> bool {
    let n = without_spaces(s);
    match first_digit(n) {
        Some(i) => {
            let after = utf8_len(n.take(i)) + 6;
            after < utf8_len(n) && after < n.len() && n[after as int] == 'P'
        },
        None => false,
    }
}

/// The six date digits an expiration is written with in OCC symbols:
/// `YYYY-MM-DD` becomes `YYMMDD`; any other text is taken as it is.
pub open spec fn occ_date_of(expiration: Seq<char>) -> Seq<char> {
    if expiration.len() == 10 && expiration[4] == '-' && expiration[7] == '-' {
        expiration.subrange(2, 4) + expiration.subrange(5, 7) + expiration.subrange(8, 10)
    } else {
        expiration
    }
}

/// Whether a contract symbol expires on a date: the six digits from its
/// first digit on are the date's.
pub open spec fn occ_expires_on(s: Seq<char>, expiration: Seq<char>) -> bool {
    match first_digit(s) {
        Some(i) => digits_from(s, i, 6) && s.subrange(i, i + 6) == occ_date_of(expiration),
        None => false,
    }
}

pub open spec fn option_type_text(is_put: bool) -> Seq<char> {
    if is_put {
        "put"@
    } else {
        "call"@
    }
}

fn char_utf8_width(c: char) -> (n: usize)
    ensures
        n == char_utf8_len(c),
{
    let v: u32 = c as u32;
    if v < 0x80 {
        1
    } else if v < 0x800 {
        2
    } else if v < 0x10000 {
        3
    } else {
        4
    }
}

/// Removes the spaces of a symbol.
pub fn strip_spaces(s: &str) -> (r: Vec<char>)
    ensures
        r@ == without_spaces(s@),
{
    let cs = chars_of(s);
    let mut r: Vec<char> = Vec::new();
    let mut i: usize = 0;
    while i < cs.len()
        invariant
            i <= cs.len(),
            cs@ == s@,
            r@ == without_spaces(cs@.take(i as int)),
        decreases cs.len() - i,
    {
        assert(cs@.take(i + 1).drop_last() =~= cs@.take(i as int));
        if cs[i] != ' ' {
            r.push(cs[i]);
        }
        i = i + 1;
    }
    assert(cs@.take(cs.len() as int) =~= cs@);
    r
}

/// The first digit's position, when there is one.
fn find_first_digit(cs: &Vec<char>) -> (r: Option<usize>)
    ensures
        r matches Some(i) ==> i < cs.len() && first_digit(cs@) == Some(i as int),
        r is None ==> first_digit(cs@) is None,
{
    let mut i: usize = 0;
    while i < cs.len()
        invariant
            i <= cs.len(),
            forall|j: int| 0 <= j < i ==> !is_ascii_digit(cs@[j]),
        decreases cs.len() - i,
    {
        if ascii_digit(cs[i]) {
            proof {
                let w = choose|k: int| 0 <= k < cs@.len() && is_ascii_digit(cs@[k]) && forall|j: int| 0 <= j < k ==> !is_ascii_digit(cs@[j]);
                assert(w == i) by {
                    if w < i {
                    } else if w > i {
                        assert(!is_ascii_digit(cs@[i as int]));
                    }
                }
            }
            return Some(i);
        }
        i = i + 1;
    }
    None
}

/// The UTF-8 byte length of the first `k` characters.
fn utf8_prefix_len(cs: &Vec<char>, k: usize) -> (n: u128)
    requires
        k <= cs.len(),
    ensures
        n == utf8_len(cs@.take(k as int)),
        n <= 4 * k,
{
    let mut n: u128 = 0;
    let mut i: usize = 0;
    while i < k
        invariant
            i <= k,
            k <= cs.len(),
            n == utf8_len(cs@.take(i as int)),
            n <= 4 * i,
        decreases k - i,
    {
        assert(cs@.take(i + 1).drop_last() =~= cs@.take(i as int));
        n = n + char_utf8_width(cs[i]) as u128;
        i = i + 1;
    }
    n
}

/// The underlying symbol and the option type (`"call"` or `"put"`) of an
/// option contract symbol.
pub fn parse_option_symbol(option_symbol: &str) -> (r: (String, &'static str))
    ensures
        r.0@ == occ_underlying(option_symbol@),
        r.1@ == option_type_text(occ_is_put(option_symbol@)),
{
    let cs = chars_of(option_symbol);
    let underlying = match find_first_digit(&cs) {
        Some(pos) if cs.len() - pos >= 6 && all_digits(&cs, pos, 6) => {
            prefix_string(&cs, pos)
        },
        _ => {
            let k: usize = if cs.len() < 6 { cs.len() } else { 6 };
            let head = prefix_string(&cs, k);
            string_of(trim_text(head.as_str()))
        },
    };
    let n = strip_spaces(option_symbol);
    let is_put = match find_first_digit(&n) {
        Some(pos) => {
            let after = utf8_prefix_len(&n, pos) + 6;
            let total = utf8_prefix_len(&n, n.len());
            proof {
                assert(n@.take(n.len() as int) =~= n@);
            }
            after < total && after < n.len() as u128 && n[after as usize] == 'P'
        },
        None => false,
    };
    let t = if is_put { "put" } else { "call" };
    (underlying, t)
}

/// The OCC date digits of an expiration (see [`occ_date_of`]).
fn occ_date_chars(expiration: &str) -> (d: Vec<char>)
    ensures
        d@ == occ_date_of(expiration@),
{
    let e = chars_of(expiration);
    if e.len() == 10 && e[4] == '-' && e[7] == '-' {
        let mut d: Vec<char> = Vec::new();
        d.push(e[2]);
        d.push(e[3]);
        d.push(e[5]);
        d.push(e[6]);
        d.push(e[8]);
        d.push(e[9]);
        assert(d@ =~= e@.subrange(2, 4) + e@.subrange(5, 7) + e@.subrange(8, 10));
        d
    } else {
        e
    }
}

/// Whether the six characters of `cs` from `i` on are those of `d`.
fn six_match_at(cs: &Vec<char>, i: usize, d: &Vec<char>) -> (r: bool)
    requires
        i + 6 <= cs.len(),
        d@.len() == 6,
    ensures
        r == (cs@.subrange(i as int, i + 6) == d@),
{
    let mut k: usize = 0;
    while k < 6
        invariant
            k <= 6,
            i + 6 <= cs.len(),
            d@.len() == 6,
            forall|j: int| 0 <= j < k ==> cs@[i + j] == d@[j],
        decreases 6 - k,
    {
        if cs[i + k] != d[k] {
            proof {
                let sub = cs@.subrange(i as int, i + 6);
                assert(sub[k as int] == cs@[i + k]);
            }
            return false;
        }
        k = k + 1;
    }
    assert(cs@.subrange(i as int, i + 6) =~= d@);
    true
}

/// Whether a contract symbol expires on the given date (`YYYY-MM-DD`, or
/// the six OCC digits).
pub fn occ_expiration_matches(option_symbol: &str, expiration: &str) -> (r: bool)
    ensures
        r == occ_expires_on(option_symbol@, expiration@),
{
    let cs = chars_of(option_symbol);
    let d = occ_date_chars(expiration);
    match find_first_digit(&cs) {
        None => false,
        Some(i) => {
            if cs.len() - i < 6 || !all_digits(&cs, i, 6) {
                return false;
            }
            if d.len() != 6 {
                return false;
            }
            six_match_at(&cs, i, &d)
        },
    }
}

fn all_digits(cs: &Vec<char>, i: usize, n: usize) -> (r: bool)
    requires
        i + n <= cs.len(),
    ensures
        r == digits_from(cs@, i as int, n as int),
{
    let mut k: usize = i;
    while k < i + n
        invariant
            i <= k <= i + n,
            i + n <= cs.len(),
            forall|j: int| i <= j < k ==> is_ascii_digit(cs@[j]),
        decreases i + n - k,
    {
        if !ascii_digit(cs[k]) {
            return false;
        }
        k = k + 1;
    }
    true
}

fn prefix_string(cs: &Vec<char>, k: usize) -> (s: String)
    requires
        k <= cs.len(),
    ensures
        s@ == cs@.take(k as int),
{
    let mut s = String::new();
    let mut i: usize = 0;
    while i < k
        invariant
            i <= k,
            k <= cs.len(),
            s@ == cs@.take(i as int),
        decreases k - i,
    {
        push_char(&mut s, cs[i]);
        assert(cs@.take(i + 1) =~= cs@.take(i as int).push(cs@[i as int]));
        i = i + 1;
    }
    s
}

/// Whether a snapshot key names the contract sought: equal once spaces are
/// removed from the key (the sought symbol has none).
pub fn snapshot_key_matches(key: &str, wanted: &Vec<char>) -> (r: bool)
    ensures
        r == (without_spaces(key@) == wanted@),
{
    let k = strip_spaces(key);
    crate::text::chars_equal(&k, wanted)
}

/// The text of a symbol without its spaces.
pub fn symbol_without_spaces(s: &str) -> (r: String)
    ensures
        r@ == without_spaces(s@),
{
    let v = strip_spaces(s);
    string_from_chars(&v)
}

proof fn lemma_without_spaces_keeps(s: Seq<char>)
    requires
        forall|i: int| 0 <= i < s.len() ==> s[i] != ' ',
    ensures
        without_spaces(s) == s,
    decreases s.len(),
{
    if s.len() > 0 {
        let d = s.drop_last();
        assert forall|i: int| 0 <= i < d.len() implies d[i] != ' ' by {
            assert(d[i] == s[i]);
        }
        lemma_without_spaces_keeps(d);
        assert(s.last() == s[s.len() - 1]);
        assert(d.push(s.last()) =~= s);
    }
}

proof fn lemma_utf8_len_bounds(s: Seq<char>)
    ensures
        utf8_len(s) >= s.len(),
        (forall|i: int| 0 <= i < s.len() ==> (s[i] as u32) < 0x80) ==> utf8_len(s) == s.len(),
    decreases s.len(),
{
    if s.len() > 0 {
        let d = s.drop_last();
        lemma_utf8_len_bounds(d);
        if forall|i: int| 0 <= i < s.len() ==> (s[i] as u32) < 0x80 {
            assert forall|i: int| 0 <= i < d.len() implies (d[i] as u32) < 0x80 by {
                assert(d[i] == s[i]);
            }
            assert(s.last() == s[s.len() - 1]);
        }
    }
}

/// An OCC contract symbol read back: for a symbol made of a root (ASCII, no
/// digits, no spaces), the six digits of its expiration, `C` or `P`, and the
/// digits of its strike, the underlying is the root, the contract is a put
/// exactly when the letter is `P`, and it expires on any date written with
/// those six digits.
pub proof fn law_occ_symbol_parts(root: Seq<char>, date: Seq<char>, letter: char, strike: Seq<char>, expiration: Seq<char>)
    requires
        forall|i: int| 0 <= i < root.len() ==> !is_ascii_digit(#[trigger] root[i]) && root[i] != ' ' && (root[i] as u32) < 0x80,
        date.len() == 6,
        forall|i: int| 0 <= i < 6 ==> is_ascii_digit(#[trigger] date[i]),
        letter == 'C' || letter == 'P',
        forall|i: int| 0 <= i < strike.len() ==> is_ascii_digit(#[trigger] strike[i]),
        occ_date_of(expiration) == date,
    ensures
        occ_underlying(root + date + seq![letter] + strike) == root,
        occ_is_put(root + date + seq![letter] + strike) == (letter == 'P'),
        occ_expires_on(root + date + seq![letter] + strike, expiration),
{
    let s = root + date + seq![letter] + strike;
    let r = root.len() as int;
    assert forall|i: int| 0 <= i < r implies s[i] == root[i] by {}
    assert forall|i: int| r <= i < r + 6 implies s[i] == date[i - r] by {}
    assert(s[r + 6] == letter);
    assert forall|i: int| r + 7 <= i < s.len() implies s[i] == strike[i - r - 7] by {}
    assert(is_ascii_digit(s[r])) by { assert(s[r] == date[0]); }
    assert(exists|i: int| 0 <= i < s.len() && is_ascii_digit(s[i]));
    let f = choose|i: int| 0 <= i < s.len() && is_ascii_digit(s[i]) && forall|j: int| 0 <= j < i ==> !is_ascii_digit(s[j]);
    assert(forall|j: int| 0 <= j < r ==> !is_ascii_digit(s[j])) by {
        assert forall|j: int| 0 <= j < r implies !is_ascii_digit(s[j]) by { assert(s[j] == root[j]); }
    }
    assert(is_ascii_digit(s[r]) && forall|j: int| 0 <= j < r ==> !is_ascii_digit(s[j]));
    assert(f == r) by {
        if f < r { assert(s[f] == root[f]); }
        if f > r { assert(!is_ascii_digit(s[r])); }
    }
    assert(first_digit(s) == Some(r));
    assert(digits_from(s, r, 6)) by {
        assert forall|k: int| r <= k < r + 6 implies is_ascii_digit(#[trigger] s[k]) by {
            assert(s[k] == date[k - r]);
        }
    }
    assert(s.take(r) =~= root);
    assert(s.subrange(r, r + 6) =~= date);
    assert forall|i: int| 0 <= i < s.len() implies s[i] != ' ' by {
        if i < r {
            assert(s[i] == root[i]);
        } else if i < r + 6 {
            assert(s[i] == date[i - r]);
        } else if i > r + 6 {
            assert(s[i] == strike[i - r - 7]);
        }
    }
    lemma_without_spaces_keeps(s);
    lemma_utf8_len_bounds(s);
    lemma_utf8_len_bounds(root);
    assert(utf8_len(s.take(r)) == r);
}

} // verus!
