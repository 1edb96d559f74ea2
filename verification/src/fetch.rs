//! What is taken from the answers of the net: an address, a text, a price.
use vstd::prelude::*;
use vstd::slice::slice_subrange;
use crate::text::{
    chars_of, contains, cut_second_part, join2, join3, matches_at, run, run_len, second_part,
    string_of, stripped_front, trim, trimmed, Class,
};

verus! {

/// What came of a request for a text.
#[derive(Debug)]
pub enum FetchReply {
    /// The server could not be reached.
    NetErr,
    /// Its answer could not be read as a text.
    BodyErr,
    Body(String),
}

/// Four groups of one to three digits with full stops between them, and no letter or digit next
/// to them.
pub open spec fn ip_pattern() -> Seq<char> {
    "\\b(?:\\d{1,3}\\.){3}\\d{1,3}\\b"@
}

/// The first match of a pattern in a text, by the rules of the crate regex. There is no answer
/// where the pattern is none.
pub uninterp spec fn regex_match(pattern: Seq<char>, text: Seq<char>) -> Option<Option<Seq<char>>>;

pub open spec fn is_letter(c: char) -> bool {
    ('A' as u32 <= c as u32 <= 'Z' as u32) || ('a' as u32 <= c as u32 <= 'z' as u32)
}

/// A text as an address has it: between 7 and 15 characters, and no letter.
pub open spec fn like_an_address(m: Seq<char>) -> bool {
    &&& 7 <= m.len() <= 15
    &&& forall|i: int| 0 <= i < m.len() ==> !is_letter(#[trigger] m[i])
}

/// `regex::Regex::new` and `regex::Regex::find`: the first match of a pattern in a text, which is
/// a part of the text. The pattern of an address is a pattern, and what it matches is made of
/// digits, of any script, and full stops: 7 to 15 of them.
#[verifier::external_body]
fn regex_find(pattern: &str, text: &str) -> (r: Option<Option<String>>)
    ensures
        match r {
            Some(Some(m)) => regex_match(pattern@, text@) == Some(Some(m@)) && contains(text@, m@),
            Some(None) => regex_match(pattern@, text@) == Some(None::<Seq<char>>),
            None => regex_match(pattern@, text@) is None,
        },
        pattern@ == ip_pattern() ==> r is Some,
        pattern@ == ip_pattern() ==> (r matches Some(Some(m)) ==> like_an_address(m@)),
{
    match regex::Regex::new(pattern) {
        Ok(re) => Some(re.find(text).map(|m| m.as_str().to_string())),
        Err(_) => None,
    }
}

/// The address as it is shown, if one was found.
pub open spec fn ip_shown(found: Option<Seq<char>>) -> Seq<char> {
    match found {
        Some(m) => "IP:"@ + m,
        None => "IP:Err"@,
    }
}

/// The address as it is shown, if one was found.
pub fn ip_text(found: Option<&str>) -> (r: String)
    ensures
        r@ == ip_shown(
            match found {
                Some(m) => Some(m@),
                None => None,
            },
        ),
{
    match found {
        Some(m) => join2("IP:", m),
        None => "IP:Err".to_string(),
    }
}

/// An address that was found is no failure.
pub proof fn address_is_no_failure(m: Seq<char>)
    requires
        like_an_address(m),
    ensures
        !contains("IP:"@ + m, "Err"@),
        !contains("IP:"@ + m, "Wait"@),
{
    reveal_strlit("IP:");
    reveal_strlit("Err");
    reveal_strlit("Wait");
    let s = "IP:"@ + m;
    if contains(s, "Err"@) {
        let i = choose|i: int| matches_at(s, "Err"@, i);
        assert(s.subrange(i, i + 3)[0] == 'E');
        assert(s[i] == 'E');
        if i >= 3 {
            assert(s[i] == m[i - 3]);
            assert(is_letter('E'));
        }
    }
    if contains(s, "Wait"@) {
        let i = choose|i: int| matches_at(s, "Wait"@, i);
        assert(s.subrange(i, i + 4)[0] == 'W');
        assert(s[i] == 'W');
        if i >= 3 {
            assert(s[i] == m[i - 3]);
            assert(is_letter('W'));
        }
    }
}

/// The address in the answer of a server, as it is shown.
pub fn ip_of_body(body: &str) -> (r: String)
    ensures
        match regex_match(ip_pattern(), body@) {
            Some(found) => r@ == ip_shown(found) && (found matches Some(m) ==> like_an_address(m)
                && contains(body@, m)),
            None => false,
        },
{
    match regex_find("\\b(?:\\d{1,3}\\.){3}\\d{1,3}\\b", body) {
        Some(Some(m)) => ip_text(Some(m.as_str())),
        _ => ip_text(None),
    }
}

/// A text without blanks round it, cut off behind `n` characters.
pub open spec fn shortened(body: Seq<char>, n: nat) -> Seq<char> {
    if trimmed(body).len() <= n {
        trimmed(body)
    } else {
        trimmed(body).take(n as int)
    }
}

/// A text without blanks round it, cut off behind `n` characters.
pub fn shorten(body: &str, n: usize) -> (r: String)
    ensures
        r@ == shortened(body@, n as nat),
{
    let cs = chars_of(body);
    let t = trim(cs.as_slice());
    if t.len() <= n {
        string_of(t)
    } else {
        let cut = slice_subrange(t, 0, n);
        assert(cut@ == t@.take(n as int));
        string_of(cut)
    }
}

/// A fetched text never has more characters than it may, and is cut between two of them.
pub proof fn fetched_text_keeps_its_length(body: Seq<char>, n: nat)
    ensures
        shortened(body, n).len() <= n,
        shortened(body, n) == trimmed(body).take(shortened(body, n).len() as int),
{
}

/// What the JSON text `body` holds under `key`: its number, as the bits of a double-precision
/// number, and its text. There is no answer where `body` is no JSON.
pub uninterp spec fn json_field(body: Seq<u8>, key: Seq<char>) -> Option<
    (Option<u64>, Option<Seq<char>>),
>;

pub open spec fn text_view(s: Option<String>) -> Option<Seq<char>> {
    match s {
        Some(t) => Some(t@),
        None => None,
    }
}

/// `serde_json::from_slice`, and of the value that it gives the number and the text under a key,
/// if it is an object and has one: `serde_json::Value::as_f64`, as bits, and
/// `serde_json::Value::as_str`. It gives nothing where the bytes are no JSON, whatever the key.
#[verifier::external_body]
fn read_json_field(body: &[u8], key: &str) -> (r: Option<(Option<u64>, Option<String>)>)
    ensures
        match r {
            Some(f) => json_field(body@, key@) == Some((f.0, text_view(f.1))),
            None => json_field(body@, key@) is None,
        },
        forall|other: Seq<char>| (#[trigger] json_field(body@, other) is None) == (r is None),
{
    match serde_json::from_slice::<serde_json::Value>(body) {
        Ok(v) => Some(
            (
                v[key].as_f64().map(|x| x.to_bits()),
                v[key].as_str().map(|s| s.to_string()),
            ),
        ),
        Err(_) => None,
    }
}

/// What an answer says of a price. The numbers are the bits of double-precision numbers.
#[derive(Debug)]
pub struct PriceFields {
    pub price: Option<u64>,
    pub price_text: Option<String>,
    pub last: Option<u64>,
    pub close: Option<u64>,
}

/// What an answer says of a price, if it is JSON.
pub fn read_price(body: &[u8]) -> (r: Option<PriceFields>)
    ensures
        match (json_field(body@, "price"@), json_field(body@, "last"@), json_field(body@, "close"@)) {
            (Some(p), Some(l), Some(c)) => r matches Some(f) && f.price == p.0 && text_view(
                f.price_text,
            ) == p.1 && f.last == l.0 && f.close == c.0,
            _ => r is None,
        },
        r is None <==> json_field(body@, "price"@) is None,
{
    match (
        read_json_field(body, "price"),
        read_json_field(body, "last"),
        read_json_field(body, "close"),
    ) {
        (Some(p), Some(l), Some(c)) => Some(
            PriceFields { price: p.0, price_text: p.1, last: l.0, close: c.0 },
        ),
        _ => None,
    }
}

impl PriceFields {
    /// The price, where `parsed` is the number of its text.
    pub open spec fn picked(self, parsed: Option<u64>) -> Option<u64> {
        if self.price is Some {
            self.price
        } else if self.price_text is Some && parsed is Some {
            parsed
        } else if self.last is Some {
            self.last
        } else {
            self.close
        }
    }

    /// The price: as a number, else as a text that `parsed` is the number of, else the last one,
    /// else the one of the close.
    pub fn pick(&self, parsed: Option<u64>) -> (r: Option<u64>)
        ensures
            r == self.picked(parsed),
            r == (if self.price is Some {
                self.price
            } else if self.price_text is Some && parsed is Some {
                parsed
            } else if self.last is Some {
                self.last
            } else {
                self.close
            }),
    {
        if self.price.is_some() {
            self.price
        } else if self.price_text.is_some() && parsed.is_some() {
            parsed
        } else if self.last.is_some() {
            self.last
        } else {
            self.close
        }
    }
}

/// The bits of a thousand, and of infinity, as double-precision numbers. Between the two the bits
/// of numbers are in the order of the numbers.
pub const THOUSAND_BITS: u64 = 0x408f_4000_0000_0000;

pub const INFINITY_BITS: u64 = 0x7ff0_0000_0000_0000;

/// With how many places a price is shown.
pub open spec fn places_of(bits: u64) -> int {
    if THOUSAND_BITS < bits <= INFINITY_BITS {
        0
    } else {
        2
    }
}

/// With how many places a price is shown: none above a thousand, else two.
pub fn price_places(bits: u64) -> (r: usize)
    ensures
        r == places_of(bits),
        r == (if THOUSAND_BITS < bits <= INFINITY_BITS {
            0int
        } else {
            2
        }),
{
    if THOUSAND_BITS < bits && bits <= INFINITY_BITS {
        0
    } else {
        2
    }
}

/// What came of a request for a price.
#[derive(Debug)]
pub enum PriceReply {
    /// The server could not be reached.
    NetErr,
    /// Its answer broke off.
    BodyErr,
    Body(Vec<u8>),
}

/// What an answer says of a price, or the text of the failure.
pub fn read_stock(reply: &PriceReply) -> (r: Result<PriceFields, String>)
    ensures
        match *reply {
            PriceReply::NetErr => r matches Err(e) && e@ == "Stock:NetErr"@,
            PriceReply::BodyErr => r matches Err(e) && e@ == "Stock:JsonErr"@,
            PriceReply::Body(body) => match (
                json_field(body@, "price"@),
                json_field(body@, "last"@),
                json_field(body@, "close"@),
            ) {
                (Some(p), Some(l), Some(c)) => r matches Ok(f) && f.price == p.0 && text_view(
                    f.price_text,
                ) == p.1 && f.last == l.0 && f.close == c.0,
                _ => r matches Err(e) && e@ == "Stock:JsonErr"@,
            },
        },
{
    match reply {
        PriceReply::NetErr => Err("Stock:NetErr".to_string()),
        PriceReply::BodyErr => Err("Stock:JsonErr".to_string()),
        PriceReply::Body(body) => match read_price(body.as_slice()) {
            Some(f) => Ok(f),
            None => Err("Stock:JsonErr".to_string()),
        },
    }
}

/// The price as it is shown, if there is one.
pub fn stock_line(price: Option<String>) -> (r: String)
    ensures
        match price {
            Some(p) => r == p,
            None => r@ == "Stock:NoPrice"@,
        },
{
    match price {
        Some(p) => p,
        None => "Stock:NoPrice".to_string(),
    }
}

/// The text of the number under a key, in a text that looks like JSON: what stands behind the
/// first colon behind the key, as far as it is made of digits, full stops and minus signs.
pub open spec fn json_number_text(text: Seq<char>, key: Seq<char>) -> Option<Seq<char>> {
    match second_part(text, "\""@ + key + "\""@) {
        Some(after) => match second_part(after, ":"@) {
            Some(value) => {
                let t = stripped_front(value, Class::White);
                Some(t.take(run(t, Class::Number) as int))
            },
            None => None,
        },
        None => None,
    }
}

/// The text of the number under a key, in a text that looks like JSON.
pub fn extract_json_number(text: &str, key: &str) -> (r: Option<String>)
    ensures
        text_view(r) == json_number_text(text@, key@),
{
    let cs = chars_of(text);
    let pat = chars_of(join3("\"", key, "\"").as_str());
    let colon = chars_of(":");
    match cut_second_part(cs.as_slice(), pat.as_slice()) {
        Some(after) => match cut_second_part(after, colon.as_slice()) {
            Some(value) => {
                let a = run_len(value, Class::White);
                let t = slice_subrange(value, a, value.len());
                assert(t@ == stripped_front(value@, Class::White));
                let n = run_len(t, Class::Number);
                let digits = slice_subrange(t, 0, n);
                assert(digits@ == t@.take(n as int));
                Some(string_of(digits))
            },
            None => None,
        },
        None => None,
    }
}

} // verus!
