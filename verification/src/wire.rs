//! The streaming wire format. Outbound: the subscribe control message that
//! names the trades channel and a coin. Inbound: a trade message carrying a
//! `data` array of records with string-valued `coin`, `side`, `px` and `sz`
//! fields, in any order and beside unknown fields. Unknown fields may hold
//! strings, numbers, literals or flat arrays of these; a message of any other
//! shape (or with a string escape) does not parse, and the connection skips
//! it. The grammar is stated by the `spec_` functions; the parser is proved
//! to follow them exactly.
use vstd::prelude::*;

verus! {

use crate::market::WsTrade;

/// The subscribe control message for a coin's trade channel.
pub open spec fn spec_subscribe_message(coin: Seq<char>) -> Seq<char> {
    "{\"method\":\"subscribe\",\"subscription\":{\"type\":\"trades\",\"coin\":\""@ + coin
        + "\"}}"@
}

/// Builds the subscribe control message naming the coin. The coin is
/// embedded verbatim, as the contract states: callers pass a canonical
/// ticker, never text with quotes or escapes.
pub fn subscribe_message(coin: &str) -> (r: String)
    ensures
        r@ == spec_subscribe_message(coin@),
{
    let mut m = String::from_str(
        "{\"method\":\"subscribe\",\"subscription\":{\"type\":\"trades\",\"coin\":\"",
    );
    m.append(coin);
    m.append("\"}}");
    proof {
        assert(m@ =~= spec_subscribe_message(coin@));
    }
    m
}

/// JSON whitespace.
pub open spec fn is_json_ws(c: char) -> bool {
    c == ' ' || c == '\n' || c == '\t' || c == '\r'
}

/// A character that ends a primitive token (a number or literal).
pub open spec fn ends_primitive(c: char) -> bool {
    c == ',' || c == '}' || c == ']' || c == '"' || is_json_ws(c)
}

/// The first index at or after `i` that holds no whitespace.
pub open spec fn spec_skip_ws(s: Seq<char>, i: int) -> int
    decreases s.len() - i,
{
    if i < s.len() && is_json_ws(s[i]) {
        spec_skip_ws(s, i + 1)
    } else {
        i
    }
}

/// The content and end of a string whose opening quote stands just before
/// `i`: the characters up to the closing quote. Escapes and unterminated
/// strings do not parse.
pub open spec fn spec_scan_string(s: Seq<char>, i: int) -> Option<(Seq<char>, int)>
    decreases s.len() - i,
{
    if i >= s.len() {
        None
    } else if s[i] == '"' {
        Some((Seq::empty(), i + 1))
    } else if s[i] == '\\' {
        None
    } else {
        match spec_scan_string(s, i + 1) {
            Some((rest, j)) => Some((seq![s[i]] + rest, j)),
            None => None,
        }
    }
}

/// A quoted string starting exactly at `i`: its content and end.
pub open spec fn spec_parse_string(s: Seq<char>, i: int) -> Option<(Seq<char>, int)> {
    if i < s.len() && s[i] == '"' {
        spec_scan_string(s, i + 1)
    } else {
        None
    }
}

/// The end of the primitive token starting at `i`.
pub open spec fn spec_skip_primitive(s: Seq<char>, i: int) -> int
    decreases s.len() - i,
{
    if i < s.len() && !ends_primitive(s[i]) {
        spec_skip_primitive(s, i + 1)
    } else {
        i
    }
}

/// The end of a flat value (a string or a primitive) starting at `i`.
pub open spec fn spec_skip_flat_value(s: Seq<char>, i: int) -> Option<int> {
    if i >= s.len() {
        None
    } else if s[i] == '"' {
        match spec_parse_string(s, i) {
            Some((content, j)) => Some(j),
            None => None,
        }
    } else if s[i] == '[' || s[i] == '{' {
        None
    } else {
        let j = spec_skip_primitive(s, i);
        if j > i {
            Some(j)
        } else {
            None
        }
    }
}

/// The end of an array of flat values whose opening bracket stands just
/// before `i`.
pub open spec fn spec_skip_array_items(s: Seq<char>, i: int) -> Option<int>
    decreases s.len() - i,
{
    let j = spec_skip_ws(s, i);
    if j >= s.len() {
        None
    } else if s[j] == ']' {
        Some(j + 1)
    } else {
        match spec_skip_flat_value(s, j) {
            None => None,
            Some(e) => {
                let k = spec_skip_ws(s, e);
                if k >= s.len() {
                    None
                } else if s[k] == ']' {
                    Some(k + 1)
                } else if s[k] == ',' && k + 1 > i {
                    spec_skip_array_items(s, k + 1)
                } else {
                    None
                }
            }
        }
    }
}

/// The end of any skippable value starting at `i`: flat, or one flat array.
pub open spec fn spec_skip_value(s: Seq<char>, i: int) -> Option<int> {
    if i < s.len() && s[i] == '[' {
        spec_skip_array_items(s, i + 1)
    } else {
        spec_skip_flat_value(s, i)
    }
}

/// The four fields of a trade record as far as they have been seen.
pub struct TradeParts {
    pub coin: Option<Seq<char>>,
    pub side: Option<Seq<char>>,
    pub px: Option<Seq<char>>,
    pub sz: Option<Seq<char>>,
}

/// One parsed trade record, at the specification level.
pub struct SpecTrade {
    pub coin: Seq<char>,
    pub side: Seq<char>,
    pub px: Seq<char>,
    pub sz: Seq<char>,
}

/// The specification-level value of an executable trade record.
pub open spec fn trade_view(t: WsTrade) -> SpecTrade {
    SpecTrade { coin: t.coin@, side: t.side@, px: t.px@, sz: t.sz@ }
}

/// The members of a trade object, starting after its opening brace or after a
/// comma: the accumulated fields and the index after the closing brace. The
/// four known keys must carry strings; unknown keys carry any skippable
/// value; on a repeated key the last value counts.
pub open spec fn spec_parse_trade_members(s: Seq<char>, i: int, acc: TradeParts) -> Option<
    (TradeParts, int),
>
    decreases s.len() - i,
{
    let j = spec_skip_ws(s, i);
    match spec_parse_string(s, j) {
        None => None,
        Some((key, e)) => {
            let c = spec_skip_ws(s, e);
            if c >= s.len() || s[c] != ':' {
                None
            } else {
                let v = spec_skip_ws(s, c + 1);
                if key == "coin"@ || key == "side"@ || key == "px"@ || key == "sz"@ {
                    match spec_parse_string(s, v) {
                        None => None,
                        Some((val, e2)) => {
                            let acc2 = TradeParts {
                                coin: if key == "coin"@ {
                                    Some(val)
                                } else {
                                    acc.coin
                                },
                                side: if key == "side"@ {
                                    Some(val)
                                } else {
                                    acc.side
                                },
                                px: if key == "px"@ {
                                    Some(val)
                                } else {
                                    acc.px
                                },
                                sz: if key == "sz"@ {
                                    Some(val)
                                } else {
                                    acc.sz
                                },
                            };
                            let k = spec_skip_ws(s, e2);
                            if k >= s.len() {
                                None
                            } else if s[k] == '}' {
                                Some((acc2, k + 1))
                            } else if s[k] == ',' && k + 1 > i {
                                spec_parse_trade_members(s, k + 1, acc2)
                            } else {
                                None
                            }
                        }
                    }
                } else {
                    match spec_skip_value(s, v) {
                        None => None,
                        Some(e2) => {
                            let k = spec_skip_ws(s, e2);
                            if k >= s.len() {
                                None
                            } else if s[k] == '}' {
                                Some((acc, k + 1))
                            } else if s[k] == ',' && k + 1 > i {
                                spec_parse_trade_members(s, k + 1, acc)
                            } else {
                                None
                            }
                        }
                    }
                }
            }
        }
    }
}

/// One trade object starting (after whitespace) at `i`: its four fields and
/// the index after its closing brace. All four known fields must be present.
pub open spec fn spec_parse_trade_object(s: Seq<char>, i: int) -> Option<(SpecTrade, int)> {
    let j = spec_skip_ws(s, i);
    if j < s.len() && s[j] == '{' {
        match spec_parse_trade_members(
            s,
            j + 1,
            TradeParts { coin: None, side: None, px: None, sz: None },
        ) {
            Some((p, e)) => match (p.coin, p.side, p.px, p.sz) {
                (Some(c), Some(sd), Some(px), Some(sz)) => Some(
                    (SpecTrade { coin: c, side: sd, px: px, sz: sz }, e),
                ),
                _ => None,
            },
            None => None,
        }
    } else {
        None
    }
}

/// The elements of the trade array, starting after its opening bracket or
/// after a comma: the trades in order and the index after the closing
/// bracket.
pub open spec fn spec_parse_trade_array_items(s: Seq<char>, i: int) -> Option<
    (Seq<SpecTrade>, int),
>
    decreases s.len() - i,
{
    let j = spec_skip_ws(s, i);
    if j >= s.len() {
        None
    } else if s[j] == ']' {
        Some((Seq::empty(), j + 1))
    } else {
        match spec_parse_trade_object(s, j) {
            None => None,
            Some((t, e)) => {
                let k = spec_skip_ws(s, e);
                if k >= s.len() {
                    None
                } else if s[k] == ']' {
                    Some((seq![t], k + 1))
                } else if s[k] == ',' && k + 1 > i {
                    match spec_parse_trade_array_items(s, k + 1) {
                        Some((rest, e3)) => Some((seq![t] + rest, e3)),
                        None => None,
                    }
                } else {
                    None
                }
            }
        }
    }
}

/// The members of the top-level message object, starting after its opening
/// brace or after a comma: the trades found under the `data` key and the
/// index after the closing brace. A message without `data` is no trade
/// message.
pub open spec fn spec_parse_msg_members(s: Seq<char>, i: int, found: Option<Seq<SpecTrade>>) -> Option<
    (Seq<SpecTrade>, int),
>
    decreases s.len() - i,
{
    let j = spec_skip_ws(s, i);
    match spec_parse_string(s, j) {
        None => None,
        Some((key, e)) => {
            let c = spec_skip_ws(s, e);
            if c >= s.len() || s[c] != ':' {
                None
            } else {
                let v = spec_skip_ws(s, c + 1);
                if key == "data"@ {
                    if v < s.len() && s[v] == '[' {
                        match spec_parse_trade_array_items(s, v + 1) {
                            None => None,
                            Some((trades, e2)) => {
                                let k = spec_skip_ws(s, e2);
                                if k >= s.len() {
                                    None
                                } else if s[k] == '}' {
                                    Some((trades, k + 1))
                                } else if s[k] == ',' && k + 1 > i {
                                    spec_parse_msg_members(s, k + 1, Some(trades))
                                } else {
                                    None
                                }
                            }
                        }
                    } else {
                        None
                    }
                } else {
                    match spec_skip_value(s, v) {
                        None => None,
                        Some(e2) => {
                            let k = spec_skip_ws(s, e2);
                            if k >= s.len() {
                                None
                            } else if s[k] == '}' {
                                match found {
                                    Some(trades) => Some((trades, k + 1)),
                                    None => None,
                                }
                            } else if s[k] == ',' && k + 1 > i {
                                spec_parse_msg_members(s, k + 1, found)
                            } else {
                                None
                            }
                        }
                    }
                }
            }
        }
    }
}

/// A whole inbound message: a JSON object with a `data` array of trade
/// records, and nothing but whitespace after it.
pub open spec fn spec_parse_trade_message(s: Seq<char>) -> Option<Seq<SpecTrade>> {
    let j = spec_skip_ws(s, 0);
    if j < s.len() && s[j] == '{' {
        match spec_parse_msg_members(s, j + 1, None) {
            Some((trades, e)) => if spec_skip_ws(s, e) == s.len() {
                Some(trades)
            } else {
                None
            },
            None => None,
        }
    } else {
        None
    }
}

/// The sequence-level view of a vector of trade records.
pub open spec fn trades_view(v: Seq<WsTrade>) -> Seq<SpecTrade> {
    v.map_values(|t: WsTrade| trade_view(t))
}

/// The sequence-level view of an optional vector of trade records.
pub open spec fn opt_trades_view(f: Option<Vec<WsTrade>>) -> Option<Seq<SpecTrade>> {
    match f {
        Some(v) => Some(trades_view(v@)),
        None => None,
    }
}

/// The four fields of a trade record as the parser collects them.
struct PartsBuf {
    coin: Option<Vec<char>>,
    side: Option<Vec<char>>,
    px: Option<Vec<char>>,
    sz: Option<Vec<char>>,
}

/// The specification-level value of the collected fields.
spec fn parts_view(p: PartsBuf) -> TradeParts {
    TradeParts {
        coin: match p.coin {
            Some(v) => Some(v@),
            None => None,
        },
        side: match p.side {
            Some(v) => Some(v@),
            None => None,
        },
        px: match p.px {
            Some(v) => Some(v@),
            None => None,
        },
        sz: match p.sz {
            Some(v) => Some(v@),
            None => None,
        },
    }
}

/// Relies on String's FromIterator over chars: collecting characters yields
/// the string of exactly those characters.
#[verifier::external_body]
pub(crate) fn chars_to_string(v: &Vec<char>) -> (r: String)
    ensures
        r@ == v@,
{
    v.iter().collect()
}

/// The characters of the string, in order.
fn str_to_chars(s: &str) -> (v: Vec<char>)
    ensures
        v@ == s@,
{
    let n = s.unicode_len();
    let mut v: Vec<char> = Vec::new();
    let mut i: usize = 0;
    while i < n
        invariant
            i <= n,
            n == s@.len(),
            v@.len() == i,
            forall|k: int| 0 <= k < i ==> v@[k] == s@[k],
        decreases n - i,
    {
        v.push(s.get_char(i));
        i = i + 1;
    }
    proof {
        assert(v@ =~= s@);
    }
    v
}

/// The characters equal the string.
fn chars_eq_str(v: &Vec<char>, t: &str) -> (b: bool)
    ensures
        b == (v@ == t@),
{
    let n = t.unicode_len();
    if v.len() != n {
        return false;
    }
    let mut i: usize = 0;
    while i < n
        invariant
            i <= n,
            n == t@.len(),
            v@.len() == n,
            forall|k: int| 0 <= k < i ==> v@[k] == t@[k],
        decreases n - i,
    {
        if v[i] != t.get_char(i) {
            return false;
        }
        i = i + 1;
    }
    proof {
        assert(v@ =~= t@);
    }
    true
}

/// The first index at or after `i` that holds no whitespace.
fn skip_ws(s: &Vec<char>, i: usize) -> (j: usize)
    requires
        i <= s@.len(),
    ensures
        j == spec_skip_ws(s@, i as int),
        i <= j <= s@.len(),
    decreases s@.len() - i,
{
    if i < s.len() {
        let c = s[i];
        if c == ' ' || c == '\n' || c == '\t' || c == '\r' {
            return skip_ws(s, i + 1);
        }
    }
    i
}

/// The content and end of a string whose opening quote stands just before
/// `i`.
fn scan_string(s: &Vec<char>, i: usize) -> (r: Option<(Vec<char>, usize)>)
    requires
        i <= s@.len(),
    ensures
        match r {
            Some((content, j)) => spec_scan_string(s@, i as int) == Some((content@, j as int))
                && i < j <= s@.len(),
            None => spec_scan_string(s@, i as int) is None,
        },
    decreases s@.len() - i,
{
    if i >= s.len() {
        return None;
    }
    let c = s[i];
    if c == '"' {
        let content: Vec<char> = Vec::new();
        proof {
            assert(content@ =~= Seq::<char>::empty());
        }
        Some((content, i + 1))
    } else if c == '\\' {
        None
    } else {
        match scan_string(s, i + 1) {
            Some((rest, j)) => {
                let ghost rest_view = rest@;
                let mut content = rest;
                content.insert(0, c);
                proof {
                    assert(content@ =~= seq![c] + rest_view);
                }
                Some((content, j))
            }
            None => None,
        }
    }
}

/// A quoted string starting exactly at `i`: its content and end.
fn parse_string(s: &Vec<char>, i: usize) -> (r: Option<(Vec<char>, usize)>)
    requires
        i <= s@.len(),
    ensures
        match r {
            Some((content, j)) => spec_parse_string(s@, i as int) == Some((content@, j as int))
                && i < j <= s@.len(),
            None => spec_parse_string(s@, i as int) is None,
        },
{
    if i < s.len() && s[i] == '"' {
        scan_string(s, i + 1)
    } else {
        None
    }
}

/// The end of the primitive token starting at `i`.
fn skip_primitive(s: &Vec<char>, i: usize) -> (j: usize)
    requires
        i <= s@.len(),
    ensures
        j == spec_skip_primitive(s@, i as int),
        i <= j <= s@.len(),
    decreases s@.len() - i,
{
    if i < s.len() {
        let c = s[i];
        if !(c == ',' || c == '}' || c == ']' || c == '"' || c == ' ' || c == '\n' || c == '\t'
            || c == '\r') {
            return skip_primitive(s, i + 1);
        }
    }
    i
}

/// The end of a flat value (a string or a primitive) starting at `i`.
fn skip_flat_value(s: &Vec<char>, i: usize) -> (r: Option<usize>)
    requires
        i <= s@.len(),
    ensures
        match r {
            Some(j) => spec_skip_flat_value(s@, i as int) == Some(j as int) && i < j <= s@.len(),
            None => spec_skip_flat_value(s@, i as int) is None,
        },
{
    if i >= s.len() {
        return None;
    }
    let c = s[i];
    if c == '"' {
        match parse_string(s, i) {
            Some((_content, j)) => Some(j),
            None => None,
        }
    } else if c == '[' || c == '{' {
        None
    } else {
        let j = skip_primitive(s, i);
        if j > i {
            Some(j)
        } else {
            None
        }
    }
}

/// The end of an array of flat values whose opening bracket stands just
/// before `i`.
fn skip_array_items(s: &Vec<char>, i: usize) -> (r: Option<usize>)
    requires
        i <= s@.len(),
    ensures
        match r {
            Some(j) => spec_skip_array_items(s@, i as int) == Some(j as int) && i < j <= s@.len(),
            None => spec_skip_array_items(s@, i as int) is None,
        },
    decreases s@.len() - i,
{
    let j = skip_ws(s, i);
    if j >= s.len() {
        return None;
    }
    if s[j] == ']' {
        return Some(j + 1);
    }
    match skip_flat_value(s, j) {
        None => None,
        Some(e) => {
            let k = skip_ws(s, e);
            if k >= s.len() {
                None
            } else if s[k] == ']' {
                Some(k + 1)
            } else if s[k] == ',' {
                skip_array_items(s, k + 1)
            } else {
                None
            }
        }
    }
}

/// The end of any skippable value starting at `i`.
fn skip_value(s: &Vec<char>, i: usize) -> (r: Option<usize>)
    requires
        i <= s@.len(),
    ensures
        match r {
            Some(j) => spec_skip_value(s@, i as int) == Some(j as int) && i < j <= s@.len(),
            None => spec_skip_value(s@, i as int) is None,
        },
{
    if i < s.len() && s[i] == '[' {
        skip_array_items(s, i + 1)
    } else {
        skip_flat_value(s, i)
    }
}

/// The members of a trade object, starting after its opening brace or after
/// a comma.
fn parse_trade_members(s: &Vec<char>, i: usize, acc: PartsBuf) -> (r: Option<(PartsBuf, usize)>)
    requires
        i <= s@.len(),
    ensures
        match r {
            Some((p, e)) => spec_parse_trade_members(s@, i as int, parts_view(acc)) == Some(
                (parts_view(p), e as int),
            ) && i < e <= s@.len(),
            None => spec_parse_trade_members(s@, i as int, parts_view(acc)) is None,
        },
    decreases s@.len() - i,
{
    proof {
        reveal_strlit("coin");
        reveal_strlit("side");
        reveal_strlit("px");
        reveal_strlit("sz");
        assert("coin"@.len() == 4 && "side"@.len() == 4 && "px"@.len() == 2 && "sz"@.len() == 2);
        assert("coin"@[0] == 'c' && "side"@[0] == 's' && "px"@[0] == 'p' && "sz"@[0] == 's');
        assert("coin"@ != "side"@ && "coin"@ != "px"@ && "coin"@ != "sz"@);
        assert("side"@ != "px"@ && "side"@ != "sz"@ && "px"@ != "sz"@);
    }
    let ghost acc0 = parts_view(acc);
    let j = skip_ws(s, i);
    match parse_string(s, j) {
        None => None,
        Some((key, e)) => {
            let c = skip_ws(s, e);
            if c >= s.len() {
                return None;
            }
            if s[c] != ':' {
                return None;
            }
            let v = skip_ws(s, c + 1);
            let is_coin = chars_eq_str(&key, "coin");
            let is_side = chars_eq_str(&key, "side");
            let is_px = chars_eq_str(&key, "px");
            let is_sz = chars_eq_str(&key, "sz");
            if is_coin || is_side || is_px || is_sz {
                match parse_string(s, v) {
                    None => None,
                    Some((val, e2)) => {
                        let ghost val0 = val@;
                        let mut acc2 = acc;
                        if is_coin {
                            acc2.coin = Some(val);
                        } else if is_side {
                            acc2.side = Some(val);
                        } else if is_px {
                            acc2.px = Some(val);
                        } else {
                            acc2.sz = Some(val);
                        }
                        proof {
                            assert(parts_view(acc2).coin == if key@ == "coin"@ {
                                Some(val0)
                            } else {
                                acc0.coin
                            });
                            assert(parts_view(acc2).side == if key@ == "side"@ {
                                Some(val0)
                            } else {
                                acc0.side
                            });
                            assert(parts_view(acc2).px == if key@ == "px"@ {
                                Some(val0)
                            } else {
                                acc0.px
                            });
                            assert(parts_view(acc2).sz == if key@ == "sz"@ {
                                Some(val0)
                            } else {
                                acc0.sz
                            });
                        }
                        let k = skip_ws(s, e2);
                        if k >= s.len() {
                            None
                        } else if s[k] == '}' {
                            Some((acc2, k + 1))
                        } else if s[k] == ',' {
                            parse_trade_members(s, k + 1, acc2)
                        } else {
                            None
                        }
                    }
                }
            } else {
                match skip_value(s, v) {
                    None => None,
                    Some(e2) => {
                        let k = skip_ws(s, e2);
                        if k >= s.len() {
                            None
                        } else if s[k] == '}' {
                            Some((acc, k + 1))
                        } else if s[k] == ',' {
                            parse_trade_members(s, k + 1, acc)
                        } else {
                            None
                        }
                    }
                }
            }
        }
    }
}

/// One trade object starting (after whitespace) at `i`.
fn parse_trade_object(s: &Vec<char>, i: usize) -> (r: Option<(WsTrade, usize)>)
    requires
        i <= s@.len(),
    ensures
        match r {
            Some((t, e)) => spec_parse_trade_object(s@, i as int) == Some(
                (trade_view(t), e as int),
            ) && i < e <= s@.len(),
            None => spec_parse_trade_object(s@, i as int) is None,
        },
{
    let j = skip_ws(s, i);
    if j < s.len() && s[j] == '{' {
        match parse_trade_members(
            s,
            j + 1,
            PartsBuf { coin: None, side: None, px: None, sz: None },
        ) {
            Some((p, e)) => match (p.coin, p.side, p.px, p.sz) {
                (Some(c), Some(sd), Some(px), Some(sz)) => {
                    let t = WsTrade {
                        coin: chars_to_string(&c),
                        side: chars_to_string(&sd),
                        px: chars_to_string(&px),
                        sz: chars_to_string(&sz),
                    };
                    Some((t, e))
                }
                _ => None,
            },
            None => None,
        }
    } else {
        None
    }
}

/// The elements of the trade array, starting after its opening bracket or
/// after a comma.
fn parse_trade_array_items(s: &Vec<char>, i: usize) -> (r: Option<(Vec<WsTrade>, usize)>)
    requires
        i <= s@.len(),
    ensures
        match r {
            Some((v, e)) => spec_parse_trade_array_items(s@, i as int) == Some(
                (trades_view(v@), e as int),
            ) && i < e <= s@.len(),
            None => spec_parse_trade_array_items(s@, i as int) is None,
        },
    decreases s@.len() - i,
{
    let j = skip_ws(s, i);
    if j >= s.len() {
        return None;
    }
    if s[j] == ']' {
        let out: Vec<WsTrade> = Vec::new();
        proof {
            assert(trades_view(out@) =~= Seq::<SpecTrade>::empty());
        }
        return Some((out, j + 1));
    }
    match parse_trade_object(s, j) {
        None => None,
        Some((t, e)) => {
            let k = skip_ws(s, e);
            if k >= s.len() {
                None
            } else if s[k] == ']' {
                let ghost tv = trade_view(t);
                let mut out: Vec<WsTrade> = Vec::new();
                out.push(t);
                proof {
                    assert(trades_view(out@) =~= seq![tv]);
                }
                Some((out, k + 1))
            } else if s[k] == ',' {
                match parse_trade_array_items(s, k + 1) {
                    Some((rest, e3)) => {
                        let ghost tv = trade_view(t);
                        let ghost rest_view = trades_view(rest@);
                        let mut out = rest;
                        out.insert(0, t);
                        proof {
                            assert(trades_view(out@) =~= seq![tv] + rest_view);
                        }
                        Some((out, e3))
                    }
                    None => None,
                }
            } else {
                None
            }
        }
    }
}

/// The members of the top-level message object, starting after its opening
/// brace or after a comma.
fn parse_msg_members(s: &Vec<char>, i: usize, found: Option<Vec<WsTrade>>) -> (r: Option<
    (Vec<WsTrade>, usize),
>)
    requires
        i <= s@.len(),
    ensures
        match r {
            Some((v, e)) => spec_parse_msg_members(s@, i as int, opt_trades_view(found)) == Some(
                (trades_view(v@), e as int),
            ) && i < e <= s@.len(),
            None => spec_parse_msg_members(s@, i as int, opt_trades_view(found)) is None,
        },
    decreases s@.len() - i,
{
    let j = skip_ws(s, i);
    match parse_string(s, j) {
        None => None,
        Some((key, e)) => {
            let c = skip_ws(s, e);
            if c >= s.len() {
                return None;
            }
            if s[c] != ':' {
                return None;
            }
            let v = skip_ws(s, c + 1);
            if chars_eq_str(&key, "data") {
                if v < s.len() && s[v] == '[' {
                    match parse_trade_array_items(s, v + 1) {
                        None => None,
                        Some((trades, e2)) => {
                            let k = skip_ws(s, e2);
                            if k >= s.len() {
                                None
                            } else if s[k] == '}' {
                                Some((trades, k + 1))
                            } else if s[k] == ',' {
                                parse_msg_members(s, k + 1, Some(trades))
                            } else {
                                None
                            }
                        }
                    }
                } else {
                    None
                }
            } else {
                match skip_value(s, v) {
                    None => None,
                    Some(e2) => {
                        let k = skip_ws(s, e2);
                        if k >= s.len() {
                            None
                        } else if s[k] == '}' {
                            match found {
                                Some(trades) => Some((trades, k + 1)),
                                None => None,
                            }
                        } else if s[k] == ',' {
                            parse_msg_members(s, k + 1, found)
                        } else {
                            None
                        }
                    }
                }
            }
        }
    }
}

/// Parses one inbound message: the trades of its `data` array, in the order
/// received, or nothing if the message is no trade message.
pub fn parse_trade_message(s: &str) -> (r: Option<Vec<WsTrade>>)
    ensures
        match r {
            Some(v) => spec_parse_trade_message(s@) == Some(trades_view(v@)),
            None => spec_parse_trade_message(s@) is None,
        },
{
    let chars = str_to_chars(s);
    let j = skip_ws(&chars, 0);
    if j < chars.len() && chars[j] == '{' {
        match parse_msg_members(&chars, j + 1, None) {
            Some((trades, e)) => {
                if skip_ws(&chars, e) == chars.len() {
                    Some(trades)
                } else {
                    None
                }
            }
            None => None,
        }
    } else {
        None
    }
}

} // verus!
