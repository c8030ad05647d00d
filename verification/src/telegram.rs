//! The chat side of the system: the commands a user can send, the decision
//! each command demands once the collaborators (symbol validator, persisted
//! store) have answered, and the exact text of every reply and of the trade
//! alert itself. Sending is outside; everything decided and formatted here is
//! verified, including the fixed-point dollar rendering of a notional value.
use vstd::prelude::*;

verus! {

use crate::decimal::ten_pow;
use crate::symbol::canonical;
use crate::symbol::upper_of;

/// A chat command, as the command interface parses it.
#[derive(Clone, Debug)]
pub enum Command {
    Start,
    Subscribe(String),
    Unsubscribe(String),
    List,
    Help,
}

/// The character of one decimal digit.
pub open spec fn digit_char(d: int) -> char {
    ((48 + d) as u8) as char
}

/// The canonical decimal digit string of a number: no leading zero, `0` for
/// zero.
pub open spec fn spec_digits(n: nat) -> Seq<char>
    decreases n,
{
    if n < 10 {
        seq![digit_char(n as int)]
    } else {
        spec_digits(n / 10).push(digit_char((n % 10) as int))
    }
}

/// A dollar amount in units of 10^-16 dollars, rendered with two decimals
/// (cents truncated): the dollar digits, a point, two cent digits.
pub open spec fn spec_usd_e16(v: nat) -> Seq<char> {
    let cents = (v % ten_pow(16)) / ten_pow(14);
    spec_digits(v / ten_pow(16)) + seq!['.', digit_char(cents as int / 10), digit_char(
        cents as int % 10,
    )]
}

/// The decimal digit string of a number.
pub fn format_u128(n: u128) -> (r: String)
    ensures
        r@ == spec_digits(n as nat),
{
    if n == 0 {
        let r = String::from_str("0");
        proof {
            reveal_strlit("0");
            assert(r@ =~= spec_digits(0));
        }
        return r;
    }
    let mut rev: Vec<char> = Vec::new();
    let mut m: u128 = n;
    while m > 0
        invariant
            m > 0 ==> spec_digits(n as nat) =~= spec_digits(m as nat) + rev@.reverse(),
            m == 0 ==> spec_digits(n as nat) =~= rev@.reverse(),
        decreases m,
    {
        let d = m % 10;
        let c = (48 + (d as u8)) as char;
        let ghost rev_before = rev@;
        let ghost m_before = m as nat;
        rev.push(c);
        m = m / 10;
        proof {
            assert(rev@.reverse() =~= seq![c] + rev_before.reverse());
            if m_before >= 10 {
                assert(spec_digits(m_before) == spec_digits(m_before / 10).push(
                    digit_char((m_before % 10) as int),
                ));
                assert(spec_digits(m_before) + rev_before.reverse() =~= spec_digits(m as nat)
                    + rev@.reverse());
            } else {
                assert(spec_digits(m_before) =~= seq![c]);
                assert(spec_digits(m_before) + rev_before.reverse() =~= rev@.reverse());
            }
        }
    }
    let n_digits = rev.len();
    let mut out: Vec<char> = Vec::new();
    let mut i: usize = 0;
    while i < n_digits
        invariant
            i <= n_digits,
            n_digits == rev@.len(),
            out@.len() == i,
            forall|k: int| 0 <= k < i ==> out@[k] == rev@[n_digits - 1 - k],
        decreases n_digits - i,
    {
        out.push(rev[n_digits - 1 - i]);
        i = i + 1;
    }
    proof {
        assert(out@ =~= rev@.reverse());
    }
    crate::wire::chars_to_string(&out)
}

/// Renders a dollar amount held in units of 10^-16 dollars with two decimals,
/// cents truncated.
pub fn format_usd_e16(v: u128) -> (r: String)
    ensures
        r@ == spec_usd_e16(v as nat),
{
    proof {
        crate::decimal::lemma_ten_pow_values();
        assert(ten_pow(16) == 10000000000000000) by {
            assert(ten_pow(11) == 10 * ten_pow(10));
            assert(ten_pow(12) == 10 * ten_pow(11));
            assert(ten_pow(13) == 10 * ten_pow(12));
            assert(ten_pow(14) == 10 * ten_pow(13));
            assert(ten_pow(15) == 10 * ten_pow(14));
            assert(ten_pow(16) == 10 * ten_pow(15));
        }
        assert(ten_pow(14) == 100000000000000) by {
            assert(ten_pow(11) == 10 * ten_pow(10));
            assert(ten_pow(12) == 10 * ten_pow(11));
            assert(ten_pow(13) == 10 * ten_pow(12));
            assert(ten_pow(14) == 10 * ten_pow(13));
        }
    }
    let dollars = v / 10000000000000000;
    let cents = (v % 10000000000000000) / 100000000000000;
    let mut r = format_u128(dollars);
    let mut tail: Vec<char> = Vec::new();
    tail.push('.');
    tail.push((48 + ((cents / 10) as u8)) as char);
    tail.push((48 + ((cents % 10) as u8)) as char);
    let tail_text = crate::wire::chars_to_string(&tail);
    r.append(tail_text.as_str());
    proof {
        assert(r@ =~= spec_usd_e16(v as nat));
    }
    r
}

/// The trade alert text: the coin, the amount in dollars, BUY for side `B`
/// and SELL otherwise, and the price as the exchange quoted it.
pub open spec fn spec_trade_alert_message(
    coin: Seq<char>,
    side: Seq<char>,
    px: Seq<char>,
    notional_usd_e16: nat,
) -> Seq<char> {
    coin + " Trade Alert\n\nAmount: $"@ + spec_usd_e16(notional_usd_e16) + "\nType: "@ + (
    if side == "B"@ {
        "BUY"@
    } else {
        "SELL"@
    }) + "\nPrice: $"@ + px
}

/// Formats the trade alert for one notification.
pub fn trade_alert_message(coin: &str, side: &str, px: &str, notional_usd_e16: u128) -> (r: String)
    ensures
        r@ == spec_trade_alert_message(coin@, side@, px@, notional_usd_e16 as nat),
{
    proof {
        reveal_strlit("B");
    }
    let mut r = String::from_str(coin);
    r.append(" Trade Alert\n\nAmount: $");
    let amount = format_usd_e16(notional_usd_e16);
    r.append(amount.as_str());
    r.append("\nType: ");
    let is_buy = side.unicode_len() == 1 && side.get_char(0) == 'B';
    proof {
        if is_buy {
            assert(side@ =~= "B"@);
        } else {
            assert(side@ != "B"@);
        }
    }
    if is_buy {
        r.append("BUY");
    } else {
        r.append("SELL");
    }
    r.append("\nPrice: $");
    r.append(px);
    proof {
        assert(r@ =~= spec_trade_alert_message(coin@, side@, px@, notional_usd_e16 as nat));
    }
    r
}

/// The uninterpreted content of `str::trim`: the string without its leading
/// and trailing whitespace.
pub uninterp spec fn trim_of(s: Seq<char>) -> Seq<char>;

/// Relies on str::trim: the string with leading and trailing whitespace
/// removed; the result depends on the characters alone.
#[verifier::external_body]
fn trimmed(s: &str) -> (r: String)
    ensures
        r@ == trim_of(s@),
{
    s.trim().to_string()
}

/// The canonical coin a subscribe or unsubscribe argument names: nothing if
/// the argument is blank.
pub fn normalize_coin_arg(arg: &str) -> (r: Option<String>)
    ensures
        match r {
            Some(coin) => trim_of(arg@).len() > 0 && coin@ == upper_of(trim_of(arg@)),
            None => trim_of(arg@).len() == 0,
        },
{
    let t = trimmed(arg);
    if t.as_str().unicode_len() == 0 {
        None
    } else {
        Some(canonical(t.as_str()))
    }
}

/// How a store or validator step of a command went.
pub enum StoreWrite {
    /// The row was created or removed.
    Applied,
    /// Nothing changed: the row already existed, or was never there.
    NoChange,
    /// The store failed; the command gets an apologetic reply.
    Failed,
}

/// How far a subscribe command came: rejected by the validator, stopped by a
/// failure, or written to the store.
pub enum SubscribeFlow {
    /// The validator does not know the coin.
    UnknownCoin,
    /// The validator could not answer.
    ValidatorFailed,
    /// The subscription was created.
    Stored,
    /// The user was already subscribed.
    AlreadyStored,
    /// The store failed.
    StoreFailed,
}

/// The reply to `/start`, and whether a subscription-change event for the
/// default coin must go to the coordinator: exactly when the automatic
/// subscription was created.
pub fn start_reply(outcome: &StoreWrite) -> (r: (String, bool))
    ensures
        outcome is Applied ==> r.0@
            == "Welcome to Hyperliquid Trade Alerts!\n\nYou've been automatically subscribed to BTC trades.\n\nUse /subscribe <coin> to add more coins!"@
            && r.1,
        outcome is NoChange ==> r.0@
            == "Welcome back to Hyperliquid Trade Alerts!\n\nUse /subscribe <coin> to add more subscriptions!"@
            && !r.1,
        outcome is Failed ==> r.0@
            == "Welcome to Hyperliquid Trade Alerts!\n\nUse /subscribe <coin> to get started!"@
            && !r.1,
{
    match outcome {
        StoreWrite::Applied => (
            String::from_str(
                "Welcome to Hyperliquid Trade Alerts!\n\nYou've been automatically subscribed to BTC trades.\n\nUse /subscribe <coin> to add more coins!",
            ),
            true,
        ),
        StoreWrite::NoChange => (
            String::from_str(
                "Welcome back to Hyperliquid Trade Alerts!\n\nUse /subscribe <coin> to add more subscriptions!",
            ),
            false,
        ),
        StoreWrite::Failed => (
            String::from_str(
                "Welcome to Hyperliquid Trade Alerts!\n\nUse /subscribe <coin> to get started!",
            ),
            false,
        ),
    }
}

/// The reply to `/subscribe <coin>` once validator and store have answered,
/// and whether a subscription-change event must go to the coordinator:
/// exactly when the subscription was created.
pub fn subscribe_reply(coin: &str, flow: &SubscribeFlow) -> (r: (String, bool))
    ensures
        flow is Stored ==> r.0@ == "Successfully subscribed to "@ + coin@ + " trades!"@ && r.1,
        flow is AlreadyStored ==> r.0@ == "You're already subscribed to "@ + coin@ + " trades."@
            && !r.1,
        flow is UnknownCoin ==> r.0@ == coin@
            + " is not available on Hyperliquid. Use /help to see valid coins."@ && !r.1,
        flow is ValidatorFailed ==> r.0@
            == "Sorry, there was an error validating the coin. Please try again."@ && !r.1,
        flow is StoreFailed ==> r.0@ == "Sorry, there was an error. Please try again."@ && !r.1,
{
    match flow {
        SubscribeFlow::Stored => {
            let mut m = String::from_str("Successfully subscribed to ");
            m.append(coin);
            m.append(" trades!");
            proof {
                assert(m@ =~= "Successfully subscribed to "@ + coin@ + " trades!"@);
            }
            (m, true)
        }
        SubscribeFlow::AlreadyStored => {
            let mut m = String::from_str("You're already subscribed to ");
            m.append(coin);
            m.append(" trades.");
            proof {
                assert(m@ =~= "You're already subscribed to "@ + coin@ + " trades."@);
            }
            (m, false)
        }
        SubscribeFlow::UnknownCoin => {
            let mut m = String::from_str(coin);
            m.append(" is not available on Hyperliquid. Use /help to see valid coins.");
            proof {
                assert(m@ =~= coin@
                    + " is not available on Hyperliquid. Use /help to see valid coins."@);
            }
            (m, false)
        }
        SubscribeFlow::ValidatorFailed => (
            String::from_str("Sorry, there was an error validating the coin. Please try again."),
            false,
        ),
        SubscribeFlow::StoreFailed => (
            String::from_str("Sorry, there was an error. Please try again."),
            false,
        ),
    }
}

/// The reply to `/unsubscribe <coin>` once the store has answered.
pub fn unsubscribe_reply(coin: &str, outcome: &StoreWrite) -> (r: String)
    ensures
        outcome is Applied ==> r@ == "Successfully unsubscribed from "@ + coin@ + " trades."@,
        outcome is NoChange ==> r@ == "You weren't subscribed to "@ + coin@ + " trades."@,
        outcome is Failed ==> r@ == "Sorry, there was an error. Please try again."@,
{
    match outcome {
        StoreWrite::Applied => {
            let mut m = String::from_str("Successfully unsubscribed from ");
            m.append(coin);
            m.append(" trades.");
            proof {
                assert(m@ =~= "Successfully unsubscribed from "@ + coin@ + " trades."@);
            }
            m
        }
        StoreWrite::NoChange => {
            let mut m = String::from_str("You weren't subscribed to ");
            m.append(coin);
            m.append(" trades.");
            proof {
                assert(m@ =~= "You weren't subscribed to "@ + coin@ + " trades."@);
            }
            m
        }
        StoreWrite::Failed => String::from_str("Sorry, there was an error. Please try again."),
    }
}

/// The tail of a comma-joined list: a separator before each further coin.
pub open spec fn spec_join_rest(coins: Seq<Seq<char>>) -> Seq<char>
    decreases coins.len(),
{
    if coins.len() == 0 {
        Seq::empty()
    } else {
        ", "@ + coins[0] + spec_join_rest(coins.drop_first())
    }
}

/// The coins joined with `, `.
pub open spec fn spec_join(coins: Seq<Seq<char>>) -> Seq<char> {
    if coins.len() == 0 {
        Seq::empty()
    } else {
        coins[0] + spec_join_rest(coins.drop_first())
    }
}

/// Joins the coins with `, `.
pub fn join_coins(coins: &Vec<String>) -> (r: String)
    ensures
        r@ == spec_join(coins.deep_view()),
{
    let mut r = String::new();
    if coins.len() == 0 {
        proof {
            assert(r@ =~= spec_join(coins.deep_view()));
        }
        return r;
    }
    r.append(coins[0].as_str());
    let mut i: usize = 1;
    proof {
        assert(coins.deep_view().skip(1) =~= coins.deep_view().drop_first());
        assert(r@ + spec_join_rest(coins.deep_view().skip(1)) =~= spec_join(coins.deep_view()));
    }
    while i < coins.len()
        invariant
            1 <= i <= coins.len(),
            coins.deep_view().len() == coins.len(),
            r@ + spec_join_rest(coins.deep_view().skip(i as int)) == spec_join(coins.deep_view()),
        decreases coins.len() - i,
    {
        let ghost before = r@;
        r.append(", ");
        r.append(coins[i].as_str());
        proof {
            let cs = coins.deep_view();
            assert(cs.skip(i as int).drop_first() =~= cs.skip(i + 1));
            assert(cs.skip(i as int)[0] == cs[i as int]);
            assert(spec_join_rest(cs.skip(i as int)) == ", "@ + cs[i as int] + spec_join_rest(
                cs.skip(i + 1),
            ));
            assert(r@ + spec_join_rest(cs.skip(i + 1)) =~= before + spec_join_rest(
                cs.skip(i as int),
            ));
        }
        i = i + 1;
    }
    proof {
        assert(coins.deep_view().skip(coins.len() as int) =~= Seq::<Seq<char>>::empty());
        assert(r@ + spec_join_rest(Seq::empty()) =~= r@);
    }
    r
}

/// The reply to `/list`: the user's coins joined with `, `, a nudge if there
/// are none, an apology if the store failed.
pub fn list_reply(coins: &Option<Vec<String>>) -> (r: String)
    ensures
        match coins {
            Some(cs) => if cs@.len() == 0 {
                r@ == "You're not subscribed to any coins.\n\nUse /subscribe <coin> to get started!"@
            } else {
                r@ == "Your Subscriptions:\n\n"@ + spec_join(cs.deep_view())
            },
            None => r@
                == "Sorry, there was an error retrieving your subscriptions. Please try again."@,
        },
{
    match coins {
        Some(cs) => {
            if cs.len() == 0 {
                String::from_str(
                    "You're not subscribed to any coins.\n\nUse /subscribe <coin> to get started!",
                )
            } else {
                let mut m = String::from_str("Your Subscriptions:\n\n");
                let joined = join_coins(cs);
                m.append(joined.as_str());
                proof {
                    assert(m@ =~= "Your Subscriptions:\n\n"@ + spec_join(cs.deep_view()));
                }
                m
            }
        }
        None => String::from_str(
            "Sorry, there was an error retrieving your subscriptions. Please try again.",
        ),
    }
}

/// The reply to a blank `/subscribe`.
pub fn subscribe_usage_reply() -> (r: String)
    ensures
        r@ == "Please specify a coin. Example: /subscribe ETH"@,
{
    String::from_str("Please specify a coin. Example: /subscribe ETH")
}

/// The reply to a blank `/unsubscribe`.
pub fn unsubscribe_usage_reply() -> (r: String)
    ensures
        r@ == "Please specify a coin. Example: /unsubscribe ETH"@,
{
    String::from_str("Please specify a coin. Example: /unsubscribe ETH")
}

/// The `/help` text.
pub fn help_reply() -> (r: String)
    ensures
        r@
            == "Hyperliquid Trade Alerts Help\n\nI monitor large trades ($50,000+) on Hyperliquid and send you notifications.\n\nAvailable Commands:\n/start - Get started and subscribe to BTC\n/subscribe <coin> - Subscribe to a coin (e.g. /subscribe ETH)\n/unsubscribe <coin> - Unsubscribe from a coin\n/list - Show your current subscriptions\n/help - Show this help message\n\nExamples:\n/subscribe SOL - Get SOL trade alerts\n/unsubscribe BTC - Stop BTC trade alerts\n/list - See all your subscriptions"@,
{
    String::from_str(
        "Hyperliquid Trade Alerts Help\n\nI monitor large trades ($50,000+) on Hyperliquid and send you notifications.\n\nAvailable Commands:\n/start - Get started and subscribe to BTC\n/subscribe <coin> - Subscribe to a coin (e.g. /subscribe ETH)\n/unsubscribe <coin> - Unsubscribe from a coin\n/list - Show your current subscriptions\n/help - Show this help message\n\nExamples:\n/subscribe SOL - Get SOL trade alerts\n/unsubscribe BTC - Stop BTC trade alerts\n/list - See all your subscriptions",
    )
}

} // verus!
