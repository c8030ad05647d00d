//! The coordinator: the single control loop's decisions. It merges two event
//! sources — trade records from the active streaming connections and
//! subscription-change notices from the command interface — applies the
//! notional-value filter, fans out one notification per subscriber, and tears
//! a feed down on the first trade that finds the symbol without subscribers.
//! The surrounding loop performs the I/O: it feeds events in and carries the
//! returned actions out.
use vstd::prelude::*;

verus! {

use crate::decimal::spec_notional_e16;
use crate::decimal::spec_meets_threshold;
use crate::decimal::ten_pow;
use crate::market::UserSubscription;
use crate::market::WsTrade;
use crate::registry::FeedRegistry;
use crate::registry::distinct_syms;
use crate::registry::spec_ensure;
use crate::registry::spec_stop;
use crate::symbol::canonical;
use crate::symbol::upper_of;

/// A subscription-change notice from the command interface: ensure a feed
/// exists for the coin.
#[derive(Clone, Debug)]
pub enum SubscriptionEvent {
    UserSubscribed { coin: String },
}

/// One notification request handed to the sender: deliver one formatted
/// message about this trade to this chat.
#[derive(Clone, Debug)]
pub struct Notification {
    pub chat_id: i64,
    pub coin: String,
    pub side: String,
    pub px: String,
    pub notional_usd_e16: u128,
}

/// What the control loop must do after a trade event.
pub enum TradeAction {
    /// No subscriber wants the symbol: its feed entry was dropped, and the
    /// connection (if one existed) is to be cancelled. No notification goes
    /// out.
    StopFeed { coin: String, feed_existed: bool },
    /// Price or size is no decimal string: the trade is skipped.
    Invalid,
    /// The notional value is below the threshold: the trade is dropped.
    Discard,
    /// Dispatch each of these, independently; one failure must not block the
    /// others.
    Notify { notifications: Vec<Notification> },
}

/// The shape of the decision a trade demands: first the subscriber check
/// (teardown wins over everything), then parseability, then the value filter.
pub enum TradeDecision {
    StopFeed,
    Invalid,
    Discard,
    Notify,
}

/// The coordinator's decision for a trade, from the number of current
/// subscribers, the trade's price and size strings and the threshold.
pub open spec fn spec_decide(
    subscriber_count: nat,
    px: Seq<char>,
    sz: Seq<char>,
    min_e8: u64,
) -> TradeDecision {
    if subscriber_count == 0 {
        TradeDecision::StopFeed
    } else if spec_notional_e16(px, sz) is None {
        TradeDecision::Invalid
    } else if !spec_meets_threshold(px, sz, min_e8) {
        TradeDecision::Discard
    } else {
        TradeDecision::Notify
    }
}

/// The notification `n` is the one owed to subscriber `sub` for `trade`.
pub open spec fn notification_matches(n: Notification, sub: UserSubscription, trade: WsTrade) -> bool {
    &&& n.chat_id == sub.telegram_chat_id
    &&& n.coin == trade.coin
    &&& n.side == trade.side
    &&& n.px == trade.px
    &&& Some(n.notional_usd_e16 as int) == spec_notional_e16(trade.px@, trade.sz@)
}

/// The registry contents and the started-symbol list after ensuring a feed
/// for every symbol of the list in turn, front first.
pub open spec fn spec_ensure_all(
    feeds: Seq<Seq<char>>,
    syms: Seq<Seq<char>>,
) -> (Seq<Seq<char>>, Seq<Seq<char>>)
    decreases syms.len(),
{
    if syms.len() == 0 {
        (feeds, Seq::empty())
    } else {
        let first = spec_ensure(feeds, syms[0]);
        let rest = spec_ensure_all(first.0, syms.drop_first());
        (rest.0, if first.1 {
            seq![syms[0]] + rest.1
        } else {
            rest.1
        })
    }
}

/// The coordinator's state: the feed registry and the configured minimum
/// notional value (in units of 10^-8 dollars) a trade must reach to be
/// announced.
pub struct TradeCoordinator {
    registry: FeedRegistry,
    min_trade_value_usd_e8: u64,
}

impl TradeCoordinator {
    /// Well-formed: the registry holds each symbol at most once.
    pub closed spec fn wf(&self) -> bool {
        self.registry.wf()
    }

    /// The symbols with a live feed.
    pub closed spec fn feeds(&self) -> Seq<Seq<char>> {
        self.registry@
    }

    /// A live feed exists for this symbol.
    pub closed spec fn active(&self, sym: Seq<char>) -> bool {
        self.registry.active(sym)
    }

    /// The configured minimum notional value, in units of 10^-8 dollars.
    pub closed spec fn threshold_e8(&self) -> u64 {
        self.min_trade_value_usd_e8
    }

    /// A coordinator with no feeds yet and the given threshold.
    pub fn new(min_trade_value_usd_e8: u64) -> (c: TradeCoordinator)
        ensures
            c.wf(),
            c.feeds() == Seq::<Seq<char>>::empty(),
            c.threshold_e8() == min_trade_value_usd_e8,
    {
        TradeCoordinator { registry: FeedRegistry::new(), min_trade_value_usd_e8 }
    }

    /// A live feed exists for the canonical form of this coin.
    pub fn is_feed_active(&self, coin: &str) -> (b: bool)
        ensures
            b == self.active(upper_of(coin@)),
    {
        let sym = canonical(coin);
        self.registry.is_active(&sym)
    }

    /// Ensures a feed entry exists for the coin's canonical form; returns
    /// whether the caller must start a streaming connection for it. A second
    /// identical call is a no-op.
    pub fn check_coin_subscription(&mut self, coin: &str) -> (started: bool)
        requires
            old(self).wf(),
        ensures
            final(self).wf(),
            final(self).threshold_e8() == old(self).threshold_e8(),
            (final(self).feeds(), started) == spec_ensure(old(self).feeds(), upper_of(coin@)),
    {
        let sym = canonical(coin);
        self.registry.ensure(sym)
    }

    /// Applies one subscription-change notice: ensure a feed for its coin.
    pub fn handle_subscription_event(&mut self, event: &SubscriptionEvent) -> (started: bool)
        requires
            old(self).wf(),
        ensures
            final(self).wf(),
            final(self).threshold_e8() == old(self).threshold_e8(),
            match event {
                SubscriptionEvent::UserSubscribed { coin } => (final(self).feeds(), started)
                    == spec_ensure(old(self).feeds(), upper_of(coin@)),
            },
    {
        match event {
            SubscriptionEvent::UserSubscribed { coin } => self.check_coin_subscription(
                coin.as_str(),
            ),
        }
    }

    /// Startup: ensures a feed for every symbol that already has a subscriber
    /// in the persisted store, front first; returns the symbols whose
    /// connection must now be started, in order, each at most once.
    pub fn start_feeds(&mut self, active_coins: &Vec<String>) -> (started: Vec<String>)
        requires
            old(self).wf(),
        ensures
            final(self).wf(),
            final(self).threshold_e8() == old(self).threshold_e8(),
            (final(self).feeds(), started.deep_view()) == spec_ensure_all(
                old(self).feeds(),
                active_coins.deep_view().map_values(|c: Seq<char>| upper_of(c)),
            ),
    {
        let ghost syms = active_coins.deep_view().map_values(|c: Seq<char>| upper_of(c));
        let ghost whole = spec_ensure_all(old(self).feeds(), syms);
        let mut started: Vec<String> = Vec::new();
        let mut i: usize = 0;
        proof {
            assert(syms.skip(0) =~= syms);
            assert(started.deep_view() =~= Seq::<Seq<char>>::empty());
            assert(whole.1 =~= started.deep_view() + whole.1);
        }
        while i < active_coins.len()
            invariant
                i <= active_coins.len(),
                syms.len() == active_coins.len(),
                syms == active_coins.deep_view().map_values(|c: Seq<char>| upper_of(c)),
                whole == spec_ensure_all(old(self).feeds(), syms),
                self.wf(),
                self.threshold_e8() == old(self).threshold_e8(),
                whole.0 == spec_ensure_all(self.feeds(), syms.skip(i as int)).0,
                whole.1 =~= started.deep_view() + spec_ensure_all(
                    self.feeds(),
                    syms.skip(i as int),
                ).1,
            decreases active_coins.len() - i,
        {
            let sym = canonical(active_coins[i].as_str());
            let sym_copy = sym.clone();
            let ghost feeds_before = self.feeds();
            proof {
                assert(syms.skip(i as int)[0] == syms[i as int]);
                assert(syms[i as int] == upper_of(active_coins.deep_view()[i as int]));
                assert(active_coins.deep_view()[i as int] == active_coins@[i as int]@);
                assert(syms.skip(i as int).drop_first() =~= syms.skip(i + 1));
            }
            let st = self.registry.ensure(sym);
            if st {
                let ghost started_before = started.deep_view();
                started.push(sym_copy);
                proof {
                    assert(started.deep_view() =~= started_before.push(syms[i as int]));
                    assert(started.deep_view() =~= started_before + seq![syms[i as int]]);
                }
            }
            i = i + 1;
        }
        proof {
            assert(syms.skip(active_coins.len() as int) =~= Seq::<Seq<char>>::empty());
            assert(whole.1 =~= started.deep_view());
        }
        started
    }

    /// Processes one trade: looks at the current subscribers of its symbol,
    /// stops the feed if nobody is left, drops unparseable and
    /// below-threshold trades, and otherwise produces one notification per
    /// subscriber.
    pub fn process_trade(
        &mut self,
        trade: &WsTrade,
        subscribers: &Vec<UserSubscription>,
    ) -> (action: TradeAction)
        requires
            old(self).wf(),
        ensures
            final(self).wf(),
            final(self).threshold_e8() == old(self).threshold_e8(),
            subscribers@.len() == 0 ==> (action matches TradeAction::StopFeed {
                coin,
                feed_existed,
            } && coin@ == upper_of(trade.coin@) && (final(self).feeds(), feed_existed)
                == spec_stop(old(self).feeds(), upper_of(trade.coin@))),
            subscribers@.len() > 0 ==> final(self).feeds() == old(self).feeds(),
            subscribers@.len() > 0 && spec_decide(
                subscribers@.len(),
                trade.px@,
                trade.sz@,
                old(self).threshold_e8(),
            ) is Invalid ==> action is Invalid,
            subscribers@.len() > 0 && spec_decide(
                subscribers@.len(),
                trade.px@,
                trade.sz@,
                old(self).threshold_e8(),
            ) is Discard ==> action is Discard,
            spec_decide(
                subscribers@.len(),
                trade.px@,
                trade.sz@,
                old(self).threshold_e8(),
            ) is Notify ==> (action matches TradeAction::Notify { notifications }
                && notifications@.len() == subscribers@.len() && forall|k: int|
                0 <= k < subscribers@.len() ==> notification_matches(
                    #[trigger] notifications@[k],
                    subscribers@[k],
                    *trade,
                )),
    {
        if subscribers.len() == 0 {
            let sym = canonical(trade.coin.as_str());
            let existed = self.registry.stop(&sym);
            return TradeAction::StopFeed { coin: sym, feed_existed: existed };
        }
        match crate::decimal::notional_e16(trade.px.as_str(), trade.sz.as_str()) {
            None => TradeAction::Invalid,
            Some(v) => {
                proof {
                    crate::decimal::lemma_ten_pow_values();
                }
                if v < (self.min_trade_value_usd_e8 as u128) * 100000000 {
                    TradeAction::Discard
                } else {
                    let mut notifications: Vec<Notification> = Vec::new();
                    let mut k: usize = 0;
                    while k < subscribers.len()
                        invariant
                            k <= subscribers.len(),
                            notifications@.len() == k,
                            Some(v as int) == spec_notional_e16(trade.px@, trade.sz@),
                            forall|m: int|
                                0 <= m < k ==> notification_matches(
                                    #[trigger] notifications@[m],
                                    subscribers@[m],
                                    *trade,
                                ),
                        decreases subscribers.len() - k,
                    {
                        let n = Notification {
                            chat_id: subscribers[k].telegram_chat_id,
                            coin: trade.coin.clone(),
                            side: trade.side.clone(),
                            px: trade.px.clone(),
                            notional_usd_e16: v,
                        };
                        notifications.push(n);
                        k = k + 1;
                    }
                    TradeAction::Notify { notifications }
                }
            }
        }
    }
}

/// Law: a trade whose notional value is below the threshold never leads to a
/// notification dispatch, whatever the subscribers.
pub proof fn lemma_below_threshold_no_dispatch(
    subscriber_count: nat,
    px: Seq<char>,
    sz: Seq<char>,
    min_e8: u64,
    v: int,
)
    requires
        spec_notional_e16(px, sz) == Some(v),
        v < min_e8 * ten_pow(8),
    ensures
        !(spec_decide(subscriber_count, px, sz, min_e8) is Notify),
{
}

/// Law: a trade for a symbol with zero current subscribers decides on exactly
/// one feed stop and zero notification dispatches, whatever the trade says.
pub proof fn lemma_zero_subscribers_stop(px: Seq<char>, sz: Seq<char>, min_e8: u64)
    ensures
        spec_decide(0, px, sz, min_e8) is StopFeed,
{
}

/// Law: ensuring feeds for a list of symbols makes every one of them active,
/// and keeps every feed that was active before.
pub proof fn lemma_ensure_all_covers(feeds: Seq<Seq<char>>, syms: Seq<Seq<char>>)
    ensures
        forall|k: int| 0 <= k < syms.len() ==> spec_ensure_all(feeds, syms).0.contains(
            #[trigger] syms[k],
        ),
        forall|s: Seq<char>| feeds.contains(s) ==> spec_ensure_all(feeds, syms).0.contains(s),
    decreases syms.len(),
{
    if syms.len() > 0 {
        let first = spec_ensure(feeds, syms[0]);
        lemma_ensure_all_covers(first.0, syms.drop_first());
        assert(first.0.contains(syms[0])) by {
            if !feeds.contains(syms[0]) {
                assert(first.0[feeds.len() as int] == syms[0]);
            }
        }
        assert forall|s: Seq<char>| feeds.contains(s) implies first.0.contains(s) by {
            if !feeds.contains(syms[0]) {
                let k = choose|k: int| 0 <= k < feeds.len() && feeds[k] == s;
                assert(first.0[k] == s);
            }
        }
        assert forall|k: int| 0 <= k < syms.len() implies spec_ensure_all(feeds, syms).0.contains(
            syms[k],
        ) by {
            if k == 0 {
                assert(spec_ensure_all(first.0, syms.drop_first()).0.contains(syms[0]));
            } else {
                assert(syms.drop_first()[k - 1] == syms[k]);
            }
        }
    }
}

/// Law: ensuring feeds for a list of symbols keeps the registry free of
/// duplicates, and starts each symbol at most once: every started symbol had
/// no feed before, ends with one, and stands in the started list exactly
/// once.
pub proof fn lemma_ensure_all_starts_each_once(feeds: Seq<Seq<char>>, syms: Seq<Seq<char>>)
    requires
        distinct_syms(feeds),
    ensures
        distinct_syms(spec_ensure_all(feeds, syms).0),
        distinct_syms(spec_ensure_all(feeds, syms).1),
        forall|k: int| 0 <= k < spec_ensure_all(feeds, syms).1.len() ==> !feeds.contains(
            #[trigger] spec_ensure_all(feeds, syms).1[k],
        ) && spec_ensure_all(feeds, syms).0.contains(spec_ensure_all(feeds, syms).1[k]),
    decreases syms.len(),
{
    if syms.len() > 0 {
        let first = spec_ensure(feeds, syms[0]);
        let rest = spec_ensure_all(first.0, syms.drop_first());
        assert(distinct_syms(first.0)) by {
            if !feeds.contains(syms[0]) {
                assert forall|i: int, j: int|
                    0 <= i < j < first.0.len() implies first.0[i] != first.0[j] by {
                    if j < feeds.len() {
                    } else {
                        assert(first.0[j] == syms[0]);
                        if first.0[i] == syms[0] {
                            assert(feeds.contains(syms[0]));
                        }
                    }
                }
            }
        }
        lemma_ensure_all_starts_each_once(first.0, syms.drop_first());
        lemma_ensure_all_covers(first.0, syms.drop_first());
        if first.1 {
            assert(first.0[feeds.len() as int] == syms[0]);
            assert(first.0.contains(syms[0]));
            let whole = spec_ensure_all(feeds, syms);
            assert(whole.1 =~= seq![syms[0]] + rest.1);
            assert forall|i: int, j: int|
                0 <= i < j < whole.1.len() implies whole.1[i] != whole.1[j] by {
                if i == 0 {
                    assert(whole.1[j] == rest.1[j - 1]);
                    if whole.1[j] == syms[0] {
                        assert(!first.0.contains(rest.1[j - 1]));
                    }
                } else {
                    assert(whole.1[i] == rest.1[i - 1]);
                    assert(whole.1[j] == rest.1[j - 1]);
                }
            }
            assert forall|k: int| 0 <= k < whole.1.len() implies !feeds.contains(
                whole.1[k],
            ) && whole.0.contains(whole.1[k]) by {
                if k == 0 {
                    assert(whole.0.contains(syms[0]));
                } else {
                    assert(whole.1[k] == rest.1[k - 1]);
                    assert(!first.0.contains(rest.1[k - 1]));
                    if feeds.contains(rest.1[k - 1]) {
                        let m = choose|m: int|
                            0 <= m < feeds.len() && feeds[m] == rest.1[k - 1];
                        assert(first.0[m] == rest.1[k - 1]);
                    }
                }
            }
        } else {
            let whole = spec_ensure_all(feeds, syms);
            assert(whole.1 == rest.1);
            assert(first.0 == feeds);
        }
    }
}

} // verus!
