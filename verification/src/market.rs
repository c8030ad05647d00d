//! Data carried between the exchange, the persisted subscription store and
//! the coordinator: trade records, asset metadata, and the cached set of
//! tradable symbols with its refresh policy.
use vstd::prelude::*;

verus! {

use crate::decimal::spec_notional_e16;
use crate::symbol::upper_of;
use crate::symbol::canonical;

/// How long a fetched set of tradable symbols stays fresh, in milliseconds
/// (six hours).
pub const COIN_CACHE_TTL_MS: u64 = 21600000;

/// One trade from a symbol's stream: side is "B" for a buy, anything else is
/// a sell; price and size are decimal strings as the exchange sends them.
#[derive(Clone, Debug)]
pub struct WsTrade {
    pub coin: String,
    pub side: String,
    pub px: String,
    pub sz: String,
}

impl WsTrade {
    /// The notional value of the trade in units of 10^-16 dollars, or nothing
    /// if price or size is no decimal string.
    pub fn notional_usd_e16(&self) -> (r: Option<u128>)
        ensures
            match r {
                Some(v) => spec_notional_e16(self.px@, self.sz@) == Some(v as int),
                None => spec_notional_e16(self.px@, self.sz@) is None,
            },
    {
        crate::decimal::notional_e16(self.px.as_str(), self.sz.as_str())
    }
}

/// One row of the persisted subscription store.
#[derive(Clone, Debug)]
pub struct UserSubscription {
    pub telegram_user_id: i64,
    pub telegram_chat_id: i64,
    pub coin: String,
}

/// The body of the metadata request that fetches the tradable symbols.
pub struct InfoRequest {
    pub request_type: String,
}

/// One asset of the exchange's metadata response.
#[derive(Clone, Debug)]
pub struct AssetInfo {
    pub name: String,
    pub is_delisted: Option<bool>,
}

/// The metadata response: the universe of listed assets.
#[derive(Clone, Debug)]
pub struct MetaAndAssetCtxsResponse {
    pub universe: Vec<AssetInfo>,
}

/// An asset the exchange no longer lists.
pub open spec fn spec_delisted(a: AssetInfo) -> bool {
    a.is_delisted == Some(true)
}

/// The canonical name of some still-listed asset of the universe.
pub open spec fn spec_coin_from_universe(universe: Seq<AssetInfo>, c: Seq<char>) -> bool {
    exists|j: int|
        0 <= j < universe.len() && !spec_delisted(#[trigger] universe[j])
            && c == upper_of(universe[j].name@)
}

/// Whether a string sequence occurs in the vector.
fn contains_string(v: &Vec<String>, s: &String) -> (b: bool)
    ensures
        b == v.deep_view().contains(s@),
{
    let mut i: usize = 0;
    while i < v.len()
        invariant
            i <= v.len(),
            v.deep_view().len() == v.len(),
            forall|k: int| 0 <= k < i ==> v.deep_view()[k] != s@,
        decreases v.len() - i,
    {
        if v[i].eq(s) {
            proof {
                assert(v.deep_view()[i as int] == v@[i as int]@);
            }
            return true;
        }
        proof {
            assert(v.deep_view()[i as int] == v@[i as int]@);
        }
        i = i + 1;
    }
    false
}

/// The canonical names of the assets that are still listed, each once: the
/// set of symbols a user may subscribe to.
pub fn extract_valid_coins(universe: &Vec<AssetInfo>) -> (coins: Vec<String>)
    ensures
        forall|p: int, q: int|
            0 <= p < q < coins.deep_view().len() ==> coins.deep_view()[p] != coins.deep_view()[q],
        forall|k: int|
            0 <= k < coins.deep_view().len()
                ==> spec_coin_from_universe(universe@, #[trigger] coins.deep_view()[k]),
        forall|j: int|
            0 <= j < universe.len() && !spec_delisted(#[trigger] universe[j])
                ==> coins.deep_view().contains(upper_of(universe[j].name@)),
{
    let mut coins: Vec<String> = Vec::new();
    let mut j: usize = 0;
    while j < universe.len()
        invariant
            j <= universe.len(),
            coins.deep_view().len() == coins.len(),
            forall|p: int, q: int|
                0 <= p < q < coins.deep_view().len()
                    ==> coins.deep_view()[p] != coins.deep_view()[q],
            forall|k: int|
                0 <= k < coins.deep_view().len()
                    ==> spec_coin_from_universe(universe@, #[trigger] coins.deep_view()[k]),
            forall|i: int|
                0 <= i < j && !spec_delisted(#[trigger] universe[i])
                    ==> coins.deep_view().contains(upper_of(universe[i].name@)),
        decreases universe.len() - j,
    {
        let delisted = match universe[j].is_delisted {
            Some(b) => b,
            None => false,
        };
        if !delisted {
            let name = canonical(universe[j].name.as_str());
            if !contains_string(&coins, &name) {
                let ghost before = coins.deep_view();
                coins.push(name);
                proof {
                    assert(coins.deep_view() =~= before.push(upper_of(universe[j as int].name@)));
                    assert(!spec_delisted(universe@[j as int]));
                    assert(spec_coin_from_universe(universe@, upper_of(universe[j as int].name@)));
                    assert forall|i: int|
                        0 <= i < j + 1 && !spec_delisted(#[trigger] universe[i])
                            implies coins.deep_view().contains(upper_of(universe[i].name@)) by {
                        if i < j {
                            let k = choose|k: int|
                                0 <= k < before.len() && before[k] == upper_of(universe[i].name@);
                            assert(coins.deep_view()[k] == upper_of(universe[i].name@));
                        } else {
                            assert(coins.deep_view()[before.len() as int]
                                == upper_of(universe[i].name@));
                        }
                    }
                }
            }
        }
        j = j + 1;
    }
    coins
}

/// The point-in-time set of tradable symbols, refreshed from the exchange's
/// metadata at most every `COIN_CACHE_TTL_MS`. The fetch itself happens
/// outside; this type owns the freshness decision and the lookup.
#[derive(Clone, Debug)]
pub struct CoinCache {
    valid_coins: Vec<String>,
    last_fetched_ms: Option<u64>,
}

impl CoinCache {
    /// The cached symbols; meaningful only once a fetch was recorded.
    pub closed spec fn coins(&self) -> Seq<Seq<char>> {
        self.valid_coins.deep_view()
    }

    /// When the cache was last filled, if ever.
    pub closed spec fn fetched_at(&self) -> Option<u64> {
        self.last_fetched_ms
    }

    /// A cache that was never filled.
    pub fn new() -> (c: CoinCache)
        ensures
            c.fetched_at() is None,
    {
        CoinCache { valid_coins: Vec::new(), last_fetched_ms: None }
    }

    /// A never-filled or stale cache must be refreshed before it can answer.
    pub open spec fn spec_needs_refresh(&self, now_ms: u64) -> bool {
        match self.fetched_at() {
            None => true,
            Some(t) => now_ms >= t + COIN_CACHE_TTL_MS,
        }
    }

    /// Whether the cache must be refreshed before answering, at the given
    /// monotonic time.
    pub fn needs_refresh(&self, now_ms: u64) -> (b: bool)
        ensures
            b == self.spec_needs_refresh(now_ms),
    {
        match self.last_fetched_ms {
            None => true,
            Some(t) => now_ms >= t && now_ms - t >= COIN_CACHE_TTL_MS,
        }
    }

    /// Records a freshly fetched set of symbols at the given time.
    pub fn update(&mut self, coins: Vec<String>, now_ms: u64)
        ensures
            final(self).coins() == coins.deep_view(),
            final(self).fetched_at() == Some(now_ms),
    {
        self.valid_coins = coins;
        self.last_fetched_ms = Some(now_ms);
    }

    /// Whether the (canonical form of the) symbol is tradable according to the
    /// cached set.
    pub fn coin_exists(&self, coin: &str) -> (b: bool)
        ensures
            b == self.coins().contains(upper_of(coin@)),
    {
        let sym = canonical(coin);
        contains_string(&self.valid_coins, &sym)
    }
}

} // verus!
