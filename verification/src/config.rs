//! The risk limits: fixed when the engine is built, never changed after.

use crate::rules::Limits;
use crate::table::AssetTable;
use vstd::prelude::*;

verus! {

/// Thresholds by asset, the whitelist, and what the engine starts with.
pub struct RisklyConfig {
    /// The largest absolute position by asset.
    pub max_position_per_asset: AssetTable,
    /// The largest single trade by asset.
    pub max_trade_size: AssetTable,
    /// The largest traded volume by asset and day.
    pub max_daily_volume: AssetTable,
    /// The largest share of the portfolio's value by asset.
    pub max_allocation_per_asset_pct: AssetTable,
    /// The assets that may be traded.
    pub allowed_assets: Vec<String>,
    /// How many units of an amount make one whole: 1 for whole units,
    /// 1_000_000 for six decimal places. At least 1.
    pub scale: i64,
    /// The largest slippage; kept for price-impact checks, read by no check yet.
    pub max_slippage_pct: i64,
    /// Whether trading starts enabled.
    pub trading_enabled: bool,
    /// Where the transport listens; the engine does not read it.
    pub listen_address: String,
}

/// The symbols that a list names.
pub open spec fn symbols(list: Seq<String>) -> Set<Seq<char>> {
    Set::new(|symbol: Seq<char>| exists|i: int| 0 <= i < list.len() && #[trigger] list[i]@ == symbol)
}

impl RisklyConfig {
    /// Each table holds at most one threshold per asset.
    pub open spec fn wf(&self) -> bool {
        &&& self.max_position_per_asset.wf()
        &&& self.max_trade_size.wf()
        &&& self.max_daily_volume.wf()
        &&& self.max_allocation_per_asset_pct.wf()
        &&& self.scale >= 1
    }

    /// The limits as mathematics.
    pub open spec fn limits(&self) -> Limits {
        Limits {
            max_position: self.max_position_per_asset@,
            max_trade_size: self.max_trade_size@,
            max_daily_volume: self.max_daily_volume@,
            max_allocation: self.max_allocation_per_asset_pct@,
            allowed: symbols(self.allowed_assets@),
            scale: self.scale as int,
        }
    }

    /// A configuration without limits, with an empty whitelist, and with
    /// amounts in whole units.
    pub fn new(trading_enabled: bool) -> (config: RisklyConfig)
        ensures
            config.wf(),
            config.limits().max_position == Map::<Seq<char>, int>::empty(),
            config.limits().max_trade_size == Map::<Seq<char>, int>::empty(),
            config.limits().max_daily_volume == Map::<Seq<char>, int>::empty(),
            config.limits().max_allocation == Map::<Seq<char>, int>::empty(),
            config.limits().allowed == Set::<Seq<char>>::empty(),
            config.scale == 1,
            config.trading_enabled == trading_enabled,
            config.max_slippage_pct == 0,
    {
        let config = RisklyConfig {
            max_position_per_asset: AssetTable::new(),
            max_trade_size: AssetTable::new(),
            max_daily_volume: AssetTable::new(),
            max_allocation_per_asset_pct: AssetTable::new(),
            allowed_assets: Vec::new(),
            scale: 1,
            max_slippage_pct: 0,
            trading_enabled,
            listen_address: String::new(),
        };
        assert(config.limits().allowed =~= Set::<Seq<char>>::empty());
        config
    }

    /// Puts `asset` on the whitelist.
    pub fn allow(&mut self, asset: String)
        ensures
            final(self).limits() == (Limits {
                allowed: old(self).limits().allowed.insert(asset@),
                ..old(self).limits()
            }),
            final(self).wf() == old(self).wf(),
            final(self).trading_enabled == old(self).trading_enabled,
            final(self).max_slippage_pct == old(self).max_slippage_pct,
            final(self).scale == old(self).scale,
            final(self).listen_address == old(self).listen_address,
    {
        let ghost before = self.allowed_assets@;
        let ghost symbol = asset@;
        self.allowed_assets.push(asset);
        proof {
            let after = self.allowed_assets@;
            assert(after[before.len() as int]@ == symbol);
            assert forall|k: Seq<char>| symbols(after).contains(k) == symbols(before).insert(
                symbol,
            ).contains(k) by {
                if symbols(before).contains(k) {
                    let i = choose|i: int| 0 <= i < before.len() && #[trigger] before[i]@ == k;
                    assert(after[i]@ == k);
                }
                if symbols(after).contains(k) {
                    let i = choose|i: int| 0 <= i < after.len() && #[trigger] after[i]@ == k;
                    if i < before.len() {
                        assert(before[i]@ == k);
                    }
                }
            }
            assert(symbols(after) =~= symbols(before).insert(symbol));
        }
    }

    /// Whether `asset` is on the whitelist.
    pub fn is_allowed(&self, asset: &String) -> (allowed: bool)
        ensures
            allowed == self.limits().allowed.contains(asset@),
    {
        let mut i: usize = 0;
        while i < self.allowed_assets.len()
            invariant
                i <= self.allowed_assets@.len(),
                forall|j: int| 0 <= j < i ==> (#[trigger] self.allowed_assets@[j])@ != asset@,
            decreases self.allowed_assets@.len() - i,
        {
            if self.allowed_assets[i] == *asset {
                return true;
            }
            i += 1;
        }
        false
    }
}

} // verus!
