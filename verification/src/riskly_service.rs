//! The engine itself: the limits, the state, and the operations on them.

use crate::amounts::{floor_div, weighted_cost};
use crate::config::RisklyConfig;
use crate::riskly_error::RisklyError;
use crate::rules::{
    early_refusal, exposure_refusal, order_as_trade, reserved_exposure, admission, after_order_request, after_price, after_removal, after_request, after_reset,
    amount_of, has_order, opening_book, order_verdict, orderable, orders_sound, place_of,
    price_fits, projected_allocation, projected_cost, projected_position, projected_volume,
    recordable, reports, reserved_for, sound, trade_verdict, unrealized, valuation,
    valuation_fits, with_gate, Book, Limits, OrderView, SIDE_BUY, SIDE_SELL,
};
use crate::table::pairs_with;
use crate::state::{duplicate_orders, order_views, OpenOrder, Trade, TradingState};
use vstd::prelude::*;

verus! {

/// Runs the checks that read neither position nor volume: the global gate,
/// the whitelist, the size of the trade, the side code.
pub fn early_checks(config: &RisklyConfig, state: &TradingState, trade: &Trade) -> (result: Result<
    (),
    RisklyError,
>)
    requires
        config.wf(),
    ensures
        reports(result, early_refusal(config.limits(), state.book(), trade@)),
{
    if !state.trading_enabled {
        return Err(RisklyError::TradingDisabled);
    }
    if !config.is_allowed(&trade.asset) {
        return Err(RisklyError::DisallowedAsset(trade.asset.clone()));
    }
    if let Some(max) = config.max_trade_size.get(&trade.asset) {
        if trade.quantity > max {
            return Err(RisklyError::TradeTooLarge(trade.quantity, max));
        }
    }
    if trade.side != SIDE_BUY && trade.side != SIDE_SELL {
        return Err(RisklyError::InvalidTradeSide(trade.side));
    }
    Ok(())
}

/// Runs the checks on what a trade with a valid side would leave behind,
/// counted on top of `exposure`: the position, the day's volume, the share
/// of the portfolio.
pub fn exposure_checks(config: &RisklyConfig, state: &TradingState, exposure: i64, trade: &Trade) -> (result:
    Result<(), RisklyError>)
    requires
        config.wf(),
        state.wf(),
        trade.wf(),
    ensures
        reports(result, exposure_refusal(config.limits(), state.book(), exposure as int, trade@)),
{
    let delta: i128 = if trade.side == SIDE_BUY {
        trade.quantity as i128
    } else {
        -(trade.quantity as i128)
    };
    let position: i128 = exposure as i128 + delta;
    assert(position == projected_position(exposure as int, trade@));
    if let Some(max) = config.max_position_per_asset.get(&trade.asset) {
        let size: i128 = if position < 0 {
            -position
        } else {
            position
        };
        if size > max as i128 {
            return Err(RisklyError::ExceedsMaxPosition(position, max, trade.asset.clone()));
        }
    }
    let volume: i128 = match state.daily_volume.get(&trade.asset) {
        Some(so_far) => so_far as i128 + trade.quantity as i128,
        None => trade.quantity as i128,
    };
    assert(volume == projected_volume(state.book(), trade@));
    if let Some(max) = config.max_daily_volume.get(&trade.asset) {
        if volume > max as i128 {
            return Err(RisklyError::ExceedsDailyVolume(volume, max, trade.asset.clone()));
        }
    }
    if state.portfolio_value_usd > 0 {
        if let Some(max) = config.max_allocation_per_asset_pct.get(&trade.asset) {
            let price: i128 = trade.price as i128;
            let whole: i128 = state.portfolio_value_usd as i128;
            let cap: i128 = max as i128;
            assert(-0x8000_0000_0000_0000_0000_0000_0000_0000 < position * price
                < 0x8000_0000_0000_0000_0000_0000_0000_0000) by (nonlinear_arith)
                requires
                    -0x1_0000_0000_0000_0000 <= position <= 0x1_0000_0000_0000_0000,
                    0 < price < 0x8000_0000_0000_0000,
            ;
            assert(-0x8000_0000_0000_0000_0000_0000_0000_0000 < cap * whole
                < 0x8000_0000_0000_0000_0000_0000_0000_0000) by (nonlinear_arith)
                requires
                    -0x8000_0000_0000_0000 <= cap < 0x8000_0000_0000_0000,
                    0 < whole < 0x8000_0000_0000_0000,
            ;
            if position * price > cap * whole {
                let share: i128 = floor_div(position * price, whole);
                assert(share == projected_allocation(state.book(), exposure as int, trade@));
                return Err(RisklyError::ExceedsMaxAllocation(share, max, trade.asset.clone()));
            }
        }
    }
    Ok(())
}

/// Runs the ordered checks on one trade against one view of the limits and
/// the state, counting the trade on top of `exposure`.
pub fn run_checks(config: &RisklyConfig, state: &TradingState, exposure: i64, trade: &Trade) -> (result:
    Result<(), RisklyError>)
    requires
        config.wf(),
        state.wf(),
        trade.wf(),
    ensures
        reports(result, admission(config.limits(), state.book(), exposure as int, trade@)),
{
    match early_checks(config, state, trade) {
        Err(error) => Err(error),
        Ok(_) => exposure_checks(config, state, exposure, trade),
    }
}

/// A change that leaves positions and volumes alone keeps the book sound.
proof fn lemma_amounts_kept(limits: Limits, before: Book, after: Book)
    requires
        sound(limits, before),
        after.positions == before.positions,
        after.daily_volume == before.daily_volume,
        after.cost_basis == before.cost_basis,
    ensures
        sound(limits, after),
{
}

/// A change that leaves the orders alone keeps their ids in order.
proof fn lemma_orders_kept(before: Book, after: Book)
    requires
        orders_sound(before),
        after.orders == before.orders,
        after.next_order_id == before.next_order_id,
    ensures
        orders_sound(after),
{
}

/// The engine: limits that never change, and the one state that admitted
/// trades update. Every operation that changes the state holds the engine
/// exclusively from its first check to its last write, so a check and the
/// change that follows it see the same state.
pub struct RisklyService {
    config: RisklyConfig,
    state: TradingState,
}

impl RisklyService {
    /// The limits that the engine was built with.
    pub closed spec fn limits(&self) -> Limits {
        self.config.limits()
    }

    /// The state as it stands.
    pub closed spec fn book(&self) -> Book {
        self.state.book()
    }

    /// The engine's invariant.
    pub closed spec fn wf(&self) -> bool {
        &&& self.config.wf()
        &&& self.state.wf()
        &&& sound(self.config.limits(), self.state.book())
        &&& orders_sound(self.state.book())
    }

    /// A well-formed gate has a sound book.
    pub proof fn lemma_sound(&self)
        requires
            self.wf(),
        ensures
            sound(self.limits(), self.book()),
            orders_sound(self.book()),
    {
    }

    /// Where the trade's asset has a position cap and a volume cap, the
    /// machine can always record the trade once it is admitted.
    pub proof fn lemma_capped_trade_fits(&self, trade: crate::rules::TradeView)
        requires
            self.wf(),
            trade_verdict(self.limits(), self.book(), trade) is None,
            self.limits().max_position.contains_key(trade.asset),
            self.limits().max_daily_volume.contains_key(trade.asset),
        ensures
            recordable(self.book(), trade),
    {
        self.config.max_position_per_asset.lemma_amounts_in_range(trade.asset);
        self.config.max_daily_volume.lemma_amounts_in_range(trade.asset);
    }

    /// An engine over `config`, with nothing traded yet and the global gate as
    /// the configuration says.
    pub fn new(config: RisklyConfig) -> (service: RisklyService)
        requires
            config.wf(),
        ensures
            service.wf(),
            service.limits() == config.limits(),
            service.book() == opening_book(config.trading_enabled),
            service.holdings() == Seq::<(Seq<char>, int)>::empty(),
    {
        let state = TradingState::new(config.trading_enabled);
        RisklyService { config, state }
    }

    /// Decides whether `trade` would be admitted now. Changes nothing.
    pub fn evaluate_trade(&self, trade: Trade) -> (result: Result<(), RisklyError>)
        requires
            self.wf(),
            trade.wf(),
        ensures
            reports(result, trade_verdict(self.limits(), self.book(), trade@)),
    {
        let exposure = self.position_of(&trade.asset);
        run_checks(&self.config, &self.state, exposure, &trade)
    }

    fn position_of(&self, asset: &String) -> (amount: i64)
        requires
            self.wf(),
        ensures
            amount == amount_of(self.book().positions, asset@),
    {
        match self.state.positions.get(asset) {
            Some(amount) => amount,
            None => 0,
        }
    }

    /// Whether [`RisklyService::add_trade`] may be called with `trade`: it
    /// is refused, or the machine can store what it would leave behind.
    pub fn can_record(&self, trade: &Trade) -> (ok: bool)
        requires
            self.wf(),
            trade.wf(),
        ensures
            ok == (trade_verdict(self.limits(), self.book(), trade@) is None ==> recordable(
                self.book(),
                trade@,
            )),
    {
        let exposure = self.position_of(&trade.asset);
        match run_checks(&self.config, &self.state, exposure, trade) {
            Err(_) => true,
            Ok(_) => {
                let position: i128 = exposure as i128;
                let next: i128 = if trade.side == SIDE_BUY {
                    position + trade.quantity as i128
                } else {
                    position - trade.quantity as i128
                };
                let volume: i128 = self.get_daily_volume(&trade.asset) as i128
                    + trade.quantity as i128;
                i64::MIN as i128 <= next && next <= i64::MAX as i128 && volume <= i64::MAX as i128
            },
        }
    }

    /// Checks `trade` and, if it is admitted, records it: both against the
    /// same state. Returns the snapshot to publish, or the refusal with the
    /// state untouched.
    pub fn add_trade(&mut self, trade: Trade) -> (result: Result<TradingState, RisklyError>)
        requires
            old(self).wf(),
            trade.wf(),
            trade_verdict(old(self).limits(), old(self).book(), trade@) is None ==> recordable(
                old(self).book(),
                trade@,
            ),
        ensures
            final(self).wf(),
            final(self).limits() == old(self).limits(),
            final(self).book() == after_request(old(self).limits(), old(self).book(), trade@),
            final(self).holdings() == (if trade_verdict(
                old(self).limits(),
                old(self).book(),
                trade@,
            ) is None {
                pairs_with(
                    old(self).holdings(),
                    trade@.asset,
                    projected_position(amount_of(old(self).book().positions, trade@.asset), trade@),
                )
            } else {
                old(self).holdings()
            }),
            match result {
                Ok(snapshot) => trade_verdict(old(self).limits(), old(self).book(), trade@) is None
                    && snapshot.wf() && snapshot.book() == final(self).book(),
                Err(error) => trade_verdict(old(self).limits(), old(self).book(), trade@) == Some(
                    error@,
                ),
            },
    {
        let exposure = self.position_of(&trade.asset);
        match run_checks(&self.config, &self.state, exposure, &trade) {
            Err(error) => Err(error),
            Ok(_) => {
                let position: i64 = if trade.side == SIDE_BUY {
                    exposure + trade.quantity
                } else {
                    exposure - trade.quantity
                };
                let volume: i64 = self.get_daily_volume(&trade.asset) + trade.quantity;
                let basis: i64 = match self.state.cost_basis.get(&trade.asset) {
                    Some(basis) => basis,
                    None => 0,
                };
                assert(basis >= 0) by {
                    let known = self.state.book().cost_basis;
                    assert(known.contains_key(trade.asset@) ==> known[trade.asset@] >= 0);
                }
                let cost: i64 = if position == 0 {
                    0
                } else if exposure == 0 || (exposure > 0) != (position > 0) {
                    trade.price
                } else if (exposure > 0 && trade.side == SIDE_BUY) || (exposure < 0 && trade.side
                    != SIDE_BUY) {
                    let held: i128 = if exposure < 0 {
                        -(exposure as i128)
                    } else {
                        exposure as i128
                    };
                    weighted_cost(held, basis, trade.quantity, trade.price)
                } else {
                    basis
                };
                assert(cost == projected_cost(old(self).state.book(), trade@));
                self.state.positions.put(trade.asset.clone(), position);
                self.state.daily_volume.put(trade.asset.clone(), volume);
                self.state.cost_basis.put(trade.asset.clone(), cost);
                proof {
                    lemma_orders_kept(old(self).state.book(), self.state.book());
                }
                Ok(self.state.snapshot())
            },
        }
    }

    /// A snapshot of the whole state.
    pub fn get_state(&self) -> (snapshot: TradingState)
        requires
            self.wf(),
        ensures
            snapshot.wf(),
            snapshot.book() == self.book(),
    {
        self.state.snapshot()
    }

    /// The net position in `asset`: zero where nothing was traded.
    pub fn get_current_position(&self, asset: &String) -> (amount: i64)
        requires
            self.wf(),
        ensures
            amount == amount_of(self.book().positions, asset@),
    {
        self.position_of(asset)
    }

    /// The quantity traded in `asset` since the last reset.
    pub fn get_daily_volume(&self, asset: &String) -> (amount: i64)
        requires
            self.wf(),
        ensures
            amount == amount_of(self.book().daily_volume, asset@),
            amount >= 0,
    {
        match self.state.daily_volume.get(asset) {
            Some(amount) => amount,
            None => 0,
        }
    }

    /// Forgets the day's volumes. Always succeeds.
    pub fn reset_daily_limits(&mut self)
        requires
            old(self).wf(),
        ensures
            final(self).wf(),
            final(self).limits() == old(self).limits(),
            final(self).book() == after_reset(old(self).book()),
            final(self).holdings() == old(self).holdings(),
    {
        self.state.daily_volume.clear();
        proof {
            let before = old(self).state.book();
            let after = self.state.book();
            assert(after.positions == before.positions);
            assert(after.daily_volume == Map::<Seq<char>, int>::empty());
            assert(after == after_reset(before));
            assert(sound(self.config.limits(), after));
            lemma_orders_kept(before, after);
        }
    }

    /// Whether the global gate is open.
    pub fn is_trading_enabled(&self) -> (enabled: bool)
        ensures
            enabled == self.book().trading_enabled,
    {
        self.state.trading_enabled
    }

    /// Opens the global gate. Returns the snapshot to publish if that changed anything.
    pub fn enable_trading(&mut self) -> (changed: Option<TradingState>)
        requires
            old(self).wf(),
        ensures
            final(self).wf(),
            final(self).limits() == old(self).limits(),
            final(self).book() == with_gate(old(self).book(), true),
            final(self).holdings() == old(self).holdings(),
            changed is Some == !old(self).book().trading_enabled,
            changed matches Some(snapshot) ==> snapshot.wf() && snapshot.book() == final(self).book(),
    {
        self.set_gate(true)
    }

    /// Shuts the global gate: every trade and order is refused until it is
    /// opened again. Returns the snapshot to publish if that changed anything.
    pub fn disable_trading(&mut self) -> (changed: Option<TradingState>)
        requires
            old(self).wf(),
        ensures
            final(self).wf(),
            final(self).limits() == old(self).limits(),
            final(self).book() == with_gate(old(self).book(), false),
            final(self).holdings() == old(self).holdings(),
            changed is Some == old(self).book().trading_enabled,
            changed matches Some(snapshot) ==> snapshot.wf() && snapshot.book() == final(self).book(),
    {
        self.set_gate(false)
    }

    fn set_gate(&mut self, enabled: bool) -> (changed: Option<TradingState>)
        requires
            old(self).wf(),
        ensures
            final(self).wf(),
            final(self).limits() == old(self).limits(),
            final(self).book() == with_gate(old(self).book(), enabled),
            final(self).holdings() == old(self).holdings(),
            changed is Some == (old(self).book().trading_enabled != enabled),
            changed matches Some(snapshot) ==> snapshot.wf() && snapshot.book() == final(self).book(),
    {
        if self.state.trading_enabled == enabled {
            None
        } else {
            self.state.trading_enabled = enabled;
            proof {
                let before = old(self).state.book();
                let after = self.state.book();
                lemma_amounts_kept(self.config.limits(), before, after);
                lemma_orders_kept(before, after);
            }
            Some(self.state.snapshot())
        }
    }

    /// What the open orders reserve of `asset`.
    fn reserved(&self, asset: &String) -> (total: i128)
        ensures
            total == reserved_for(self.book().orders, asset@),
    {
        let ghost views = order_views(self.state.open_orders@);
        let mut total: i128 = 0;
        let mut i: usize = 0;
        assert(views.take(0) =~= Seq::<OrderView>::empty());
        while i < self.state.open_orders.len()
            invariant
                i <= self.state.open_orders@.len(),
                views == order_views(self.state.open_orders@),
                total == reserved_for(views.take(i as int), asset@),
                -(i as int) * 0x8000_0000_0000_0000 <= total <= (i as int) * 0x8000_0000_0000_0000,
            decreases self.state.open_orders@.len() - i,
        {
            let order = &self.state.open_orders[i];
            proof {
                assert(views.take(i + 1).drop_last() =~= views.take(i as int));
                assert(views.take(i + 1).last() == order@);
            }
            if order.asset == *asset {
                if order.side == SIDE_BUY {
                    total = total + order.quantity as i128;
                } else {
                    total = total - order.quantity as i128;
                }
            }
            i += 1;
        }
        assert(views.take(i as int) =~= views);
        total
    }

    /// The order as the trade that the checks take it for.
    fn as_trade(order: &OpenOrder) -> (trade: Trade)
        ensures
            trade@ == order_as_trade(order@),
            trade.wf() == order.wf(),
    {
        Trade {
            asset: order.asset.clone(),
            quantity: order.quantity,
            price: order.limit_price,
            side: order.side,
        }
    }

    /// The position in `asset` and what the open orders reserve of it, where
    /// the sum fits.
    fn exposure_of(&self, asset: &String) -> (exposure: Option<i64>)
        requires
            self.wf(),
        ensures
            exposure is Some == (i64::MIN <= reserved_exposure(self.book(), asset@) <= i64::MAX),
            exposure matches Some(sum) ==> sum == reserved_exposure(self.book(), asset@),
    {
        let reserved: i128 = self.reserved(asset);
        let position: i128 = self.position_of(asset) as i128;
        if reserved < i64::MIN as i128 - position || reserved > i64::MAX as i128 - position {
            None
        } else {
            Some((reserved + position) as i64)
        }
    }

    /// Whether [`RisklyService::add_order`] may be called with `order`: the
    /// exposure fits where a check reads it, and an id is free where the
    /// order is admitted.
    pub fn can_take_order(&self, order: &OpenOrder) -> (ok: bool)
        requires
            self.wf(),
            order.wf(),
        ensures
            ok == orderable(self.limits(), self.book(), order@),
    {
        let trade = Self::as_trade(order);
        match early_checks(&self.config, &self.state, &trade) {
            Err(_) => true,
            Ok(_) => match self.exposure_of(&order.asset) {
                None => false,
                Some(exposure) => match exposure_checks(
                    &self.config,
                    &self.state,
                    exposure,
                    &trade,
                ) {
                    Err(_) => true,
                    Ok(_) => self.state.next_order_id < u64::MAX,
                },
            },
        }
    }

    /// Checks `order` as a trade at its limit price, counted on top of the
    /// position and of what the open orders reserve. If it is admitted it
    /// joins the book under a fresh id, which is returned; the id that
    /// `order` came with is not read.
    pub fn add_order(&mut self, order: OpenOrder) -> (result: Result<u64, RisklyError>)
        requires
            old(self).wf(),
            order.wf(),
            orderable(old(self).limits(), old(self).book(), order@),
        ensures
            final(self).wf(),
            final(self).limits() == old(self).limits(),
            final(self).book() == after_order_request(old(self).limits(), old(self).book(), order@),
            final(self).holdings() == old(self).holdings(),
            match result {
                Ok(id) => order_verdict(old(self).limits(), old(self).book(), order@) is None && id
                    == old(self).book().next_order_id,
                Err(error) => order_verdict(old(self).limits(), old(self).book(), order@) == Some(
                    error@,
                ),
            },
    {
        let trade = Self::as_trade(&order);
        if let Err(error) = early_checks(&self.config, &self.state, &trade) {
            return Err(error);
        }
        let exposure: i64 = match self.exposure_of(&order.asset) {
            Some(exposure) => exposure,
            None => {
                proof {
                    assert(false);
                }
                0
            },
        };
        match exposure_checks(&self.config, &self.state, exposure, &trade) {
            Err(error) => Err(error),
            Ok(_) => {
                let id = self.state.next_order_id;
                let ghost before = self.state.book();
                self.state.open_orders.push(
                    OpenOrder {
                        id,
                        asset: order.asset,
                        quantity: order.quantity,
                        side: order.side,
                        limit_price: order.limit_price,
                        status: order.status,
                    },
                );
                self.state.next_order_id = id + 1;
                proof {
                    let after = self.state.book();
                    assert(after.orders =~= before.orders.push(OrderView { id: id as int, ..order@ }));
                    lemma_amounts_kept(self.config.limits(), before, after);
                    assert forall|i: int| 0 <= i < after.orders.len() implies 0 <= (
                    #[trigger] after.orders[i]).id < after.next_order_id by {
                        if i < before.orders.len() {
                            assert(after.orders[i] == before.orders[i]);
                        }
                    }
                    assert forall|i: int, j: int| 0 <= i < j < after.orders.len() implies (
                    #[trigger] after.orders[i]).id != (#[trigger] after.orders[j]).id by {
                        assert(after.orders[i] == before.orders[i]);
                        if j < before.orders.len() {
                            assert(after.orders[j] == before.orders[j]);
                        }
                    }
                }
                Ok(id)
            },
        }
    }

    /// Takes the order `id` out of the book, or reports that none has this id.
    pub fn remove_order(&mut self, id: u64) -> (result: Result<(), RisklyError>)
        requires
            old(self).wf(),
        ensures
            final(self).wf(),
            final(self).limits() == old(self).limits(),
            final(self).book() == after_removal(old(self).book(), id as int),
            final(self).holdings() == old(self).holdings(),
            match result {
                Ok(_) => has_order(old(self).book().orders, id as int),
                Err(error) => !has_order(old(self).book().orders, id as int) && error
                    == RisklyError::OrderNotFound(id),
            },
    {
        let ghost before = self.state.book();
        let mut i: usize = 0;
        while i < self.state.open_orders.len()
            invariant
                i <= self.state.open_orders@.len(),
                *self == *old(self),
                self.wf(),
                before == self.state.book(),
                forall|j: int| 0 <= j < i ==> (#[trigger] before.orders[j]).id != id as int,
            decreases self.state.open_orders@.len() - i,
        {
            if self.state.open_orders[i].id == id {
                assert(before.orders[i as int].id == id as int);
                let ghost place = place_of(before.orders, id as int);
                assert(place == i) by {
                    if place < i {
                        assert(before.orders[place].id != before.orders[i as int].id);
                    } else if place > i {
                        assert(before.orders[i as int].id != before.orders[place].id);
                    }
                }
                self.state.open_orders.remove(i);
                proof {
                    let after = self.state.book();
                    assert(after.orders =~= before.orders.remove(i as int));
                    lemma_amounts_kept(self.config.limits(), before, after);
                    assert forall|a: int| 0 <= a < after.orders.len() implies 0 <= (
                    #[trigger] after.orders[a]).id < after.next_order_id by {
                        if a < i {
                            assert(after.orders[a] == before.orders[a]);
                        } else {
                            assert(after.orders[a] == before.orders[a + 1]);
                        }
                    }
                    assert forall|a: int, b: int| 0 <= a < b < after.orders.len() implies (
                    #[trigger] after.orders[a]).id != (#[trigger] after.orders[b]).id by {
                        let a0 = if a < i { a } else { a + 1 };
                        let b0 = if b < i { b } else { b + 1 };
                        assert(after.orders[a] == before.orders[a0]);
                        assert(after.orders[b] == before.orders[b0]);
                    }
                }
                return Ok(());
            }
            i += 1;
        }
        Err(RisklyError::OrderNotFound(id))
    }

    /// The open orders, oldest first.
    pub fn get_open_orders(&self) -> (orders: Vec<OpenOrder>)
        ensures
            order_views(orders@) == self.book().orders,
    {
        duplicate_orders(&self.state.open_orders)
    }

    /// The positions one by one, each asset once.
    pub closed spec fn holdings(&self) -> Seq<(Seq<char>, int)> {
        self.state.positions.pairs()
    }

    /// The holdings are the positions of the book: each holding is a
    /// position, each position has a holding, and no asset has two.
    pub proof fn lemma_holdings_are_positions(&self)
        requires
            self.wf(),
        ensures
            forall|i: int|
                0 <= i < self.holdings().len() ==> self.book().positions.contains_key(
                    (#[trigger] self.holdings()[i]).0,
                ) && self.book().positions[self.holdings()[i].0] == self.holdings()[i].1,
            forall|asset: Seq<char>| #[trigger]
                self.book().positions.contains_key(asset) ==> exists|i: int|
                    0 <= i < self.holdings().len() && (#[trigger] self.holdings()[i]).0 == asset,
            forall|i: int, j: int|
                0 <= i < j < self.holdings().len() ==> (#[trigger] self.holdings()[i]).0 != (
                #[trigger] self.holdings()[j]).0,
    {
        self.state.positions.lemma_pairs_are_entries();
        let table = self.state.positions;
        assert(self.book().positions == table@);
        assert forall|asset: Seq<char>| #[trigger]
            self.book().positions.contains_key(asset) implies exists|i: int|
            0 <= i < self.holdings().len() && (#[trigger] self.holdings()[i]).0 == asset by {
            assert(table@.contains_key(asset));
            let i = choose|i: int| 0 <= i < table.pairs().len() && (#[trigger] table.pairs()[i]).0 == asset;
            assert(self.holdings()[i].0 == asset);
        }
    }

    /// The value of all positions at the latest prices, or `None` where a
    /// partial sum does not fit the machine.
    fn value_positions(&self) -> (total: Option<i64>)
        requires
            self.wf(),
        ensures
            total is Some == valuation_fits(
                self.holdings(),
                self.book().prices,
                self.limits().scale,
            ),
            total matches Some(value) ==> value == valuation(
                self.holdings(),
                self.book().prices,
                self.limits().scale,
            ),
    {
        let ghost holdings = self.holdings();
        let ghost prices = self.book().prices;
        let ghost scale = self.limits().scale;
        let unit: i128 = self.config.scale as i128;
        let mut total: i64 = 0;
        let mut i: usize = 0;
        assert(holdings.take(0) =~= Seq::<(Seq<char>, int)>::empty());
        while i < self.state.positions.len()
            invariant
                self.wf(),
                holdings == self.holdings(),
                prices == self.book().prices,
                scale == self.limits().scale,
                unit == scale >= 1,
                i <= holdings.len(),
                total == valuation(holdings.take(i as int), prices, scale),
                forall|n: int|
                    0 <= n <= i ==> i64::MIN <= #[trigger] valuation(holdings.take(n), prices, scale)
                        <= i64::MAX,
            decreases holdings.len() - i,
        {
            let asset = self.state.positions.asset_at(i);
            let amount: i128 = self.state.positions.amount_at(i) as i128;
            let price: i128 = match self.state.prices.get(asset) {
                Some(price) => price as i128,
                None => 0,
            };
            assert(-0x4000_0000_0000_0000_0000_0000_0000_0000 <= amount * price
                <= 0x4000_0000_0000_0000_0000_0000_0000_0000) by (nonlinear_arith)
                requires
                    -0x8000_0000_0000_0000 <= amount <= 0x8000_0000_0000_0000,
                    -0x8000_0000_0000_0000 <= price <= 0x8000_0000_0000_0000,
            ;
            let value: i128 = floor_div(amount * price, unit);
            let next: i128 = total as i128 + value;
            proof {
                assert(holdings.take(i + 1).drop_last() =~= holdings.take(i as int));
                assert(holdings.take(i + 1).last() == holdings[i as int]);
                assert(next == valuation(holdings.take(i + 1), prices, scale));
            }
            if next < i64::MIN as i128 || next > i64::MAX as i128 {
                return None;
            }
            total = next as i64;
            i += 1;
        }
        assert(holdings.take(i as int) =~= holdings);
        Some(total)
    }

    /// Records `price` as the latest price of `asset`, values the portfolio
    /// anew as the sum of what each position is worth at its latest price,
    /// and sets the asset's unrealised profit or loss to what the position is
    /// worth at the price less its average cost. Each product of two amounts
    /// is brought back to the scale of the amounts and rounded down. Returns the snapshot to publish; `None`, with the state
    /// untouched, where the machine cannot hold the new amounts.
    pub fn update_market_value(&mut self, asset: String, price: i64) -> (changed: Option<TradingState>)
        requires
            old(self).wf(),
        ensures
            final(self).wf(),
            final(self).limits() == old(self).limits(),
            final(self).holdings() == old(self).holdings(),
            final(self).book() == after_price(
                old(self).book(),
                old(self).holdings(),
                asset@,
                price as int,
                old(self).limits().scale,
            ),
            changed is Some == price_fits(
                old(self).book(),
                old(self).holdings(),
                asset@,
                price as int,
                old(self).limits().scale,
            ),
            changed matches Some(snapshot) ==> snapshot.wf() && snapshot.book() == final(self).book(),
    {
        let ghost before = self.state.book();
        let position: i128 = self.position_of(&asset) as i128;
        let basis: i128 = match self.state.cost_basis.get(&asset) {
            Some(basis) => basis as i128,
            None => 0,
        };
        let margin: i128 = price as i128 - basis;
        assert(-0x8000_0000_0000_0000_0000_0000_0000_0000 < position * margin
            < 0x8000_0000_0000_0000_0000_0000_0000_0000) by (nonlinear_arith)
            requires
                -0x1_0000_0000_0000_0000 < margin < 0x1_0000_0000_0000_0000,
                -0x8000_0000_0000_0000 <= position <= 0x8000_0000_0000_0000,
        ;
        let gain: i128 = floor_div(position * margin, self.config.scale as i128);
        assert(gain == unrealized(before, asset@, price as int, self.config.limits().scale));
        if gain < i64::MIN as i128 || gain > i64::MAX as i128 {
            return None;
        }
        let earlier = self.state.prices.duplicate();
        self.state.prices.put(asset.clone(), price);
        proof {
            lemma_amounts_kept(self.config.limits(), before, self.state.book());
            lemma_orders_kept(before, self.state.book());
        }
        match self.value_positions() {
            Some(value) => {
                self.state.portfolio_value_usd = value;
                self.state.pnl_unrealized.put(asset, gain as i64);
                proof {
                    lemma_amounts_kept(self.config.limits(), before, self.state.book());
                    lemma_orders_kept(before, self.state.book());
                }
                Some(self.state.snapshot())
            },
            None => {
                self.state.prices = earlier;
                proof {
                    assert(self.state.book() == before);
                }
                None
            },
        }
    }
}

} // verus!
