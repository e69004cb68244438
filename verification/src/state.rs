//! The trading state and the values that requests carry.

use crate::rules::{Book, OrderView, TradeView};
use crate::table::AssetTable;
use vstd::prelude::*;

verus! {

/// A proposed trade. The side is a code: see [`crate::rules::SIDE_BUY`].
pub struct Trade {
    pub asset: String,
    pub quantity: i64,
    pub price: i64,
    pub side: i32,
}

impl View for Trade {
    type V = TradeView;

    open spec fn view(&self) -> TradeView {
        TradeView {
            asset: self.asset@,
            quantity: self.quantity as int,
            price: self.price as int,
            side: self.side as int,
        }
    }
}

impl Trade {
    /// A trade has a positive quantity and a positive price.
    pub open spec fn wf(&self) -> bool {
        self.quantity > 0 && self.price > 0
    }

    /// Whether quantity and price are positive.
    pub fn is_well_formed(&self) -> (ok: bool)
        ensures
            ok == self.wf(),
    {
        self.quantity > 0 && self.price > 0
    }
}

/// An order that waits in the book.
pub struct OpenOrder {
    pub id: u64,
    pub asset: String,
    pub quantity: i64,
    pub side: i32,
    pub limit_price: i64,
    pub status: i32,
}

impl View for OpenOrder {
    type V = OrderView;

    open spec fn view(&self) -> OrderView {
        OrderView {
            id: self.id as int,
            asset: self.asset@,
            quantity: self.quantity as int,
            side: self.side as int,
            limit_price: self.limit_price as int,
            status: self.status as int,
        }
    }
}

impl OpenOrder {
    /// An order has a positive quantity and a positive limit price.
    pub open spec fn wf(&self) -> bool {
        self.quantity > 0 && self.limit_price > 0
    }

    /// Whether quantity and limit price are positive.
    pub fn is_well_formed(&self) -> (ok: bool)
        ensures
            ok == self.wf(),
    {
        self.quantity > 0 && self.limit_price > 0
    }

    /// An independent copy.
    pub fn duplicate(&self) -> (copy: OpenOrder)
        ensures
            copy == *self,
    {
        OpenOrder {
            id: self.id,
            asset: self.asset.clone(),
            quantity: self.quantity,
            side: self.side,
            limit_price: self.limit_price,
            status: self.status,
        }
    }
}

/// The orders of a list as mathematics, in the list's order.
pub open spec fn order_views(orders: Seq<OpenOrder>) -> Seq<OrderView> {
    Seq::new(orders.len(), |i: int| orders[i]@)
}

/// Copies a list of orders.
pub fn duplicate_orders(orders: &Vec<OpenOrder>) -> (copy: Vec<OpenOrder>)
    ensures
        copy@ == orders@,
{
    let mut copy: Vec<OpenOrder> = Vec::new();
    let mut i: usize = 0;
    while i < orders.len()
        invariant
            i <= orders@.len(),
            copy@.len() == i,
            forall|j: int| 0 <= j < i ==> #[trigger] copy@[j] == orders@[j],
        decreases orders@.len() - i,
    {
        copy.push(orders[i].duplicate());
        i += 1;
    }
    assert(copy@ =~= orders@);
    copy
}

/// Everything that the engine remembers. A snapshot is a value of this type
/// that nobody changes any more.
pub struct TradingState {
    /// Net signed position by asset.
    pub positions: AssetTable,
    /// The orders that wait, oldest first.
    pub open_orders: Vec<OpenOrder>,
    /// Traded quantity by asset since the last reset.
    pub daily_volume: AssetTable,
    /// The id that the next order gets.
    pub next_order_id: u64,
    /// The latest price by asset.
    pub prices: AssetTable,
    /// The average cost of the position by asset.
    pub cost_basis: AssetTable,
    /// The value of all positions at their latest prices.
    pub portfolio_value_usd: i64,
    /// Profit and loss that trades have realised.
    pub pnl_realized: i64,
    /// Profit and loss of the open positions by asset.
    pub pnl_unrealized: AssetTable,
    /// The global gate.
    pub trading_enabled: bool,
}

impl TradingState {
    /// The state as mathematics.
    pub open spec fn book(&self) -> Book {
        Book {
            positions: self.positions@,
            daily_volume: self.daily_volume@,
            orders: order_views(self.open_orders@),
            next_order_id: self.next_order_id as int,
            prices: self.prices@,
            cost_basis: self.cost_basis@,
            portfolio_value_usd: self.portfolio_value_usd as int,
            pnl_realized: self.pnl_realized as int,
            pnl_unrealized: self.pnl_unrealized@,
            trading_enabled: self.trading_enabled,
        }
    }

    /// The tables hold at most one amount per asset.
    pub open spec fn wf(&self) -> bool {
        &&& self.positions.wf()
        &&& self.daily_volume.wf()
        &&& self.prices.wf()
        &&& self.cost_basis.wf()
        &&& self.pnl_unrealized.wf()
    }

    /// The state before anything happened: no position, no order, no volume.
    pub fn new(trading_enabled: bool) -> (state: TradingState)
        ensures
            state.wf(),
            state.book() == crate::rules::opening_book(trading_enabled),
            state.positions.pairs() == Seq::<(Seq<char>, int)>::empty(),
    {
        let state = TradingState {
            positions: AssetTable::new(),
            open_orders: Vec::new(),
            daily_volume: AssetTable::new(),
            next_order_id: 0,
            prices: AssetTable::new(),
            cost_basis: AssetTable::new(),
            portfolio_value_usd: 0,
            pnl_realized: 0,
            pnl_unrealized: AssetTable::new(),
            trading_enabled,
        };
        assert(state.book().orders =~= Seq::<OrderView>::empty());
        state
    }

    /// A copy of the whole state as it stands now.
    pub fn snapshot(&self) -> (copy: TradingState)
        ensures
            copy.wf() == self.wf(),
            copy.book() == self.book(),
            copy.positions.pairs() == self.positions.pairs(),
    {
        TradingState {
            positions: self.positions.duplicate(),
            open_orders: duplicate_orders(&self.open_orders),
            daily_volume: self.daily_volume.duplicate(),
            next_order_id: self.next_order_id,
            prices: self.prices.duplicate(),
            cost_basis: self.cost_basis.duplicate(),
            portfolio_value_usd: self.portfolio_value_usd,
            pnl_realized: self.pnl_realized,
            pnl_unrealized: self.pnl_unrealized.duplicate(),
            trading_enabled: self.trading_enabled,
        }
    }
}

impl Clone for TradingState {
    /// The same as [`TradingState::snapshot`].
    fn clone(&self) -> (copy: TradingState)
        ensures
            copy.wf() == self.wf(),
            copy.book() == self.book(),
    {
        self.snapshot()
    }
}

} // verus!
