//! Portfolio, exposure and event-sourced PnL.
//!
//! Spot balance ≠ contract Position; both roll up into Exposure.

use vstd::prelude::*;
use vstd::string::*;

use crate::decimal::{Decimal, DecimalView};
use crate::decimal;
use crate::domain::{
    Balance, BalanceView, Exposure, ExposureView, Instrument, InstrumentView, OrderSide,
    PnLComponents, PnlView, Position, PositionView,
};
use crate::error::{ErrorView, TuxError};
use crate::ids::{now_ms, AccountId, TimestampMs};
use crate::ids;
use crate::table::Table;
use crate::table;
use crate::text::{ascii_upper, i64_text, join2, join3, join4, same_text};
use crate::text;
use crate::views;

verus! {

#[derive(Debug, PartialEq, Eq, Default)]
pub struct PnLBook {
    pub components: PnLComponents,
}

impl View for PnLBook {
    type V = PnlView;

    open spec fn view(&self) -> PnlView {
        self.components@
    }
}

impl Clone for PnLBook {
    fn clone(&self) -> (r: Self)
        ensures
            r == *self,
    {
        PnLBook { components: self.components.clone() }
    }
}

impl PnLBook {
    pub fn new() -> (r: Self)
        ensures
            r@ == PnlView::nothing(),
    {
        PnLBook { components: PnLComponents::new() }
    }

    pub fn try_net_pnl(&self) -> (r: Option<Decimal>)
        ensures
            views::opt_view(r) == self@.net(),
    {
        self.components.try_net_pnl()
    }

    pub fn net_pnl(&self) -> (r: Decimal)
        requires
            self@.net() is Some,
        ensures
            Some(r@) == self@.net(),
    {
        self.components.net_pnl()
    }

    /// Adds to `trading_fees`, or says `false` and changes nothing when the sum is
    /// out of range.
    pub fn try_apply_fee(&mut self, fee: Decimal) -> (r: bool)
        ensures
            r == old(self)@.trading_fees.plus(fee@) is Some,
            !r ==> *final(self) == *old(self),
            r ==> final(self)@ == (PnlView {
                trading_fees: old(self)@.trading_fees.plus(fee@)->0,
                ..old(self)@
            }),
    {
        match self.components.trading_fees.checked_add(fee) {
            Some(sum) => {
                self.components.trading_fees = sum;
                true
            },
            None => false,
        }
    }

    pub fn apply_fee(&mut self, fee: Decimal)
        requires
            old(self)@.trading_fees.plus(fee@) is Some,
        ensures
            final(self)@ == (PnlView {
                trading_fees: old(self)@.trading_fees.plus(fee@)->0,
                ..old(self)@
            }),
    {
        let done = self.try_apply_fee(fee);
        assert(done);
    }

    /// Adds to `gross_realized_pnl`, or says `false` and changes nothing when the sum is
    /// out of range.
    pub fn try_apply_realized(&mut self, realized: Decimal) -> (r: bool)
        ensures
            r == old(self)@.gross_realized_pnl.plus(realized@) is Some,
            !r ==> *final(self) == *old(self),
            r ==> final(self)@ == (PnlView {
                gross_realized_pnl: old(self)@.gross_realized_pnl.plus(realized@)->0,
                ..old(self)@
            }),
    {
        match self.components.gross_realized_pnl.checked_add(realized) {
            Some(sum) => {
                self.components.gross_realized_pnl = sum;
                true
            },
            None => false,
        }
    }

    pub fn apply_realized(&mut self, realized: Decimal)
        requires
            old(self)@.gross_realized_pnl.plus(realized@) is Some,
        ensures
            final(self)@ == (PnlView {
                gross_realized_pnl: old(self)@.gross_realized_pnl.plus(realized@)->0,
                ..old(self)@
            }),
    {
        let done = self.try_apply_realized(realized);
        assert(done);
    }

    /// Adds to `funding_fees`, or says `false` and changes nothing when the sum is
    /// out of range.
    pub fn try_apply_funding(&mut self, payment: Decimal) -> (r: bool)
        ensures
            r == old(self)@.funding_fees.plus(payment@) is Some,
            !r ==> *final(self) == *old(self),
            r ==> final(self)@ == (PnlView {
                funding_fees: old(self)@.funding_fees.plus(payment@)->0,
                ..old(self)@
            }),
    {
        match self.components.funding_fees.checked_add(payment) {
            Some(sum) => {
                self.components.funding_fees = sum;
                true
            },
            None => false,
        }
    }

    pub fn apply_funding(&mut self, payment: Decimal)
        requires
            old(self)@.funding_fees.plus(payment@) is Some,
        ensures
            final(self)@ == (PnlView {
                funding_fees: old(self)@.funding_fees.plus(payment@)->0,
                ..old(self)@
            }),
    {
        let done = self.try_apply_funding(payment);
        assert(done);
    }

    pub fn set_unrealized(&mut self, unrealized: Decimal)
        ensures
            final(self)@ == (PnlView { unrealized_pnl: unrealized@, ..old(self)@ }),
    {
        self.components.unrealized_pnl = unrealized;
    }
}

#[derive(Debug)]
pub enum AccountingEvent {
    Fee { asset: String, amount: Decimal, at: TimestampMs },
    FillApplied { fill_id: String, at: TimestampMs },
    ManualAdjustment {
        asset: String,
        delta: Decimal,
        operator: String,
        note: String,
        at: TimestampMs,
    },
}

/// What an [`AccountingEvent`] holds.
pub enum LedgerView {
    Fee { asset: Seq<char>, amount: DecimalView, at: TimestampMs },
    FillApplied { fill_id: Seq<char>, at: TimestampMs },
    ManualAdjustment {
        asset: Seq<char>,
        delta: DecimalView,
        operator: Seq<char>,
        note: Seq<char>,
        at: TimestampMs,
    },
}

impl View for AccountingEvent {
    type V = LedgerView;

    open spec fn view(&self) -> LedgerView {
        match self {
            AccountingEvent::Fee { asset, amount, at } => LedgerView::Fee {
                asset: asset@,
                amount: amount@,
                at: *at,
            },
            AccountingEvent::FillApplied { fill_id, at } => LedgerView::FillApplied {
                fill_id: fill_id@,
                at: *at,
            },
            AccountingEvent::ManualAdjustment { asset, delta, operator, note, at } => {
                LedgerView::ManualAdjustment {
                    asset: asset@,
                    delta: delta@,
                    operator: operator@,
                    note: note@,
                    at: *at,
                }
            },
        }
    }
}

impl Clone for AccountingEvent {
    fn clone(&self) -> (r: Self)
        ensures
            r == *self,
    {
        match self {
            AccountingEvent::Fee { asset, amount, at } => AccountingEvent::Fee {
                asset: asset.clone(),
                amount: *amount,
                at: *at,
            },
            AccountingEvent::FillApplied { fill_id, at } => AccountingEvent::FillApplied {
                fill_id: fill_id.clone(),
                at: *at,
            },
            AccountingEvent::ManualAdjustment { asset, delta, operator, note, at } => {
                AccountingEvent::ManualAdjustment {
                    asset: asset.clone(),
                    delta: *delta,
                    operator: operator.clone(),
                    note: note.clone(),
                    at: *at,
                }
            },
        }
    }
}

/// Balances, positions and PnL of all accounts.
pub struct Portfolio {
    balances: Table<Balance>,
    positions: Table<Position>,
    pnl: Table<PnLBook>,
    ledger: Vec<AccountingEvent>,
}

/// What a [`Portfolio`] holds. Balances and positions go by account and asset
/// (or instrument), see [`pair_key`].
#[verifier::ext_equal]
pub struct PortfolioView {
    pub balances: Seq<(Seq<char>, BalanceView)>,
    pub positions: Seq<(Seq<char>, PositionView)>,
    pub pnl: Seq<(Seq<char>, PnlView)>,
    pub ledger: Seq<LedgerView>,
}

impl View for Portfolio {
    type V = PortfolioView;

    closed spec fn view(&self) -> PortfolioView {
        PortfolioView {
            balances: self.balances@,
            positions: self.positions@,
            pnl: self.pnl@,
            ledger: views::seq_view(self.ledger@),
        }
    }
}

/// Under what key an account's asset or instrument stands.
pub open spec fn pair_key(account: Seq<char>, name: Seq<char>) -> Seq<char> {
    account + ":"@ + name
}

/// A spot fill, as far as the books are concerned.
pub struct SpotFill {
    pub account: Seq<char>,
    pub instrument: InstrumentView,
    pub side: OrderSide,
    pub price: DecimalView,
    pub qty: DecimalView,
    pub fee: DecimalView,
    pub fee_asset: Seq<char>,
}

impl SpotFill {
    /// What the fill adds to free balances, in order: an asset and an amount
    /// each. The notional is known.
    pub open spec fn moves(self, notional: DecimalView) -> Seq<(Seq<char>, DecimalView)> {
        let trade = match self.side {
            OrderSide::Buy => seq![
                (self.instrument.quote_asset, notional.neg()),
                (self.instrument.base_asset, self.qty),
            ],
            OrderSide::Sell => seq![
                (self.instrument.base_asset, self.qty.neg()),
                (self.instrument.quote_asset, notional),
            ],
        };
        if self.fee.positive() {
            trade.push((self.fee_asset, self.fee.neg()))
        } else {
            trade
        }
    }

    /// What a buyer needs of the quote asset: the notional, and the fee when it
    /// is paid in that asset.
    pub open spec fn needed(self, notional: DecimalView) -> Option<DecimalView> {
        notional.plus(
            if self.fee_asset == self.instrument.quote_asset {
                self.fee
            } else {
                DecimalView::zero()
            },
        )
    }
}

/// Why a buyer without enough of the quote asset is refused.
pub open spec fn insufficient_for_buy(
    free: DecimalView,
    asset: Seq<char>,
    notional: DecimalView,
) -> Seq<char> {
    "insufficient "@ + free.text() + " "@ + asset + (" for buy notional "@ + notional.text())
}

/// Why a seller without enough of the base asset is refused.
pub open spec fn insufficient_for_sell(
    free: DecimalView,
    asset: Seq<char>,
    qty: DecimalView,
) -> Seq<char> {
    "insufficient "@ + free.text() + " "@ + asset + (" for sell qty "@ + qty.text())
}

/// Why a fill that would overdraw a balance is refused.
pub open spec fn would_overdraw(free: DecimalView, asset: Seq<char>) -> Seq<char> {
    "insufficient "@ + free.text() + " "@ + asset + " for fill and fee"@
}

impl PortfolioView {
    pub open spec fn nothing() -> PortfolioView {
        PortfolioView {
            balances: Seq::empty(),
            positions: Seq::empty(),
            pnl: Seq::empty(),
            ledger: Seq::empty(),
        }
    }

    pub open spec fn balance(self, account: Seq<char>, asset: Seq<char>) -> Option<BalanceView> {
        table::lookup(self.balances, pair_key(account, asset))
    }

    pub open spec fn position(
        self,
        account: Seq<char>,
        instrument: Seq<char>,
    ) -> Option<PositionView> {
        table::lookup(self.positions, pair_key(account, instrument))
    }

    /// What the account has free of an asset.
    pub open spec fn free(self, account: Seq<char>, asset: Seq<char>) -> DecimalView {
        match self.balance(account, asset) {
            Some(b) => b.free,
            None => DecimalView::zero(),
        }
    }

    /// What the account has free of `asset` after some moves; nothing when that
    /// is out of range.
    pub open spec fn free_after(
        self,
        account: Seq<char>,
        moves: Seq<(Seq<char>, DecimalView)>,
        asset: Seq<char>,
    ) -> Option<DecimalView>
        decreases moves.len(),
    {
        if moves.len() == 0 {
            Some(self.free(account, asset))
        } else {
            let before = self.free_after(account, moves.drop_last(), asset);
            if moves.last().0 == asset {
                match before {
                    Some(f) => f.plus(moves.last().1),
                    None => None,
                }
            } else {
                before
            }
        }
    }

    /// Whether every balance on the way is in range.
    pub open spec fn moves_in_range(
        self,
        account: Seq<char>,
        moves: Seq<(Seq<char>, DecimalView)>,
    ) -> bool {
        forall|i: int|
            0 <= i < moves.len() ==> self.free_after(
                account,
                moves.take(i + 1),
                (#[trigger] moves[i]).0,
            ) is Some
    }

    /// Whether the moves lower the free balance of `asset` below zero.
    pub open spec fn overdrawn(
        self,
        account: Seq<char>,
        moves: Seq<(Seq<char>, DecimalView)>,
        asset: Seq<char>,
    ) -> bool {
        self.free_after(account, moves, asset) matches Some(f) && f.lt(DecimalView::zero())
            && f.lt(self.free(account, asset))
    }

    /// The first asset among the moves that they overdraw.
    pub open spec fn first_overdrawn(
        self,
        account: Seq<char>,
        moves: Seq<(Seq<char>, DecimalView)>,
        n: int,
    ) -> Option<Seq<char>>
        decreases n,
    {
        if n <= 0 {
            None
        } else if self.first_overdrawn(account, moves, n - 1) is Some {
            self.first_overdrawn(account, moves, n - 1)
        } else if self.overdrawn(account, moves, moves[n - 1].0) {
            Some(moves[n - 1].0)
        } else {
            None
        }
    }

    /// The balance of an asset with `free` on it since `now`.
    pub open spec fn with_free(
        self,
        account: Seq<char>,
        asset: Seq<char>,
        free: DecimalView,
        now: TimestampMs,
    ) -> PortfolioView {
        let locked = match self.balance(account, asset) {
            Some(b) => b.locked,
            None => DecimalView::zero(),
        };
        let owner = match self.balance(account, asset) {
            Some(b) => (b.account_id, b.asset),
            None => (account, asset),
        };
        PortfolioView {
            balances: table::put(
                self.balances,
                pair_key(account, asset),
                BalanceView {
                    account_id: owner.0,
                    asset: owner.1,
                    free,
                    locked,
                    updated_at: now,
                },
            ),
            ..self
        }
    }

    /// The portfolio after the first `n` moves.
    pub open spec fn moved(
        self,
        account: Seq<char>,
        moves: Seq<(Seq<char>, DecimalView)>,
        n: int,
        now: TimestampMs,
    ) -> PortfolioView
        decreases n,
    {
        if n <= 0 {
            self
        } else {
            self.moved(account, moves, n - 1, now).with_free(
                account,
                moves[n - 1].0,
                self.free_after(account, moves.take(n), moves[n - 1].0)->0,
                now,
            )
        }
    }

    pub open spec fn book(self, account: Seq<char>) -> PnlView {
        match table::lookup(self.pnl, account) {
            Some(b) => b,
            None => PnlView::nothing(),
        }
    }

    /// Whether a fill is booked, or why not; nothing when a number on the way
    /// is out of range.
    pub open spec fn fill_verdict(
        self,
        f: SpotFill,
    ) -> Option<core::result::Result<(), ErrorView>> {
        match f.price.times(f.qty) {
            None => None,
            Some(notional) => {
                let quote_free = self.free(f.account, f.instrument.quote_asset);
                let base_free = self.free(f.account, f.instrument.base_asset);
                let moves = f.moves(notional);
                if f.side == OrderSide::Buy && f.needed(notional) is None {
                    None
                } else if f.side == OrderSide::Buy && quote_free.lt(f.needed(notional)->0) {
                    Some(
                        Err(
                            ErrorView::InvalidOrder(
                                insufficient_for_buy(
                                    quote_free,
                                    f.instrument.quote_asset,
                                    notional,
                                ),
                            ),
                        ),
                    )
                } else if f.side == OrderSide::Sell && base_free.lt(f.qty) {
                    Some(
                        Err(
                            ErrorView::InvalidOrder(
                                insufficient_for_sell(base_free, f.instrument.base_asset, f.qty),
                            ),
                        ),
                    )
                } else if !self.moves_in_range(f.account, moves) {
                    None
                } else if f.fee.positive() && self.book(f.account).trading_fees.plus(
                    f.fee,
                ) is None {
                    None
                } else {
                    match self.first_overdrawn(f.account, moves, moves.len() as int) {
                        Some(asset) => Some(
                            Err(
                                ErrorView::InvalidOrder(
                                    would_overdraw(self.free(f.account, asset), asset),
                                ),
                            ),
                        ),
                        None => Some(Ok(())),
                    }
                }
            },
        }
    }

    /// The portfolio with the fill booked at `now`.
    pub open spec fn with_fill(self, f: SpotFill, now: TimestampMs) -> PortfolioView {
        let moves = f.moves(f.price.times(f.qty)->0);
        let moved = self.moved(f.account, moves, moves.len() as int, now);
        let done = LedgerView::FillApplied {
            fill_id: f.account + ":"@ + f.instrument.id + (":"@ + text::int_text(now as int)),
            at: now,
        };
        if f.fee.positive() {
            let book = self.book(f.account);
            PortfolioView {
                pnl: table::put(
                    self.pnl,
                    f.account,
                    PnlView { trading_fees: book.trading_fees.plus(f.fee)->0, ..book },
                ),
                ledger: self.ledger.push(
                    LedgerView::Fee { asset: f.fee_asset, amount: f.fee, at: now },
                ).push(done),
                ..moved
            }
        } else {
            PortfolioView { ledger: self.ledger.push(done), ..moved }
        }
    }
}

/// The moves of a list, by their views.
pub open spec fn moves_view(moves: Seq<(String, Decimal)>) -> Seq<(Seq<char>, DecimalView)> {
    Seq::new(moves.len(), |i: int| (moves[i].0@, moves[i].1@))
}

/// The parts of the fill that a caller hands over.
pub open spec fn spot_fill(
    account_id: &AccountId,
    instrument: &Instrument,
    side: OrderSide,
    price: Decimal,
    qty: Decimal,
    fee_amount: Decimal,
    fee_asset: &str,
) -> SpotFill {
    SpotFill {
        account: account_id@,
        instrument: instrument@,
        side,
        price: price@,
        qty: qty@,
        fee: fee_amount@,
        fee_asset: fee_asset@,
    }
}

fn pair_key_of(account: &str, name: &str) -> (r: String)
    ensures
        r@ == pair_key(account@, name@),
{
    join3(account, ":", name)
}

impl Portfolio {
    pub fn new() -> (r: Self)
        ensures
            r@ == PortfolioView::nothing(),
    {
        let r = Portfolio {
            balances: Table::new(),
            positions: Table::new(),
            pnl: Table::new(),
            ledger: Vec::new(),
        };
        assert(r@ =~= PortfolioView::nothing());
        r
    }

    pub fn seed_balance(&mut self, balance: Balance)
        ensures
            final(self)@ == (PortfolioView {
                balances: table::put(
                    old(self)@.balances,
                    pair_key(balance@.account_id, balance@.asset),
                    balance@,
                ),
                ..old(self)@
            }),
    {
        let key = pair_key_of(balance.account_id.as_str(), balance.asset.as_str());
        self.balances.insert(key, balance);
    }

    pub fn balance(&self, account_id: &AccountId, asset: &str) -> (r: Option<&Balance>)
        ensures
            match r {
                Some(b) => self@.balance(account_id@, asset@) == Some(b@),
                None => self@.balance(account_id@, asset@) is None,
            },
    {
        let key = pair_key_of(account_id.as_str(), asset);
        self.balances.get(key.as_str())
    }

    /// What the account has free of an asset.
    fn free(&self, account_id: &AccountId, asset: &str) -> (r: Decimal)
        ensures
            r@ == self@.free(account_id@, asset@),
    {
        match self.balance(account_id, asset) {
            Some(b) => b.free,
            None => Decimal::zero(),
        }
    }

    /// All balances for one account (dashboard / persistence).
    pub fn balances_for(&self, account_id: &AccountId) -> (r: Vec<&Balance>)
        ensures
            views::seq_view(r@) == self@.balances_of(account_id@, self@.balances.len() as int),
    {
        let mut r: Vec<&Balance> = Vec::new();
        let mut i: usize = 0;
        assert(views::seq_view(r@) =~= self@.balances_of(account_id@, 0));
        while i < self.balances.len()
            invariant
                i <= self@.balances.len(),
                views::seq_view(r@) == self@.balances_of(account_id@, i as int),
            decreases self@.balances.len() - i,
        {
            let b = self.balances.value_at(i);
            if b.account_id == *account_id {
                proof {
                    views::lemma_seq_view_push(r@, b);
                }
                r.push(b);
            }
            i = i + 1;
        }
        r
    }

    pub fn upsert_position(&mut self, position: Position)
        ensures
            final(self)@ == (PortfolioView {
                positions: table::put(
                    old(self)@.positions,
                    pair_key(position@.account_id, position@.instrument_id),
                    position@,
                ),
                ..old(self)@
            }),
    {
        let key = pair_key_of(position.account_id.as_str(), position.instrument_id.as_str());
        self.positions.insert(key, position);
    }

    pub fn position(
        &self,
        account_id: &AccountId,
        instrument: &InstrumentIdKey<'_>,
    ) -> (r: Option<&Position>)
        ensures
            match r {
                Some(p) => self@.position(account_id@, instrument.0@) == Some(p@),
                None => self@.position(account_id@, instrument.0@) is None,
            },
    {
        let key = pair_key_of(account_id.as_str(), instrument.0);
        self.positions.get(key.as_str())
    }

    pub fn pnl_book(&self, account_id: &AccountId) -> (r: Option<&PnLBook>)
        ensures
            match r {
                Some(b) => table::lookup(self@.pnl, account_id@) == Some(b@),
                None => table::lookup(self@.pnl, account_id@) is None,
            },
    {
        self.pnl.get(account_id.as_str())
    }

    /// The account's book, opened when there is none.
    pub fn pnl_mut(&mut self, account_id: &AccountId) -> (r: &mut PnLBook)
        ensures
            r@ == old(self)@.book(account_id@),
            final(self)@ == (PortfolioView {
                pnl: table::put(old(self)@.pnl, account_id@, final(r)@),
                ..old(self)@
            }),
    {
        let ghost before = self@.pnl;
        proof {
            table::lemma_index_of(before, account_id@);
        }
        let i: usize = match self.pnl.position(account_id.as_str()) {
            Some(i) => i,
            None => {
                let end = self.pnl.len();
                self.pnl.insert(account_id.as_str().to_owned(), PnLBook::new());
                end
            },
        };
        let r = self.pnl.value_at_mut(i);
        assert(forall|v: PnlView|
            before.push((account_id@, PnlView::nothing())).update(
                before.len() as int,
                (account_id@, v),
            ) =~= #[trigger] before.push((account_id@, v)));
        r
    }

    pub fn ledger(&self) -> (r: &Vec<AccountingEvent>)
        ensures
            views::seq_view(r@) == self@.ledger,
    {
        &self.ledger
    }

    /// What the account has free of `asset` after the first `n` moves.
    fn free_after(
        &self,
        account_id: &AccountId,
        moves: &Vec<(String, Decimal)>,
        n: usize,
        asset: &str,
    ) -> (r: Option<Decimal>)
        requires
            n <= moves@.len(),
        ensures
            views::opt_view(r) == self@.free_after(
                account_id@,
                moves_view(moves@).take(n as int),
                asset@,
            ),
    {
        let ghost all = moves_view(moves@);
        let mut f = Some(self.free(account_id, asset));
        let mut i: usize = 0;
        while i < n
            invariant
                i <= n <= moves@.len(),
                all == moves_view(moves@),
                views::opt_view(f) == self@.free_after(account_id@, all.take(i as int), asset@),
            decreases n - i,
        {
            proof {
                assert(all.take(i + 1).drop_last() =~= all.take(i as int));
                assert(all.take(i + 1).last() == all[i as int]);
            }
            if same_text(moves[i].0.as_str(), asset) {
                f = match f {
                    Some(x) => x.checked_add(moves[i].1),
                    None => None,
                };
            }
            i = i + 1;
        }
        f
    }

    /// The free balances that the moves lead to, one for each move.
    fn plan_moves(
        &self,
        account_id: &AccountId,
        moves: &Vec<(String, Decimal)>,
    ) -> (r: Option<Vec<Decimal>>)
        ensures
            r is Some <==> self@.moves_in_range(account_id@, moves_view(moves@)),
            r matches Some(v) ==> v@.len() == moves@.len() && forall|i: int|
                0 <= i < v@.len() ==> self@.free_after(
                    account_id@,
                    moves_view(moves@).take(i + 1),
                    moves_view(moves@)[i].0,
                ) == Some((#[trigger] v@[i])@),
    {
        let ghost all = moves_view(moves@);
        let mut v: Vec<Decimal> = Vec::new();
        let mut i: usize = 0;
        while i < moves.len()
            invariant
                i <= moves@.len(),
                all == moves_view(moves@),
                v@.len() == i,
                forall|j: int|
                    0 <= j < i ==> self@.free_after(account_id@, all.take(j + 1), all[j].0) == Some(
                        (#[trigger] v@[j])@,
                    ),
            decreases moves@.len() - i,
        {
            match self.free_after(account_id, moves, i + 1, moves[i].0.as_str()) {
                Some(f) => v.push(f),
                None => {
                    assert(self@.free_after(account_id@, all.take(i + 1), all[i as int].0) is None);
                    return None;
                },
            }
            i = i + 1;
        }
        assert forall|j: int| 0 <= j < all.len() implies self@.free_after(
            account_id@,
            all.take(j + 1),
            (#[trigger] all[j]).0,
        ) is Some by {
            assert(self@.free_after(account_id@, all.take(j + 1), all[j].0) == Some(v@[j]@));
        }
        Some(v)
    }

    /// The first asset that the moves overdraw.
    fn find_overdrawn(
        &self,
        account_id: &AccountId,
        moves: &Vec<(String, Decimal)>,
    ) -> (r: Option<String>)
        ensures
            views::opt_view(r) == self@.first_overdrawn(
                account_id@,
                moves_view(moves@),
                moves@.len() as int,
            ),
    {
        let ghost all = moves_view(moves@);
        let n = moves.len();
        assert(all.take(n as int) =~= all);
        let mut i: usize = 0;
        while i < n
            invariant
                i <= n == moves@.len(),
                all == moves_view(moves@),
                all.take(n as int) == all,
                self@.first_overdrawn(account_id@, all, i as int) is None,
            decreases n - i,
        {
            let asset = moves[i].0.as_str();
            let before = self.free(account_id, asset);
            let after = self.free_after(account_id, moves, n, asset);
            proof {
                decimal::lemma_sign_of_units(DecimalView::zero());
            }
            let over = match after {
                Some(f) => f < Decimal::zero() && f < before,
                None => false,
            };
            assert(over == self@.overdrawn(account_id@, all, all[i as int].0));
            if over {
                let r = moves[i].0.clone();
                proof {
                    self@.lemma_first_overdrawn_stays(
                        account_id@,
                        all,
                        i + 1,
                        n as int,
                    );
                }
                return Some(r);
            }
            i = i + 1;
        }
        None
    }

    fn set_free(&mut self, account_id: &AccountId, asset: &str, free: Decimal, now: TimestampMs)
        ensures
            final(self)@ == old(self)@.with_free(account_id@, asset@, free@, now),
    {
        let b = match self.balance(account_id, asset) {
            Some(b) => Balance {
                account_id: b.account_id.clone(),
                asset: b.asset.clone(),
                free,
                locked: b.locked,
                updated_at: now,
            },
            None => Balance {
                account_id: account_id.clone(),
                asset: asset.to_owned(),
                free,
                locked: Decimal::zero(),
                updated_at: now,
            },
        };
        let key = pair_key_of(account_id.as_str(), asset);
        self.balances.insert(key, b);
    }

    /// What a fill adds to free balances.
    fn moves_of(
        instrument: &Instrument,
        side: OrderSide,
        notional: Decimal,
        qty: Decimal,
        fee_amount: Decimal,
        fee_asset: &str,
    ) -> (r: Vec<(String, Decimal)>)
        ensures
            forall|f: SpotFill|
                f.instrument == instrument@ && f.side == side && f.qty == qty@ && f.fee
                    == fee_amount@ && f.fee_asset == fee_asset@ ==> moves_view(r@)
                    == #[trigger] f.moves(notional@),
    {
        let mut r: Vec<(String, Decimal)> = Vec::new();
        match side {
            OrderSide::Buy => {
                r.push((instrument.quote_asset.clone(), notional.negated()));
                r.push((instrument.base_asset.clone(), qty));
            },
            OrderSide::Sell => {
                r.push((instrument.base_asset.clone(), qty.negated()));
                r.push((instrument.quote_asset.clone(), notional));
            },
        }
        proof {
            decimal::lemma_sign_of_units(fee_amount@);
        }
        if fee_amount > Decimal::zero() {
            r.push((fee_asset.to_owned(), fee_amount.negated()));
        }
        assert forall|f: SpotFill|
            f.instrument == instrument@ && f.side == side && f.qty == qty@ && f.fee == fee_amount@
                && f.fee_asset == fee_asset@ implies moves_view(r@) == #[trigger] f.moves(
            notional@,
        ) by {
            assert(moves_view(r@) =~= f.moves(notional@));
        }
        r
    }

    /// Books a spot fill at `now`, or says why not; `None` when a number on the
    /// way is out of range. Nothing changes unless the fill is booked.
    pub fn try_apply_spot_fill_at(
        &mut self,
        account_id: &AccountId,
        instrument: &Instrument,
        side: OrderSide,
        price: Decimal,
        qty: Decimal,
        fee_amount: Decimal,
        fee_asset: &str,
        now: TimestampMs,
    ) -> (r: Option<core::result::Result<(), TuxError>>)
        ensures
            ({
                let f = spot_fill(
                    account_id,
                    instrument,
                    side,
                    price,
                    qty,
                    fee_amount,
                    fee_asset,
                );
                match old(self)@.fill_verdict(f) {
                    None => r is None && final(self)@ == old(self)@,
                    Some(Err(e)) => final(self)@ == old(self)@ && (r matches Some(Err(x)) && x@
                        == e),
                    Some(Ok(_)) => r == Some(Ok::<(), TuxError>(())) && final(self)@
                        == old(self)@.with_fill(f, now),
                }
            }),
    {
        let ghost f = spot_fill(account_id, instrument, side, price, qty, fee_amount, fee_asset);
        let notional = price.checked_mul(qty)?;
        match side {
            OrderSide::Buy => {
                let quote_free = self.free(account_id, instrument.quote_asset.as_str());
                let extra = if same_text(fee_asset, instrument.quote_asset.as_str()) {
                    fee_amount
                } else {
                    Decimal::zero()
                };
                let needed = notional.checked_add(extra)?;
                if quote_free < needed {
                    let free_text = quote_free.to_text();
                    let head = join4(
                        "insufficient ",
                        free_text.as_str(),
                        " ",
                        instrument.quote_asset.as_str(),
                    );
                    let notional_text = notional.to_text();
                    let tail = join2(" for buy notional ", notional_text.as_str());
                    return Some(
                        Err(TuxError::InvalidOrder(join2(head.as_str(), tail.as_str()))),
                    );
                }
            },
            OrderSide::Sell => {
                let base_free = self.free(account_id, instrument.base_asset.as_str());
                if base_free < qty {
                    let free_text = base_free.to_text();
                    let head = join4(
                        "insufficient ",
                        free_text.as_str(),
                        " ",
                        instrument.base_asset.as_str(),
                    );
                    let qty_text = qty.to_text();
                    let tail = join2(" for sell qty ", qty_text.as_str());
                    return Some(
                        Err(TuxError::InvalidOrder(join2(head.as_str(), tail.as_str()))),
                    );
                }
            },
        }

        let moves = Portfolio::moves_of(
            instrument,
            side,
            notional,
            qty,
            fee_amount,
            fee_asset,
        );
        assert(moves_view(moves@) == f.moves(notional@));
        let frees = self.plan_moves(account_id, &moves)?;
        proof {
            decimal::lemma_sign_of_units(fee_amount@);
        }
        let charged = fee_amount > Decimal::zero();
        let fees_so_far = match self.pnl_book(account_id) {
            Some(b) => b.components.trading_fees,
            None => Decimal::zero(),
        };
        if charged {
            fees_so_far.checked_add(fee_amount)?;
        }
        if let Some(asset) = self.find_overdrawn(account_id, &moves) {
            let free_text = self.free(account_id, asset.as_str()).to_text();
            let head = join4("insufficient ", free_text.as_str(), " ", asset.as_str());
            return Some(Err(TuxError::InvalidOrder(join2(head.as_str(), " for fill and fee"))));
        }

        let ghost start = self@;
        let ghost all = moves_view(moves@);
        let mut i: usize = 0;
        while i < moves.len()
            invariant
                i <= moves@.len() == frees@.len(),
                all == moves_view(moves@),
                self@ == start.moved(account_id@, all, i as int, now),
                forall|j: int|
                    0 <= j < frees@.len() ==> start.free_after(
                        account_id@,
                        all.take(j + 1),
                        all[j].0,
                    ) == Some((#[trigger] frees@[j])@),
            decreases moves@.len() - i,
        {
            self.set_free(account_id, moves[i].0.as_str(), frees[i], now);
            i = i + 1;
        }
        let ghost moved = self@;
        proof {
            start.lemma_moved_keeps(account_id@, all, all.len() as int, now);
        }
        if charged {
            self.pnl_mut(account_id).apply_fee(fee_amount);
            let e = AccountingEvent::Fee {
                asset: fee_asset.to_owned(),
                amount: fee_amount,
                at: now,
            };
            proof {
                views::lemma_seq_view_push(self.ledger@, e);
            }
            self.ledger.push(e);
        }
        let head = join3(account_id.as_str(), ":", instrument.id.as_str());
        let stamp = i64_text(now);
        let tail = join2(":", stamp.as_str());
        let e = AccountingEvent::FillApplied {
            fill_id: join2(head.as_str(), tail.as_str()),
            at: now,
        };
        proof {
            views::lemma_seq_view_push(self.ledger@, e);
        }
        self.ledger.push(e);
        assert(self@ =~= start.with_fill(f, now));
        Some(Ok(()))
    }
}

impl PortfolioView {
    /// The balances of one account among the first `n`, in order.
    pub open spec fn balances_of(self, account: Seq<char>, n: int) -> Seq<BalanceView>
        decreases n,
    {
        if n <= 0 {
            Seq::empty()
        } else if self.balances[n - 1].1.account_id == account {
            self.balances_of(account, n - 1).push(self.balances[n - 1].1)
        } else {
            self.balances_of(account, n - 1)
        }
    }

    pub proof fn lemma_first_overdrawn_stays(
        self,
        account: Seq<char>,
        moves: Seq<(Seq<char>, DecimalView)>,
        m: int,
        n: int,
    )
        requires
            0 <= m <= n,
            self.first_overdrawn(account, moves, m) is Some,
        ensures
            self.first_overdrawn(account, moves, n) == self.first_overdrawn(account, moves, m),
        decreases n,
    {
        if m < n {
            self.lemma_first_overdrawn_stays(account, moves, m, n - 1);
        }
    }

    /// Moves touch nothing but balances.
    pub proof fn lemma_moved_keeps(
        self,
        account: Seq<char>,
        moves: Seq<(Seq<char>, DecimalView)>,
        n: int,
        now: TimestampMs,
    )
        ensures
            self.moved(account, moves, n, now).positions == self.positions,
            self.moved(account, moves, n, now).pnl == self.pnl,
            self.moved(account, moves, n, now).ledger == self.ledger,
        decreases n,
    {
        if n > 0 {
            self.lemma_moved_keeps(account, moves, n - 1, now);
        }
    }
}

/// Key helper for position lookup.
pub struct InstrumentIdKey<'a>(pub &'a str);

impl Portfolio {
    /// Apply a spot fill: adjust free balances and fees.
    /// Buy: spend quote, receive base. Sell: spend base, receive quote.
    /// Fails if free balance would go negative (no naked short / overdraft).
    /// `None` when a number on the way is out of range.
    pub fn try_apply_spot_fill(
        &mut self,
        account_id: &AccountId,
        instrument: &Instrument,
        side: OrderSide,
        price: Decimal,
        qty: Decimal,
        fee_amount: Decimal,
        fee_asset: &str,
    ) -> (r: Option<core::result::Result<(), TuxError>>)
        ensures
            ({
                let f = spot_fill(
                    account_id,
                    instrument,
                    side,
                    price,
                    qty,
                    fee_amount,
                    fee_asset,
                );
                match old(self)@.fill_verdict(f) {
                    None => r is None && final(self)@ == old(self)@,
                    Some(Err(e)) => final(self)@ == old(self)@ && (r matches Some(Err(x)) && x@
                        == e),
                    Some(Ok(_)) => r == Some(Ok::<(), TuxError>(())) && exists|now: TimestampMs|
                        ids::clock_gives(now) && final(self)@ == #[trigger] old(self)@.with_fill(
                            f,
                            now,
                        ),
                }
            }),
    {
        self.try_apply_spot_fill_at(
            account_id,
            instrument,
            side,
            price,
            qty,
            fee_amount,
            fee_asset,
            now_ms(),
        )
    }

    /// Apply a spot fill: adjust free balances and fees.
    /// Buy: spend quote, receive base. Sell: spend base, receive quote.
    /// Fails if free balance would go negative (no naked short / overdraft).
    pub fn apply_spot_fill(
        &mut self,
        account_id: &AccountId,
        instrument: &Instrument,
        side: OrderSide,
        price: Decimal,
        qty: Decimal,
        fee_amount: Decimal,
        fee_asset: &str,
    ) -> (r: core::result::Result<(), TuxError>)
        requires
            old(self)@.fill_verdict(
                spot_fill(account_id, instrument, side, price, qty, fee_amount, fee_asset),
            ) is Some,
        ensures
            ({
                let f = spot_fill(
                    account_id,
                    instrument,
                    side,
                    price,
                    qty,
                    fee_amount,
                    fee_asset,
                );
                match old(self)@.fill_verdict(f)->0 {
                    Err(e) => final(self)@ == old(self)@ && (r matches Err(x) && x@ == e),
                    Ok(_) => r is Ok && exists|now: TimestampMs|
                        ids::clock_gives(now) && final(self)@ == #[trigger] old(self)@.with_fill(
                            f,
                            now,
                        ),
                }
            }),
    {
        self.try_apply_spot_fill(account_id, instrument, side, price, qty, fee_amount, fee_asset)
            .unwrap()
    }

    /// Net and gross notional of the account in one instrument.
    fn notionals(
        &self,
        account_id: &AccountId,
        instrument: &Instrument,
        mark_price: Decimal,
    ) -> (r: Option<(Decimal, Decimal)>)
        ensures
            match r {
                None => self@.notionals(account_id@, instrument@, mark_price@) is None,
                Some(x) => self@.notionals(account_id@, instrument@, mark_price@) == Some(
                    (x.0@, x.1@),
                ),
            },
    {
        let mut net = Decimal::zero();
        let mut gross = Decimal::zero();
        if let Some(bal) = self.balance(account_id, instrument.base_asset.as_str()) {
            let total = bal.try_total()?;
            let n = total.checked_mul(mark_price)?;
            net = net.checked_add(n)?;
            gross = gross.checked_add(n.abs())?;
        }
        if let Some(pos) = self.position(
            account_id,
            &InstrumentIdKey(instrument.id.as_str()),
        ) {
            let size = pos.size.checked_mul(instrument.contract_multiplier)?;
            let n = size.checked_mul(mark_price)?;
            net = net.checked_add(n)?;
            gross = gross.checked_add(n.abs())?;
        }
        Some((net, gross))
    }

    /// The exposure at `now`; `None` when a number on the way is out of range.
    pub fn try_exposure_at(
        &self,
        account_id: &AccountId,
        instrument: &Instrument,
        mark_price: Decimal,
        now: TimestampMs,
    ) -> (r: Option<Exposure>)
        ensures
            match r {
                None => self@.notionals(account_id@, instrument@, mark_price@) is None,
                Some(e) => self@.notionals(account_id@, instrument@, mark_price@) is Some && e@
                    == self@.exposure(account_id@, instrument@, mark_price@, now),
            },
    {
        let (net, gross) = self.notionals(account_id, instrument, mark_price)?;
        Some(
            Exposure {
                account_id: account_id.clone(),
                instrument_id: instrument.id.clone(),
                net_notional: net,
                gross_notional: gross,
                updated_at: now,
            },
        )
    }

    /// Unified exposure.
    /// - `net_notional`: signed sum (spot long + contract size can cancel)
    /// - `gross_notional`: sum of absolute notionals (spot + |contracts|), **not** `abs(net)`
    pub fn exposure(
        &self,
        account_id: &AccountId,
        instrument: &Instrument,
        mark_price: Decimal,
    ) -> (r: Exposure)
        requires
            self@.notionals(account_id@, instrument@, mark_price@) is Some,
        ensures
            exists|now: TimestampMs|
                ids::clock_gives(now) && r@ == #[trigger] self@.exposure(
                    account_id@,
                    instrument@,
                    mark_price@,
                    now,
                ),
    {
        self.try_exposure_at(account_id, instrument, mark_price, now_ms()).unwrap()
    }

    /// The price of an asset: under its name, else under its name in capitals,
    /// else zero.
    fn mark_of(marks: &Table<Decimal>, asset: &str) -> (r: Decimal)
        ensures
            r@ == mark_price_of(marks@, asset@),
    {
        match marks.get(asset) {
            Some(p) => *p,
            None => {
                let upper = ascii_upper(asset);
                match marks.get(upper.as_str()) {
                    Some(p) => *p,
                    None => Decimal::zero(),
                }
            },
        }
    }

    /// Mark-to-market equity in `quote`; `None` when a number on the way is out
    /// of range.
    pub fn try_equity_mtm(
        &self,
        account_id: &AccountId,
        quote: &str,
        marks: &Table<Decimal>,
    ) -> (r: Option<Decimal>)
        ensures
            views::opt_view(r) == self@.equity(account_id@, quote@, marks@),
    {
        let mut eq = Decimal::zero();
        let mut i: usize = 0;
        while i < self.balances.len()
            invariant
                i <= self@.balances.len(),
                self@.holdings(account_id@, quote@, marks@, i as int) == Some(eq@),
            decreases self@.balances.len() - i,
        {
            let b = self.balances.value_at(i);
            let ghost total = self@.balances.len() as int;
            if b.account_id == *account_id {
                let value = match b.try_total() {
                    None => None,
                    Some(t) => if same_text(b.asset.as_str(), quote) {
                        Some(t)
                    } else {
                        t.checked_mul(Portfolio::mark_of(marks, b.asset.as_str()))
                    },
                };
                let next = match value {
                    None => None,
                    Some(v) => eq.checked_add(v),
                };
                match next {
                    Some(e) => {
                        eq = e;
                    },
                    None => {
                        proof {
                            self@.lemma_holdings_stay_out(
                                account_id@,
                                quote@,
                                marks@,
                                i + 1,
                                total,
                            );
                        }
                        return None;
                    },
                }
            }
            i = i + 1;
        }
        let unrealized = match self.pnl_book(account_id) {
            Some(b) => b.components.unrealized_pnl,
            None => Decimal::zero(),
        };
        eq.checked_add(unrealized)
    }

    /// Mark-to-market equity in `quote`.
    /// `marks`: asset → price in quote (quote itself is 1).
    pub fn equity_mtm(
        &self,
        account_id: &AccountId,
        quote: &str,
        marks: &Table<Decimal>,
    ) -> (r: Decimal)
        requires
            self@.equity(account_id@, quote@, marks@) is Some,
        ensures
            self@.equity(account_id@, quote@, marks@) == Some(r@),
    {
        self.try_equity_mtm(account_id, quote, marks).unwrap()
    }

    pub fn try_equity(&self, account_id: &AccountId) -> (r: Option<Decimal>)
        ensures
            views::opt_view(r) == self@.equity(account_id@, "USDT"@, Seq::empty()),
    {
        let marks: Table<Decimal> = Table::new();
        // Without marks non-quote assets count as 0 — use equity_mtm in real paths.
        self.try_equity_mtm(account_id, "USDT", &marks)
    }

    /// Equity without marks: only correct when non-quote balances are zero.
    pub fn equity(&self, account_id: &AccountId) -> (r: Decimal)
        requires
            self@.equity(account_id@, "USDT"@, Seq::empty()) is Some,
        ensures
            self@.equity(account_id@, "USDT"@, Seq::empty()) == Some(r@),
    {
        self.try_equity(account_id).unwrap()
    }
}

impl Default for Portfolio {
    fn default() -> (r: Self)
        ensures
            r@ == PortfolioView::nothing(),
    {
        Portfolio::new()
    }
}

/// The price of an asset: under its name, else under its name in capitals,
/// else zero.
pub open spec fn mark_price_of(
    marks: Seq<(Seq<char>, DecimalView)>,
    asset: Seq<char>,
) -> DecimalView {
    match table::lookup(marks, asset) {
        Some(p) => p,
        None => match table::lookup(marks, text::upper_text(asset)) {
            Some(p) => p,
            None => DecimalView::zero(),
        },
    }
}

/// Adds a notional to a net and a gross sum.
pub open spec fn with_notional(
    sums: (DecimalView, DecimalView),
    n: DecimalView,
) -> Option<(DecimalView, DecimalView)> {
    match (sums.0.plus(n), sums.1.plus(n.abs())) {
        (Some(net), Some(gross)) => Some((net, gross)),
        _ => None,
    }
}

impl PortfolioView {
    /// The notional of the base asset that the account holds, if it has a
    /// balance of it; the outer option says whether it is in range.
    pub open spec fn spot_notional(
        self,
        account: Seq<char>,
        instrument: InstrumentView,
        mark: DecimalView,
    ) -> Option<Option<DecimalView>> {
        match self.balance(account, instrument.base_asset) {
            None => Some(None),
            Some(b) => match b.free.plus(b.locked) {
                None => None,
                Some(total) => match total.times(mark) {
                    None => None,
                    Some(n) => Some(Some(n)),
                },
            },
        }
    }

    /// The notional of the contract position, if there is one; the outer option
    /// says whether it is in range.
    pub open spec fn contract_notional(
        self,
        account: Seq<char>,
        instrument: InstrumentView,
        mark: DecimalView,
    ) -> Option<Option<DecimalView>> {
        match self.position(account, instrument.id) {
            None => Some(None),
            Some(p) => match p.size.times(instrument.contract_multiplier) {
                None => None,
                Some(size) => match size.times(mark) {
                    None => None,
                    Some(n) => Some(Some(n)),
                },
            },
        }
    }

    /// The signed sum of spot and contract notional, and the sum of their
    /// magnitudes; nothing when a number on the way is out of range.
    pub open spec fn notionals(
        self,
        account: Seq<char>,
        instrument: InstrumentView,
        mark: DecimalView,
    ) -> Option<(DecimalView, DecimalView)> {
        let none = (DecimalView::zero(), DecimalView::zero());
        let spot = match self.spot_notional(account, instrument, mark) {
            None => None,
            Some(None) => Some(none),
            Some(Some(n)) => with_notional(none, n),
        };
        match (spot, self.contract_notional(account, instrument, mark)) {
            (Some(s), Some(None)) => Some(s),
            (Some(s), Some(Some(n))) => with_notional(s, n),
            _ => None,
        }
    }

    pub open spec fn exposure(
        self,
        account: Seq<char>,
        instrument: InstrumentView,
        mark: DecimalView,
        now: TimestampMs,
    ) -> ExposureView {
        let n = self.notionals(account, instrument, mark)->0;
        ExposureView {
            account_id: account,
            instrument_id: instrument.id,
            net_notional: n.0,
            gross_notional: n.1,
            updated_at: now,
        }
    }

    /// What a balance is worth in `quote`.
    pub open spec fn worth(
        b: BalanceView,
        quote: Seq<char>,
        marks: Seq<(Seq<char>, DecimalView)>,
    ) -> Option<DecimalView> {
        match b.free.plus(b.locked) {
            None => None,
            Some(total) => if b.asset == quote {
                Some(total)
            } else {
                total.times(mark_price_of(marks, b.asset))
            },
        }
    }

    /// What the account's balances among the first `n` are worth together.
    pub open spec fn holdings(
        self,
        account: Seq<char>,
        quote: Seq<char>,
        marks: Seq<(Seq<char>, DecimalView)>,
        n: int,
    ) -> Option<DecimalView>
        decreases n,
    {
        if n <= 0 {
            Some(DecimalView::zero())
        } else {
            let b = self.balances[n - 1].1;
            let before = self.holdings(account, quote, marks, n - 1);
            if b.account_id != account {
                before
            } else {
                match (before, PortfolioView::worth(b, quote, marks)) {
                    (Some(x), Some(v)) => x.plus(v),
                    _ => None,
                }
            }
        }
    }

    /// The account's equity: what its balances are worth and its unrealized
    /// profit; nothing when a number on the way is out of range.
    pub open spec fn equity(
        self,
        account: Seq<char>,
        quote: Seq<char>,
        marks: Seq<(Seq<char>, DecimalView)>,
    ) -> Option<DecimalView> {
        match self.holdings(account, quote, marks, self.balances.len() as int) {
            None => None,
            Some(x) => x.plus(self.book(account).unrealized_pnl),
        }
    }

    pub proof fn lemma_holdings_stay_out(
        self,
        account: Seq<char>,
        quote: Seq<char>,
        marks: Seq<(Seq<char>, DecimalView)>,
        m: int,
        n: int,
    )
        requires
            m <= n,
            self.holdings(account, quote, marks, m) is None,
        ensures
            self.holdings(account, quote, marks, n) is None,
        decreases n,
    {
        if m < n {
            self.lemma_holdings_stay_out(account, quote, marks, m, n - 1);
        }
    }

    /// What is free after the moves is what they add up to, and every key that
    /// they do not concern stays as it is.
    pub proof fn lemma_moved_free(
        self,
        account: Seq<char>,
        moves: Seq<(Seq<char>, DecimalView)>,
        n: int,
        now: TimestampMs,
        asset: Seq<char>,
        key: Seq<char>,
    )
        requires
            0 <= n <= moves.len(),
            self.moves_in_range(account, moves),
        ensures
            self.free_after(account, moves.take(n), asset) == Some(
                self.moved(account, moves, n, now).free(account, asset),
            ),
            (forall|i: int| 0 <= i < n ==> key != pair_key(account, (#[trigger] moves[i]).0))
                ==> table::lookup(self.moved(account, moves, n, now).balances, key)
                == table::lookup(self.balances, key),
        decreases n,
    {
        if n > 0 {
            self.lemma_moved_free(account, moves, n - 1, now, asset, key);
            let last = moves[n - 1].0;
            assert(moves.take(n).drop_last() =~= moves.take(n - 1));
            assert(moves.take(n).last() == moves[n - 1]);
            let before = self.moved(account, moves, n - 1, now);
            let free = self.free_after(account, moves.take(n), last)->0;
            let after = before.with_free(account, last, free, now);
            let b = table::lookup(after.balances, pair_key(account, last));
            let written = BalanceView {
                account_id: match before.balance(account, last) {
                    Some(b) => b.account_id,
                    None => account,
                },
                asset: match before.balance(account, last) {
                    Some(b) => b.asset,
                    None => last,
                },
                free,
                locked: match before.balance(account, last) {
                    Some(b) => b.locked,
                    None => DecimalView::zero(),
                },
                updated_at: now,
            };
            table::law_put(before.balances, pair_key(account, last), written, key);
            table::law_put(
                before.balances,
                pair_key(account, last),
                written,
                pair_key(account, asset),
            );
            lemma_pair_key_injective(account, last, asset);
            assert(moves[n - 1].0 == last);
            assert(self.free_after(account, moves.take(n - 1 + 1), moves[n - 1].0) is Some);
        } else {
            assert(moves.take(0).len() == 0);
        }
    }
}

/// Two assets of one account have different keys.
pub proof fn lemma_pair_key_injective(account: Seq<char>, a: Seq<char>, b: Seq<char>)
    ensures
        pair_key(account, a) == pair_key(account, b) <==> a == b,
{
    if pair_key(account, a) == pair_key(account, b) {
        let head = account + ":"@;
        let n = head.len() as int;
        assert((head + a).skip(n) =~= a);
        assert((head + b).skip(n) =~= b);
    }
}

/// No fill lowers a free balance below zero: after a booked fill each free
/// balance of the account is what the moves add up to, and it is not negative
/// unless it was no higher before.
pub proof fn law_no_overdraft(p: PortfolioView, f: SpotFill, now: TimestampMs, i: int)
    requires
        p.fill_verdict(f) == Some(Ok::<(), ErrorView>(())),
        0 <= i < f.moves(f.price.times(f.qty)->0).len(),
    ensures
        ({
            let moves = f.moves(f.price.times(f.qty)->0);
            let asset = moves[i].0;
            let free = p.with_fill(f, now).free(f.account, asset);
            &&& p.free_after(f.account, moves, asset) == Some(free)
            &&& DecimalView::zero().le(free) || p.free(f.account, asset).le(free)
        }),
{
    let moves = f.moves(f.price.times(f.qty)->0);
    let asset = moves[i].0;
    let n = moves.len() as int;
    assert(moves.take(n) =~= moves);
    p.lemma_moved_free(f.account, moves, n, now, asset, Seq::empty());
    lemma_none_overdrawn(p, f.account, moves, n, i);
}

proof fn lemma_none_overdrawn(
    p: PortfolioView,
    account: Seq<char>,
    moves: Seq<(Seq<char>, DecimalView)>,
    n: int,
    i: int,
)
    requires
        0 <= i < n,
        p.first_overdrawn(account, moves, n) is None,
    ensures
        !p.overdrawn(account, moves, moves[i].0),
    decreases n,
{
    if i < n - 1 {
        lemma_none_overdrawn(p, account, moves, n - 1, i);
    }
}

/// A purchase spends the quote asset and receives the base asset, a sale spends
/// the base asset and receives the quote asset, and a fee in the quote asset is
/// paid on top.
pub proof fn law_fill_trades_base_for_quote(p: PortfolioView, f: SpotFill, now: TimestampMs)
    requires
        p.fill_verdict(f) == Some(Ok::<(), ErrorView>(())),
        f.instrument.base_asset != f.instrument.quote_asset,
        f.fee_asset == f.instrument.quote_asset,
    ensures
        ({
            let notional = f.price.times(f.qty)->0;
            let base = p.free(f.account, f.instrument.base_asset);
            let quote = p.free(f.account, f.instrument.quote_asset);
            let traded = match f.side {
                OrderSide::Buy => (base.plus(f.qty)->0, quote.plus(notional.neg())->0),
                OrderSide::Sell => (base.plus(f.qty.neg())->0, quote.plus(notional)->0),
            };
            let after = p.with_fill(f, now);
            &&& after.free(f.account, f.instrument.base_asset) == traded.0
            &&& after.free(f.account, f.instrument.quote_asset) == if f.fee.positive() {
                traded.1.plus(f.fee.neg())->0
            } else {
                traded.1
            }
        }),
{
    let notional = f.price.times(f.qty)->0;
    let moves = f.moves(notional);
    let trade = moves.take(2);
    law_no_overdraft(p, f, now, 0);
    law_no_overdraft(p, f, now, 1);
    reveal_with_fuel(PortfolioView::free_after, 4);
    assert(trade.drop_last() =~= moves.take(1));
    assert(moves.take(1).drop_last() =~= Seq::empty());
    if f.fee.positive() {
        assert(moves.drop_last() =~= trade);
    } else {
        assert(moves =~= trade);
    }
}

/// A fill touches no balance but those of the assets that it moves, and no
/// position; the ledger only grows.
pub proof fn law_fill_is_local(p: PortfolioView, f: SpotFill, now: TimestampMs, key: Seq<char>)
    requires
        p.fill_verdict(f) == Some(Ok::<(), ErrorView>(())),
        key != pair_key(f.account, f.instrument.quote_asset),
        key != pair_key(f.account, f.instrument.base_asset),
        key != pair_key(f.account, f.fee_asset),
    ensures
        table::lookup(p.with_fill(f, now).balances, key) == table::lookup(p.balances, key),
        p.with_fill(f, now).positions == p.positions,
        p.with_fill(f, now).ledger.len() > p.ledger.len(),
        p.with_fill(f, now).ledger.take(p.ledger.len() as int) == p.ledger,
{
    let moves = f.moves(f.price.times(f.qty)->0);
    let n = moves.len() as int;
    p.lemma_moved_free(f.account, moves, n, now, f.fee_asset, key);
    p.lemma_moved_keeps(f.account, moves, n, now);
    assert(p.with_fill(f, now).ledger.take(p.ledger.len() as int) =~= p.ledger);
}

/// Opposite notionals do not cancel in the gross sum: it is at least the
/// magnitude of the net sum, and equals it when spot and contracts point the
/// same way. Stated where the two sums need no rounding.
pub proof fn law_gross_covers_net(
    p: PortfolioView,
    account: Seq<char>,
    instrument: InstrumentView,
    mark: DecimalView,
    now: TimestampMs,
    spot: DecimalView,
    contract: DecimalView,
)
    requires
        p.spot_notional(account, instrument, mark) == Some(Some(spot)),
        p.contract_notional(account, instrument, mark) == Some(Some(contract)),
        spot.wf(),
        contract.wf(),
        spot.adds_exactly(contract),
        spot.abs().adds_exactly(contract.abs()),
    ensures
        p.notionals(account, instrument, mark) is Some,
        ({
            let e = p.exposure(account, instrument, mark, now);
            &&& e.net_notional.units() == spot.units() + contract.units()
            &&& e.gross_notional.units() == spot.abs().units() + contract.abs().units()
            &&& e.net_notional.abs().units() <= e.gross_notional.units()
            &&& (spot.units() >= 0) == (contract.units() >= 0) ==> e.net_notional.abs().units()
                == e.gross_notional.units()
        }),
{
    decimal::lemma_exact_sum(spot, contract);
    decimal::lemma_exact_sum(spot.abs(), contract.abs());
    decimal::lemma_abs_units(spot);
    decimal::lemma_abs_units(contract);
    decimal::lemma_abs_units(spot.exact_sum(contract));
    decimal::lemma_sign_of_units(DecimalView::zero());
}

impl SpotFill {
    /// What the trade adds to the free balance of an asset, without the fee.
    pub open spec fn traded(self, asset: Seq<char>, notional: DecimalView) -> DecimalView {
        if asset == self.instrument.base_asset {
            if self.side == OrderSide::Buy {
                self.qty
            } else {
                self.qty.neg()
            }
        } else if asset == self.instrument.quote_asset {
            if self.side == OrderSide::Buy {
                notional.neg()
            } else {
                notional
            }
        } else {
            DecimalView::zero()
        }
    }

    /// What the fee adds to the free balance of an asset.
    pub open spec fn charged(self, asset: Seq<char>) -> DecimalView {
        if self.fee.mantissa > 0 && asset == self.fee_asset {
            self.fee.neg()
        } else {
            DecimalView::zero()
        }
    }

    /// Whether an asset's new balance is reached without rounding.
    pub open spec fn settles_exactly(
        self,
        free: DecimalView,
        asset: Seq<char>,
        notional: DecimalView,
    ) -> bool {
        &&& free.wf()
        &&& free.adds_exactly(self.traded(asset, notional))
        &&& free.exact_sum(self.traded(asset, notional)).adds_exactly(self.charged(asset))
    }

    /// Whether the fill's own numbers are decimals and trade two assets.
    pub open spec fn sound(self, notional: DecimalView) -> bool {
        &&& self.qty.wf()
        &&& self.fee.wf()
        &&& notional.wf()
        &&& self.instrument.base_asset != self.instrument.quote_asset
    }
}

proof fn lemma_settlement(p: PortfolioView, f: SpotFill, notional: DecimalView, asset: Seq<char>)
    requires
        f.sound(notional),
        f.settles_exactly(p.free(f.account, asset), asset, notional),
    ensures
        ({
            let moves = f.moves(notional);
            let free = p.free(f.account, asset);
            let end = p.free_after(f.account, moves, asset);
            &&& p.free_after(f.account, moves.take(1), asset) is Some
            &&& p.free_after(f.account, moves.take(2), asset) is Some
            &&& end is Some
            &&& (end->0).units() == free.units() + f.traded(asset, notional).units() + f.charged(
                asset,
            ).units()
        }),
{
    let moves = f.moves(notional);
    let trade = moves.take(2);
    let free = p.free(f.account, asset);
    let traded = f.traded(asset, notional);
    let charged = f.charged(asset);
    reveal_with_fuel(PortfolioView::free_after, 4);
    assert(trade.drop_last() =~= moves.take(1));
    assert(moves.take(1).drop_last() =~= Seq::empty());
    decimal::lemma_neg_units(f.qty);
    decimal::lemma_neg_units(notional);
    decimal::lemma_neg_units(f.fee);
    decimal::lemma_sign_of_units(free);
    decimal::lemma_exact_sum(free, traded);
    decimal::lemma_exact_sum(free.exact_sum(traded), charged);
    if traded.mantissa == 0 {
        assert(free.adds_exactly(charged));
        decimal::lemma_exact_sum(free, charged);
        decimal::lemma_sign_of_units(traded);
    }
    assert(trade.last() == moves[1]);
    assert(moves.take(1).last() == moves[0]);
    if f.fee.positive() {
        assert(moves.drop_last() =~= trade);
        assert(moves.last() == (f.fee_asset, f.fee.neg()));
    } else {
        assert(moves =~= trade);
    }
}

/// A booked fill changes the free balance of every asset of the account by what
/// the trade brings or takes of it, less a fee in that asset: a purchase brings
/// the quantity of the base asset and takes the notional of the quote asset, a
/// sale the other way round. Stated where the sums need no rounding.
pub proof fn law_fill_settles(
    p: PortfolioView,
    f: SpotFill,
    now: TimestampMs,
    asset: Seq<char>,
    notional: DecimalView,
)
    requires
        p.fill_verdict(f) == Some(Ok::<(), ErrorView>(())),
        f.price.times(f.qty) == Some(notional),
        f.sound(notional),
        f.settles_exactly(p.free(f.account, asset), asset, notional),
    ensures
        ({
            let before = p.free(f.account, asset).units();
            let after = p.with_fill(f, now).free(f.account, asset).units();
            let fee = if f.fee.units() > 0 && f.fee_asset == asset {
                f.fee.units()
            } else {
                0
            };
            &&& asset == f.instrument.base_asset && f.side == OrderSide::Buy ==> after == before
                + f.qty.units() - fee
            &&& asset == f.instrument.base_asset && f.side == OrderSide::Sell ==> after == before
                - f.qty.units() - fee
            &&& asset == f.instrument.quote_asset && f.side == OrderSide::Buy ==> after == before
                - notional.units() - fee
            &&& asset == f.instrument.quote_asset && f.side == OrderSide::Sell ==> after == before
                + notional.units() - fee
            &&& asset != f.instrument.base_asset && asset != f.instrument.quote_asset ==> after
                == before - fee
        }),
        f.price.wf() && f.price.multiplies_exactly(f.qty) ==> notional.units() * decimal::pow10(28)
            == f.price.units() * f.qty.units(),
{
    let moves = f.moves(notional);
    let n = moves.len() as int;
    assert(moves.take(n) =~= moves);
    p.lemma_moved_free(f.account, moves, n, now, asset, Seq::empty());
    lemma_settlement(p, f, notional, asset);
    decimal::lemma_neg_units(f.qty);
    decimal::lemma_neg_units(notional);
    decimal::lemma_neg_units(f.fee);
    decimal::lemma_sign_of_units(f.fee);
    if f.price.wf() && f.price.multiplies_exactly(f.qty) {
        decimal::law_product_is_exact(f.price, f.qty);
    }
}

proof fn lemma_all_covered(
    p: PortfolioView,
    account: Seq<char>,
    moves: Seq<(Seq<char>, DecimalView)>,
    n: int,
)
    requires
        0 <= n <= moves.len(),
        forall|i: int| 0 <= i < n ==> !p.overdrawn(account, moves, (#[trigger] moves[i]).0),
    ensures
        p.first_overdrawn(account, moves, n) is None,
    decreases n,
{
    if n > 0 {
        lemma_all_covered(p, account, moves, n - 1);
        assert(!p.overdrawn(account, moves, moves[n - 1].0));
    }
}

/// Whether a balance is covered: not negative, or no lower than before.
pub open spec fn covered(before: int, after: int) -> bool {
    after >= 0 || after >= before
}

proof fn lemma_overdrawn(p: PortfolioView, f: SpotFill, notional: DecimalView, asset: Seq<char>)
    requires
        f.sound(notional),
        f.settles_exactly(p.free(f.account, asset), asset, notional),
    ensures
        p.overdrawn(f.account, f.moves(notional), asset) <==> !covered(
            p.free(f.account, asset).units(),
            p.free(f.account, asset).units() + f.traded(asset, notional).units() + f.charged(
                asset,
            ).units(),
        ),
{
    lemma_settlement(p, f, notional, asset);
    decimal::lemma_sign_of_units(DecimalView::zero());
}

proof fn lemma_fill_overdraws(p: PortfolioView, f: SpotFill, notional: DecimalView)
    ensures
        ({
            let moves = f.moves(notional);
            p.first_overdrawn(f.account, moves, moves.len() as int) is None <==> {
                &&& !p.overdrawn(f.account, moves, f.instrument.base_asset)
                &&& !p.overdrawn(f.account, moves, f.instrument.quote_asset)
                &&& f.fee.mantissa > 0 ==> !p.overdrawn(f.account, moves, f.fee_asset)
            }
        }),
{
    let moves = f.moves(notional);
    let n = moves.len() as int;
    if p.first_overdrawn(f.account, moves, n) is None {
        lemma_none_overdrawn(p, f.account, moves, n, 0);
        lemma_none_overdrawn(p, f.account, moves, n, 1);
        if f.fee.mantissa > 0 {
            lemma_none_overdrawn(p, f.account, moves, n, 2);
        }
    } else if forall|i: int|
        0 <= i < n ==> !p.overdrawn(f.account, moves, (#[trigger] moves[i]).0) {
        lemma_all_covered(p, f.account, moves, n);
    }
}

/// A fill is booked exactly when the account can pay for it: a buyer has the
/// notional, and a fee in the quote asset, free of the quote asset; a seller has
/// the quantity free of the base asset; and neither trade nor fee lowers a
/// balance below zero. Else it is refused. Stated where no sum needs rounding.
pub proof fn law_fill_is_booked_when_covered(p: PortfolioView, f: SpotFill, notional: DecimalView)
    requires
        f.price.times(f.qty) == Some(notional),
        f.sound(notional),
        f.settles_exactly(
            p.free(f.account, f.instrument.base_asset),
            f.instrument.base_asset,
            notional,
        ),
        f.settles_exactly(
            p.free(f.account, f.instrument.quote_asset),
            f.instrument.quote_asset,
            notional,
        ),
        f.settles_exactly(p.free(f.account, f.fee_asset), f.fee_asset, notional),
        notional.adds_exactly(f.fee),
        p.book(f.account).trading_fees.adds_exactly(f.fee),
    ensures
        ({
            let base = p.free(f.account, f.instrument.base_asset).units();
            let quote = p.free(f.account, f.instrument.quote_asset).units();
            let other = p.free(f.account, f.fee_asset).units();
            let fee = if f.fee.units() > 0 {
                f.fee.units()
            } else {
                0
            };
            let base_fee = if f.fee_asset == f.instrument.base_asset {
                fee
            } else {
                0
            };
            let quote_fee = if f.fee_asset == f.instrument.quote_asset {
                fee
            } else {
                0
            };
            let third = f.fee_asset != f.instrument.base_asset && f.fee_asset
                != f.instrument.quote_asset;
            let payable = match f.side {
                OrderSide::Buy => {
                    &&& notional.units() + (if f.fee_asset == f.instrument.quote_asset {
                        f.fee.units()
                    } else {
                        0
                    }) <= quote
                    &&& covered(quote, quote - notional.units() - quote_fee)
                    &&& covered(base, base + f.qty.units() - base_fee)
                },
                OrderSide::Sell => {
                    &&& f.qty.units() <= base
                    &&& covered(base, base - f.qty.units() - base_fee)
                    &&& covered(quote, quote + notional.units() - quote_fee)
                },
            };
            let paid = payable && (third ==> covered(other, other - fee));
            &&& paid <==> p.fill_verdict(f) == Some(Ok::<(), ErrorView>(()))
            &&& !paid <==> p.fill_verdict(f) is Some && p.fill_verdict(f)->0 is Err
        }),
{
    let moves = f.moves(notional);
    let base = f.instrument.base_asset;
    let quote = f.instrument.quote_asset;
    let zero = DecimalView::zero();
    assert(p.moves_in_range(f.account, moves)) by {
        lemma_settlement(p, f, notional, base);
        lemma_settlement(p, f, notional, quote);
        lemma_settlement(p, f, notional, f.fee_asset);
        assert(moves.take(moves.len() as int) =~= moves);
    }
    decimal::lemma_neg_units(f.qty);
    decimal::lemma_neg_units(notional);
    decimal::lemma_neg_units(f.fee);
    decimal::lemma_sign_of_units(f.fee);
    decimal::lemma_exact_sum(notional, f.fee);
    decimal::lemma_exact_sum(notional, zero);
    lemma_overdrawn(p, f, notional, base);
    lemma_overdrawn(p, f, notional, quote);
    lemma_overdrawn(p, f, notional, f.fee_asset);
    lemma_fill_overdraws(p, f, notional);
}

/// A booked fill with a fee raises the account's trading fees by the fee and
/// leaves the rest of its profit and loss as it was; one without a fee leaves
/// all of it. No other account's book changes. In units the fees are the sum
/// where it needs no rounding.
pub proof fn law_fee_is_added(p: PortfolioView, f: SpotFill, now: TimestampMs, other: Seq<char>)
    requires
        p.fill_verdict(f) == Some(Ok::<(), ErrorView>(())),
    ensures
        ({
            let before = p.book(f.account);
            let after = p.with_fill(f, now).book(f.account);
            &&& f.fee.units() > 0 && f.fee.wf() && before.trading_fees.wf()
                && before.trading_fees.adds_exactly(f.fee) ==> after.trading_fees.units()
                == before.trading_fees.units() + f.fee.units()
            &&& f.fee.units() > 0 ==> Some(after.trading_fees) == before.trading_fees.plus(f.fee)
            &&& f.fee.units() <= 0 ==> after.trading_fees == before.trading_fees
            &&& after.gross_realized_pnl == before.gross_realized_pnl
            &&& after.unrealized_pnl == before.unrealized_pnl
            &&& after.funding_fees == before.funding_fees
            &&& after.borrow_interest == before.borrow_interest
        }),
        f.fee.units() <= 0 ==> p.with_fill(f, now).pnl == p.pnl,
        other != f.account ==> table::lookup(p.with_fill(f, now).pnl, other) == table::lookup(
            p.pnl,
            other,
        ),
{
    let moves = f.moves(f.price.times(f.qty)->0);
    let book = p.book(f.account);
    p.lemma_moved_keeps(f.account, moves, moves.len() as int, now);
    decimal::lemma_sign_of_units(f.fee);
    if f.fee.wf() && book.trading_fees.wf() && book.trading_fees.adds_exactly(f.fee) {
        decimal::lemma_exact_sum(book.trading_fees, f.fee);
    }
    table::law_put(
        p.pnl,
        f.account,
        PnlView { trading_fees: book.trading_fees.plus(f.fee)->0, ..book },
        other,
    );
}

/// An account that has no book yet has no profit, no loss and no fees, and one
/// that has a book has what stands in it.
pub proof fn law_book_is_what_was_kept(p: PortfolioView, account: Seq<char>)
    ensures
        match table::lookup(p.pnl, account) {
            Some(b) => p.book(account) == b,
            None => {
                &&& p.book(account).gross_realized_pnl.units() == 0
                &&& p.book(account).unrealized_pnl.units() == 0
                &&& p.book(account).trading_fees.units() == 0
                &&& p.book(account).funding_fees.units() == 0
                &&& p.book(account).borrow_interest.units() == 0
            },
        },
{
    decimal::lemma_sign_of_units(DecimalView::zero());
}

/// A booked fill writes its fee, if it has one, and then itself at the end of
/// the ledger, and nothing else.
pub proof fn law_fill_is_in_the_ledger(p: PortfolioView, f: SpotFill, now: TimestampMs)
    ensures
        ({
            let done = LedgerView::FillApplied {
                fill_id: f.account + ":"@ + f.instrument.id + (":"@ + text::int_text(now as int)),
                at: now,
            };
            let fee = LedgerView::Fee { asset: f.fee_asset, amount: f.fee, at: now };
            &&& f.fee.units() > 0 ==> p.with_fill(f, now).ledger == p.ledger + seq![fee, done]
            &&& f.fee.units() <= 0 ==> p.with_fill(f, now).ledger == p.ledger + seq![done]
        }),
{
    let done = LedgerView::FillApplied {
        fill_id: f.account + ":"@ + f.instrument.id + (":"@ + text::int_text(now as int)),
        at: now,
    };
    let fee = LedgerView::Fee { asset: f.fee_asset, amount: f.fee, at: now };
    decimal::lemma_sign_of_units(f.fee);
    assert(p.ledger.push(fee).push(done) =~= p.ledger + seq![fee, done]);
    assert(p.ledger.push(done) =~= p.ledger + seq![done]);
}

proof fn lemma_moved_locked(
    p: PortfolioView,
    account: Seq<char>,
    moves: Seq<(Seq<char>, DecimalView)>,
    n: int,
    now: TimestampMs,
    asset: Seq<char>,
)
    requires
        0 <= n <= moves.len(),
    ensures
        match (p.balance(account, asset), p.moved(account, moves, n, now).balance(account, asset)) {
            (Some(b), Some(r)) => r.locked == b.locked && r.account_id == b.account_id && r.asset
                == b.asset,
            (None, Some(r)) => r.locked == DecimalView::zero() && r.account_id == account
                && r.asset == asset,
            (Some(b), None) => false,
            (None, None) => true,
        },
        (exists|i: int| 0 <= i < n && (#[trigger] moves[i]).0 == asset) ==> (p.moved(
            account,
            moves,
            n,
            now,
        ).balance(account, asset) matches Some(r) && r.updated_at == now),
    decreases n,
{
    if n > 0 {
        lemma_moved_locked(p, account, moves, n - 1, now, asset);
        if (exists|i: int| 0 <= i < n && (#[trigger] moves[i]).0 == asset) && moves[n - 1].0
            != asset {
            let i = choose|i: int| 0 <= i < n && (#[trigger] moves[i]).0 == asset;
            assert(i < n - 1);
        }
        let before = p.moved(account, moves, n - 1, now);
        let last = moves[n - 1].0;
        let b = before.balance(account, last);
        let written = BalanceView {
            account_id: match b {
                Some(b) => b.account_id,
                None => account,
            },
            asset: match b {
                Some(b) => b.asset,
                None => last,
            },
            free: p.free_after(account, moves.take(n), last)->0,
            locked: match b {
                Some(b) => b.locked,
                None => DecimalView::zero(),
            },
            updated_at: now,
        };
        table::law_put(
            before.balances,
            pair_key(account, last),
            written,
            pair_key(account, asset),
        );
        lemma_pair_key_injective(account, last, asset);
    }
}

/// A fill leaves what is locked as it is: a balance keeps its owner, its asset
/// and its locked amount, and a new one has nothing locked.
pub proof fn law_fill_keeps_locked(
    p: PortfolioView,
    f: SpotFill,
    now: TimestampMs,
    asset: Seq<char>,
)
    ensures
        match (
            table::lookup(p.balances, f.account + ":"@ + asset),
            table::lookup(p.with_fill(f, now).balances, f.account + ":"@ + asset),
        ) {
            (Some(b), Some(r)) => r.locked == b.locked && r.account_id == b.account_id && r.asset
                == b.asset,
            (None, Some(r)) => r.locked.mantissa == 0 && r.account_id == f.account && r.asset
                == asset,
            (Some(b), None) => false,
            (None, None) => true,
        },
        asset == f.instrument.base_asset || asset == f.instrument.quote_asset ==> (table::lookup(
            p.with_fill(f, now).balances,
            f.account + ":"@ + asset,
        ) matches Some(r) && r.updated_at == now),
        f.fee.units() > 0 && asset == f.fee_asset ==> (table::lookup(
            p.with_fill(f, now).balances,
            f.account + ":"@ + asset,
        ) matches Some(r) && r.updated_at == now),
{
    let moves = f.moves(f.price.times(f.qty)->0);
    decimal::lemma_sign_of_units(f.fee);
    assert(moves[0].0 == f.instrument.quote_asset || moves[0].0 == f.instrument.base_asset);
    assert(moves[1].0 == f.instrument.quote_asset || moves[1].0 == f.instrument.base_asset);
    if f.fee.units() > 0 {
        assert(moves[2].0 == f.fee_asset);
    }
    lemma_moved_locked(p, f.account, moves, moves.len() as int, now, asset);
}

/// The free amount of an asset is what its balance has free, and nothing
/// without a balance.
pub proof fn law_free_is_of_the_balance(p: PortfolioView, account: Seq<char>, asset: Seq<char>)
    ensures
        match table::lookup(p.balances, account + ":"@ + asset) {
            Some(b) => p.free(account, asset) == b.free,
            None => p.free(account, asset).units() == 0,
        },
{
    decimal::lemma_sign_of_units(DecimalView::zero());
}

/// The exposure counts all of the base asset that the account has, free and
/// locked, and its contracts by their multiplier, both at the mark price. The
/// net sum keeps their signs and the gross sum drops them; what the account does
/// not have counts as zero.
pub proof fn law_exposure_counts_holdings(
    p: PortfolioView,
    account: Seq<char>,
    instrument: InstrumentView,
    mark: DecimalView,
    now: TimestampMs,
    spot: DecimalView,
    contract: DecimalView,
)
    requires
        spot.wf(),
        contract.wf(),
        spot.adds_exactly(contract),
        spot.abs().adds_exactly(contract.abs()),
        match table::lookup(p.balances, account + ":"@ + instrument.base_asset) {
            Some(b) => b.free.plus(b.locked) is Some && (b.free.plus(b.locked)->0).times(mark)
                == Some(spot),
            None => spot.mantissa == 0,
        },
        match table::lookup(p.positions, account + ":"@ + instrument.id) {
            Some(q) => q.size.times(instrument.contract_multiplier) is Some && (q.size.times(
                instrument.contract_multiplier,
            )->0).times(mark) == Some(contract),
            None => contract.mantissa == 0,
        },
    ensures
        p.notionals(account, instrument, mark) is Some,
        ({
            let e = p.exposure(account, instrument, mark, now);
            &&& e.account_id == account
            &&& e.instrument_id == instrument.id
            &&& e.updated_at == now
            &&& e.net_notional.units() == spot.units() + contract.units()
            &&& e.gross_notional.units() == (if spot.units() < 0 {
                -spot.units()
            } else {
                spot.units()
            }) + (if contract.units() < 0 {
                -contract.units()
            } else {
                contract.units()
            })
        }),
{
    decimal::lemma_exact_sum(spot, contract);
    decimal::lemma_exact_sum(spot.abs(), contract.abs());
    decimal::lemma_abs_units(spot);
    decimal::lemma_abs_units(contract);
    decimal::lemma_sign_of_units(spot);
    decimal::lemma_sign_of_units(contract);
    decimal::lemma_sign_of_units(DecimalView::zero());
    assert(DecimalView::zero().plus(spot) == Some(spot));
    assert(DecimalView::zero().plus(contract) == Some(contract));
}

/// One balance more raises the equity of its account by what the balance is
/// worth: all of it where the asset is the quote asset, else all of it at the
/// asset's price. The equity of other accounts stays. Stated where the sums need
/// no rounding.
pub proof fn law_equity_counts_each_balance(
    p: PortfolioView,
    account: Seq<char>,
    quote: Seq<char>,
    marks: Seq<(Seq<char>, DecimalView)>,
    key: Seq<char>,
    b: BalanceView,
    total: DecimalView,
    value: DecimalView,
)
    requires
        b.free.plus(b.locked) == Some(total),
        b.asset == quote ==> value == total,
        b.asset != quote && table::lookup(marks, b.asset) is Some ==> total.times(
            table::lookup(marks, b.asset)->0,
        ) == Some(value),
        b.asset != quote && table::lookup(marks, b.asset) is None && table::lookup(
            marks,
            text::upper_text(b.asset),
        ) is Some ==> total.times(table::lookup(marks, text::upper_text(b.asset))->0) == Some(
            value,
        ),
        b.asset != quote && table::lookup(marks, b.asset) is None && table::lookup(
            marks,
            text::upper_text(b.asset),
        ) is None ==> value == DecimalView::zero(),
    ensures
        ({
            let more = PortfolioView { balances: p.balances.push((key, b)), ..p };
            let n = p.balances.len() as int;
            let before = p.holdings(account, quote, marks, n);
            let after = more.holdings(account, quote, marks, n + 1);
            &&& b.account_id != account ==> more.equity(account, quote, marks) == p.equity(
                account,
                quote,
                marks,
            )
            &&& b.account_id == account && before is Some && (before->0).wf() && value.wf() && (
            before->0).adds_exactly(value) ==> {
                &&& after is Some
                &&& (after->0).units() == (before->0).units() + value.units()
                &&& more.equity(account, quote, marks) == (after->0).plus(
                    p.book(account).unrealized_pnl,
                )
            }
        }),
{
    let more = PortfolioView { balances: p.balances.push((key, b)), ..p };
    let n = p.balances.len() as int;
    lemma_holdings_of_first(p, more, account, quote, marks, n);
    let before = p.holdings(account, quote, marks, n);
    if before is Some && (before->0).wf() && value.wf() && (before->0).adds_exactly(value) {
        decimal::lemma_exact_sum(before->0, value);
    }
}

proof fn lemma_holdings_of_first(
    p: PortfolioView,
    q: PortfolioView,
    account: Seq<char>,
    quote: Seq<char>,
    marks: Seq<(Seq<char>, DecimalView)>,
    n: int,
)
    requires
        n <= p.balances.len(),
        n <= q.balances.len(),
        forall|i: int| 0 <= i < n ==> #[trigger] p.balances[i] == q.balances[i],
    ensures
        p.holdings(account, quote, marks, n) == q.holdings(account, quote, marks, n),
    decreases n,
{
    if n > 0 {
        lemma_holdings_of_first(p, q, account, quote, marks, n - 1);
        assert(p.balances[n - 1] == q.balances[n - 1]);
    }
}

/// An account without balances is worth its unrealized profit alone.
pub proof fn law_equity_of_nothing(
    p: PortfolioView,
    account: Seq<char>,
    quote: Seq<char>,
    marks: Seq<(Seq<char>, DecimalView)>,
)
    requires
        forall|i: int|
            0 <= i < p.balances.len() ==> (#[trigger] p.balances[i]).1.account_id != account,
    ensures
        p.equity(account, quote, marks) is Some,
        (p.equity(account, quote, marks)->0).units() == p.book(account).unrealized_pnl.units(),
{
    lemma_no_holdings(p, account, quote, marks, p.balances.len() as int);
    decimal::lemma_sign_of_units(DecimalView::zero());
    assert(DecimalView::zero().plus(p.book(account).unrealized_pnl) == Some(
        p.book(account).unrealized_pnl,
    ));
}

proof fn lemma_no_holdings(
    p: PortfolioView,
    account: Seq<char>,
    quote: Seq<char>,
    marks: Seq<(Seq<char>, DecimalView)>,
    n: int,
)
    requires
        n <= p.balances.len(),
        forall|i: int|
            0 <= i < p.balances.len() ==> (#[trigger] p.balances[i]).1.account_id != account,
    ensures
        p.holdings(account, quote, marks, n) == Some(DecimalView::zero()),
    decreases n,
{
    if n > 0 {
        lemma_no_holdings(p, account, quote, marks, n - 1);
        assert(p.balances[n - 1].1.account_id != account);
    }
}

/// The balances of an account are those that name it: each is listed, and
/// nothing else is.
pub proof fn law_balances_of_account(p: PortfolioView, account: Seq<char>, n: int, b: BalanceView)
    requires
        0 <= n <= p.balances.len(),
    ensures
        p.balances_of(account, n).contains(b) <==> b.account_id == account && exists|i: int|
            0 <= i < n && (#[trigger] p.balances[i]).1 == b,
    decreases n,
{
    if n > 0 {
        law_balances_of_account(p, account, n - 1, b);
        let before = p.balances_of(account, n - 1);
        let after = p.balances_of(account, n);
        let last = p.balances[n - 1].1;
        if last.account_id == account {
            assert(after[before.len() as int] == last);
            if before.contains(b) {
                let i = choose|i: int| 0 <= i < before.len() && before[i] == b;
                assert(after[i] == b);
            }
            if after.contains(b) && b != last {
                let i = choose|i: int| 0 <= i < after.len() && after[i] == b;
                assert(before[i] == b);
            }
        }
    }
}

/// A refused purchase or sale says what the account has free of the asset that
/// it lacks, and what for.
pub proof fn law_refused_fill_says_what_is_short(
    p: PortfolioView,
    f: SpotFill,
    notional: DecimalView,
    needed: DecimalView,
)
    requires
        f.price.times(f.qty) == Some(notional),
        notional.plus(
            if f.fee_asset == f.instrument.quote_asset {
                f.fee
            } else {
                DecimalView::zero()
            },
        ) == Some(needed),
    ensures
        ({
            let quote = p.free(f.account, f.instrument.quote_asset);
            let base = p.free(f.account, f.instrument.base_asset);
            &&& f.side == OrderSide::Buy && quote.units() < needed.units() ==> p.fill_verdict(f)
                == Some(
                Err::<(), ErrorView>(
                    ErrorView::InvalidOrder(
                        "insufficient "@ + quote.text() + " "@ + f.instrument.quote_asset + (
                        " for buy notional "@ + notional.text()),
                    ),
                ),
            )
            &&& f.side == OrderSide::Sell && base.units() < f.qty.units() ==> p.fill_verdict(f)
                == Some(
                Err::<(), ErrorView>(
                    ErrorView::InvalidOrder(
                        "insufficient "@ + base.text() + " "@ + f.instrument.base_asset + (
                        " for sell qty "@ + f.qty.text()),
                    ),
                ),
            )
        }),
{
}

} // verus!
