//! Account reconciliation after start / reconnect / timeout / crash.

use vstd::prelude::*;
use vstd::string::*;

use crate::decimal;
use crate::decimal::{Decimal, DecimalView};
use crate::domain::{Balance, BalanceView, Order, OrderView, Position, PositionView};
use crate::table::Table;
use crate::table;
use crate::text::{join2, join4, same_text};
use crate::views;

verus! {

#[derive(Debug, PartialEq, Eq, Default)]
pub struct ReconcileReport {
    pub open_orders_local: usize,
    pub open_orders_venue: usize,
    pub mismatches: Vec<String>,
}

impl ReconcileReport {
    pub fn is_clean(&self) -> (r: bool)
        ensures
            r == (self.mismatches@.len() == 0),
    {
        self.mismatches.len() == 0
    }
}

/// The client order ids of some orders.
pub open spec fn client_ids(orders: Seq<OrderView>) -> Seq<Seq<char>> {
    Seq::new(orders.len(), |i: int| orders[i].client_order_id)
}

/// The ids among the first `n` that `others` does not have, each once, in the
/// order of their first occurrence.
pub open spec fn missing(
    ids: Seq<Seq<char>>,
    others: Seq<Seq<char>>,
    n: int,
) -> Seq<Seq<char>>
    decreases n,
{
    if n <= 0 {
        Seq::empty()
    } else {
        let before = missing(ids, others, n - 1);
        let id = ids[n - 1];
        if others.contains(id) || before.contains(id) {
            before
        } else {
            before.push(id)
        }
    }
}

/// A text in front of each of some ids.
pub open spec fn labelled(label: Seq<char>, ids: Seq<Seq<char>>) -> Seq<Seq<char>> {
    Seq::new(ids.len(), |i: int| label + ids[i])
}

/// What local orders and venue orders do not have in common.
pub open spec fn order_mismatches(
    local: Seq<OrderView>,
    venue: Seq<OrderView>,
) -> Seq<Seq<char>> {
    let l = client_ids(local);
    let v = client_ids(venue);
    labelled("order only on venue: "@, missing(v, l, v.len() as int)) + labelled(
        "order only local: "@,
        missing(l, v, l.len() as int),
    )
}

fn has_client_id(orders: &[Order], id: &str) -> (r: bool)
    ensures
        r == client_ids(views::seq_view(orders@)).contains(id@),
{
    let ghost ids = client_ids(views::seq_view(orders@));
    let mut i: usize = 0;
    while i < orders.len()
        invariant
            i <= orders@.len(),
            ids == client_ids(views::seq_view(orders@)),
            forall|j: int| 0 <= j < i ==> #[trigger] ids[j] != id@,
        decreases orders@.len() - i,
    {
        if same_text(orders[i].client_order_id.as_str(), id) {
            assert(ids[i as int] == id@);
            return true;
        }
        i = i + 1;
    }
    false
}

fn has_text(list: &Vec<String>, s: &str) -> (r: bool)
    ensures
        r == views::seq_view(list@).contains(s@),
{
    let ghost all = views::seq_view(list@);
    let mut i: usize = 0;
    while i < list.len()
        invariant
            i <= list@.len(),
            all == views::seq_view(list@),
            forall|j: int| 0 <= j < i ==> #[trigger] all[j] != s@,
        decreases list@.len() - i,
    {
        if same_text(list[i].as_str(), s) {
            assert(all[i as int] == s@);
            return true;
        }
        i = i + 1;
    }
    false
}

/// The client order ids that the others do not have.
fn missing_ids(orders: &[Order], others: &[Order]) -> (r: Vec<String>)
    ensures
        views::seq_view(r@) == missing(
            client_ids(views::seq_view(orders@)),
            client_ids(views::seq_view(others@)),
            orders@.len() as int,
        ),
{
    let ghost ids = client_ids(views::seq_view(orders@));
    let ghost theirs = client_ids(views::seq_view(others@));
    let mut r: Vec<String> = Vec::new();
    let mut i: usize = 0;
    assert(views::seq_view(r@) =~= missing(ids, theirs, 0));
    while i < orders.len()
        invariant
            i <= orders@.len(),
            ids == client_ids(views::seq_view(orders@)),
            theirs == client_ids(views::seq_view(others@)),
            views::seq_view(r@) == missing(ids, theirs, i as int),
        decreases orders@.len() - i,
    {
        let id = orders[i].client_order_id.as_str();
        assert(id@ == ids[i as int]);
        if !has_client_id(others, id) && !has_text(&r, id) {
            let owned = id.to_owned();
            proof {
                views::lemma_seq_view_push(r@, owned);
            }
            r.push(owned);
        }
        i = i + 1;
    }
    r
}

/// Appends each id with a text in front.
fn push_labelled(out: &mut Vec<String>, label: &str, ids: &Vec<String>)
    ensures
        views::seq_view(final(out)@) == views::seq_view(old(out)@) + labelled(
            label@,
            views::seq_view(ids@),
        ),
{
    let ghost start = views::seq_view(out@);
    let ghost all = labelled(label@, views::seq_view(ids@));
    let mut i: usize = 0;
    assert(start + all.take(0) =~= start);
    while i < ids.len()
        invariant
            i <= ids@.len(),
            all == labelled(label@, views::seq_view(ids@)),
            views::seq_view(out@) == start + all.take(i as int),
        decreases ids@.len() - i,
    {
        let line = join2(label, ids[i].as_str());
        proof {
            views::lemma_seq_view_push(out@, line);
            assert(start + all.take(i + 1) =~= (start + all.take(i as int)).push(line@));
        }
        out.push(line);
        i = i + 1;
    }
    assert(all.take(i as int) =~= all);
}

/// A local and a venue amount.
#[derive(Debug, Clone, Copy)]
pub struct Sides {
    pub local: Decimal,
    pub venue: Decimal,
}

/// What [`Sides`] hold.
pub struct SidesView {
    pub local: DecimalView,
    pub venue: DecimalView,
}

impl View for Sides {
    type V = SidesView;

    open spec fn view(&self) -> SidesView {
        SidesView { local: self.local@, venue: self.venue@ }
    }
}

/// The amounts under a name, nothing on either side where there are none.
pub open spec fn sides_of(t: Seq<(Seq<char>, SidesView)>, name: Seq<char>) -> SidesView {
    match table::lookup(t, name) {
        Some(s) => s,
        None => SidesView { local: DecimalView::zero(), venue: DecimalView::zero() },
    }
}

/// With an amount on one side under a name.
pub open spec fn with_amount(
    t: Seq<(Seq<char>, SidesView)>,
    name: Seq<char>,
    amount: DecimalView,
    is_local: bool,
) -> Seq<(Seq<char>, SidesView)> {
    let s = sides_of(t, name);
    table::put(
        t,
        name,
        if is_local {
            SidesView { local: amount, ..s }
        } else {
            SidesView { venue: amount, ..s }
        },
    )
}

fn set_amount(t: &mut Table<Sides>, name: &str, amount: Decimal, is_local: bool)
    ensures
        final(t)@ == with_amount(old(t)@, name@, amount@, is_local),
{
    let s = match t.get(name) {
        Some(s) => Sides { local: s.local, venue: s.venue },
        None => Sides { local: Decimal::zero(), venue: Decimal::zero() },
    };
    let s = if is_local {
        Sides { local: amount, venue: s.venue }
    } else {
        Sides { local: s.local, venue: amount }
    };
    t.insert(name.to_owned(), s);
}

/// One line of a comparison.
pub open spec fn mismatch_line(
    label: Seq<char>,
    name: Seq<char>,
    s: SidesView,
) -> Seq<char> {
    label + name + ": local="@ + s.local.text() + (" venue="@ + s.venue.text())
}

/// The names among the first `n` whose amounts differ, with both amounts.
pub open spec fn mismatch_lines(
    label: Seq<char>,
    t: Seq<(Seq<char>, SidesView)>,
    n: int,
) -> Seq<Seq<char>>
    decreases n,
{
    if n <= 0 {
        Seq::empty()
    } else {
        let before = mismatch_lines(label, t, n - 1);
        let e = t[n - 1];
        if e.1.local.same(e.1.venue) {
            before
        } else {
            before.push(mismatch_line(label, e.0, e.1))
        }
    }
}

fn list_mismatches(label: &str, t: &Table<Sides>) -> (r: Vec<String>)
    ensures
        views::seq_view(r@) == mismatch_lines(label@, t@, t@.len() as int),
{
    let mut r: Vec<String> = Vec::new();
    let mut i: usize = 0;
    assert(views::seq_view(r@) =~= mismatch_lines(label@, t@, 0));
    while i < t.len()
        invariant
            i <= t@.len(),
            views::seq_view(r@) == mismatch_lines(label@, t@, i as int),
        decreases t@.len() - i,
    {
        let s = t.value_at(i);
        if s.local != s.venue {
            let local = s.local.to_text();
            let venue = s.venue.to_text();
            let head = join4(label, t.key_at(i), ": local=", local.as_str());
            let tail = join2(" venue=", venue.as_str());
            let line = join2(head.as_str(), tail.as_str());
            proof {
                views::lemma_seq_view_push(r@, line);
            }
            r.push(line);
        }
        i = i + 1;
    }
    r
}

/// The totals of the first `n` balances on one side, added to a table; nothing
/// when a total is out of range.
pub open spec fn with_totals(
    t: Seq<(Seq<char>, SidesView)>,
    balances: Seq<BalanceView>,
    n: int,
    is_local: bool,
) -> Option<Seq<(Seq<char>, SidesView)>>
    decreases n,
{
    if n <= 0 {
        Some(t)
    } else {
        let b = balances[n - 1];
        match (with_totals(t, balances, n - 1, is_local), b.free.plus(b.locked)) {
            (Some(before), Some(total)) => Some(with_amount(before, b.asset, total, is_local)),
            _ => None,
        }
    }
}

/// Local and venue totals by asset; nothing when a total is out of range.
pub open spec fn totals(
    local: Seq<BalanceView>,
    venue: Seq<BalanceView>,
) -> Option<Seq<(Seq<char>, SidesView)>> {
    match with_totals(Seq::empty(), local, local.len() as int, true) {
        None => None,
        Some(t) => with_totals(t, venue, venue.len() as int, false),
    }
}

fn add_totals(t: &mut Table<Sides>, balances: &[Balance], is_local: bool) -> (r: bool)
    ensures
        r == with_totals(
            old(t)@,
            views::seq_view(balances@),
            balances@.len() as int,
            is_local,
        ) is Some,
        r ==> Some(final(t)@) == with_totals(
            old(t)@,
            views::seq_view(balances@),
            balances@.len() as int,
            is_local,
        ),
{
    let ghost start = t@;
    let ghost all = views::seq_view(balances@);
    let mut i: usize = 0;
    while i < balances.len()
        invariant
            i <= balances@.len(),
            all == views::seq_view(balances@),
            start == old(t)@,
            with_totals(start, all, i as int, is_local) == Some(t@),
        decreases balances@.len() - i,
    {
        let b = &balances[i];
        assert(b@ == all[i as int]);
        match b.try_total() {
            Some(total) => {
                set_amount(t, b.asset.as_str(), total, is_local);
            },
            None => {
                proof {
                    lemma_totals_stay_out(start, all, i + 1, all.len() as int, is_local);
                }
                return false;
            },
        }
        i = i + 1;
    }
    true
}

proof fn lemma_totals_stay_out(
    t: Seq<(Seq<char>, SidesView)>,
    balances: Seq<BalanceView>,
    m: int,
    n: int,
    is_local: bool,
)
    requires
        m <= n,
        with_totals(t, balances, m, is_local) is None,
    ensures
        with_totals(t, balances, n, is_local) is None,
    decreases n,
{
    if m < n {
        lemma_totals_stay_out(t, balances, m, n - 1, is_local);
    }
}

/// The sizes of the first `n` positions on one side, added to a table.
pub open spec fn with_sizes(
    t: Seq<(Seq<char>, SidesView)>,
    positions: Seq<PositionView>,
    n: int,
    is_local: bool,
) -> Seq<(Seq<char>, SidesView)>
    decreases n,
{
    if n <= 0 {
        t
    } else {
        let p = positions[n - 1];
        with_amount(with_sizes(t, positions, n - 1, is_local), p.instrument_id, p.size, is_local)
    }
}

/// Local and venue position sizes by instrument.
pub open spec fn sizes(
    local: Seq<PositionView>,
    venue: Seq<PositionView>,
) -> Seq<(Seq<char>, SidesView)> {
    with_sizes(
        with_sizes(Seq::empty(), local, local.len() as int, true),
        venue,
        venue.len() as int,
        false,
    )
}

fn add_sizes(t: &mut Table<Sides>, positions: &[Position], is_local: bool)
    ensures
        final(t)@ == with_sizes(
            old(t)@,
            views::seq_view(positions@),
            positions@.len() as int,
            is_local,
        ),
{
    let ghost start = t@;
    let ghost all = views::seq_view(positions@);
    let mut i: usize = 0;
    while i < positions.len()
        invariant
            i <= positions@.len(),
            all == views::seq_view(positions@),
            t@ == with_sizes(start, all, i as int, is_local),
        decreases positions@.len() - i,
    {
        let p = &positions[i];
        assert(p@ == all[i as int]);
        set_amount(t, p.instrument_id.as_str(), p.size, is_local);
        i = i + 1;
    }
}

pub struct Reconciler;

impl Reconciler {
    /// Orders that only one side has, by client order id.
    pub fn diff_orders(local: &[Order], venue: &[Order]) -> (r: Vec<String>)
        ensures
            views::seq_view(r@) == order_mismatches(
                views::seq_view(local@),
                views::seq_view(venue@),
            ),
    {
        let mut out: Vec<String> = Vec::new();
        let only_venue = missing_ids(venue, local);
        let only_local = missing_ids(local, venue);
        let ghost empty = views::seq_view(out@);
        push_labelled(&mut out, "order only on venue: ", &only_venue);
        push_labelled(&mut out, "order only local: ", &only_local);
        assert(views::seq_view(out@) =~= order_mismatches(
            views::seq_view(local@),
            views::seq_view(venue@),
        ));
        out
    }

    /// Assets whose totals differ; `None` when a total is out of range.
    pub fn try_diff_balances(
        local: &[Balance],
        venue: &[Balance],
    ) -> (r: Option<Vec<String>>)
        ensures
            match r {
                None => totals(views::seq_view(local@), views::seq_view(venue@)) is None,
                Some(lines) => totals(
                    views::seq_view(local@),
                    views::seq_view(venue@),
                ) matches Some(t) && views::seq_view(lines@) == mismatch_lines(
                    "balance mismatch "@,
                    t,
                    t.len() as int,
                ),
            },
    {
        let mut map: Table<Sides> = Table::new();
        if !add_totals(&mut map, local, true) {
            return None;
        }
        if !add_totals(&mut map, venue, false) {
            return None;
        }
        Some(list_mismatches("balance mismatch ", &map))
    }

    /// Assets whose totals differ.
    pub fn diff_balances(local: &[Balance], venue: &[Balance]) -> (r: Vec<String>)
        requires
            totals(views::seq_view(local@), views::seq_view(venue@)) is Some,
        ensures
            totals(views::seq_view(local@), views::seq_view(venue@)) matches Some(t)
                && views::seq_view(r@) == mismatch_lines(
                "balance mismatch "@,
                t,
                t.len() as int,
            ),
    {
        Reconciler::try_diff_balances(local, venue).unwrap()
    }

    /// Instruments whose position sizes differ.
    pub fn diff_positions(local: &[Position], venue: &[Position]) -> (r: Vec<String>)
        ensures
            ({
                let t = sizes(views::seq_view(local@), views::seq_view(venue@));
                views::seq_view(r@) == mismatch_lines("position mismatch "@, t, t.len() as int)
            }),
    {
        let mut map: Table<Sides> = Table::new();
        add_sizes(&mut map, local, true);
        add_sizes(&mut map, venue, false);
        list_mismatches("position mismatch ", &map)
    }
}

/// An id is reported exactly when it occurs here and not there, and only once.
pub proof fn law_missing_is_difference(
    ids: Seq<Seq<char>>,
    others: Seq<Seq<char>>,
    n: int,
    id: Seq<char>,
)
    requires
        0 <= n <= ids.len(),
    ensures
        missing(ids, others, n).contains(id) <==> ids.take(n).contains(id) && !others.contains(id),
        missing(ids, others, n).no_duplicates(),
    decreases n,
{
    if n > 0 {
        law_missing_is_difference(ids, others, n - 1, id);
        law_missing_is_difference(ids, others, n - 1, ids[n - 1]);
        let before = missing(ids, others, n - 1);
        let after = missing(ids, others, n);
        let last = ids[n - 1];
        assert(ids.take(n)[n - 1] == last);
        assert(forall|i: int| 0 <= i < n - 1 ==> ids.take(n)[i] == #[trigger] ids.take(n - 1)[i]);
        if ids.take(n).contains(id) && id != last {
            let head = ids.take(n);
            let i = choose|i: int| 0 <= i < n && head[i] == id;
            assert(ids.take(n - 1)[i] == id);
        }
        if ids.take(n - 1).contains(id) {
            let head = ids.take(n - 1);
            let i = choose|i: int| 0 <= i < n - 1 && head[i] == id;
            assert(ids.take(n)[i] == id);
        }
        if !(others.contains(last) || before.contains(last)) {
            assert(after == before.push(last));
            assert(after[before.len() as int] == last);
            if before.contains(id) {
                let i = choose|i: int| 0 <= i < before.len() && before[i] == id;
                assert(after[i] == id);
            }
            if after.contains(id) && id != last {
                let i = choose|i: int| 0 <= i < after.len() && after[i] == id;
                assert(before[i] == id);
            }
        }
    } else {
        assert(ids.take(0).len() == 0);
    }
}

/// The order comparison is empty exactly when both sides know the same client
/// order ids.
pub proof fn law_orders_agree(local: Seq<OrderView>, venue: Seq<OrderView>)
    ensures
        order_mismatches(local, venue).len() == 0 <==> (forall|id: Seq<char>|
            client_ids(local).contains(id) <==> client_ids(venue).contains(id)),
{
    let l = client_ids(local);
    let v = client_ids(venue);
    let only_venue = missing(v, l, v.len() as int);
    let only_local = missing(l, v, l.len() as int);
    assert(l.take(l.len() as int) =~= l);
    assert(v.take(v.len() as int) =~= v);
    if order_mismatches(local, venue).len() == 0 {
        assert forall|id: Seq<char>| l.contains(id) <==> v.contains(id) by {
            law_missing_is_difference(v, l, v.len() as int, id);
            law_missing_is_difference(l, v, l.len() as int, id);
        }
    } else if forall|id: Seq<char>| l.contains(id) <==> v.contains(id) {
        if only_venue.len() > 0 {
            law_missing_is_difference(v, l, v.len() as int, only_venue[0]);
            assert(only_venue.contains(only_venue[0]));
        } else {
            law_missing_is_difference(l, v, l.len() as int, only_local[0]);
            assert(only_local.contains(only_local[0]));
        }
    }
}

/// A comparison of amounts is empty exactly when the amounts of every name are
/// the same on both sides.
pub proof fn law_amounts_agree(label: Seq<char>, t: Seq<(Seq<char>, SidesView)>, n: int)
    requires
        0 <= n <= t.len(),
    ensures
        mismatch_lines(label, t, n).len() == 0 <==> (forall|i: int|
            0 <= i < n ==> (#[trigger] t[i]).1.local.same(t[i].1.venue)),
    decreases n,
{
    if n > 0 {
        law_amounts_agree(label, t, n - 1);
        assert(t[n - 1].1.local.same(t[n - 1].1.venue) || !t[n - 1].1.local.same(
            t[n - 1].1.venue,
        ));
    }
}

/// What a list of balances says of an asset: the free and locked amount of its
/// last entry for that asset.
pub open spec fn listed_total(balances: Seq<BalanceView>, asset: Seq<char>) -> Option<DecimalView>
    decreases balances.len(),
{
    if balances.len() == 0 {
        None
    } else if balances.last().asset == asset {
        balances.last().free.plus(balances.last().locked)
    } else {
        listed_total(balances.drop_last(), asset)
    }
}

/// What a list of positions says of an instrument: the size of its last entry
/// for that instrument.
pub open spec fn listed_size(
    positions: Seq<PositionView>,
    instrument: Seq<char>,
) -> Option<DecimalView>
    decreases positions.len(),
{
    if positions.len() == 0 {
        None
    } else if positions.last().instrument_id == instrument {
        Some(positions.last().size)
    } else {
        listed_size(positions.drop_last(), instrument)
    }
}

/// An amount, or zero where there is none.
pub open spec fn or_zero(amount: Option<DecimalView>) -> DecimalView {
    match amount {
        Some(a) => a,
        None => DecimalView::zero(),
    }
}

/// Whether every total of a list is in range.
pub open spec fn totals_in_range(balances: Seq<BalanceView>) -> bool {
    forall|i: int|
        0 <= i < balances.len() ==> (#[trigger] balances[i]).free.plus(balances[i].locked) is Some
}

proof fn lemma_with_totals(
    t: Seq<(Seq<char>, SidesView)>,
    balances: Seq<BalanceView>,
    n: int,
    is_local: bool,
    name: Seq<char>,
)
    requires
        0 <= n <= balances.len(),
        totals_in_range(balances),
        table::distinct(t),
    ensures
        with_totals(t, balances, n, is_local) is Some,
        ({
            let r = with_totals(t, balances, n, is_local)->0;
            let said = listed_total(balances.take(n), name);
            &&& table::distinct(r)
            &&& table::lookup(r, name) is Some <==> table::lookup(t, name) is Some || said is Some
            &&& sides_of(r, name).local == if is_local && said is Some {
                said->0
            } else {
                sides_of(t, name).local
            }
            &&& sides_of(r, name).venue == if !is_local && said is Some {
                said->0
            } else {
                sides_of(t, name).venue
            }
        }),
    decreases n,
{
    if n > 0 {
        lemma_with_totals(t, balances, n - 1, is_local, name);
        let before = with_totals(t, balances, n - 1, is_local)->0;
        let b = balances[n - 1];
        let total = b.free.plus(b.locked)->0;
        let head = balances.take(n);
        assert(head.drop_last() =~= balances.take(n - 1));
        assert(head.last() == b);
        let s = sides_of(before, b.asset);
        let value = if is_local {
            SidesView { local: total, ..s }
        } else {
            SidesView { venue: total, ..s }
        };
        table::law_put(before, b.asset, value, name);
        table::law_put_keeps_distinct(before, b.asset, value);
    } else {
        assert(balances.take(0).len() == 0);
    }
}

proof fn lemma_with_sizes(
    t: Seq<(Seq<char>, SidesView)>,
    positions: Seq<PositionView>,
    n: int,
    is_local: bool,
    name: Seq<char>,
)
    requires
        0 <= n <= positions.len(),
        table::distinct(t),
    ensures
        ({
            let r = with_sizes(t, positions, n, is_local);
            let said = listed_size(positions.take(n), name);
            &&& table::distinct(r)
            &&& table::lookup(r, name) is Some <==> table::lookup(t, name) is Some || said is Some
            &&& sides_of(r, name).local == if is_local && said is Some {
                said->0
            } else {
                sides_of(t, name).local
            }
            &&& sides_of(r, name).venue == if !is_local && said is Some {
                said->0
            } else {
                sides_of(t, name).venue
            }
        }),
    decreases n,
{
    if n > 0 {
        lemma_with_sizes(t, positions, n - 1, is_local, name);
        let before = with_sizes(t, positions, n - 1, is_local);
        let p = positions[n - 1];
        let head = positions.take(n);
        assert(head.drop_last() =~= positions.take(n - 1));
        assert(head.last() == p);
        let s = sides_of(before, p.instrument_id);
        let value = if is_local {
            SidesView { local: p.size, ..s }
        } else {
            SidesView { venue: p.size, ..s }
        };
        table::law_put(before, p.instrument_id, value, name);
        table::law_put_keeps_distinct(before, p.instrument_id, value);
    } else {
        assert(positions.take(0).len() == 0);
    }
}

proof fn lemma_lines(label: Seq<char>, t: Seq<(Seq<char>, SidesView)>, n: int, line: Seq<char>)
    requires
        0 <= n <= t.len(),
    ensures
        mismatch_lines(label, t, n).contains(line) <==> exists|i: int|
            0 <= i < n && !(#[trigger] t[i]).1.local.same(t[i].1.venue) && line == mismatch_line(
                label,
                t[i].0,
                t[i].1,
            ),
    decreases n,
{
    if n > 0 {
        lemma_lines(label, t, n - 1, line);
        let before = mismatch_lines(label, t, n - 1);
        let after = mismatch_lines(label, t, n);
        let e = t[n - 1];
        if !e.1.local.same(e.1.venue) {
            let own = mismatch_line(label, e.0, e.1);
            assert(after == before.push(own));
            assert(after[before.len() as int] == own);
            if before.contains(line) {
                let i = choose|i: int| 0 <= i < before.len() && before[i] == line;
                assert(after[i] == line);
            }
            if after.contains(line) && line != own {
                let i = choose|i: int| 0 <= i < after.len() && after[i] == line;
                assert(before[i] == line);
            }
        }
    }
}

proof fn lemma_table_lines(
    label: Seq<char>,
    t: Seq<(Seq<char>, SidesView)>,
    name: Seq<char>,
)
    requires
        table::distinct(t),
    ensures
        table::lookup(t, name) is Some && !sides_of(t, name).local.same(sides_of(t, name).venue)
            ==> mismatch_lines(label, t, t.len() as int).contains(
            mismatch_line(label, name, sides_of(t, name)),
        ),
{
    table::lemma_index_of(t, name);
    if table::lookup(t, name) is Some && !sides_of(t, name).local.same(sides_of(t, name).venue) {
        let i = table::index_of(t, name)->0;
        lemma_lines(label, t, t.len() as int, mismatch_line(label, name, sides_of(t, name)));
        assert(t[i].0 == name);
    }
}

/// The balance comparison has a line for an asset that either list has whenever
/// its two totals differ, an asset that a list lacks counting as zero there.
/// The line names the asset and both totals.
pub proof fn law_balance_difference_is_reported(
    local: Seq<BalanceView>,
    venue: Seq<BalanceView>,
    asset: Seq<char>,
)
    requires
        totals_in_range(local),
        totals_in_range(venue),
    ensures
        totals(local, venue) is Some,
        ({
            let t = totals(local, venue)->0;
            let l = or_zero(listed_total(local, asset));
            let v = or_zero(listed_total(venue, asset));
            l.units() != v.units() ==> mismatch_lines(
                "balance mismatch "@,
                t,
                t.len() as int,
            ).contains(
                "balance mismatch "@ + asset + ": local="@ + l.text() + (" venue="@ + v.text()),
            )
        }),
{
    let none: Seq<(Seq<char>, SidesView)> = Seq::empty();
    lemma_with_totals(none, local, local.len() as int, true, asset);
    let first = with_totals(none, local, local.len() as int, true)->0;
    lemma_with_totals(first, venue, venue.len() as int, false, asset);
    assert(local.take(local.len() as int) =~= local);
    assert(venue.take(venue.len() as int) =~= venue);
    lemma_table_lines("balance mismatch "@, totals(local, venue)->0, asset);
}

/// Every line of the balance comparison names an asset that a list has and
/// whose two totals differ.
pub proof fn law_balance_line_is_a_difference(
    local: Seq<BalanceView>,
    venue: Seq<BalanceView>,
    line: Seq<char>,
)
    requires
        totals_in_range(local),
        totals_in_range(venue),
    ensures
        totals(local, venue) is Some,
        ({
            let t = totals(local, venue)->0;
            mismatch_lines("balance mismatch "@, t, t.len() as int).contains(line) ==> exists|
                asset: Seq<char>,
            |
                {
                    let l = or_zero(#[trigger] listed_total(local, asset));
                    let v = or_zero(listed_total(venue, asset));
                    &&& listed_total(local, asset) is Some || listed_total(venue, asset) is Some
                    &&& l.units() != v.units()
                    &&& line == "balance mismatch "@ + asset + ": local="@ + l.text() + (" venue="@
                        + v.text())
                }
        }),
{
    law_balance_difference_is_reported(local, venue, Seq::empty());
    let t = totals(local, venue)->0;
    let label = "balance mismatch "@;
    lemma_lines(label, t, t.len() as int, line);
    if mismatch_lines(label, t, t.len() as int).contains(line) {
        let i = choose|i: int|
            0 <= i < t.len() && !(#[trigger] t[i]).1.local.same(t[i].1.venue) && line
                == mismatch_line(label, t[i].0, t[i].1);
        let asset = t[i].0;
        let none: Seq<(Seq<char>, SidesView)> = Seq::empty();
        lemma_with_totals(none, local, local.len() as int, true, asset);
        let first = with_totals(none, local, local.len() as int, true)->0;
        lemma_with_totals(first, venue, venue.len() as int, false, asset);
        assert(local.take(local.len() as int) =~= local);
        assert(venue.take(venue.len() as int) =~= venue);
        table::lemma_index_of(t, asset);
        assert(sides_of(t, asset) == t[i].1);
        let said = listed_total(local, asset);
    }
}

proof fn lemma_listed_total(balances: Seq<BalanceView>, asset: Seq<char>)
    requires
        totals_in_range(balances),
    ensures
        listed_total(balances, asset) is Some <==> exists|i: int|
            0 <= i < balances.len() && (#[trigger] balances[i]).asset == asset,
        listed_total(balances, asset) is Some ==> exists|i: int|
            0 <= i < balances.len() && (#[trigger] balances[i]).asset == asset
                && balances[i].free.plus(balances[i].locked) == listed_total(balances, asset),
    decreases balances.len(),
{
    if balances.len() > 0 {
        let head = balances.drop_last();
        let n = balances.len() - 1;
        assert(balances.last() == balances[n]);
        assert(forall|i: int| 0 <= i < n ==> #[trigger] head[i] == balances[i]);
        lemma_listed_total(head, asset);
        if balances[n].asset != asset {
            if listed_total(head, asset) is Some {
                let i = choose|i: int|
                    0 <= i < head.len() && (#[trigger] head[i]).asset == asset
                        && head[i].free.plus(head[i].locked) == listed_total(head, asset);
                assert(balances[i].asset == asset);
            }
            if exists|i: int| 0 <= i < balances.len() && (#[trigger] balances[i]).asset == asset {
                let i = choose|i: int|
                    0 <= i < balances.len() && (#[trigger] balances[i]).asset == asset;
                assert(head[i].asset == asset);
            }
        }
    }
}

/// The balance comparison of two lists with each asset at most once is empty
/// exactly when an asset that both have has the same total in both, and an
/// asset that only one has has the total zero there.
pub proof fn law_balances_agree(local: Seq<BalanceView>, venue: Seq<BalanceView>)
    requires
        totals_in_range(local),
        totals_in_range(venue),
        forall|i: int, j: int|
            0 <= i < j < local.len() ==> #[trigger] local[i].asset != #[trigger] local[j].asset,
        forall|i: int, j: int|
            0 <= i < j < venue.len() ==> #[trigger] venue[i].asset != #[trigger] venue[j].asset,
    ensures
        totals(local, venue) is Some,
        mismatch_lines(
            "balance mismatch "@,
            totals(local, venue)->0,
            totals(local, venue)->0.len() as int,
        ).len() == 0 <==> {
            &&& forall|i: int, j: int|
                0 <= i < local.len() && 0 <= j < venue.len() && #[trigger] local[i].asset
                    == #[trigger] venue[j].asset ==> (local[i].free.plus(
                    local[i].locked,
                )->0).units() == (venue[j].free.plus(venue[j].locked)->0).units()
            &&& forall|i: int|
                0 <= i < local.len() && (forall|j: int|
                    0 <= j < venue.len() ==> #[trigger] venue[j].asset != local[i].asset) ==> ((
                #[trigger] local[i]).free.plus(local[i].locked)->0).units() == 0
            &&& forall|j: int|
                0 <= j < venue.len() && (forall|i: int|
                    0 <= i < local.len() ==> #[trigger] local[i].asset != venue[j].asset) ==> ((
                #[trigger] venue[j]).free.plus(venue[j].locked)->0).units() == 0
        },
{
    law_balance_difference_is_reported(local, venue, Seq::empty());
    let t = totals(local, venue)->0;
    let lines = mismatch_lines("balance mismatch "@, t, t.len() as int);
    decimal::lemma_sign_of_units(DecimalView::zero());
    if lines.len() == 0 {
        assert forall|i: int| 0 <= i < local.len() implies or_zero(
            listed_total(venue, #[trigger] local[i].asset),
        ).units() == (local[i].free.plus(local[i].locked)->0).units() by {
            law_balance_difference_is_reported(local, venue, local[i].asset);
            lemma_listed_total(local, local[i].asset);
        }
        assert forall|j: int| 0 <= j < venue.len() implies or_zero(
            listed_total(local, #[trigger] venue[j].asset),
        ).units() == (venue[j].free.plus(venue[j].locked)->0).units() by {
            law_balance_difference_is_reported(local, venue, venue[j].asset);
            lemma_listed_total(venue, venue[j].asset);
        }
        assert forall|i: int| 0 <= i < local.len() && (forall|j: int|
            0 <= j < venue.len() ==> #[trigger] venue[j].asset != local[i].asset) implies ((
        #[trigger] local[i]).free.plus(local[i].locked)->0).units() == 0 by {
            lemma_listed_total(venue, local[i].asset);
            assert(or_zero(listed_total(venue, local[i].asset)).units() == 0);
        }
        assert forall|j: int| 0 <= j < venue.len() && (forall|i: int|
            0 <= i < local.len() ==> #[trigger] local[i].asset != venue[j].asset) implies ((
        #[trigger] venue[j]).free.plus(venue[j].locked)->0).units() == 0 by {
            lemma_listed_total(local, venue[j].asset);
            assert(or_zero(listed_total(local, venue[j].asset)).units() == 0);
        }
        assert forall|i: int, j: int|
            0 <= i < local.len() && 0 <= j < venue.len() && #[trigger] local[i].asset
                == #[trigger] venue[j].asset implies (local[i].free.plus(
            local[i].locked,
        )->0).units() == (venue[j].free.plus(venue[j].locked)->0).units() by {
            lemma_listed_total(venue, local[i].asset);
        }
    } else {
        let line = lines[0];
        assert(lines.contains(line));
        law_balance_line_is_a_difference(local, venue, line);
        let asset = choose|asset: Seq<char>|
            {
                let l = or_zero(#[trigger] listed_total(local, asset));
                let v = or_zero(listed_total(venue, asset));
                &&& listed_total(local, asset) is Some || listed_total(venue, asset) is Some
                &&& l.units() != v.units()
                &&& line == "balance mismatch "@ + asset + ": local="@ + l.text() + (" venue="@
                    + v.text())
            };
        lemma_listed_total(local, asset);
        lemma_listed_total(venue, asset);
    }
}

/// The position comparison has a line for an instrument that either list has
/// whenever its two sizes differ, an instrument that a list lacks counting as
/// zero there. The line names the instrument and both sizes.
pub proof fn law_position_difference_is_reported(
    local: Seq<PositionView>,
    venue: Seq<PositionView>,
    instrument: Seq<char>,
)
    ensures
        ({
            let t = sizes(local, venue);
            let l = or_zero(listed_size(local, instrument));
            let v = or_zero(listed_size(venue, instrument));
            l.units() != v.units() ==> mismatch_lines(
                "position mismatch "@,
                t,
                t.len() as int,
            ).contains(
                "position mismatch "@ + instrument + ": local="@ + l.text() + (" venue="@
                    + v.text()),
            )
        }),
{
    let none: Seq<(Seq<char>, SidesView)> = Seq::empty();
    lemma_with_sizes(none, local, local.len() as int, true, instrument);
    let first = with_sizes(none, local, local.len() as int, true);
    lemma_with_sizes(first, venue, venue.len() as int, false, instrument);
    assert(local.take(local.len() as int) =~= local);
    assert(venue.take(venue.len() as int) =~= venue);
    lemma_table_lines("position mismatch "@, sizes(local, venue), instrument);
}

/// Every line of the position comparison names an instrument that a list has
/// and whose two sizes differ.
pub proof fn law_position_line_is_a_difference(
    local: Seq<PositionView>,
    venue: Seq<PositionView>,
    line: Seq<char>,
)
    ensures
        ({
            let t = sizes(local, venue);
            mismatch_lines("position mismatch "@, t, t.len() as int).contains(line) ==> exists|
                instrument: Seq<char>,
            |
                {
                    let l = or_zero(#[trigger] listed_size(local, instrument));
                    let v = or_zero(listed_size(venue, instrument));
                    &&& listed_size(local, instrument) is Some || listed_size(
                        venue,
                        instrument,
                    ) is Some
                    &&& l.units() != v.units()
                    &&& line == "position mismatch "@ + instrument + ": local="@ + l.text() + (
                    " venue="@ + v.text())
                }
        }),
{
    let t = sizes(local, venue);
    let label = "position mismatch "@;
    let none: Seq<(Seq<char>, SidesView)> = Seq::empty();
    lemma_lines(label, t, t.len() as int, line);
    if mismatch_lines(label, t, t.len() as int).contains(line) {
        let i = choose|i: int|
            0 <= i < t.len() && !(#[trigger] t[i]).1.local.same(t[i].1.venue) && line
                == mismatch_line(label, t[i].0, t[i].1);
        let instrument = t[i].0;
        lemma_with_sizes(none, local, local.len() as int, true, instrument);
        let first = with_sizes(none, local, local.len() as int, true);
        lemma_with_sizes(first, venue, venue.len() as int, false, instrument);
        assert(local.take(local.len() as int) =~= local);
        assert(venue.take(venue.len() as int) =~= venue);
        table::lemma_index_of(t, instrument);
        assert(sides_of(t, instrument) == t[i].1);
        let said = listed_size(local, instrument);
    }
}

proof fn lemma_listed_size(positions: Seq<PositionView>, instrument: Seq<char>)
    ensures
        listed_size(positions, instrument) is Some <==> exists|i: int|
            0 <= i < positions.len() && (#[trigger] positions[i]).instrument_id == instrument,
        listed_size(positions, instrument) is Some ==> exists|i: int|
            0 <= i < positions.len() && (#[trigger] positions[i]).instrument_id == instrument
                && Some(positions[i].size) == listed_size(positions, instrument),
    decreases positions.len(),
{
    if positions.len() > 0 {
        let head = positions.drop_last();
        let n = positions.len() - 1;
        assert(positions.last() == positions[n]);
        assert(forall|i: int| 0 <= i < n ==> #[trigger] head[i] == positions[i]);
        lemma_listed_size(head, instrument);
        if positions[n].instrument_id != instrument {
            if listed_size(head, instrument) is Some {
                let i = choose|i: int|
                    0 <= i < head.len() && (#[trigger] head[i]).instrument_id == instrument
                        && Some(head[i].size) == listed_size(head, instrument);
                assert(positions[i].instrument_id == instrument);
            }
            if exists|i: int|
                0 <= i < positions.len() && (#[trigger] positions[i]).instrument_id
                    == instrument {
                let i = choose|i: int|
                    0 <= i < positions.len() && (#[trigger] positions[i]).instrument_id
                        == instrument;
                assert(head[i].instrument_id == instrument);
            }
        }
    }
}

/// The position comparison of two lists with each instrument at most once is
/// empty exactly when an instrument that both have has the same size in both,
/// and an instrument that only one has has the size zero there.
pub proof fn law_positions_agree(local: Seq<PositionView>, venue: Seq<PositionView>)
    requires
        forall|i: int, j: int|
            0 <= i < j < local.len() ==> #[trigger] local[i].instrument_id
                != #[trigger] local[j].instrument_id,
        forall|i: int, j: int|
            0 <= i < j < venue.len() ==> #[trigger] venue[i].instrument_id
                != #[trigger] venue[j].instrument_id,
    ensures
        mismatch_lines(
            "position mismatch "@,
            sizes(local, venue),
            sizes(local, venue).len() as int,
        ).len() == 0 <==> {
            &&& forall|i: int, j: int|
                0 <= i < local.len() && 0 <= j < venue.len() && #[trigger] local[i].instrument_id
                    == #[trigger] venue[j].instrument_id ==> local[i].size.units()
                    == venue[j].size.units()
            &&& forall|i: int|
                0 <= i < local.len() && (forall|j: int|
                    0 <= j < venue.len() ==> #[trigger] venue[j].instrument_id
                        != local[i].instrument_id) ==> (#[trigger] local[i]).size.units() == 0
            &&& forall|j: int|
                0 <= j < venue.len() && (forall|i: int|
                    0 <= i < local.len() ==> #[trigger] local[i].instrument_id
                        != venue[j].instrument_id) ==> (#[trigger] venue[j]).size.units() == 0
        },
{
    let t = sizes(local, venue);
    let lines = mismatch_lines("position mismatch "@, t, t.len() as int);
    decimal::lemma_sign_of_units(DecimalView::zero());
    if lines.len() == 0 {
        assert forall|i: int| 0 <= i < local.len() implies or_zero(
            listed_size(venue, #[trigger] local[i].instrument_id),
        ).units() == local[i].size.units() by {
            law_position_difference_is_reported(local, venue, local[i].instrument_id);
            lemma_listed_size(local, local[i].instrument_id);
        }
        assert forall|j: int| 0 <= j < venue.len() implies or_zero(
            listed_size(local, #[trigger] venue[j].instrument_id),
        ).units() == venue[j].size.units() by {
            law_position_difference_is_reported(local, venue, venue[j].instrument_id);
            lemma_listed_size(venue, venue[j].instrument_id);
        }
        assert forall|i: int| 0 <= i < local.len() && (forall|j: int|
            0 <= j < venue.len() ==> #[trigger] venue[j].instrument_id
                != local[i].instrument_id) implies (#[trigger] local[i]).size.units() == 0 by {
            lemma_listed_size(venue, local[i].instrument_id);
            assert(or_zero(listed_size(venue, local[i].instrument_id)).units() == 0);
        }
        assert forall|j: int| 0 <= j < venue.len() && (forall|i: int|
            0 <= i < local.len() ==> #[trigger] local[i].instrument_id
                != venue[j].instrument_id) implies (#[trigger] venue[j]).size.units() == 0 by {
            lemma_listed_size(local, venue[j].instrument_id);
            assert(or_zero(listed_size(local, venue[j].instrument_id)).units() == 0);
        }
        assert forall|i: int, j: int|
            0 <= i < local.len() && 0 <= j < venue.len() && #[trigger] local[i].instrument_id
                == #[trigger] venue[j].instrument_id implies local[i].size.units()
            == venue[j].size.units() by {
            lemma_listed_size(venue, local[i].instrument_id);
        }
    } else {
        let line = lines[0];
        assert(lines.contains(line));
        law_position_line_is_a_difference(local, venue, line);
        let instrument = choose|instrument: Seq<char>|
            {
                let l = or_zero(#[trigger] listed_size(local, instrument));
                let v = or_zero(listed_size(venue, instrument));
                &&& listed_size(local, instrument) is Some || listed_size(venue, instrument) is Some
                &&& l.units() != v.units()
                &&& line == "position mismatch "@ + instrument + ": local="@ + l.text() + (
                " venue="@ + v.text())
            };
        lemma_listed_size(local, instrument);
        lemma_listed_size(venue, instrument);
    }
}

/// An order that only the venue has, and one that only the local side has, is
/// reported by its client order id under the side that has it.
pub proof fn law_lone_order_is_named(
    local: Seq<OrderView>,
    venue: Seq<OrderView>,
    id: Seq<char>,
)
    ensures
        (exists|i: int| 0 <= i < venue.len() && (#[trigger] venue[i]).client_order_id == id) && (
        forall|j: int| 0 <= j < local.len() ==> (#[trigger] local[j]).client_order_id != id)
            ==> order_mismatches(local, venue).contains("order only on venue: "@ + id),
        (exists|j: int| 0 <= j < local.len() && (#[trigger] local[j]).client_order_id == id) && (
        forall|i: int| 0 <= i < venue.len() ==> (#[trigger] venue[i]).client_order_id != id)
            ==> order_mismatches(local, venue).contains("order only local: "@ + id),
{
    let l = client_ids(local);
    let v = client_ids(venue);
    let only_venue = missing(v, l, v.len() as int);
    let only_local = missing(l, v, l.len() as int);
    let first = labelled("order only on venue: "@, only_venue);
    let second = labelled("order only local: "@, only_local);
    let all = order_mismatches(local, venue);
    assert(l.take(l.len() as int) =~= l);
    assert(v.take(v.len() as int) =~= v);
    law_missing_is_difference(v, l, v.len() as int, id);
    law_missing_is_difference(l, v, l.len() as int, id);
    if (exists|i: int| 0 <= i < venue.len() && (#[trigger] venue[i]).client_order_id == id) && (
    forall|j: int| 0 <= j < local.len() ==> (#[trigger] local[j]).client_order_id != id) {
        let i = choose|i: int| 0 <= i < venue.len() && (#[trigger] venue[i]).client_order_id == id;
        assert(v[i] == id);
        let k = choose|k: int| 0 <= k < only_venue.len() && only_venue[k] == id;
        assert(all[k] == first[k]);
    }
    if (exists|j: int| 0 <= j < local.len() && (#[trigger] local[j]).client_order_id == id) && (
    forall|i: int| 0 <= i < venue.len() ==> (#[trigger] venue[i]).client_order_id != id) {
        let j = choose|j: int| 0 <= j < local.len() && (#[trigger] local[j]).client_order_id == id;
        assert(l[j] == id);
        let k = choose|k: int| 0 <= k < only_local.len() && only_local[k] == id;
        assert(all[first.len() + k] == second[k]);
    }
}

} // verus!
