//! The canonical market view of one instrument and the aggregator that
//! applies depth updates to it.
use vstd::prelude::*;

use crate::bounded::{
    bounded_push, lemma_bounded_push_fifo, lemma_bounded_push_len, lemma_bounded_push_map, push_bounded,
};
use crate::clock::local_time_hms;

verus! {

/// The most entries either history holds.
pub const HISTORY_CAP: usize = 1000;

/// One resting price level. Prices are in ticks and quantities in lots of
/// the instrument; a quantity of zero marks a removed level.
#[derive(Clone, Copy, Debug, PartialEq, Eq, Structural)]
pub struct PriceLevel {
    pub price: i64,
    pub quantity: u64,
}

/// A replacement set of levels: bids best (highest) first, asks best
/// (lowest) first.
#[derive(Clone, Debug)]
pub struct DepthUpdate {
    pub bids: Vec<PriceLevel>,
    pub asks: Vec<PriceLevel>,
}

/// A spread observation: local time "HH:MM:SS" and best ask minus best bid.
#[derive(Clone, Debug)]
pub struct SpreadSample {
    pub timestamp: String,
    pub spread: i128,
}

/// A volume observation: local time, total bid quantity, total ask quantity.
#[derive(Clone, Debug)]
pub struct VolumeSample {
    pub timestamp: String,
    pub total_bid_qty: u128,
    pub total_ask_qty: u128,
}

/// The book of one instrument with its derived time series.
#[derive(Clone, Debug)]
pub struct MarketView {
    pub bids: Vec<PriceLevel>,
    pub asks: Vec<PriceLevel>,
    pub spread_history: Vec<SpreadSample>,
    pub volume_history: Vec<VolumeSample>,
}

/// The mathematical value of a `MarketView`.
pub struct MarketModel {
    pub bids: Seq<PriceLevel>,
    pub asks: Seq<PriceLevel>,
    pub spread_history: Seq<(Seq<char>, int)>,
    pub volume_history: Seq<(Seq<char>, int, int)>,
}

impl View for SpreadSample {
    type V = (Seq<char>, int);

    open spec fn view(&self) -> (Seq<char>, int) {
        (self.timestamp@, self.spread as int)
    }
}

impl View for VolumeSample {
    type V = (Seq<char>, int, int);

    open spec fn view(&self) -> (Seq<char>, int, int) {
        (self.timestamp@, self.total_bid_qty as int, self.total_ask_qty as int)
    }
}

pub open spec fn spread_model(s: SpreadSample) -> (Seq<char>, int) {
    s@
}

pub open spec fn volume_model(s: VolumeSample) -> (Seq<char>, int, int) {
    s@
}

impl View for MarketView {
    type V = MarketModel;

    open spec fn view(&self) -> MarketModel {
        MarketModel {
            bids: self.bids@,
            asks: self.asks@,
            spread_history: self.spread_history@.map_values(|s: SpreadSample| spread_model(s)),
            volume_history: self.volume_history@.map_values(|s: VolumeSample| volume_model(s)),
        }
    }
}

/// The sum of the quantities of `levels`, in list order.
pub open spec fn total_quantity(levels: Seq<PriceLevel>) -> int
    decreases levels.len(),
{
    if levels.len() == 0 {
        0
    } else {
        total_quantity(levels.drop_last()) + levels.last().quantity
    }
}

/// Best ask minus best bid; negative for a crossed book.
pub open spec fn spread_of(bids: Seq<PriceLevel>, asks: Seq<PriceLevel>) -> int {
    asks[0].price - bids[0].price
}

/// Both histories within the bound, and of equal length.
pub open spec fn histories_bounded(m: MarketModel) -> bool {
    &&& m.spread_history.len() <= HISTORY_CAP
    &&& m.volume_history.len() <= HISTORY_CAP
    &&& m.spread_history.len() == m.volume_history.len()
}

/// The view after a depth update observed at local time `ts`: the levels
/// are replaced; when both sides are non-empty one spread sample and one
/// volume sample are appended, each history keeping its newest entries.
pub open spec fn applied(
    m: MarketModel,
    bids: Seq<PriceLevel>,
    asks: Seq<PriceLevel>,
    ts: Seq<char>,
) -> MarketModel {
    if bids.len() > 0 && asks.len() > 0 {
        MarketModel {
            bids,
            asks,
            spread_history: bounded_push(
                m.spread_history,
                (ts, spread_of(bids, asks)),
                HISTORY_CAP as nat,
            ),
            volume_history: bounded_push(
                m.volume_history,
                (ts, total_quantity(bids), total_quantity(asks)),
                HISTORY_CAP as nat,
            ),
        }
    } else {
        MarketModel { bids, asks, spread_history: m.spread_history, volume_history: m.volume_history }
    }
}

/// Applying an update keeps both histories within the bound and of equal
/// length.
pub proof fn lemma_applied_bounded(
    m: MarketModel,
    bids: Seq<PriceLevel>,
    asks: Seq<PriceLevel>,
    ts: Seq<char>,
)
    requires
        histories_bounded(m),
    ensures
        histories_bounded(applied(m, bids, asks, ts)),
{
    if bids.len() > 0 && asks.len() > 0 {
        lemma_bounded_push_len(m.spread_history, (ts, spread_of(bids, asks)), HISTORY_CAP as nat);
        lemma_bounded_push_len(
            m.volume_history,
            (ts, total_quantity(bids), total_quantity(asks)),
            HISTORY_CAP as nat,
        );
    }
}

/// When both histories are full, an update with both sides non-empty drops
/// the oldest entry of each, keeps the rest in order, and appends the new
/// samples last.
pub proof fn lemma_applied_evicts_oldest(
    m: MarketModel,
    bids: Seq<PriceLevel>,
    asks: Seq<PriceLevel>,
    ts: Seq<char>,
)
    requires
        m.spread_history.len() == HISTORY_CAP,
        m.volume_history.len() == HISTORY_CAP,
        bids.len() > 0,
        asks.len() > 0,
    ensures
        applied(m, bids, asks, ts).spread_history == m.spread_history.subrange(
            1,
            HISTORY_CAP as int,
        ).push((ts, spread_of(bids, asks))),
        applied(m, bids, asks, ts).volume_history == m.volume_history.subrange(
            1,
            HISTORY_CAP as int,
        ).push((ts, total_quantity(bids), total_quantity(asks))),
{
    lemma_bounded_push_fifo(m.spread_history, (ts, spread_of(bids, asks)), HISTORY_CAP as nat);
    lemma_bounded_push_fifo(
        m.volume_history,
        (ts, total_quantity(bids), total_quantity(asks)),
        HISTORY_CAP as nat,
    );
}

/// An update with an empty side appends to neither history, and still
/// replaces both sides of the book.
pub proof fn lemma_applied_one_side_empty(
    m: MarketModel,
    bids: Seq<PriceLevel>,
    asks: Seq<PriceLevel>,
    ts: Seq<char>,
)
    requires
        bids.len() == 0 || asks.len() == 0,
    ensures
        applied(m, bids, asks, ts).bids == bids,
        applied(m, bids, asks, ts).asks == asks,
        applied(m, bids, asks, ts).spread_history == m.spread_history,
        applied(m, bids, asks, ts).volume_history == m.volume_history,
{
}

/// An update with both sides non-empty appends exactly one sample to each
/// history, so the two histories keep growing in lock-step.
pub proof fn lemma_applied_appends_one(
    m: MarketModel,
    bids: Seq<PriceLevel>,
    asks: Seq<PriceLevel>,
    ts: Seq<char>,
)
    requires
        histories_bounded(m),
        m.spread_history.len() < HISTORY_CAP,
        bids.len() > 0,
        asks.len() > 0,
    ensures
        applied(m, bids, asks, ts).spread_history == m.spread_history.push(
            (ts, spread_of(bids, asks)),
        ),
        applied(m, bids, asks, ts).volume_history == m.volume_history.push(
            (ts, total_quantity(bids), total_quantity(asks)),
        ),
{
}

proof fn lemma_total_quantity_le(levels: Seq<PriceLevel>)
    ensures
        0 <= total_quantity(levels) <= levels.len() * 0xFFFF_FFFF_FFFF_FFFF,
    decreases levels.len(),
{
    if levels.len() > 0 {
        lemma_total_quantity_le(levels.drop_last());
    }
}

/// Sums the quantities of `levels` in list order.
pub fn total_quantity_of(levels: &Vec<PriceLevel>) -> (r: u128)
    ensures
        r == total_quantity(levels@),
{
    let mut total: u128 = 0;
    let mut i: usize = 0;
    while i < levels.len()
        invariant
            i <= levels@.len(),
            total == total_quantity(levels@.subrange(0, i as int)),
            total <= i * 0xFFFF_FFFF_FFFF_FFFF,
        decreases levels@.len() - i,
    {
        let q = levels[i].quantity;
        assert(levels@.subrange(0, i + 1).drop_last() =~= levels@.subrange(0, i as int));
        assert(total + q <= (i + 1) * 0xFFFF_FFFF_FFFF_FFFF) by (nonlinear_arith)
            requires
                total <= i * 0xFFFF_FFFF_FFFF_FFFF,
                q <= 0xFFFF_FFFF_FFFF_FFFF,
        ;
        assert((i + 1) * 0xFFFF_FFFF_FFFF_FFFF < 0x1_0000_0000_0000_0000 * 0xFFFF_FFFF_FFFF_FFFF)
            by (nonlinear_arith)
            requires
                i < 0xFFFF_FFFF_FFFF_FFFF,
        ;
        total = total + q as u128;
        i = i + 1;
    }
    assert(levels@.subrange(0, i as int) =~= levels@);
    total
}

fn copy_levels(v: &Vec<PriceLevel>) -> (r: Vec<PriceLevel>)
    ensures
        r@ == v@,
{
    let mut out: Vec<PriceLevel> = Vec::new();
    let mut i: usize = 0;
    while i < v.len()
        invariant
            i <= v@.len(),
            out@ == v@.subrange(0, i as int),
        decreases v@.len() - i,
    {
        out.push(v[i]);
        i = i + 1;
        assert(out@ =~= v@.subrange(0, i as int));
    }
    assert(v@.subrange(0, i as int) =~= v@);
    out
}

fn copy_spreads(v: &Vec<SpreadSample>) -> (r: Vec<SpreadSample>)
    ensures
        r@.map_values(|s: SpreadSample| spread_model(s)) == v@.map_values(
            |s: SpreadSample| spread_model(s),
        ),
{
    let mut out: Vec<SpreadSample> = Vec::new();
    let mut i: usize = 0;
    while i < v.len()
        invariant
            i <= v@.len(),
            out@.len() == i,
            forall|j: int| 0 <= j < i ==> #[trigger] out@[j]@ == v@[j]@,
        decreases v@.len() - i,
    {
        out.push(SpreadSample { timestamp: v[i].timestamp.clone(), spread: v[i].spread });
        i = i + 1;
    }
    assert(out@.map_values(|s: SpreadSample| spread_model(s)) =~= v@.map_values(
        |s: SpreadSample| spread_model(s),
    ));
    out
}

fn copy_volumes(v: &Vec<VolumeSample>) -> (r: Vec<VolumeSample>)
    ensures
        r@.map_values(|s: VolumeSample| volume_model(s)) == v@.map_values(
            |s: VolumeSample| volume_model(s),
        ),
{
    let mut out: Vec<VolumeSample> = Vec::new();
    let mut i: usize = 0;
    while i < v.len()
        invariant
            i <= v@.len(),
            out@.len() == i,
            forall|j: int| 0 <= j < i ==> #[trigger] out@[j]@ == v@[j]@,
        decreases v@.len() - i,
    {
        out.push(
            VolumeSample {
                timestamp: v[i].timestamp.clone(),
                total_bid_qty: v[i].total_bid_qty,
                total_ask_qty: v[i].total_ask_qty,
            },
        );
        i = i + 1;
    }
    assert(out@.map_values(|s: VolumeSample| volume_model(s)) =~= v@.map_values(
        |s: VolumeSample| volume_model(s),
    ));
    out
}

impl MarketView {
    /// A view with no levels and empty histories.
    pub fn new() -> (r: MarketView)
        ensures
            r@.bids.len() == 0,
            r@.asks.len() == 0,
            r@.spread_history.len() == 0,
            r@.volume_history.len() == 0,
    {
        MarketView {
            bids: Vec::new(),
            asks: Vec::new(),
            spread_history: Vec::new(),
            volume_history: Vec::new(),
        }
    }

    /// A deep copy of this view.
    pub fn snapshot(&self) -> (r: MarketView)
        ensures
            r@ == self@,
    {
        MarketView {
            bids: copy_levels(&self.bids),
            asks: copy_levels(&self.asks),
            spread_history: copy_spreads(&self.spread_history),
            volume_history: copy_volumes(&self.volume_history),
        }
    }
}

/// The single writer of the market view: applies depth updates one at a
/// time and hands out consistent copies.
pub struct Aggregator {
    view: MarketView,
}

impl View for Aggregator {
    type V = MarketModel;

    closed spec fn view(&self) -> MarketModel {
        self.view@
    }
}

impl Aggregator {
    /// The aggregator's invariant: both histories within the bound and of
    /// equal length.
    pub open spec fn wf(&self) -> bool {
        histories_bounded(self@)
    }

    /// An aggregator over an empty view.
    pub fn new() -> (r: Aggregator)
        ensures
            r.wf(),
            r@.bids.len() == 0,
            r@.asks.len() == 0,
            r@.spread_history.len() == 0,
            r@.volume_history.len() == 0,
    {
        Aggregator { view: MarketView::new() }
    }

    /// Applies `update` as observed at local time `timestamp` and returns a
    /// copy of the resulting view.
    pub fn apply_at(&mut self, update: DepthUpdate, timestamp: String) -> (r: MarketView)
        requires
            old(self).wf(),
        ensures
            final(self)@ == applied(old(self)@, update.bids@, update.asks@, timestamp@),
            final(self).wf(),
            r@ == final(self)@,
    {
        proof {
            lemma_applied_bounded(self@, update.bids@, update.asks@, timestamp@);
        }
        let ghost m = self@;
        let DepthUpdate { bids, asks } = update;
        if bids.len() > 0 && asks.len() > 0 {
            let spread: i128 = asks[0].price as i128 - bids[0].price as i128;
            let total_bids = total_quantity_of(&bids);
            let total_asks = total_quantity_of(&asks);
            let sample = SpreadSample { timestamp: timestamp.clone(), spread };
            let volume = VolumeSample { timestamp, total_bid_qty: total_bids, total_ask_qty: total_asks };
            proof {
                lemma_bounded_push_map(
                    self.view.spread_history@,
                    sample,
                    HISTORY_CAP as nat,
                    |s: SpreadSample| spread_model(s),
                );
                lemma_bounded_push_map(
                    self.view.volume_history@,
                    volume,
                    HISTORY_CAP as nat,
                    |s: VolumeSample| volume_model(s),
                );
            }
            push_bounded(&mut self.view.spread_history, sample, HISTORY_CAP);
            push_bounded(&mut self.view.volume_history, volume, HISTORY_CAP);
        }
        self.view.bids = bids;
        self.view.asks = asks;
        self.view.snapshot()
    }

    /// Applies `update` as observed now, by the local clock, and returns a
    /// copy of the resulting view.
    pub fn apply(&mut self, update: DepthUpdate) -> (r: MarketView)
        requires
            old(self).wf(),
        ensures
            exists|ts: Seq<char>|
                final(self)@ == applied(old(self)@, update.bids@, update.asks@, ts),
            final(self).wf(),
            r@ == final(self)@,
    {
        let timestamp = local_time_hms();
        let ghost ts = timestamp@;
        let r = self.apply_at(update, timestamp);
        assert(final(self)@ == applied(old(self)@, update.bids@, update.asks@, ts));
        r
    }

    /// A consistent copy of the current view.
    pub fn current(&self) -> (r: MarketView)
        ensures
            r@ == self@,
    {
        self.view.snapshot()
    }
}

} // verus!
