//! The history: every successful measurement, in the order it was taken.

use vstd::prelude::*;

use crate::calculator::{bmi_outcome, calculate_bmi, Bmi, BmiError, Height, Weight};

verus! {

/// One stored result: weight in milligrams, height in micrometres, BMI in
/// millionths of kg/m².
#[derive(Debug, Clone, Copy, PartialEq, Eq, Structural)]
pub struct HistData {
    pub weight: i64,
    pub height: i64,
    pub bmi: u128,
}

impl HistData {
    /// The record of a measurement and the BMI computed from it.
    pub fn new(height: &Height, weight: &Weight, bmi: &Bmi) -> (r: HistData)
        ensures
            r.weight == weight.0,
            r.height == height.0,
            r.bmi == bmi.bmi,
    {
        HistData { weight: weight.0, height: height.0, bmi: bmi.bmi }
    }
}

/// The stored results, oldest first. Records are only ever added at the end.
pub struct History {
    records: Vec<HistData>,
}

impl View for History {
    type V = Seq<HistData>;

    closed spec fn view(&self) -> Seq<HistData> {
        self.records@
    }
}

impl History {
    /// A history with no record: the state before the first run.
    pub fn new() -> (r: History)
        ensures
            r@ == Seq::<HistData>::empty(),
    {
        History { records: Vec::new() }
    }

    /// The history that holds `records`, in their order.
    pub fn from_records(records: Vec<HistData>) -> (r: History)
        ensures
            r@ == records@,
    {
        History { records }
    }

    /// Every record, oldest first. The history is left as it is.
    pub fn load_all(&self) -> (r: Vec<HistData>)
        ensures
            r@ == self@,
    {
        let mut out: Vec<HistData> = Vec::new();
        let mut i: usize = 0;
        while i < self.records.len()
            invariant
                i <= self.records@.len(),
                out@ == self.records@.subrange(0, i as int),
            decreases self.records@.len() - i,
        {
            out.push(self.records[i]);
            i += 1;
            assert(out@ =~= self.records@.subrange(0, i as int));
        }
        assert(out@ =~= self.records@);
        out
    }

    /// Adds `record` after every record already held.
    pub fn append(&mut self, record: HistData)
        ensures
            final(self)@ == old(self)@.push(record),
    {
        self.records.push(record);
    }
}

/// Computes the BMI of a measurement and, when it succeeds, appends its
/// record to `history`. On an error the history is left as it was.
pub fn calculate_and_record(history: &mut History, height: &Height, weight: &Weight) -> (r: Result<
    Bmi,
    BmiError,
>)
    ensures
        r == bmi_outcome(height.0 as int, weight.0 as int),
        r is Ok ==> final(history)@ == old(history)@.push(
            (HistData { weight: weight.0, height: height.0, bmi: r->Ok_0.bmi }),
        ),
        r is Err ==> final(history)@ == old(history)@,
{
    let r = calculate_bmi(height, weight);
    match &r {
        Ok(bmi) => {
            let record = HistData::new(height, weight, bmi);
            history.append(record);
        },
        Err(_) => {},
    }
    r
}

/// After the first `k` appends the history holds the first `k` records.
proof fn lemma_prefix_after_appends(records: Seq<HistData>, stores: Seq<History>, k: int)
    requires
        stores.len() == records.len() + 1,
        stores[0]@ == Seq::<HistData>::empty(),
        forall|i: int|
            0 <= i < records.len() ==> #[trigger] stores[i + 1]@ == stores[i]@.push(records[i]),
        0 <= k <= records.len(),
    ensures
        stores[k]@ == records.subrange(0, k),
    decreases k,
{
    if k == 0 {
        assert(records.subrange(0, 0) =~= Seq::<HistData>::empty());
    } else {
        lemma_prefix_after_appends(records, stores, k - 1);
        assert(stores[(k - 1) + 1]@ == stores[k - 1]@.push(records[k - 1]));
        assert(records.subrange(0, k) =~= records.subrange(0, k - 1).push(records[k - 1]));
    }
}

/// Appending records one by one to an empty history, then loading it, gives
/// back exactly those records in the order they were appended.
///
/// `stores[i]` is the history after the first `i` appends: it starts empty,
/// and each append adds `records[i]` at the end.
pub proof fn lemma_append_then_load(records: Seq<HistData>, stores: Seq<History>)
    requires
        stores.len() == records.len() + 1,
        stores[0]@ == Seq::<HistData>::empty(),
        forall|i: int|
            0 <= i < records.len() ==> #[trigger] stores[i + 1]@ == stores[i]@.push(records[i]),
    ensures
        stores[records.len() as int]@ == records,
{
    lemma_prefix_after_appends(records, stores, records.len() as int);
    assert(records.subrange(0, records.len() as int) =~= records);
}

/// Loading a history twice, with no append in between, gives the same
/// records both times: loading reads the history and leaves it as it is.
pub proof fn lemma_load_twice(store: History, first: Seq<HistData>, second: Seq<HistData>)
    requires
        first == store@,
        second == store@,
    ensures
        first == second,
{
}

} // verus!
