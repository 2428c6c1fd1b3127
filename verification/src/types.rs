//! The instruments that the engine trades and their price history.

use vstd::prelude::*;
use crate::dates::Date;

verus! {

/// One day's prices for an instrument. The engine reads `date` and `close`;
/// the other fields are carried along.
#[derive(Clone, Copy, PartialEq, Eq, Structural, Debug)]
pub struct Candle {
    pub date: Date,
    pub open: i64,
    pub high: i64,
    pub low: i64,
    pub close: i64,
    pub volume: i64,
}

/// An instrument: its symbol, the day it was listed and its daily candles.
#[derive(Clone, PartialEq, Eq, Debug)]
pub struct Stock {
    pub symbol: String,
    pub listing_date: Date,
    pub history: Vec<Candle>,
}

/// One day's close of an instrument with its change from the close before.
#[derive(Clone, Copy, PartialEq, Eq, Structural, Debug)]
pub struct Close {
    pub value: i64,
    pub percent_change: i64,
    pub date: Date,
}

/// The envelope of an instrument's periodic average returns.
#[derive(Clone, Copy, PartialEq, Eq, Structural, Debug)]
pub struct Bound {
    pub upper: i64,
    pub middle: i64,
    pub lower: i64,
}

/// The candles are in ascending order of date, no date twice.
pub open spec fn dates_ascend(history: Seq<Candle>) -> bool {
    forall|i: int, j: int|
        0 <= i < j < history.len() ==> (#[trigger] history[i]).date.days < (
        #[trigger] history[j]).date.days
}

impl Stock {
    /// The history is in ascending order of date.
    pub open spec fn wf(&self) -> bool {
        dates_ascend(self.history@)
    }

    /// Checks that the history is in ascending order of date.
    pub fn is_well_formed(&self) -> (r: bool)
        ensures
            r == self.wf(),
    {
        let n = self.history.len();
        if n < 2 {
            return true;
        }
        let mut i: usize = 1;
        while i < n
            invariant
                n == self.history.len(),
                1 <= i <= n,
                forall|a: int, b: int|
                    0 <= a < b < i ==> (#[trigger] self.history@[a]).date.days < (
                    #[trigger] self.history@[b]).date.days,
            decreases n - i,
        {
            if self.history[i - 1].date.days >= self.history[i].date.days {
                return false;
            }
            i += 1;
        }
        true
    }
}

} // verus!
