//! The stopwatch: an ordered log of the phases of a run with the time that
//! each took. It has no part in what is generated.

use vstd::prelude::*;
use crate::util::{decimal, decimal_string};

verus! {

/// One phase with the microseconds that it took.
#[derive(Clone, Debug, PartialEq, Eq)]
pub struct PhaseRecord {
    pub name: String,
    pub micros: u64,
}

/// What a [`PhaseRecord`] holds, as a mathematical value.
pub struct PhaseModel {
    pub name: Seq<char>,
    pub micros: u64,
}

impl DeepView for PhaseRecord {
    type V = PhaseModel;

    open spec fn deep_view(&self) -> PhaseModel {
        PhaseModel { name: self.name@, micros: self.micros }
    }
}

/// The log of a run, in the order in which the phases ended.
#[derive(Clone, Debug, PartialEq, Eq)]
pub struct StopWatch {
    pub log: Vec<PhaseRecord>,
}

impl View for StopWatch {
    type V = Seq<PhaseModel>;

    open spec fn view(&self) -> Seq<PhaseModel> {
        self.log.deep_view()
    }
}

/// The line of one phase in the report.
pub open spec fn stats_line(p: PhaseModel) -> Seq<char> {
    p.name + ": "@ + decimal(p.micros as nat) + " us\n"@
}

/// The report on the first `upto` phases: one line for each.
pub open spec fn stats_text(log: Seq<PhaseModel>, upto: nat) -> Seq<char>
    decreases upto,
{
    if upto == 0 {
        Seq::empty()
    } else {
        stats_text(log, (upto - 1) as nat) + stats_line(log[upto - 1])
    }
}

impl StopWatch {
    /// A stopwatch with an empty log.
    pub fn start() -> (r: StopWatch)
        ensures
            r@ == Seq::<PhaseModel>::empty(),
    {
        let r = StopWatch { log: Vec::new() };
        assert(r@ =~= Seq::<PhaseModel>::empty());
        r
    }

    /// Enters at the end of the log that the phase `what` took
    /// `elapsed_micros` microseconds.
    pub fn record(&mut self, what: &str, elapsed_micros: u64)
        ensures
            final(self)@ == old(self)@.push(PhaseModel { name: what@, micros: elapsed_micros }),
    {
        let entry = PhaseRecord { name: what.to_owned(), micros: elapsed_micros };
        self.log.push(entry);
        assert(self@ =~= old(self)@.push(PhaseModel { name: what@, micros: elapsed_micros }));
    }

    /// The report: one line for each phase, in the order of the log.
    pub fn stats(&self) -> (r: String)
        ensures
            r@ == stats_text(self@, self@.len()),
    {
        let mut out = String::new();
        let n: usize = self.log.len();
        let mut i: usize = 0;
        while i < n
            invariant
                i <= n,
                n == self.log.len(),
                out@ == stats_text(self@, i as nat),
            decreases n - i,
        {
            assert(self@[i as int] == self.log[i as int].deep_view());
            let ghost before = out@;
            out.append(self.log[i].name.as_str());
            out.append(": ");
            let number = decimal_string(self.log[i].micros);
            out.append(number.as_str());
            out.append(" us\n");
            assert(out@ =~= before + stats_line(self@[i as int]));
            i = i + 1;
        }
        out
    }
}

} // verus!
