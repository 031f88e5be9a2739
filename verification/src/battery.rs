use vstd::prelude::*;
use vstd::string::*;

use crate::control::ADC_READ_REPETITION;

verus! {

/// The charge state of a battery, as judged from one measurement.
#[derive(Debug, Clone, Copy, PartialEq, Eq, Structural)]
pub enum Status {
    Full,
    ToReplace,
    Init,
    Unknown,
}

/// A request sent to the measuring side.
#[derive(Debug, Clone, Copy, PartialEq, Eq, Structural)]
pub enum Command {
    /// Measure the battery on the GPIO pin with this number.
    Measure(i32),
}

/// The severity with which a status report is logged.
#[derive(Debug, Clone, Copy, PartialEq, Eq, Structural)]
pub enum LogLevel {
    Info,
    Warn,
    Error,
}

/// A status report: the line to log and its severity.
pub struct LogLine {
    pub level: LogLevel,
    pub text: String,
}

/// Leading words of the report for a voltage too low to be a connected battery.
pub open spec fn cable_warning() -> Seq<char> {
    "verify battery and cables, value is too low!!! \n"@
}

impl Status {
    /// The severity with which a measurement of this status is reported.
    pub open spec fn spec_level(self) -> LogLevel {
        match self {
            Status::Full => LogLevel::Info,
            Status::ToReplace => LogLevel::Error,
            Status::Init => LogLevel::Warn,
            Status::Unknown => LogLevel::Warn,
        }
    }

    /// The text reported for a measurement of this status, given the caller's
    /// message and the measurement's printed form.
    pub open spec fn spec_text(self, msg: Seq<char>, details: Seq<char>) -> Seq<char> {
        match self {
            Status::Unknown => cable_warning() + msg + "  "@ + details,
            _ => msg + ": "@ + details,
        }
    }

    /// The report of a measurement with this status: `msg` is the caller's
    /// message, `details` the measurement as printed.
    pub fn show(&self, msg: &str, details: &str) -> (line: LogLine)
        ensures
            line.level == self.spec_level(),
            line.text@ == self.spec_text(msg@, details@),
            *self == Status::Unknown ==> line.text@
                == "verify battery and cables, value is too low!!! \n"@ + msg@ + "  "@ + details@,
            *self != Status::Unknown ==> line.text@ == msg@ + ": "@ + details@,
            line.level == LogLevel::Info <==> *self == Status::Full,
            line.level == LogLevel::Error <==> *self == Status::ToReplace,
            line.level == LogLevel::Warn <==> (*self == Status::Init || *self == Status::Unknown),
    {
        match self {
            Status::Unknown => {
                let mut text = String::from_str("verify battery and cables, value is too low!!! \n");
                text.append(msg);
                text.append("  ");
                text.append(details);
                LogLine { level: LogLevel::Warn, text }
            },
            _ => {
                let mut text = String::from_str(msg);
                text.append(": ");
                text.append(details);
                let level = match self {
                    Status::Full => LogLevel::Info,
                    Status::ToReplace => LogLevel::Error,
                    _ => LogLevel::Warn,
                };
                LogLine { level, text }
            },
        }
    }
}


/// The report of a measurement too low to come from a connected battery
/// starts with the cable warning, then holds the caller's message, two spaces
/// and the measurement's printed form.
pub proof fn lemma_unknown_report_warns_about_cables(msg: Seq<char>, details: Seq<char>)
    ensures
        Status::Unknown.spec_text(msg, details)
            == "verify battery and cables, value is too low!!! \n"@ + msg + "  "@ + details,
        Status::Unknown.spec_text(msg, details).take(cable_warning().len() as int) == cable_warning(),
        Status::Unknown.spec_level() == LogLevel::Warn,
{
    let text = Status::Unknown.spec_text(msg, details);
    assert(text.take(cable_warning().len() as int) =~= cable_warning());
}

/// Every other report is the caller's message, a colon and a space, and the
/// measurement's printed form, with no cable warning; a battery to replace is
/// reported as an error, a full one as information, a fresh measurement as a
/// warning.
pub proof fn lemma_other_reports_are_plain(status: Status, msg: Seq<char>, details: Seq<char>)
    requires
        status != Status::Unknown,
    ensures
        status.spec_text(msg, details) == msg + ": "@ + details,
        status == Status::ToReplace ==> status.spec_level() == LogLevel::Error,
        status == Status::Full ==> status.spec_level() == LogLevel::Info,
        status == Status::Init ==> status.spec_level() == LogLevel::Warn,
{
}

impl Status {
    /// The status that the boundary check gives a measured voltage, where
    /// `below_half_boundary` tells whether the voltage lies below half the
    /// warning boundary and `below_boundary` whether it lies below the boundary.
    pub open spec fn spec_assess(below_half_boundary: bool, below_boundary: bool) -> Status {
        if below_half_boundary {
            Status::Unknown
        } else if below_boundary {
            Status::ToReplace
        } else {
            Status::Full
        }
    }

    /// Classifies a measured voltage from its two comparisons with the warning
    /// boundary: under half the boundary no battery is taken to be connected,
    /// under the boundary the battery is to be replaced, otherwise it is full.
    pub fn assess(below_half_boundary: bool, below_boundary: bool) -> (status: Status)
        ensures
            status == Status::spec_assess(below_half_boundary, below_boundary),
    {
        if below_half_boundary {
            Status::Unknown
        } else if below_boundary {
            Status::ToReplace
        } else {
            Status::Full
        }
    }

    /// How good a status is: unknown, then to replace, then full.
    /// The initial status ranks below all of them.
    pub open spec fn rank(self) -> int {
        match self {
            Status::Init => -1,
            Status::Unknown => 0,
            Status::ToReplace => 1,
            Status::Full => 2,
        }
    }
}

/// A voltage that has been checked against its boundary never keeps the initial status.
pub proof fn lemma_assessed_status_is_settled(below_half_boundary: bool, below_boundary: bool)
    ensures
        Status::spec_assess(below_half_boundary, below_boundary) != Status::Init,
        Status::spec_assess(below_half_boundary, below_boundary).rank() >= 0,
{
}

/// A higher voltage never gets a worse status: if every comparison that the
/// higher voltage fails is also failed by the lower one (as holds for two
/// voltages checked against the same boundary), the higher one ranks at least
/// as well.
pub proof fn lemma_assess_monotone(
    low_below_half: bool,
    low_below_boundary: bool,
    high_below_half: bool,
    high_below_boundary: bool,
)
    requires
        high_below_half ==> low_below_half,
        high_below_boundary ==> low_below_boundary,
    ensures
        Status::spec_assess(low_below_half, low_below_boundary).rank()
            <= Status::spec_assess(high_below_half, high_below_boundary).rank(),
{
}

/// The sum of a sequence of ADC readings.
pub open spec fn readings_sum(readings: Seq<u16>) -> int
    decreases readings.len(),
{
    if readings.len() == 0 {
        0
    } else {
        readings_sum(readings.drop_last()) + readings.last()
    }
}

/// A prefix of the readings never sums to more than the whole.
pub proof fn lemma_prefix_sum_bounded(readings: Seq<u16>, i: int)
    requires
        0 <= i <= readings.len(),
    ensures
        0 <= readings_sum(readings.take(i)) <= readings_sum(readings),
    decreases readings.len(),
{
    if i == readings.len() {
        assert(readings.take(i) =~= readings);
        if readings.len() > 0 {
            lemma_prefix_sum_bounded(readings.drop_last(), readings.len() - 1);
            assert(readings.drop_last().take(readings.len() - 1) =~= readings.drop_last());
        }
    } else {
        lemma_prefix_sum_bounded(readings.drop_last(), i);
        assert(readings.drop_last().take(i) =~= readings.take(i));
    }
}

/// Taking one reading out of a batch lowers its sum by that reading.
pub proof fn lemma_sum_remove(readings: Seq<u16>, j: int)
    requires
        0 <= j < readings.len(),
    ensures
        readings_sum(readings) == readings_sum(readings.remove(j)) + readings[j],
    decreases readings.len(),
{
    if j == readings.len() - 1 {
        assert(readings.remove(j) =~= readings.drop_last());
    } else {
        let rest = readings.drop_last();
        lemma_sum_remove(rest, j);
        assert(readings.remove(j).drop_last() =~= rest.remove(j));
        assert(readings.remove(j).last() == readings.last());
    }
}

/// The sum of a batch of readings does not depend on their order: two
/// batches holding the same readings, each as often, have as many readings
/// and sum alike, so their totals and means agree.
pub proof fn lemma_readings_sum_permutation(a: Seq<u16>, b: Seq<u16>)
    requires
        a.to_multiset() == b.to_multiset(),
    ensures
        a.len() == b.len(),
        readings_sum(a) == readings_sum(b),
    decreases a.len(),
{
    broadcast use vstd::seq_lib::group_to_multiset_ensures;

    if a.len() == 0 {
        assert(b.to_multiset().len() == 0);
        assert(b.len() == 0);
    } else {
        let x = a.last();
        let rest = a.drop_last();
        assert(rest.push(x) =~= a);
        assert(a.to_multiset() =~= rest.to_multiset().insert(x));
        assert(b.to_multiset().count(x) > 0);
        assert(b.contains(x));
        let j = choose|j: int| 0 <= j < b.len() && b[j] == x;
        assert(b.remove(j).to_multiset() =~= b.to_multiset().remove(x));
        assert(rest.to_multiset().insert(x).remove(x) =~= rest.to_multiset());
        lemma_readings_sum_permutation(rest, b.remove(j));
        lemma_sum_remove(b, j);
    }
}

/// The sum of the readings in 16 bits, or `None` where it does not fit
/// (summing them in 16 bits would overflow).
pub fn readings_total(readings: &[u16]) -> (total: Option<u16>)
    ensures
        readings_sum(readings@) <= u16::MAX <==> total is Some,
        total matches Some(t) ==> t == readings_sum(readings@),
{
    let mut acc: u16 = 0;
    let mut i: usize = 0;
    while i < readings.len()
        invariant
            i <= readings.len(),
            acc == readings_sum(readings@.take(i as int)),
        decreases readings.len() - i,
    {
        assert(readings@.take(i + 1).drop_last() =~= readings@.take(i as int));
        let value = readings[i];
        if acc > u16::MAX - value {
            proof {
                lemma_prefix_sum_bounded(readings@, i + 1);
            }
            return None;
        }
        acc = acc + value;
        i = i + 1;
    }
    assert(readings@.take(i as int) =~= readings@);
    Some(acc)
}

/// The mean of `count` readings summing to `total`, rounded toward zero;
/// zero when there are no readings.
pub fn raw_average(total: u16, count: usize) -> (mean: u16)
    ensures
        count == 0 ==> mean == 0,
        count > 0 ==> mean == total as int / count as int,
{
    if count == 0 {
        0
    } else {
        let wide: usize = total as usize;
        let q: usize = wide / count;
        assert(q <= wide) by (nonlinear_arith)
            requires
                count > 0,
                q == wide / count,
        ;
        q as u16
    }
}

/// Readings that all lie between `lo` and `hi` sum to between
/// `lo` and `hi` times their count.
pub proof fn lemma_sum_between(readings: Seq<u16>, lo: int, hi: int)
    requires
        forall|i: int| 0 <= i < readings.len() ==> lo <= #[trigger] readings[i] <= hi,
    ensures
        readings.len() * lo <= readings_sum(readings) <= readings.len() * hi,
    decreases readings.len(),
{
    if readings.len() > 0 {
        let rest = readings.drop_last();
        assert forall|i: int| 0 <= i < rest.len() implies lo <= #[trigger] rest[i] <= hi by {
            assert(rest[i] == readings[i]);
        }
        lemma_sum_between(rest, lo, hi);
        assert(lo <= readings.last() <= hi) by {
            assert(readings.last() == readings[readings.len() - 1]);
        }
        assert(readings.len() * lo == rest.len() * lo + lo) by (nonlinear_arith)
            requires
                readings.len() == rest.len() + 1,
        ;
        assert(readings.len() * hi == rest.len() * hi + hi) by (nonlinear_arith)
            requires
                readings.len() == rest.len() + 1,
        ;
    }
}

/// The mean of a batch of readings lies between its smallest and its largest
/// reading: whatever bounds hold of every reading hold of the mean.
pub proof fn lemma_average_within_readings(readings: Seq<u16>, lo: int, hi: int)
    requires
        readings.len() > 0,
        forall|i: int| 0 <= i < readings.len() ==> lo <= #[trigger] readings[i] <= hi,
    ensures
        lo <= readings_sum(readings) / (readings.len() as int) <= hi,
{
    lemma_sum_between(readings, lo, hi);
    let n = readings.len() as int;
    let s = readings_sum(readings);
    assert(lo <= s / n <= hi) by (nonlinear_arith)
        requires
            n > 0,
            n * lo <= s <= n * hi,
    ;
}

/// The readings of one measurement, gathered one ADC read at a time until
/// `ADC_READ_REPETITION` of them are in.
pub struct Sampler {
    readings: Vec<u16>,
}

impl View for Sampler {
    type V = Seq<u16>;

    /// The readings gathered so far, in the order they were read.
    closed spec fn view(&self) -> Seq<u16> {
        self.readings@
    }
}

impl Sampler {
    #[verifier::type_invariant]
    closed spec fn within_batch(self) -> bool {
        self.readings@.len() <= ADC_READ_REPETITION
    }

    /// A sampler that holds no reading yet.
    pub fn new() -> (sampler: Sampler)
        ensures
            sampler@ == Seq::<u16>::empty(),
    {
        Sampler { readings: Vec::new() }
    }

    /// Whether the batch is full, so that no further read is to be made.
    pub fn is_complete(&self) -> (complete: bool)
        ensures
            self@.len() <= ADC_READ_REPETITION,
            complete == (self@.len() == ADC_READ_REPETITION),
    {
        proof {
            use_type_invariant(self);
        }
        self.readings.len() >= ADC_READ_REPETITION as usize
    }

    /// Records the next reading and returns how many readings are now in,
    /// which numbers the reading from 1.
    pub fn record(&mut self, value: u16) -> (count: u8)
        requires
            old(self)@.len() < ADC_READ_REPETITION,
        ensures
            final(self)@ == old(self)@.push(value),
            count == final(self)@.len(),
    {
        let mut readings = Vec::new();
        std::mem::swap(&mut readings, &mut self.readings);
        readings.push(value);
        let count = readings.len() as u8;
        *self = Sampler { readings };
        count
    }

    /// The readings gathered, in the order they were read.
    pub fn into_readings(self) -> (readings: Vec<u16>)
        ensures
            readings@ == self@,
    {
        self.readings
    }
}

} // verus!
