use vstd::prelude::*;

use crate::format::{format_count, grouped};

verus! {

/// Counters of one run: records to read and read, records to write and written.
#[derive(Debug, Clone, Copy, PartialEq, Eq, Structural)]
pub struct Snapshot {
    pub to_read: u64,
    pub read: u64,
    pub to_write: u64,
    pub written: u64,
}

/// `a + b`, or the largest `u64` where the sum does not fit.
pub open spec fn sat_add(a: u64, b: u64) -> u64 {
    if a + b > u64::MAX { u64::MAX } else { (a + b) as u64 }
}

/// `a - b`, or zero where `b > a`.
pub open spec fn sat_sub(a: u64, b: u64) -> u64 {
    if a >= b { (a - b) as u64 } else { 0 }
}

/// The counts of one sink: records routed to it, and records appended to it.
#[derive(Debug, Clone, Copy, PartialEq, Eq, Structural)]
pub struct SinkCounts {
    pub to_write: u64,
    pub written: u64,
}

/// The counters shared by the tasks of one run, in total and per sink. Each
/// count only grows.
pub struct ProgressCounters {
    counts: Snapshot,
    per_sink: Vec<SinkCounts>,
}

impl View for ProgressCounters {
    type V = Snapshot;

    closed spec fn view(&self) -> Snapshot {
        self.counts
    }
}

impl ProgressCounters {
    /// The counts of each sink, by sink index.
    pub closed spec fn sinks(&self) -> Seq<SinkCounts> {
        self.per_sink@
    }

    /// Counters for a run with no sink counts.
    pub fn new() -> (c: ProgressCounters)
        ensures
            c@ == (Snapshot { to_read: 0, read: 0, to_write: 0, written: 0 }),
            c.sinks() == Seq::<SinkCounts>::empty(),
    {
        ProgressCounters { counts: Snapshot { to_read: 0, read: 0, to_write: 0, written: 0 }, per_sink: Vec::new() }
    }

    /// Counters for a run with `n` sinks, all at zero.
    pub fn with_sinks(n: usize) -> (c: ProgressCounters)
        ensures
            c@ == (Snapshot { to_read: 0, read: 0, to_write: 0, written: 0 }),
            c.sinks().len() == n,
            forall|j: int| 0 <= j < n ==> #[trigger] c.sinks()[j] == (SinkCounts { to_write: 0, written: 0 }),
    {
        let mut per_sink: Vec<SinkCounts> = Vec::new();
        let mut i: usize = 0;
        while i < n
            invariant
                i <= n,
                per_sink.len() == i,
                forall|j: int| 0 <= j < i ==> #[trigger] per_sink[j] == (SinkCounts { to_write: 0, written: 0 }),
            decreases n - i,
        {
            per_sink.push(SinkCounts { to_write: 0, written: 0 });
            i = i + 1;
        }
        ProgressCounters { counts: Snapshot { to_read: 0, read: 0, to_write: 0, written: 0 }, per_sink }
    }

    /// Counts a batch of `n` records routed to sink `sink`, in its counts and in the total.
    pub fn record_routed(&mut self, sink: usize, n: u64)
        requires
            sink < old(self).sinks().len(),
        ensures
            final(self)@ == (Snapshot { to_write: sat_add(old(self)@.to_write, n), ..old(self)@ }),
            final(self).sinks() == old(self).sinks().update(sink as int, SinkCounts {
                to_write: sat_add(old(self).sinks()[sink as int].to_write, n),
                ..old(self).sinks()[sink as int]
            }),
    {
        self.counts.to_write = self.counts.to_write.saturating_add(n);
        let c = self.per_sink[sink];
        self.per_sink.set(sink, SinkCounts { to_write: c.to_write.saturating_add(n), written: c.written });
    }

    /// Counts `n` records appended to sink `sink`, in its counts and in the total.
    pub fn record_appended(&mut self, sink: usize, n: u64)
        requires
            sink < old(self).sinks().len(),
        ensures
            final(self)@ == (Snapshot { written: sat_add(old(self)@.written, n), ..old(self)@ }),
            final(self).sinks() == old(self).sinks().update(sink as int, SinkCounts {
                written: sat_add(old(self).sinks()[sink as int].written, n),
                ..old(self).sinks()[sink as int]
            }),
    {
        self.counts.written = self.counts.written.saturating_add(n);
        let c = self.per_sink[sink];
        self.per_sink.set(sink, SinkCounts { to_write: c.to_write, written: c.written.saturating_add(n) });
    }

    /// The counts of sink `sink`.
    pub fn sink_counts(&self, sink: usize) -> (c: SinkCounts)
        requires
            sink < self.sinks().len(),
        ensures
            c == self.sinks()[sink as int],
    {
        self.per_sink[sink]
    }

    /// Adds the declared record count of a source that a worker opened.
    pub fn add_to_read(&mut self, n: u64)
        ensures
            final(self)@ == (Snapshot { to_read: sat_add(old(self)@.to_read, n), ..old(self)@ }),
            final(self).sinks() == old(self).sinks(),
    {
        self.counts.to_read = self.counts.to_read.saturating_add(n);
    }

    /// Counts records pulled from a source.
    pub fn add_read(&mut self, n: u64)
        ensures
            final(self)@ == (Snapshot { read: sat_add(old(self)@.read, n), ..old(self)@ }),
            final(self).sinks() == old(self).sinks(),
    {
        self.counts.read = self.counts.read.saturating_add(n);
    }

    /// Counts records routed to a sink and not yet appended.
    pub fn add_to_write(&mut self, n: u64)
        ensures
            final(self)@ == (Snapshot { to_write: sat_add(old(self)@.to_write, n), ..old(self)@ }),
            final(self).sinks() == old(self).sinks(),
    {
        self.counts.to_write = self.counts.to_write.saturating_add(n);
    }

    /// Counts records appended to a sink.
    pub fn add_written(&mut self, n: u64)
        ensures
            final(self)@ == (Snapshot { written: sat_add(old(self)@.written, n), ..old(self)@ }),
            final(self).sinks() == old(self).sinks(),
    {
        self.counts.written = self.counts.written.saturating_add(n);
    }

    pub fn snapshot(&self) -> (s: Snapshot)
        ensures
            s == self@,
    {
        self.counts
    }
}

/// One periodic status: what moved since the previous tick and what is left.
#[derive(Debug, Clone, Copy, PartialEq, Eq, Structural)]
pub struct Status {
    pub elapsed_secs: u64,
    pub read_delta: u64,
    pub written_delta: u64,
    pub read_left: u64,
    pub write_left: u64,
    /// Records read over records to read, in hundredths of a percent; none while nothing is to be read.
    pub percent_hundredths: Option<u64>,
    /// Records read per second over the tick; none when the tick took no whole second.
    pub rate: Option<u64>,
    /// Seconds until every record is read at that rate; none when the rate is absent or zero.
    pub eta_secs: Option<u64>,
}

/// What the monitor reports on one tick.
#[derive(Debug, Clone, Copy, PartialEq, Eq, Structural)]
pub enum Report {
    /// Nothing was read or written since the previous tick.
    Idle { elapsed_secs: u64 },
    Progress(Status),
}

pub open spec fn percent_of(read: u64, to_read: u64) -> Option<u64> {
    if to_read == 0 {
        None
    } else {
        Some((((if read <= to_read { read } else { to_read }) as int * 10000) / to_read as int) as u64)
    }
}

pub open spec fn rate_of(delta: u64, elapsed_secs: u64) -> Option<u64> {
    if elapsed_secs == 0 { None } else { Some((delta / elapsed_secs) as u64) }
}

pub open spec fn eta_of(left: u64, rate: Option<u64>) -> Option<u64> {
    match rate {
        Some(r) if r > 0 => Some((left / r) as u64),
        _ => None,
    }
}

/// The report for a tick that took `elapsed_secs`, from the counters at its start and end.
pub open spec fn report_of(prev: Snapshot, now: Snapshot, elapsed_secs: u64) -> Report {
    let read_delta = sat_sub(now.read, prev.read);
    let written_delta = sat_sub(now.written, prev.written);
    if read_delta == 0 && written_delta == 0 {
        Report::Idle { elapsed_secs }
    } else {
        let read_left = sat_sub(now.to_read, now.read);
        let rate = rate_of(read_delta, elapsed_secs);
        Report::Progress(Status {
            elapsed_secs,
            read_delta,
            written_delta,
            read_left,
            write_left: sat_sub(now.to_write, now.written),
            percent_hundredths: percent_of(now.read, now.to_read),
            rate,
            eta_secs: eta_of(read_left, rate),
        })
    }
}

/// Computes the report of one tick. No input makes it divide by zero.
pub fn tick_report(prev: Snapshot, now: Snapshot, elapsed_secs: u64) -> (r: Report)
    ensures
        r == report_of(prev, now, elapsed_secs),
{
    let read_delta = now.read.saturating_sub(prev.read);
    let written_delta = now.written.saturating_sub(prev.written);
    if read_delta == 0 && written_delta == 0 {
        return Report::Idle { elapsed_secs };
    }
    let read_left = now.to_read.saturating_sub(now.read);
    let write_left = now.to_write.saturating_sub(now.written);
    let percent_hundredths = if now.to_read == 0 {
        None
    } else {
        let done: u64 = if now.read <= now.to_read { now.read } else { now.to_read };
        let p: u128 = (done as u128 * 10000) / (now.to_read as u128);
        assert(p <= 10000) by (nonlinear_arith)
            requires
                p == (done as int * 10000) / (now.to_read as int),
                done <= now.to_read,
                now.to_read > 0,
        {
            assert(done as int * 10000 <= now.to_read as int * 10000);
            vstd::arithmetic::div_mod::lemma_div_is_ordered(done as int * 10000, now.to_read as int * 10000, now.to_read as int);
            vstd::arithmetic::div_mod::lemma_div_by_multiple(10000, now.to_read as int);
        }
        Some(p as u64)
    };
    let rate = if elapsed_secs == 0 { None } else { Some(read_delta / elapsed_secs) };
    let eta_secs = match rate {
        Some(r) => if r > 0 { Some(read_left / r) } else { None },
        None => None,
    };
    Report::Progress(Status {
        elapsed_secs,
        read_delta,
        written_delta,
        read_left,
        write_left,
        percent_hundredths,
        rate,
        eta_secs,
    })
}

/// Two digits: `n` below one hundred, with a leading zero below ten.
pub open spec fn two_digits(n: nat) -> Seq<char> {
    if n < 10 { seq!['0'] + grouped(n) } else { grouped(n) }
}

pub open spec fn percent_text(p: Option<u64>) -> Seq<char> {
    match p {
        Some(h) => grouped((h / 100) as nat) + "."@ + two_digits((h % 100) as nat) + "%"@,
        None => "n/a"@,
    }
}

pub open spec fn eta_text(e: Option<u64>) -> Seq<char> {
    match e {
        Some(secs) => " / ETA "@ + grouped(secs as nat) + " s"@,
        None => Seq::empty(),
    }
}

/// The line the monitor prints for a report.
pub open spec fn report_text(r: Report) -> Seq<char> {
    match r {
        Report::Idle { elapsed_secs } => "No points were written or read in the last "@ + grouped(elapsed_secs as nat)
            + " second(s)."@,
        Report::Progress(s) => "Points read/written in the last "@ + grouped(s.elapsed_secs as nat)
            + " second(s) and left to read/write : "@ + grouped(s.read_delta as nat) + " / "@
            + grouped(s.written_delta as nat) + " / "@ + grouped(s.read_left as nat) + " / "@
            + grouped(s.write_left as nat) + " / "@ + percent_text(s.percent_hundredths) + eta_text(s.eta_secs),
    }
}

fn percent_string(p: Option<u64>) -> (r: String)
    ensures
        r@ == percent_text(p),
{
    match p {
        Some(h) => {
            let mut s = format_count(h / 100);
            s.append(".");
            let frac = h % 100;
            if frac < 10 {
                s.append("0");
            }
            s.append(format_count(frac).as_str());
            s.append("%");
            proof {
                reveal_strlit("0");
                assert("0"@ =~= seq!['0']);
                if frac < 10 {
                    assert(grouped((h / 100) as nat) + "."@ + "0"@ + grouped(frac as nat) =~= grouped((h / 100) as nat)
                        + "."@ + two_digits(frac as nat));
                }
            }
            assert(s@ =~= percent_text(p));
            s
        },
        None => String::from_str("n/a"),
    }
}

/// Renders a report as one human-readable line.
pub fn report_line(r: &Report) -> (line: String)
    ensures
        line@ == report_text(*r),
{
    match r {
        Report::Idle { elapsed_secs } => {
            let mut s = String::from_str("No points were written or read in the last ");
            s.append(format_count(*elapsed_secs).as_str());
            s.append(" second(s).");
            s
        },
        Report::Progress(st) => {
            let mut s = String::from_str("Points read/written in the last ");
            s.append(format_count(st.elapsed_secs).as_str());
            s.append(" second(s) and left to read/write : ");
            s.append(format_count(st.read_delta).as_str());
            s.append(" / ");
            s.append(format_count(st.written_delta).as_str());
            s.append(" / ");
            s.append(format_count(st.read_left).as_str());
            s.append(" / ");
            s.append(format_count(st.write_left).as_str());
            s.append(" / ");
            s.append(percent_string(st.percent_hundredths).as_str());
            match st.eta_secs {
                Some(e) => {
                    s.append(" / ETA ");
                    s.append(format_count(e).as_str());
                    s.append(" s");
                },
                None => {
                    assert(s@ + Seq::<char>::empty() =~= s@);
                },
            }
            s
        },
    }
}

/// The monitor's memory between ticks: the counters as the last tick saw them.
pub struct ProgressMonitor {
    pub previous: Snapshot,
}

impl ProgressMonitor {
    pub fn new() -> (m: ProgressMonitor)
        ensures
            m.previous == (Snapshot { to_read: 0, read: 0, to_write: 0, written: 0 }),
    {
        ProgressMonitor { previous: Snapshot { to_read: 0, read: 0, to_write: 0, written: 0 } }
    }

    /// Takes the counters at the end of a tick and reports on it.
    pub fn observe(&mut self, now: Snapshot, elapsed_secs: u64) -> (r: Report)
        ensures
            r == report_of(old(self).previous, now, elapsed_secs),
            final(self).previous == now,
    {
        let r = tick_report(self.previous, now, elapsed_secs);
        self.previous = now;
        r
    }
}

} // verus!
