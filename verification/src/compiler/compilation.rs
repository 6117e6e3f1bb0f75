//! The record of a compilation: the generated text, when it was made, and
//! how long each stage took.

use std::time::Duration;
use vstd::prelude::*;
use vstd::string::*;

verus! {

/// `std::time::Instant`, a reading of the monotonic clock.
#[verifier::external_type_specification]
#[verifier::external_body]
pub struct ExInstant(std::time::Instant);

/// `Instant::now` reads the monotonic clock. Nothing is claimed of the
/// reading.
pub assume_specification[ std::time::Instant::now ]() -> (r: std::time::Instant)
;

/// `Instant::elapsed` gives the time that has passed since the reading.
/// Nothing is claimed of that time.
pub assume_specification[ std::time::Instant::elapsed ](start: &std::time::Instant) -> (r:
    Duration)
;

/// A point in time: whole seconds since the start of 1970 in UTC, and the
/// nanoseconds since the last whole second.
#[derive(Debug, Clone, Copy, PartialEq, Eq, Structural)]
pub struct Timestamp {
    pub secs: i64,
    pub nanos: u32,
}

/// Reads the wall clock with `chrono::Utc::now` and takes the seconds and
/// nanoseconds of the reading. Nothing is claimed of the time that is
/// read. The call stops the program where the clock stands before 1970.
#[verifier::external_body]
fn utc_now() -> (r: Timestamp) {
    let now = chrono::Utc::now();
    Timestamp { secs: now.timestamp(), nanos: now.timestamp_subsec_nanos() }
}

/// The record of a compilation.
#[derive(Debug)]
pub struct Compilation {
    pub code: String,
    pub timestamp: Timestamp,
    pub elapsed_times: Vec<(String, Duration)>,
}

/// What a [`Compilation`] stands for.
pub struct CompilationModel {
    pub code: Seq<char>,
    pub timestamp: Timestamp,
    pub elapsed_times: Seq<(Seq<char>, Duration)>,
}

/// The names of the stages in a list of times, in order.
pub open spec fn stage_names(times: Seq<(Seq<char>, Duration)>) -> Seq<Seq<char>> {
    times.map_values(|t: (Seq<char>, Duration)| t.0)
}

impl View for Compilation {
    type V = CompilationModel;

    open spec fn view(&self) -> CompilationModel {
        CompilationModel {
            code: self.code@,
            timestamp: self.timestamp,
            elapsed_times: self.elapsed_times@.map_values(|t: (String, Duration)| (t.0@, t.1)),
        }
    }
}

impl Clone for Compilation {
    fn clone(&self) -> (r: Self)
        ensures
            r@ == self@,
    {
        let mut times: Vec<(String, Duration)> = Vec::new();
        let mut i: usize = 0;
        while i < self.elapsed_times.len()
            invariant
                i <= self.elapsed_times.len(),
                times@.len() == i,
                forall|k: int|
                    0 <= k < i ==> (#[trigger] times@[k]).0@ == self.elapsed_times@[k].0@
                        && times@[k].1 == self.elapsed_times@[k].1,
            decreases self.elapsed_times.len() - i,
        {
            times.push((self.elapsed_times[i].0.clone(), self.elapsed_times[i].1));
            i = i + 1;
        }
        let r = Compilation {
            code: self.code.clone(),
            timestamp: self.timestamp,
            elapsed_times: times,
        };
        assert(r@.elapsed_times =~= self@.elapsed_times);
        r
    }
}

impl Default for Compilation {
    fn default() -> (r: Self)
        ensures
            r@.code == Seq::<char>::empty(),
            r@.elapsed_times == Seq::<(Seq<char>, Duration)>::empty(),
    {
        Self::new()
    }
}

impl Compilation {
    /// An empty record, stamped with the current time.
    pub fn new() -> (r: Self)
        ensures
            r@.code == Seq::<char>::empty(),
            r@.elapsed_times == Seq::<(Seq<char>, Duration)>::empty(),
    {
        Self::at(utc_now())
    }

    /// Adds the time that a stage took, under the name of the stage, after
    /// the times that the record holds.
    pub fn add_elapsed_time(&mut self, stage: &str, duration: Duration)
        ensures
            final(self)@.code == old(self)@.code,
            final(self)@.timestamp == old(self)@.timestamp,
            final(self)@.elapsed_times == old(self)@.elapsed_times.push((stage@, duration)),
    {
        self.elapsed_times.push((String::from_str(stage), duration));
        assert(self@.elapsed_times =~= old(self)@.elapsed_times.push((stage@, duration)));
    }

    /// Stamps the record with the current time: reads the clock and gives
    /// the record the time that was read, as [`Compilation::stamp_at`]
    /// does with a time that is handed in. The text and the times of the
    /// stages stay as they are. Nothing is said of the time that is read,
    /// for it is the clock's to say: two readings may differ, and a later
    /// reading need not be the later time.
    pub fn stamp(&mut self)
        ensures
            final(self)@.code == old(self)@.code,
            final(self)@.elapsed_times == old(self)@.elapsed_times,
    {
        self.stamp_at(utc_now());
    }

    /// Sets the generated text.
    pub fn set_code(&mut self, code: String)
        ensures
            final(self)@.code == code@,
            final(self)@.timestamp == old(self)@.timestamp,
            final(self)@.elapsed_times == old(self)@.elapsed_times,
    {
        self.code = code;
    }

    /// An empty record, stamped with the given time.
    pub fn at(timestamp: Timestamp) -> (r: Self)
        ensures
            r@.code == Seq::<char>::empty(),
            r@.timestamp == timestamp,
            r@.elapsed_times == Seq::<(Seq<char>, Duration)>::empty(),
    {
        Compilation { code: String::new(), timestamp, elapsed_times: Vec::new() }
    }

    /// Stamps the record with the given time.
    pub fn stamp_at(&mut self, timestamp: Timestamp)
        ensures
            final(self)@.code == old(self)@.code,
            final(self)@.timestamp == timestamp,
            final(self)@.elapsed_times == old(self)@.elapsed_times,
    {
        self.timestamp = timestamp;
    }
}

} // verus!
