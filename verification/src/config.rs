use vstd::prelude::*;

use crate::common::error::AppError;

verus! {

/// The configuration surface the extraction core runs under, assembled
/// and validated by the caller before any record is processed.  Times are
/// offsets from the anchor time, in nanoseconds.
#[derive(Debug)]
pub struct Config {
    /// Directory the exported frames are written into.
    pub output_dir: String,
    /// The requested topic selectors, one string each.
    pub topics: Vec<String>,
    /// Whether the selectors are matched as regular expressions.
    pub regex: bool,
    /// Offset from which to start exporting, in nanoseconds.
    pub start_ns: u64,
    /// Optional offset up to which to export, in nanoseconds.
    pub end_ns: Option<u64>,
    /// Optional maximum number of frames to export per topic.
    pub number: Option<u32>,
    /// Export every `step`-th observed frame.
    pub step: u32,
    /// Whether to swap the first and third colour channel of every pixel.
    pub invert_channels: bool,
}

impl Config {
    /// The bounds the core relies on: at least one selector, a positive
    /// step, a positive maximum when one is given, and an end time after
    /// the start time when one is given.
    pub open spec fn valid(&self) -> bool {
        &&& self.topics@.len() > 0
        &&& self.step >= 1
        &&& (self.number matches Some(n) ==> n >= 1)
        &&& (self.end_ns matches Some(e) ==> e > self.start_ns)
    }

    /// Checks the bounds of [`Config::valid`], reporting the first
    /// violated one: no selectors, then an end time not after the start
    /// time, then a zero step, then a zero maximum count.
    pub fn validate(&self) -> (r: Result<(), AppError>)
        ensures
            r is Ok <==> self.valid(),
            self.topics@.len() == 0 ==> (r matches Err(e) && e matches AppError::ArgsEmptyTopics),
            self.topics@.len() > 0 && (self.end_ns matches Some(e) && e <= self.start_ns) ==> (
            r matches Err(er)
                && er matches AppError::ArgsEndBeforeStart(s, en)
                && s == self.start_ns
                && self.end_ns == Some(en)),
            self.topics@.len() > 0 && (self.end_ns matches Some(e) ==> e > self.start_ns)
                && self.step < 1 ==> (r matches Err(er)
                && er matches AppError::ArgsNegativeStep(st)
                && st == self.step),
            self.topics@.len() > 0 && (self.end_ns matches Some(e) ==> e > self.start_ns)
                && self.step >= 1 && (self.number matches Some(n) && n < 1) ==> (
            r matches Err(er)
                && er matches AppError::ArgsNegativeNumber(nu)
                && self.number == Some(nu)),
    {
        if self.topics.len() == 0 {
            return Err(AppError::ArgsEmptyTopics);
        }
        match self.end_ns {
            Some(e) => {
                if e <= self.start_ns {
                    return Err(AppError::ArgsEndBeforeStart(self.start_ns, e));
                }
            },
            None => {},
        }
        if self.step < 1 {
            return Err(AppError::ArgsNegativeStep(self.step));
        }
        match self.number {
            Some(n) => {
                if n < 1 {
                    return Err(AppError::ArgsNegativeNumber(n));
                }
            },
            None => {},
        }
        Ok(())
    }
}

} // verus!
