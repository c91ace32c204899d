//! Reports of transcription statistics: when one is due, and how it is logged.

use vstd::prelude::*;

use crate::text::strings::concat3;
use crate::time::local_time_text;

verus! {

/// Seconds from one periodic report to the next.
pub const STATS_INTERVAL_SECS: u64 = 10;

/// Handles reporting of transcription statistics.
#[derive(Debug, Clone, Copy)]
pub struct StatsReporter {
    pub log_stats_enabled: bool,
}

/// The entry of a periodic report made at the time `stamp`.
pub open spec fn periodic_entry(stamp: Seq<char>, report: Seq<char>) -> Seq<char> {
    "\n--- "@ + stamp + " ---\n"@ + report + "\n"@
}

/// The entry of a report on demand made at the time `stamp`.
pub open spec fn on_demand_entry(stamp: Seq<char>, report: Seq<char>) -> Seq<char> {
    "\n--- "@ + stamp + " (On-Demand Report) ---\n"@ + report + "\n"@
}

/// The entry of a periodic report made at the time `stamp`.
pub fn periodic_entry_at(stamp: &str, report: &str) -> (r: String)
    ensures
        r@ == periodic_entry(stamp@, report@),
{
    let head = concat3("\n--- ", stamp, " ---\n");
    concat3(head.as_str(), report, "\n")
}

/// The entry of a report on demand made at the time `stamp`.
pub fn on_demand_entry_at(stamp: &str, report: &str) -> (r: String)
    ensures
        r@ == on_demand_entry(stamp@, report@),
{
    let head = concat3("\n--- ", stamp, " (On-Demand Report) ---\n");
    concat3(head.as_str(), report, "\n")
}

impl StatsReporter {
    /// A reporter, enabled or not.
    pub fn new(log_stats_enabled: bool) -> (r: Self)
        ensures
            r.log_stats_enabled == log_stats_enabled,
    {
        StatsReporter { log_stats_enabled }
    }

    /// The entry of a periodic report made now; none where reporting is off or
    /// nothing was processed yet.
    pub fn periodic_report(&self, segments_processed: usize, report: &str) -> (r: Option<String>)
        ensures
            match r {
                Some(entry) => self.log_stats_enabled && segments_processed > 0 && exists|
                    stamp: Seq<char>,
                | entry@ == #[trigger] periodic_entry(stamp, report@),
                None => !self.log_stats_enabled || segments_processed == 0,
            },
    {
        if !self.log_stats_enabled || segments_processed == 0 {
            return None;
        }
        let stamp = local_time_text("%Y-%m-%d %H:%M:%S");
        Some(periodic_entry_at(stamp.as_str(), report))
    }

    /// The entry of a report on demand made now; none where reporting is off
    /// or nothing was processed yet.
    pub fn print_stats(&self, segments_processed: usize, report: &str) -> (r: Option<String>)
        ensures
            match r {
                Some(entry) => self.log_stats_enabled && segments_processed > 0 && exists|
                    stamp: Seq<char>,
                | entry@ == #[trigger] on_demand_entry(stamp, report@),
                None => !self.log_stats_enabled || segments_processed == 0,
            },
    {
        if !self.log_stats_enabled || segments_processed == 0 {
            return None;
        }
        let stamp = local_time_text("%Y-%m-%d %H:%M:%S");
        Some(on_demand_entry_at(stamp.as_str(), report))
    }
}

} // verus!
