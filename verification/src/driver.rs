//! The per-record decision step of the processing loop.
//!
//! The surrounding program reads records from its source and performs the
//! emission I/O; every decision in between lives here. For each record the
//! driver decides whether the cadence boundary was crossed (in which case
//! the buffered interval is summarized and the buffer restarts with the
//! current record), feeds the record to the alert machinery, and reports
//! what the caller must emit: a finished summary, and the alert state when
//! one is active.

use std::collections::VecDeque;
use vstd::prelude::*;

use crate::alerts::{evict_spec, rate_is_high, spec_transition, Alert, AlertHandler};
use crate::stats::{build_summary_stats, summary_matches, wf_request_line, SummaryStats};
use crate::{ConfigurationError, Record};

verus! {

/// The cadence boundary rule: the buffer is summarized exactly when it is
/// non-empty and the current record's timestamp exceeds the first buffered
/// one by strictly more than the cadence.
pub open spec fn cadence_crossed(buffer: Seq<Record>, current: i64, cadence: i64) -> bool {
    buffer.len() > 0 && current > buffer[0].date && current - buffer[0].date > cadence
}

/// Owner of one stream's state: the interval buffer for the next summary
/// and the alert window and state machine, advanced in record order.
pub struct StreamDriver {
    pub interval_buffer: VecDeque<Record>,
    pub alert_handler: AlertHandler,
    pub summary_cadence: i64,
}

impl StreamDriver {
    /// Positive configuration, a well-formed alert handler, and a buffer of
    /// well-formed request lines in timestamp order.
    pub open spec fn wf(&self) -> bool {
        &&& self.alert_handler.wf()
        &&& self.summary_cadence >= 1
        &&& forall|i: int|
            0 <= i < self.interval_buffer@.len() ==> wf_request_line(
                #[trigger] self.interval_buffer@[i].request@,
            )
        &&& forall|i: int, j: int|
            0 <= i <= j < self.interval_buffer@.len() ==> self.interval_buffer@[i].date
                <= self.interval_buffer@[j].date
    }

    /// Validates the configuration once at startup: cadence, TTL and
    /// threshold must all be positive. Reports the first violation in that
    /// order; on success every piece of state starts empty and inactive.
    pub fn new(summary_cadence: i64, alert_ttl: i64, high_alert_threshold: i64) -> (r: Result<
        StreamDriver,
        ConfigurationError,
    >)
        ensures
            r is Ok <==> (summary_cadence >= 1 && alert_ttl >= 1 && high_alert_threshold >= 1),
            r matches Ok(d) ==> {
                &&& d.wf()
                &&& d.interval_buffer@.len() == 0
                &&& d.alert_handler.window@.len() == 0
                &&& d.alert_handler.current_alert is None
                &&& d.summary_cadence == summary_cadence
                &&& d.alert_handler.alert_ttl == alert_ttl
                &&& d.alert_handler.high_alert_threshold == high_alert_threshold
            },
            summary_cadence < 1 ==> r == Result::<StreamDriver, ConfigurationError>::Err(
                ConfigurationError::NonPositiveCadence,
            ),
            summary_cadence >= 1 && alert_ttl < 1 ==> r == Result::<
                StreamDriver,
                ConfigurationError,
            >::Err(ConfigurationError::NonPositiveTtl),
            summary_cadence >= 1 && alert_ttl >= 1 && high_alert_threshold < 1 ==> r == Result::<
                StreamDriver,
                ConfigurationError,
            >::Err(ConfigurationError::NonPositiveThreshold),
    {
        if summary_cadence < 1 {
            return Err(ConfigurationError::NonPositiveCadence);
        }
        if alert_ttl < 1 {
            return Err(ConfigurationError::NonPositiveTtl);
        }
        if high_alert_threshold < 1 {
            return Err(ConfigurationError::NonPositiveThreshold);
        }
        Ok(
            StreamDriver {
                interval_buffer: VecDeque::new(),
                alert_handler: AlertHandler::new(alert_ttl, high_alert_threshold),
                summary_cadence,
            },
        )
    }

    /// Consumes one record. If the cadence boundary is crossed, the buffered
    /// interval is summarized and the buffer restarts with this record;
    /// otherwise the record joins the buffer. The record then advances the
    /// alert machinery. Returns the summary to emit, if any, and the alert
    /// state to emit — `None` exactly when the alert is inactive.
    pub fn process_record(&mut self, record: Record) -> (r: (
        Option<SummaryStats>,
        Option<Alert>,
    ))
        requires
            old(self).wf(),
            wf_request_line(record.request@),
            i64::MIN + old(self).alert_handler.alert_ttl <= record.date,
            old(self).interval_buffer@.len() > 0 ==> old(self).interval_buffer@.last().date
                <= record.date,
            old(self).interval_buffer@.len() > 0 ==> record.date
                - old(self).interval_buffer@[0].date <= i64::MAX,
            old(self).alert_handler.window@.len() > 0 ==> old(self).alert_handler.window@.last()
                <= record.date,
        ensures
            final(self).wf(),
            final(self).summary_cadence == old(self).summary_cadence,
            final(self).alert_handler.alert_ttl == old(self).alert_handler.alert_ttl,
            final(self).alert_handler.high_alert_threshold
                == old(self).alert_handler.high_alert_threshold,
            r.0 is Some <==> cadence_crossed(
                old(self).interval_buffer@,
                record.date,
                old(self).summary_cadence,
            ),
            r.0 matches Some(st) ==> summary_matches(st, old(self).interval_buffer@),
            final(self).interval_buffer@ == if cadence_crossed(
                old(self).interval_buffer@,
                record.date,
                old(self).summary_cadence,
            ) {
                seq![record]
            } else {
                old(self).interval_buffer@.push(record)
            },
            final(self).alert_handler.window@ == evict_spec(
                old(self).alert_handler.window@,
                record.date - old(self).alert_handler.alert_ttl,
            ).push(record.date),
            final(self).alert_handler.current_alert == spec_transition(
                old(self).alert_handler.current_alert,
                rate_is_high(
                    evict_spec(
                        old(self).alert_handler.window@,
                        record.date - old(self).alert_handler.alert_ttl,
                    ).len(),
                    old(self).alert_handler.high_alert_threshold,
                    old(self).alert_handler.alert_ttl,
                ),
                record.date,
            ),
            r.1 == final(self).alert_handler.current_alert,
    {
        let mut summary: Option<SummaryStats> = None;
        if self.interval_buffer.len() > 0 {
            let start_time = self.interval_buffer[0].date;
            let curr_time = record.date;
            if curr_time > start_time && curr_time - start_time > self.summary_cadence {
                match build_summary_stats(&self.interval_buffer) {
                    Ok(st) => {
                        summary = Some(st);
                    },
                    Err(_) => {
                        proof {
                            assert(false);
                        }
                    },
                }
                self.interval_buffer.clear();
            }
        }
        let date = record.date;
        self.interval_buffer.push_back(record);
        self.alert_handler.new_record(date);
        let emitted = self.alert_handler.current_alert;
        (summary, emitted)
    }
}

} // verus!
