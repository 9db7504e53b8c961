//! The record of what happened to routed links: a bounded log that keeps
//! each link's domain but never its path, query or fragment.

use vstd::prelude::*;

use crate::text::ascii_lower_seq;
use crate::web_url::{opt_text, WebUrl};

verus! {

/// How many events the log keeps unless told otherwise.
pub const DEFAULT_DIAGNOSTIC_LIMIT: usize = 1000;

/// The most events the log can be told to keep.
pub const MAX_DIAGNOSTIC_LIMIT: usize = 100000;

/// What happened to one routed link.
#[derive(Debug)]
pub struct DiagnosticEvent {
    pub timestamp_ms: u64,
    pub source_app: String,
    pub domain: String,
    pub rule_id: Option<String>,
    pub identity_id: Option<String>,
    pub outcome: String,
    pub error: Option<String>,
}

/// An event as plain values.
pub struct EventView {
    pub timestamp_ms: u64,
    pub source_app: Seq<char>,
    pub domain: Seq<char>,
    pub rule_id: Option<Seq<char>>,
    pub identity_id: Option<Seq<char>>,
    pub outcome: Seq<char>,
    pub error: Option<Seq<char>>,
}

impl View for DiagnosticEvent {
    type V = EventView;

    open spec fn view(&self) -> EventView {
        EventView {
            timestamp_ms: self.timestamp_ms,
            source_app: self.source_app@,
            domain: self.domain@,
            rule_id: opt_text(self.rule_id),
            identity_id: opt_text(self.identity_id),
            outcome: self.outcome@,
            error: opt_text(self.error),
        }
    }
}

/// A copy of an optional string.
fn copy_opt(s: &Option<String>) -> (r: Option<String>)
    ensures
        opt_text(r) == opt_text(*s),
{
    match s {
        Some(t) => Some(t.clone()),
        None => None,
    }
}

impl Clone for DiagnosticEvent {
    fn clone(&self) -> (r: Self)
        ensures
            r@ == self@,
    {
        DiagnosticEvent {
            timestamp_ms: self.timestamp_ms,
            source_app: self.source_app.clone(),
            domain: self.domain.clone(),
            rule_id: copy_opt(&self.rule_id),
            identity_id: copy_opt(&self.identity_id),
            outcome: self.outcome.clone(),
            error: copy_opt(&self.error),
        }
    }
}

/// The views of a list of events.
pub open spec fn event_views(v: Seq<DiagnosticEvent>) -> Seq<EventView> {
    v.map_values(|e: DiagnosticEvent| e@)
}

/// The last `limit` events of `events`.
pub open spec fn keep_last(events: Seq<EventView>, limit: nat) -> Seq<EventView> {
    if events.len() > limit {
        events.skip(events.len() - limit)
    } else {
        events
    }
}

/// The domain a link with host `host` is recorded under: the host in
/// lower case, or nothing.
pub open spec fn recorded_domain(host: Option<Seq<char>>) -> Seq<char> {
    match host {
        Some(h) => ascii_lower_seq(h),
        None => Seq::empty(),
    }
}

/// The event recorded for a link with host `host`: only the link's domain
/// is kept.
pub open spec fn route_event(
    timestamp_ms: u64,
    source_app: Seq<char>,
    host: Option<Seq<char>>,
    outcome: Seq<char>,
    rule_id: Option<Seq<char>>,
    identity_id: Option<Seq<char>>,
    error: Option<Seq<char>>,
) -> EventView {
    EventView {
        timestamp_ms,
        source_app,
        domain: recorded_domain(host),
        rule_id,
        identity_id,
        outcome,
        error,
    }
}

/// The text of an optional string slice.
pub open spec fn opt_str(s: Option<&str>) -> Option<Seq<char>> {
    match s {
        Some(t) => Some(t@),
        None => None,
    }
}

/// What a log holds: its events (oldest first), how many it keeps, and why
/// it could not be stored or loaded, where it could not.
pub struct LogView {
    pub events: Seq<EventView>,
    pub limit: nat,
    pub persistence_error: Option<Seq<char>>,
}

/// An operation on a log other than storing it.
pub enum LogOp {
    /// `record_route` with the event it records.
    Record(EventView),
    /// `set_limit` with the limit asked for.
    SetLimit(nat),
    /// `clear`.
    Clear,
}

/// Whether `set_limit` accepts `limit`.
pub open spec fn limit_in_range(limit: nat) -> bool {
    1 <= limit <= MAX_DIAGNOSTIC_LIMIT
}

/// The log after one operation: recording appends the event and drops the
/// oldest beyond the limit; a limit in range is taken and the oldest
/// events beyond it dropped, one out of range changes nothing; clearing
/// forgets every event. None touches the persistence error.
pub open spec fn apply_op(v: LogView, op: LogOp) -> LogView {
    match op {
        LogOp::Record(e) => LogView { events: keep_last(v.events.push(e), v.limit), ..v },
        LogOp::SetLimit(n) => if limit_in_range(n) {
            LogView { events: keep_last(v.events, n), limit: n, ..v }
        } else {
            v
        },
        LogOp::Clear => LogView { events: Seq::empty(), ..v },
    }
}

/// The log after the operations, in order.
pub open spec fn apply_ops(v: LogView, ops: Seq<LogOp>) -> LogView
    decreases ops.len(),
{
    if ops.len() == 0 {
        v
    } else {
        apply_op(apply_ops(v, ops.drop_last()), ops.last())
    }
}

/// A log view keeps between one and `MAX_DIAGNOSTIC_LIMIT` events and holds
/// no more than it keeps.
pub open spec fn log_view_wf(v: LogView) -> bool {
    limit_in_range(v.limit) && v.events.len() <= v.limit
}

/// A bounded log of routed links.
#[derive(Debug)]
pub struct DiagnosticLog {
    events: Vec<DiagnosticEvent>,
    limit: usize,
    persistence_error: Option<String>,
}

/// The message for a diagnostics limit out of range.
pub open spec fn limit_error_message() -> Seq<char> {
    "diagnostics limit must be between 1 and 100000"@
}

impl DiagnosticLog {
    /// The events, oldest first.
    pub closed spec fn events_view(&self) -> Seq<EventView> {
        event_views(self.events@)
    }

    /// How many events the log keeps.
    pub closed spec fn limit_spec(&self) -> nat {
        self.limit as nat
    }

    /// Why the log could not be stored or loaded, where it could not.
    pub closed spec fn persistence_error_spec(&self) -> Option<Seq<char>> {
        opt_text(self.persistence_error)
    }

    /// What the log holds.
    pub open spec fn log_view(&self) -> LogView {
        LogView {
            events: self.events_view(),
            limit: self.limit_spec(),
            persistence_error: self.persistence_error_spec(),
        }
    }

    /// The log keeps between one and `MAX_DIAGNOSTIC_LIMIT` events, and
    /// holds no more than it keeps.
    pub open spec fn wf(&self) -> bool {
        1 <= self.limit_spec() <= MAX_DIAGNOSTIC_LIMIT && self.events_view().len()
            <= self.limit_spec()
    }

    /// An empty log that keeps `DEFAULT_DIAGNOSTIC_LIMIT` events.
    pub fn default_log() -> (r: Self)
        ensures
            r.wf(),
            r.events_view().len() == 0,
            r.limit_spec() == DEFAULT_DIAGNOSTIC_LIMIT,
            r.persistence_error_spec() is None,
    {
        let r = DiagnosticLog {
            events: Vec::new(),
            limit: DEFAULT_DIAGNOSTIC_LIMIT,
            persistence_error: None,
        };
        assert(r.events_view() =~= Seq::<EventView>::empty());
        r
    }

    /// Keeps the last `limit` events.
    fn trim_events(events: &mut Vec<DiagnosticEvent>, limit: usize)
        ensures
            event_views(final(events)@) == keep_last(event_views(old(events)@), limit as nat),
    {
        let n = events.len();
        if n > limit {
            let drop = n - limit;
            let mut kept: Vec<DiagnosticEvent> = Vec::new();
            let mut i: usize = drop;
            while i < n
                invariant
                    drop <= i <= n,
                    n == events@.len(),
                    event_views(kept@) == event_views(events@).subrange(drop as int, i as int),
                decreases n - i,
            {
                let c = events[i].clone();
                let ghost before = event_views(kept@);
                kept.push(c);
                assert(event_views(kept@) =~= before.push(events@[i as int]@));
                assert(event_views(events@).subrange(drop as int, i + 1) =~= event_views(events@).subrange(
                    drop as int,
                    i as int,
                ).push(events@[i as int]@));
                i = i + 1;
            }
            assert(event_views(events@).subrange(drop as int, n as int) =~= event_views(events@).skip(
                drop as int,
            ));
            *events = kept;
        }
    }

    /// The log that a stored file gives back: its events, keeping the last
    /// `limit` of them, where `limit` (clamped to the allowed range) is the
    /// stored one, or `DEFAULT_DIAGNOSTIC_LIMIT` for a file written before
    /// limits were stored.
    pub fn from_stored(limit: Option<usize>, events: Vec<DiagnosticEvent>) -> (r: Self)
        ensures
            r.wf(),
            r.limit_spec() == match limit {
                Some(l) => if l < 1 {
                    1
                } else if l > MAX_DIAGNOSTIC_LIMIT {
                    MAX_DIAGNOSTIC_LIMIT as nat
                } else {
                    l as nat
                },
                None => DEFAULT_DIAGNOSTIC_LIMIT as nat,
            },
            r.events_view() == keep_last(event_views(events@), r.limit_spec()),
            r.persistence_error_spec() is None,
    {
        let limit = match limit {
            Some(l) => if l < 1 {
                1
            } else if l > MAX_DIAGNOSTIC_LIMIT {
                MAX_DIAGNOSTIC_LIMIT
            } else {
                l
            },
            None => DEFAULT_DIAGNOSTIC_LIMIT,
        };
        let mut events = events;
        Self::trim_events(&mut events, limit);
        DiagnosticLog { events, limit, persistence_error: None }
    }

    /// An empty log for a file that could not be used, with the reason.
    fn unusable(message: String) -> (r: Self)
        ensures
            r.wf(),
            r.events_view().len() == 0,
            r.limit_spec() == DEFAULT_DIAGNOSTIC_LIMIT,
            r.persistence_error_spec() == Some(message@),
    {
        let r = DiagnosticLog {
            events: Vec::new(),
            limit: DEFAULT_DIAGNOSTIC_LIMIT,
            persistence_error: Some(message),
        };
        assert(r.events_view() =~= Seq::<EventView>::empty());
        r
    }

    /// An empty log for a stored file that is not a log.
    pub fn invalid_file(error: &str) -> (r: Self)
        ensures
            r.wf(),
            r.events_view().len() == 0,
            r.limit_spec() == DEFAULT_DIAGNOSTIC_LIMIT,
            r.persistence_error_spec() == Some("diagnostics file is invalid: "@ + error@),
    {
        let mut m = String::from_str("diagnostics file is invalid: ");
        m.append(error);
        Self::unusable(m)
    }

    /// An empty log for a stored file that could not be read.
    pub fn unreadable_file(error: &str) -> (r: Self)
        ensures
            r.wf(),
            r.events_view().len() == 0,
            r.limit_spec() == DEFAULT_DIAGNOSTIC_LIMIT,
            r.persistence_error_spec() == Some("diagnostics could not be loaded: "@ + error@),
    {
        let mut m = String::from_str("diagnostics could not be loaded: ");
        m.append(error);
        Self::unusable(m)
    }

    /// The events, oldest first.
    pub fn events(&self) -> (r: &Vec<DiagnosticEvent>)
        ensures
            event_views(r@) == self.events_view(),
    {
        &self.events
    }

    /// How many events the log keeps.
    pub fn limit(&self) -> (r: usize)
        ensures
            r == self.limit_spec(),
    {
        self.limit
    }

    /// Why the log could not be stored or loaded, where it could not.
    pub fn persistence_error(&self) -> (r: Option<&str>)
        ensures
            opt_str(r) == self.persistence_error_spec(),
    {
        match &self.persistence_error {
            Some(e) => Some(e.as_str()),
            None => None,
        }
    }

    /// Keeps `limit` events from now on, dropping the oldest beyond it; a
    /// limit outside `1..=MAX_DIAGNOSTIC_LIMIT` is refused and changes
    /// nothing.
    pub fn set_limit(&mut self, limit: usize) -> (r: Result<(), String>)
        requires
            old(self).wf(),
        ensures
            final(self).wf(),
            final(self).persistence_error_spec() == old(self).persistence_error_spec(),
            1 <= limit <= MAX_DIAGNOSTIC_LIMIT ==> r is Ok && final(self).limit_spec() == limit
                && final(self).events_view() == keep_last(old(self).events_view(), limit as nat),
            !(1 <= limit <= MAX_DIAGNOSTIC_LIMIT) ==> (r matches Err(m) && m@ == limit_error_message()
                && final(self).limit_spec() == old(self).limit_spec() && final(self).events_view()
                == old(self).events_view()),
            final(self).log_view() == apply_op(old(self).log_view(), LogOp::SetLimit(limit as nat)),
    {
        if limit < 1 || limit > MAX_DIAGNOSTIC_LIMIT {
            return Err(String::from_str("diagnostics limit must be between 1 and 100000"));
        }
        self.limit = limit;
        Self::trim_events(&mut self.events, limit);
        Ok(())
    }

    /// Records what happened to a link: when, where it came from, its
    /// domain (the host in lower case, never the path, query or fragment),
    /// the rule and identity involved, the outcome and any error; the
    /// oldest events beyond the limit are dropped.
    pub fn record_route(
        &mut self,
        timestamp_ms: u64,
        source_app: &str,
        url: &WebUrl,
        outcome: &str,
        rule_id: Option<&str>,
        identity_id: Option<&str>,
        error: Option<String>,
    )
        requires
            old(self).wf(),
        ensures
            final(self).wf(),
            final(self).limit_spec() == old(self).limit_spec(),
            final(self).persistence_error_spec() == old(self).persistence_error_spec(),
            final(self).events_view() == keep_last(
                old(self).events_view().push(
                    route_event(
                        timestamp_ms,
                        source_app@,
                        url.host_text(),
                        outcome@,
                        opt_str(rule_id),
                        opt_str(identity_id),
                        opt_text(error),
                    ),
                ),
                old(self).limit_spec(),
            ),
            final(self).log_view() == apply_op(
                old(self).log_view(),
                LogOp::Record(
                    route_event(
                        timestamp_ms,
                        source_app@,
                        url.host_text(),
                        outcome@,
                        opt_str(rule_id),
                        opt_str(identity_id),
                        opt_text(error),
                    ),
                ),
            ),
    {
        let domain = match url.host_str() {
            Some(h) => crate::text::to_ascii_lower(h),
            None => String::new(),
        };
        let event = DiagnosticEvent {
            timestamp_ms,
            source_app: source_app.to_owned(),
            domain,
            rule_id: match rule_id {
                Some(r) => Some(r.to_owned()),
                None => None,
            },
            identity_id: match identity_id {
                Some(i) => Some(i.to_owned()),
                None => None,
            },
            outcome: outcome.to_owned(),
            error,
        };
        let ghost before = event_views(self.events@);
        assert(event@ == route_event(
            timestamp_ms,
            source_app@,
            url.host_text(),
            outcome@,
            opt_str(rule_id),
            opt_str(identity_id),
            opt_text(event.error),
        ));
        self.events.push(event);
        assert(event_views(self.events@) =~= before.push(event@));
        let limit = self.limit;
        Self::trim_events(&mut self.events, limit);
    }

    /// Forgets every event.
    pub fn clear(&mut self)
        requires
            old(self).wf(),
        ensures
            final(self).wf(),
            final(self).events_view().len() == 0,
            final(self).limit_spec() == old(self).limit_spec(),
            final(self).persistence_error_spec() == old(self).persistence_error_spec(),
            final(self).log_view() == apply_op(old(self).log_view(), LogOp::Clear),
    {
        self.events = Vec::new();
        assert(event_views(self.events@) =~= Seq::<EventView>::empty());
    }

    /// Notes how storing the log went: a failure is kept as the
    /// persistence error and handed back; a success clears it.
    pub fn record_persistence(&mut self, outcome: Result<(), String>) -> (r: Result<(), String>)
        requires
            old(self).wf(),
        ensures
            final(self).wf(),
            final(self).events_view() == old(self).events_view(),
            final(self).limit_spec() == old(self).limit_spec(),
            match outcome {
                Ok(()) => r is Ok && final(self).persistence_error_spec() is None,
                Err(e) => r matches Err(m) && m@ == e@ && final(self).persistence_error_spec()
                    == Some(e@),
            },
    {
        match outcome {
            Ok(()) => {
                self.persistence_error = None;
                Ok(())
            },
            Err(e) => {
                self.persistence_error = Some(e.clone());
                Err(e)
            },
        }
    }
}

/// The log never holds more events than it keeps.
pub proof fn law_diagnostics_bounded(log: DiagnosticLog)
    requires
        log.wf(),
    ensures
        log.events_view().len() <= log.limit_spec(),
        log.limit_spec() <= MAX_DIAGNOSTIC_LIMIT,
{
}

/// Recording keeps the log within its limit, and the newest event is the
/// one recorded.
pub proof fn law_recording_keeps_the_newest(events: Seq<EventView>, e: EventView, limit: nat)
    requires
        limit >= 1,
        events.len() <= limit,
    ensures
        keep_last(events.push(e), limit).len() <= limit,
        keep_last(events.push(e), limit).last() == e,
{
}

/// Whatever is recorded, however the limit is changed and however often
/// the log is cleared, the log stays well formed and its persistence error
/// stays what it was: only storing the log sets or clears it, so a log that
/// starts without one (as `default_log` gives) never gets one.
pub proof fn law_operations_keep_persistence_error(v: LogView, ops: Seq<LogOp>)
    requires
        log_view_wf(v),
    ensures
        log_view_wf(apply_ops(v, ops)),
        apply_ops(v, ops).persistence_error == v.persistence_error,
    decreases ops.len(),
{
    if ops.len() > 0 {
        law_operations_keep_persistence_error(v, ops.drop_last());
    }
}

} // verus!
