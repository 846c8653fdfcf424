//! Usage statistics of a session: per workflow event, how many times it
//! happened and how long it took in total. Off by default; while off,
//! recording does nothing.
use vstd::prelude::*;

verus! {

/// A workflow event.
#[derive(Clone, Copy, Debug, PartialEq, Eq, Structural, Hash)]
pub enum StatsEvent {
    /// PDF import.
    Import,
    /// Parsing.
    Parse,
    /// Full-text translation.
    Translate,
    /// Digest.
    Digest,
    /// Export (md / html / pdf).
    Export,
    /// A command failed.
    Error,
}

pub open spec fn event_key(e: StatsEvent) -> Seq<char> {
    match e {
        StatsEvent::Import => "import"@,
        StatsEvent::Parse => "parse"@,
        StatsEvent::Translate => "translate"@,
        StatsEvent::Digest => "digest"@,
        StatsEvent::Export => "export"@,
        StatsEvent::Error => "error"@,
    }
}

pub open spec fn event_index(e: StatsEvent) -> int {
    match e {
        StatsEvent::Import => 0,
        StatsEvent::Parse => 1,
        StatsEvent::Translate => 2,
        StatsEvent::Digest => 3,
        StatsEvent::Export => 4,
        StatsEvent::Error => 5,
    }
}

/// The events in their fixed order.
pub open spec fn event_at(i: int) -> StatsEvent {
    if i == 0 {
        StatsEvent::Import
    } else if i == 1 {
        StatsEvent::Parse
    } else if i == 2 {
        StatsEvent::Translate
    } else if i == 3 {
        StatsEvent::Digest
    } else if i == 4 {
        StatsEvent::Export
    } else {
        StatsEvent::Error
    }
}

impl StatsEvent {
    /// The event's name in snapshots.
    pub fn key(&self) -> (r: &'static str)
        ensures
            r@ == event_key(*self),
    {
        match self {
            StatsEvent::Import => "import",
            StatsEvent::Parse => "parse",
            StatsEvent::Translate => "translate",
            StatsEvent::Digest => "digest",
            StatsEvent::Export => "export",
            StatsEvent::Error => "error",
        }
    }

    fn index(&self) -> (r: usize)
        ensures
            r == event_index(*self),
    {
        match self {
            StatsEvent::Import => 0,
            StatsEvent::Parse => 1,
            StatsEvent::Translate => 2,
            StatsEvent::Digest => 3,
            StatsEvent::Export => 4,
            StatsEvent::Error => 5,
        }
    }
}

/// Count and total duration (milliseconds) of one event.
#[derive(Clone, Copy, Debug)]
pub struct EventStats {
    pub count: u64,
    pub total_ms: u64,
}

/// The statistics of a session.
pub struct Stats {
    enabled: bool,
    events: Vec<EventStats>,
}

pub struct StatsView {
    pub enabled: bool,
    /// `(count, total_ms)` of each event, by `event_index`.
    pub events: Seq<(nat, nat)>,
}

pub open spec fn event_views(v: Seq<EventStats>) -> Seq<(nat, nat)> {
    v.map_values(|e: EventStats| (e.count as nat, e.total_ms as nat))
}

impl View for Stats {
    type V = StatsView;

    closed spec fn view(&self) -> StatsView {
        StatsView { enabled: self.enabled, events: event_views(self.events@) }
    }
}

pub open spec fn zeros() -> Seq<(nat, nat)> {
    seq![(0nat, 0nat), (0nat, 0nat), (0nat, 0nat), (0nat, 0nat), (0nat, 0nat), (0nat, 0nat)]
}

/// One row of a snapshot.
#[derive(Clone, Copy, Debug)]
pub struct EventRow {
    pub event: StatsEvent,
    pub count: u64,
    pub total_ms: u64,
}

/// The rows of a snapshot: the events that happened at least once, in the
/// fixed event order, from the first `n`.
pub open spec fn snapshot_rows(events: Seq<(nat, nat)>, n: int) -> Seq<(StatsEvent, nat, nat)>
    decreases n,
{
    if n <= 0 {
        Seq::empty()
    } else {
        let r = snapshot_rows(events, n - 1);
        if events[n - 1].0 > 0 {
            r.push((event_at(n - 1), events[n - 1].0, events[n - 1].1))
        } else {
            r
        }
    }
}

pub open spec fn row_views(v: Seq<EventRow>) -> Seq<(StatsEvent, nat, nat)> {
    v.map_values(|r: EventRow| (r.event, r.count as nat, r.total_ms as nat))
}

impl Stats {
    #[verifier::type_invariant]
    closed spec fn wf(self) -> bool {
        self.events.len() == 6
    }

    /// Statistics switched off, with nothing recorded.
    pub fn new() -> (r: Stats)
        ensures
            !r@.enabled,
            r@.events == zeros(),
            r@.events.len() == 6,
    {
        let e = EventStats { count: 0, total_ms: 0 };
        let events = vec![e, e, e, e, e, e];
        let r = Stats { enabled: false, events };
        assert(event_views(r.events@) =~= zeros());
        r
    }

    /// Switch statistics on or off; what was recorded stays.
    pub fn set_enabled(&mut self, on: bool)
        ensures
            final(self)@.enabled == on,
            final(self)@.events == old(self)@.events,
            final(self)@.events.len() == 6,
    {
        proof {
            use_type_invariant(&*self);
        }
        self.enabled = on;
    }

    pub fn is_enabled(&self) -> (r: bool)
        ensures
            r == self@.enabled,
            self@.events.len() == 6,
    {
        proof {
            use_type_invariant(self);
        }
        self.enabled
    }

    /// Record one event that took `ms` milliseconds; nothing happens while
    /// statistics are off.
    pub fn record(&mut self, event: StatsEvent, ms: u64)
        requires
            old(self)@.enabled ==> old(self)@.events[event_index(event)].0 < u64::MAX,
            old(self)@.enabled ==> old(self)@.events[event_index(event)].1 + ms <= u64::MAX,
        ensures
            old(self)@.events.len() == 6,
            final(self)@.events.len() == 6,
            !old(self)@.enabled ==> final(self)@ == old(self)@,
            old(self)@.enabled ==> final(self)@.enabled && final(self)@.events == old(self)@.events.update(
                event_index(event),
                (
                    old(self)@.events[event_index(event)].0 + 1,
                    old(self)@.events[event_index(event)].1 + ms as nat,
                ),
            ),
    {
        proof {
            use_type_invariant(&*self);
        }
        if !self.enabled {
            return;
        }
        let i = event.index();
        let cur = self.events[i];
        let next = EventStats { count: cur.count + 1, total_ms: cur.total_ms + ms };
        let ghost before = event_views(self.events@);
        let mut v: Vec<EventStats> = Vec::new();
        let mut k: usize = 0;
        while k < 6
            invariant
                k <= 6,
                self.events.len() == 6,
                i < 6,
                v.len() == k,
                forall|j: int| 0 <= j < k ==> #[trigger] v@[j] == (if j == i {
                    next
                } else {
                    self.events@[j]
                }),
            decreases 6 - k,
        {
            if k == i {
                v.push(next);
            } else {
                v.push(self.events[k]);
            }
            k += 1;
        }
        self.events = v;
        assert(event_views(self.events@) =~= before.update(
            i as int,
            (cur.count as nat + 1, cur.total_ms as nat + ms as nat),
        ));
    }

    /// Whether `record(event, ms)` may be called: statistics are off, or the
    /// counters of `event` have room for one more event of `ms`.
    pub fn can_record(&self, event: StatsEvent, ms: u64) -> (r: bool)
        ensures
            r == (!self@.enabled || (self@.events[event_index(event)].0 < u64::MAX
                && self@.events[event_index(event)].1 + ms <= u64::MAX)),
            self@.events.len() == 6,
    {
        proof {
            use_type_invariant(self);
        }
        if !self.enabled {
            return true;
        }
        let e = self.events[event.index()];
        e.count < u64::MAX && e.total_ms <= u64::MAX - ms
    }

    /// Clear everything recorded; the switch stays as it is.
    pub fn reset(&mut self)
        ensures
            final(self)@.enabled == old(self)@.enabled,
            final(self)@.events == zeros(),
            final(self)@.events.len() == 6,
    {
        let e = EventStats { count: 0, total_ms: 0 };
        self.events = vec![e, e, e, e, e, e];
        assert(event_views(self.events@) =~= zeros());
    }

    /// The switch and the events recorded so far.
    pub fn snapshot(&self) -> (r: (bool, Vec<EventRow>))
        ensures
            r.0 == self@.enabled,
            row_views(r.1@) == snapshot_rows(self@.events, 6),
            self@.events.len() == 6,
    {
        proof {
            use_type_invariant(self);
        }
        let mut rows: Vec<EventRow> = Vec::new();
        let evs = [
            StatsEvent::Import,
            StatsEvent::Parse,
            StatsEvent::Translate,
            StatsEvent::Digest,
            StatsEvent::Export,
            StatsEvent::Error,
        ];
        let mut i: usize = 0;
        while i < 6
            invariant
                i <= 6,
                self.events.len() == 6,
                forall|k: int| 0 <= k < 6 ==> #[trigger] evs[k] == event_at(k),
                row_views(rows@) == snapshot_rows(event_views(self.events@), i as int),
            decreases 6 - i,
        {
            let e = self.events[i];
            if e.count > 0 {
                let ghost before = row_views(rows@);
                rows.push(EventRow { event: evs[i], count: e.count, total_ms: e.total_ms });
                assert(row_views(rows@) =~= before.push((event_at(i as int), e.count as nat, e.total_ms as nat)));
            }
            i += 1;
        }
        (self.enabled, rows)
    }
}

} // verus!
