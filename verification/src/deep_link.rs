//! Deep links: what is recorded of a link that reached the application, the
//! bounded store of such records, and the state of the registration of the
//! application's URL schemes.

use crate::entry::current_time;
use crate::text::{from_chars, starts_with, to_chars};
use vstd::prelude::*;

verus! {

/// Whether a URL scheme is registered with the operating system.
#[derive(Debug)]
pub struct ProtocolRegistrationStatus {
    pub scheme: String,
    pub is_registered: bool,
    pub error: Option<String>,
}

/// The state of deep-link handling as a whole.
#[derive(Debug)]
pub struct DeepLinkDiagnostics {
    pub protocols: Vec<ProtocolRegistrationStatus>,
    pub tauri_version: String,
    pub environment: String,
    pub last_error: Option<String>,
    pub event_listener_active: bool,
}

/// One deep link that reached the application.
#[derive(Debug)]
pub struct DeepLinkEvent {
    pub id: String,
    pub url: String,
    pub timestamp: u64,
    pub source: String,
    pub processed: bool,
    pub error: Option<String>,
}

/// The value of a [`DeepLinkEvent`].
pub struct DeepLinkEventView {
    pub id: Seq<char>,
    pub url: Seq<char>,
    pub timestamp: u64,
    pub source: Seq<char>,
    pub processed: bool,
    pub error: Option<Seq<char>>,
}

impl View for DeepLinkEvent {
    type V = DeepLinkEventView;

    open spec fn view(&self) -> DeepLinkEventView {
        DeepLinkEventView {
            id: self.id@,
            url: self.url@,
            timestamp: self.timestamp,
            source: self.source@,
            processed: self.processed,
            error: match self.error {
                Some(e) => Some(e@),
                None => None,
            },
        }
    }
}

impl Clone for DeepLinkEvent {
    /// A copy of the event, equal to it in every field.
    fn clone(&self) -> (copy: Self)
        ensures
            copy@ == self@,
    {
        DeepLinkEvent {
            id: self.id.clone(),
            url: self.url.clone(),
            timestamp: self.timestamp,
            source: self.source.clone(),
            processed: self.processed,
            error: match &self.error {
                Some(e) => Some(e.clone()),
                None => None,
            },
        }
    }
}

/// The deep links that reached the application, oldest first, up to a limit.
#[derive(Debug)]
pub struct DeepLinkEventStore {
    events: Vec<DeepLinkEvent>,
    max_events: usize,
}

/// The value of a [`DeepLinkEventStore`].
pub struct EventStoreView {
    pub events: Seq<DeepLinkEventView>,
    pub max_events: nat,
}

/// The values of a sequence of events.
pub open spec fn event_views(events: Seq<DeepLinkEvent>) -> Seq<DeepLinkEventView> {
    events.map_values(|e: DeepLinkEvent| e@)
}

impl View for DeepLinkEventStore {
    type V = EventStoreView;

    closed spec fn view(&self) -> EventStoreView {
        EventStoreView { events: event_views(self.events@), max_events: self.max_events as nat }
    }
}

/// The character of a decimal digit.
pub open spec fn digit_char(d: int) -> char {
    if d == 0 {
        '0'
    } else if d == 1 {
        '1'
    } else if d == 2 {
        '2'
    } else if d == 3 {
        '3'
    } else if d == 4 {
        '4'
    } else if d == 5 {
        '5'
    } else if d == 6 {
        '6'
    } else if d == 7 {
        '7'
    } else if d == 8 {
        '8'
    } else {
        '9'
    }
}

/// The decimal digits of a natural number, without leading zeros.
pub open spec fn decimal_digits(n: nat) -> Seq<char>
    decreases n,
{
    if n < 10 {
        seq![digit_char(n as int)]
    } else {
        decimal_digits(n / 10).push(digit_char((n % 10) as int))
    }
}

/// An integer written in decimal, with a minus sign where it is negative.
pub open spec fn decimal(n: int) -> Seq<char> {
    if n < 0 {
        seq!['-'] + decimal_digits((-n) as nat)
    } else {
        decimal_digits(n as nat)
    }
}

/// The identifier that an event gets where it came without one: `dl_` and the
/// time in milliseconds.
pub open spec fn generated_id(millis: i64) -> Seq<char> {
    seq!['d', 'l', '_'] + decimal(millis as int)
}

/// The time in milliseconds as a time stamp: the number itself, taken as an
/// unsigned number of 64 bits.
pub open spec fn as_stamp(millis: i64) -> u64 {
    if millis >= 0 {
        millis as u64
    } else {
        (millis + 0x1_0000_0000_0000_0000) as u64
    }
}

/// An event as it is stored: one without identifier gets one made of
/// `id_millis`, one whose time stamp is zero gets `stamp_millis` for it.
pub open spec fn completed(event: DeepLinkEventView, id_millis: i64, stamp_millis: i64) ->
    DeepLinkEventView {
    DeepLinkEventView {
        id: if event.id.len() == 0 {
            generated_id(id_millis)
        } else {
            event.id
        },
        timestamp: if event.timestamp == 0 {
            as_stamp(stamp_millis)
        } else {
            event.timestamp
        },
        ..event
    }
}

/// The events after one more is stored: it comes last, and the oldest leaves
/// where the limit is exceeded.
pub open spec fn with_event(events: Seq<DeepLinkEventView>, limit: nat, event: DeepLinkEventView) ->
    Seq<DeepLinkEventView> {
    if events.len() + 1 > limit {
        events.push(event).skip(1)
    } else {
        events.push(event)
    }
}

/// The index of the first event with the given identifier.
pub open spec fn position_of_event(events: Seq<DeepLinkEventView>, id: Seq<char>) -> Option<int>
    decreases events.len(),
{
    if events.len() == 0 {
        None
    } else if events[0].id == id {
        Some(0)
    } else {
        match position_of_event(events.skip(1), id) {
            Some(i) => Some(i + 1),
            None => None,
        }
    }
}

/// An event marked as processed, with the given error where there is one.
pub open spec fn settled(event: DeepLinkEventView, error: Option<Seq<char>>) -> DeepLinkEventView {
    DeepLinkEventView {
        processed: true,
        error: match error {
            Some(e) => Some(e),
            None => event.error,
        },
        ..event
    }
}

/// The events after the first with the given identifier is settled; the same
/// events where none has it.
pub open spec fn with_settled(
    events: Seq<DeepLinkEventView>,
    id: Seq<char>,
    error: Option<Seq<char>>,
) -> Seq<DeepLinkEventView> {
    match position_of_event(events, id) {
        Some(at) => events.update(at, settled(events[at], error)),
        None => events,
    }
}

/// The events that are not processed yet, in their order.
pub open spec fn unprocessed(events: Seq<DeepLinkEventView>) -> Seq<DeepLinkEventView> {
    events.filter(|e: DeepLinkEventView| !e.processed)
}

/// The URL schemes of the application's deep links, each with `://` behind it.
pub open spec fn is_deep_link(arg: Seq<char>) -> bool {
    "clipify://"@.is_prefix_of(arg) || "clipify-dev://"@.is_prefix_of(arg)
        || "appclipify://"@.is_prefix_of(arg)
}

/// Whether an argument of the command line is a deep link of the application.
pub fn is_deep_link_argument(arg: &str) -> (r: bool)
    ensures
        r == is_deep_link(arg@),
{
    let chars = to_chars(arg);
    starts_with(&chars, &to_chars("clipify://")) || starts_with(&chars, &to_chars("clipify-dev://"))
        || starts_with(&chars, &to_chars("appclipify://"))
}

/// The character of a decimal digit.
fn digit_of(d: u64) -> (c: char)
    requires
        d < 10,
    ensures
        c == digit_char(d as int),
{
    if d == 0 {
        '0'
    } else if d == 1 {
        '1'
    } else if d == 2 {
        '2'
    } else if d == 3 {
        '3'
    } else if d == 4 {
        '4'
    } else if d == 5 {
        '5'
    } else if d == 6 {
        '6'
    } else if d == 7 {
        '7'
    } else if d == 8 {
        '8'
    } else {
        '9'
    }
}

/// Appends an integer in decimal to the characters given.
#[verifier::rlimit(40)]
pub fn push_decimal(out: &mut Vec<char>, n: i64)
    ensures
        final(out)@ == old(out)@ + decimal(n as int),
{
    let ghost start = out@;
    let mut rest: u64 = if n < 0 {
        out.push('-');
        (-(n + 1)) as u64 + 1
    } else {
        n as u64
    };
    let ghost head = out@;
    let ghost magnitude = rest as nat;
    let mut low: Vec<char> = Vec::new();
    while rest >= 10
        invariant
            decimal_digits(magnitude) == decimal_digits(rest as nat) + low@.reverse(),
        decreases rest,
    {
        let ghost before = low@;
        let d = digit_of(rest % 10);
        low.push(d);
        proof {
            assert(low@.reverse() =~= seq![d] + before.reverse());
            assert(decimal_digits(rest as nat) == decimal_digits((rest / 10) as nat).push(d));
            assert(decimal_digits((rest / 10) as nat).push(d) + before.reverse()
                =~= decimal_digits((rest / 10) as nat) + low@.reverse());
        }
        rest = rest / 10;
    }
    out.push(digit_of(rest));
    let mut i: usize = low.len();
    while i > 0
        invariant
            i <= low.len(),
            rest < 10,
            out@ == head + decimal_digits(rest as nat) + low@.reverse().take(low@.len() - i),
        decreases i,
    {
        i -= 1;
        let ghost before = out@;
        out.push(low[i]);
        proof {
            let r = low@.reverse();
            assert(r[low@.len() - 1 - i] == low@[i as int]);
            assert(r.take(low@.len() - i) =~= r.take(low@.len() - i - 1).push(low@[i as int]));
        }
    }
    proof {
        let r = low@.reverse();
        assert(r.take(low@.len() as int) == r);
        assert(head + decimal_digits(rest as nat) + r =~= head + decimal_digits(magnitude));
        if n < 0 {
            assert(head == start.push('-'));
            assert(magnitude == (-n) as nat);
            assert(start.push('-') + decimal_digits(magnitude) =~= start + decimal(n as int));
        } else {
            assert(head == start);
        }
    }
}

impl DeepLinkEventStore {
    /// An empty store that holds up to `max_events` events.
    pub fn new(max_events: usize) -> (store: Self)
        ensures
            store@.events == Seq::<DeepLinkEventView>::empty(),
            store@.max_events == max_events,
    {
        let store = DeepLinkEventStore { events: Vec::new(), max_events };
        assert(store@.events =~= Seq::<DeepLinkEventView>::empty());
        store
    }

    /// Stores an event as the latest. An event without identifier gets one made
    /// of the current time, one without time stamp gets the current time.
    pub fn add_event(&mut self, event: DeepLinkEvent)
        ensures
            final(self)@.max_events == old(self)@.max_events,
            exists|id_millis: i64, stamp_millis: i64|
                final(self)@.events == with_event(
                    old(self)@.events,
                    old(self)@.max_events,
                    #[trigger] completed(event@, id_millis, stamp_millis),
                ),
    {
        let id_millis = if event.id.as_str().unicode_len() == 0 {
            current_time().millis()
        } else {
            0
        };
        let stamp_millis = if event.timestamp == 0 {
            current_time().millis()
        } else {
            0
        };
        self.add_event_at(event, id_millis, stamp_millis);
    }

    /// Stores an event as the latest, with the given times for what it lacks:
    /// `id_millis` for its identifier, `stamp_millis` for its time stamp.
    pub fn add_event_at(&mut self, event: DeepLinkEvent, id_millis: i64, stamp_millis: i64)
        ensures
            final(self)@.max_events == old(self)@.max_events,
            final(self)@.events == with_event(
                old(self)@.events,
                old(self)@.max_events,
                completed(event@, id_millis, stamp_millis),
            ),
    {
        let ghost given = event@;
        let ghost before = self.events@;
        let mut event = event;
        if event.id.as_str().unicode_len() == 0 {
            let mut id: Vec<char> = Vec::new();
            id.push('d');
            id.push('l');
            id.push('_');
            push_decimal(&mut id, id_millis);
            event.id = from_chars(&id);
            assert(event.id@ =~= generated_id(id_millis));
        }
        if event.timestamp == 0 {
            event.timestamp = if stamp_millis >= 0 {
                stamp_millis as u64
            } else {
                ((stamp_millis + i64::MAX) + 1) as u64 + 0x8000_0000_0000_0000
            };
        }
        assert(event@ == completed(given, id_millis, stamp_millis));
        self.events.push(event);
        assert(event_views(self.events@) =~= event_views(before).push(event@));
        if self.events.len() > self.max_events {
            let ghost full = self.events@;
            self.events.remove(0);
            assert(event_views(self.events@) =~= event_views(full).skip(1));
        }
    }

    /// Copies of the events that are not processed yet, oldest first.
    pub fn get_unprocessed_events(&self) -> (pending: Vec<DeepLinkEvent>)
        ensures
            event_views(pending@) == unprocessed(self@.events),
    {
        let ghost open = |e: DeepLinkEventView| !e.processed;
        let mut pending: Vec<DeepLinkEvent> = Vec::new();
        let mut i: usize = 0;
        proof {
            reveal(Seq::filter);
            assert(event_views(pending@) =~= Seq::<DeepLinkEventView>::empty());
            assert(event_views(self.events@.take(0)) =~= Seq::<DeepLinkEventView>::empty());
        }
        while i < self.events.len()
            invariant
                i <= self.events.len(),
                open == |e: DeepLinkEventView| !e.processed,
                event_views(pending@) == event_views(self.events@.take(i as int)).filter(open),
            decreases self.events.len() - i,
        {
            let ghost before = pending@;
            proof {
                assert(event_views(self.events@.take(i + 1)) =~= event_views(
                    self.events@.take(i as int),
                ).push(self.events@[i as int]@));
                event_views(self.events@.take(i as int)).lemma_filter_push(
                    self.events@[i as int]@,
                    open,
                );
            }
            if !self.events[i].processed {
                pending.push(self.events[i].clone());
                proof {
                    assert(event_views(pending@) =~= event_views(before).push(
                        self.events@[i as int]@,
                    ));
                }
            }
            i += 1;
        }
        proof {
            assert(self.events@.take(self.events@.len() as int) == self.events@);
        }
        pending
    }

    /// Marks the first event with the given identifier as processed, and tells
    /// whether there was one.
    pub fn mark_processed(&mut self, event_id: &str) -> (found: bool)
        ensures
            final(self)@.max_events == old(self)@.max_events,
            final(self)@.events == with_settled(old(self)@.events, event_id@, None),
            found == (position_of_event(old(self)@.events, event_id@) is Some),
    {
        self.settle(event_id, None)
    }

    /// Marks the first event with the given identifier as processed with the
    /// given error, and tells whether there was one.
    pub fn mark_error(&mut self, event_id: &str, error: String) -> (found: bool)
        ensures
            final(self)@.max_events == old(self)@.max_events,
            final(self)@.events == with_settled(old(self)@.events, event_id@, Some(error@)),
            found == (position_of_event(old(self)@.events, event_id@) is Some),
    {
        self.settle(event_id, Some(error))
    }

    /// Marks the first event with the given identifier as processed, with the
    /// given error where there is one, and tells whether there was such an event.
    #[verifier::rlimit(40)]
    fn settle(&mut self, event_id: &str, error: Option<String>) -> (found: bool)
        ensures
            final(self)@.max_events == old(self)@.max_events,
            final(self)@.events == with_settled(
                old(self)@.events,
                event_id@,
                match error {
                    Some(e) => Some(e@),
                    None => None,
                },
            ),
            found == (position_of_event(old(self)@.events, event_id@) is Some),
    {
        let wanted = event_id.to_owned();
        let n = self.events.len();
        let ghost views = self@.events;
        let mut i: usize = 0;
        proof {
            assert(views.skip(0) == views);
        }
        while i < n
            invariant
                n == self.events.len(),
                i <= n,
                wanted@ == event_id@,
                views == self@.events,
                *self == *old(self),
                match position_of_event(views.skip(i as int), event_id@) {
                    Some(p) => position_of_event(views, event_id@) == Some(p + i),
                    None => position_of_event(views, event_id@) is None,
                },
            decreases n - i,
        {
            proof {
                assert(views.skip(i as int).skip(1) == views.skip(i + 1));
                assert(views.skip(i as int)[0] == self.events@[i as int]@);
            }
            if self.events[i].id == wanted {
                let ghost full = self.events@;
                let mut event = self.events.remove(i);
                event.processed = true;
                match error {
                    Some(e) => {
                        event.error = Some(e);
                    },
                    None => {},
                }
                self.events.insert(i, event);
                proof {
                    assert(event_views(self.events@) =~= views.update(
                        i as int,
                        settled(views[i as int], match error {
                            Some(e) => Some(e@),
                            None => None,
                        }),
                    ));
                }
                return true;
            }
            i += 1;
        }
        false
    }

    /// Copies of all events, oldest first.
    pub fn get_all_events(&self) -> (all: Vec<DeepLinkEvent>)
        ensures
            event_views(all@) == self@.events,
    {
        let mut all: Vec<DeepLinkEvent> = Vec::new();
        let mut i: usize = 0;
        while i < self.events.len()
            invariant
                i <= self.events.len(),
                event_views(all@) == event_views(self.events@.take(i as int)),
            decreases self.events.len() - i,
        {
            let ghost before = all@;
            all.push(self.events[i].clone());
            proof {
                assert(event_views(all@) =~= event_views(before).push(self.events@[i as int]@));
                assert(event_views(self.events@.take(i + 1)) =~= event_views(
                    self.events@.take(i as int),
                ).push(self.events@[i as int]@));
            }
            i += 1;
        }
        proof {
            assert(self.events@.take(self.events@.len() as int) == self.events@);
        }
        all
    }

    /// Removes every event.
    pub fn clear_events(&mut self)
        ensures
            final(self)@.events == Seq::<DeepLinkEventView>::empty(),
            final(self)@.max_events == old(self)@.max_events,
    {
        self.events.clear();
        assert(self@.events =~= Seq::<DeepLinkEventView>::empty());
    }
}

/// A store that holds no more events than its limit holds no more after one
/// more is stored.
pub proof fn lemma_store_respects_limit(
    events: Seq<DeepLinkEventView>,
    limit: nat,
    event: DeepLinkEventView,
)
    requires
        events.len() <= limit,
    ensures
        with_event(events, limit, event).len() <= limit,
{
}

} // verus!
