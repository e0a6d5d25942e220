//! The shared processing state: finished events waiting to be sent in
//! batches, and request events waiting for their response.

use vstd::prelude::*;
use crate::config::Config;
use crate::event::{Event, EventModel, ResponseInfo, ResponseModel, empty_event};
use crate::external::{is_v4_uuid_text, new_uuid_v4, now_instant, parse_instant, rfc3339_instant};
use crate::map::{insert_spec, kept_entries, lookup, remove_spec, taken_entries, StringMap};
use crate::text::{concat, decimal_spec, from_utf8, owned, usize_to_decimal};

verus! {

/// The byte strings of a list of serialized events.
pub open spec fn byte_views(bs: Seq<Vec<u8>>) -> Seq<Seq<u8>> {
    bs.map_values(|b: Vec<u8>| b@)
}

/// The serialized events joined by commas.
pub open spec fn join_commas(es: Seq<Seq<u8>>) -> Seq<u8>
    decreases es.len(),
{
    if es.len() == 0 {
        Seq::empty()
    } else if es.len() == 1 {
        es[0]
    } else {
        join_commas(es.drop_last()) + seq![44u8] + es.last()
    }
}

/// A JSON array of serialized events: `[`, the events joined by `,`, `]`.
pub open spec fn json_array(es: Seq<Seq<u8>>) -> Seq<u8> {
    seq![91u8] + join_commas(es) + seq![93u8]
}

/// The batches drained from `buf`: while at least `at_least` events wait,
/// the first `max` (or all, if fewer) form the next batch.
pub open spec fn batches_of(buf: Seq<Seq<u8>>, at_least: nat, max: nat) -> Seq<Seq<Seq<u8>>>
    decreases buf.len(),
{
    if at_least == 0 || max == 0 || buf.len() < at_least {
        Seq::empty()
    } else {
        let end = if buf.len() < max { buf.len() } else { max };
        seq![buf.take(end as int)] + batches_of(buf.skip(end as int), at_least, max)
    }
}

/// The events left in `buf` once the batches are drained.
pub open spec fn left_after_drain(buf: Seq<Seq<u8>>, at_least: nat, max: nat) -> Seq<Seq<u8>>
    decreases buf.len(),
{
    if at_least == 0 || max == 0 || buf.len() < at_least {
        buf
    } else {
        let end = if buf.len() < max { buf.len() } else { max };
        left_after_drain(buf.skip(end as int), at_least, max)
    }
}

/// The request bodies sent for a list of batches.
pub open spec fn batch_bodies(batches: Seq<Seq<Seq<u8>>>) -> Seq<Seq<u8>> {
    batches.map_values(|b: Seq<Seq<u8>>| json_array(b))
}

/// The events of a list of batches, one after the other.
pub open spec fn flatten(batches: Seq<Seq<Seq<u8>>>) -> Seq<Seq<u8>>
    decreases batches.len(),
{
    if batches.len() == 0 {
        Seq::empty()
    } else {
        batches[0] + flatten(batches.drop_first())
    }
}

/// A point in time in nanoseconds since the Unix epoch.
pub open spec fn instant_nanos(t: (i64, u32)) -> int {
    t.0 * 1_000_000_000 + t.1
}

/// The time written in `text`, or `now` when it cannot be read.
pub open spec fn time_or_now(text: Seq<char>, now: int) -> int {
    match rfc3339_instant(text) {
        Some(t) => instant_nanos(t),
        None => now,
    }
}

/// An event waiting for its response is stale when its request time, or its
/// response time if it has one, lies before the cutoff; a time that cannot
/// be read counts as now.
pub open spec fn is_stale(e: EventModel, now: int, cutoff: int) -> bool {
    let request_time = time_or_now(e.request.time, now);
    let response_time = match e.response {
        Some(r) => time_or_now(r.time, now),
        None => now,
    };
    request_time < cutoff || response_time < cutoff
}

/// The staleness of each waiting event, in order.
pub open spec fn stale_flags(pending: Seq<(Seq<char>, EventModel)>, now: int, cutoff: int) -> Seq<
    bool,
> {
    pending.map_values(|p: (Seq<char>, EventModel)| is_stale(p.1, now, cutoff))
}

/// The (id, event) pairs of a list of waiting events.
pub open spec fn entry_views(v: Seq<(String, Event)>) -> Seq<(Seq<char>, EventModel)> {
    v.map_values(|e: (String, Event)| (e.0@, e.1@))
}

/// Taking out the stale events, `wait_ms` milliseconds before `now_ns`:
/// `after` keeps the waiting events that are not stale and `moved` holds the
/// stale ones, each in order.
pub open spec fn stale_moved(
    pending: Seq<(Seq<char>, EventModel)>,
    after: Seq<(Seq<char>, EventModel)>,
    moved: Seq<(Seq<char>, EventModel)>,
    wait_ms: int,
    now_ns: int,
) -> bool {
    let flags = stale_flags(pending, now_ns, now_ns - wait_ms * 1_000_000);
    &&& after == kept_entries(pending, flags)
    &&& moved == taken_entries(pending, flags)
}

/// The event a response completes: the waiting event with that response, or,
/// when none waits under the id, an empty event carrying the id and the
/// response.
pub open spec fn completed_event(
    pending: Seq<(Seq<char>, EventModel)>,
    id: Seq<char>,
    response: ResponseModel,
) -> EventModel {
    match lookup(pending, id) {
        Some(e) => EventModel { response: Some(response), ..e },
        None => EventModel { response: Some(response), moesif_gloo_id: id, ..empty_event() },
    }
}

/// The shared processing state.
pub struct EventRootContext {
    pub config: Config,
    /// Serialized finished events waiting to be sent.
    pub event_byte_buffer: Vec<Vec<u8>>,
    /// Request events waiting for their response, by pairing id.
    pub noresponse_yet_events_buffer: StringMap<Event>,
    pub context_id: String,
    /// Whether no event has been added yet.
    pub is_start: bool,
}

impl EventRootContext {
    /// A state with empty buffers, waiting for its first event.
    pub fn new(config: Config) -> (c: Self)
        ensures
            c.config == config,
            c.event_byte_buffer@.len() == 0,
            c.noresponse_yet_events_buffer@.len() == 0,
            c.context_id@.len() == 0,
            c.is_start,
    {
        EventRootContext {
            config,
            event_byte_buffer: Vec::new(),
            noresponse_yet_events_buffer: StringMap::new(),
            context_id: String::new(),
            is_start: true,
        }
    }

    /// The JSON array of the serialized events, in order.
    pub fn write_events_json(events: Vec<Vec<u8>>) -> (r: Vec<u8>)
        ensures
            r@ == json_array(byte_views(events@)),
    {
        let ghost es = byte_views(events@);
        let mut out: Vec<u8> = Vec::new();
        out.push(91u8);
        let mut rest = events;
        let n = rest.len();
        let mut i: usize = 0;
        assert(es.take(0) =~= Seq::<Seq<u8>>::empty());
        while rest.len() > 0
            invariant
                n == es.len(),
                i + rest@.len() == n,
                forall|j: int| 0 <= j < rest@.len() ==> (#[trigger] rest@[j])@ == es[i + j],
                out@ == seq![91u8] + join_commas(es.take(i as int)),
            decreases rest@.len(),
        {
            let mut e = rest.remove(0);
            let ghost ev = e@;
            assert(es.take(i + 1).drop_last() =~= es.take(i as int));
            assert(es.take(i + 1).last() == ev);
            if i > 0 {
                out.push(44u8);
            }
            out.append(&mut e);
            if i == 0 {
                assert(es.take(i + 1) =~= seq![ev]);
            }
            assert(out@ =~= seq![91u8] + join_commas(es.take(i + 1)));
            i = i + 1;
        }
        assert(es.take(i as int) =~= es);
        out.push(93u8);
        assert(out@ =~= json_array(es));
        out
    }

    /// Drains the buffer in batches: while at least `drain_at_least` events
    /// wait, the first `batch_max_size` of them (or all, if fewer) are taken
    /// and their JSON array becomes the next request body to send.
    pub fn drain_batches(&mut self, drain_at_least: usize) -> (bodies: Vec<Vec<u8>>)
        requires
            drain_at_least > 0,
            old(self).config.env.batch_max_size > 0,
        ensures
            byte_views(bodies@) == batch_bodies(
                batches_of(
                    byte_views(old(self).event_byte_buffer@),
                    drain_at_least as nat,
                    old(self).config.env.batch_max_size as nat,
                ),
            ),
            byte_views(final(self).event_byte_buffer@) == left_after_drain(
                byte_views(old(self).event_byte_buffer@),
                drain_at_least as nat,
                old(self).config.env.batch_max_size as nat,
            ),
            final(self).config == old(self).config,
            final(self).noresponse_yet_events_buffer == old(self).noresponse_yet_events_buffer,
            final(self).context_id == old(self).context_id,
            final(self).is_start == old(self).is_start,
    {
        let max = self.config.env.batch_max_size;
        let ghost at = drain_at_least as nat;
        let ghost start = byte_views(self.event_byte_buffer@);
        let ghost done: Seq<Seq<Seq<u8>>> = Seq::empty();
        let mut bodies: Vec<Vec<u8>> = Vec::new();
        while self.event_byte_buffer.len() >= drain_at_least
            invariant
                drain_at_least > 0,
                max > 0,
                max == old(self).config.env.batch_max_size,
                at == drain_at_least as nat,
                start == byte_views(old(self).event_byte_buffer@),
                batches_of(start, at, max as nat) == done + batches_of(
                    byte_views(self.event_byte_buffer@),
                    at,
                    max as nat,
                ),
                left_after_drain(start, at, max as nat) == left_after_drain(
                    byte_views(self.event_byte_buffer@),
                    at,
                    max as nat,
                ),
                byte_views(bodies@) == batch_bodies(done),
                self.config == old(self).config,
                self.noresponse_yet_events_buffer == old(self).noresponse_yet_events_buffer,
                self.context_id == old(self).context_id,
                self.is_start == old(self).is_start,
            decreases self.event_byte_buffer@.len(),
        {
            let len = self.event_byte_buffer.len();
            let end = if len < max { len } else { max };
            let ghost cur = byte_views(self.event_byte_buffer@);
            let mut batch = self.event_byte_buffer.split_off(end);
            std::mem::swap(&mut batch, &mut self.event_byte_buffer);
            assert(byte_views(batch@) =~= cur.take(end as int));
            assert(byte_views(self.event_byte_buffer@) =~= cur.skip(end as int));
            let body = Self::write_events_json(batch);
            proof {
                let b = cur.take(end as int);
                assert(batch_bodies(done.push(b)) =~= batch_bodies(done).push(json_array(b)));
                assert(done + batches_of(cur, at, max as nat) =~= done.push(b) + batches_of(
                    cur.skip(end as int),
                    at,
                    max as nat,
                ));
                done = done.push(b);
            }
            bodies.push(body);
            assert(byte_views(bodies@) =~= batch_bodies(done));
        }
        assert(done + batches_of(byte_views(self.event_byte_buffer@), at, max as nat) =~= done);
        bodies
    }

    /// Adds a serialized finished event. The first event ever added, and any
    /// event that brings the buffer to `batch_max_size`, starts an immediate
    /// drain; the bodies of the batches to send are returned (none
    /// otherwise).
    pub fn add_event(&mut self, event_bytes: Vec<u8>) -> (bodies: Vec<Vec<u8>>)
        requires
            old(self).config.env.batch_max_size > 0,
        ensures
            ({
                let pushed = byte_views(old(self).event_byte_buffer@).push(event_bytes@);
                let flush = old(self).is_start || pushed.len() >= old(self).config.env.batch_max_size;
                let max = old(self).config.env.batch_max_size as nat;
                if flush {
                    &&& byte_views(bodies@) == batch_bodies(batches_of(pushed, 1, max))
                    &&& byte_views(final(self).event_byte_buffer@) == left_after_drain(pushed, 1, max)
                } else {
                    &&& bodies@.len() == 0
                    &&& byte_views(final(self).event_byte_buffer@) == pushed
                }
            }),
            !final(self).is_start,
            final(self).config == old(self).config,
            final(self).noresponse_yet_events_buffer == old(self).noresponse_yet_events_buffer,
            final(self).context_id == old(self).context_id,
    {
        let ghost before = byte_views(self.event_byte_buffer@);
        self.event_byte_buffer.push(event_bytes);
        assert(byte_views(self.event_byte_buffer@) =~= before.push(event_bytes@));
        let mut immediate_send = false;
        if self.is_start {
            immediate_send = true;
            self.is_start = false;
        } else if self.event_byte_buffer.len() >= self.config.env.batch_max_size {
            immediate_send = true;
        }
        if immediate_send {
            self.drain_batches(1)
        } else {
            Vec::new()
        }
    }

    /// Adds a serialized finished event to the buffer, with no drain.
    pub fn process_event(&mut self, event_bytes: Vec<u8>)
        ensures
            byte_views(final(self).event_byte_buffer@) == byte_views(
                old(self).event_byte_buffer@,
            ).push(event_bytes@),
            final(self).config == old(self).config,
            final(self).noresponse_yet_events_buffer == old(self).noresponse_yet_events_buffer,
            final(self).context_id == old(self).context_id,
            final(self).is_start == old(self).is_start,
    {
        let ghost before = byte_views(self.event_byte_buffer@);
        self.event_byte_buffer.push(event_bytes);
        assert(byte_views(self.event_byte_buffer@) =~= before.push(event_bytes@));
    }

    /// Keeps a request event until its response arrives, under its pairing
    /// id (replacing an event kept under the same id).
    pub fn store_event(&mut self, moesif_gloo_id: String, event: Event)
        ensures
            final(self).noresponse_yet_events_buffer@ == insert_spec(
                old(self).noresponse_yet_events_buffer@,
                moesif_gloo_id@,
                event@,
            ),
            final(self).event_byte_buffer == old(self).event_byte_buffer,
            final(self).config == old(self).config,
            final(self).is_start == old(self).is_start,
    {
        self.noresponse_yet_events_buffer.insert(moesif_gloo_id, event);
    }

    /// Pairs a response with the request event kept under `moesif_gloo_id`:
    /// that event, taken out of the waiting events and given the response, or
    /// a new event holding only the id and the response. The flag tells
    /// whether a waiting event was found. The completed event is to be
    /// serialized and added with `process_event`.
    pub fn match_response(&mut self, moesif_gloo_id: String, response: ResponseInfo) -> (r: (
        bool,
        Event,
    ))
        ensures
            r.0 == (lookup(old(self).noresponse_yet_events_buffer@, moesif_gloo_id@) is Some),
            r.1@ == completed_event(old(self).noresponse_yet_events_buffer@, moesif_gloo_id@, response@),
            final(self).noresponse_yet_events_buffer@ == remove_spec(
                old(self).noresponse_yet_events_buffer@,
                moesif_gloo_id@,
            ),
            final(self).event_byte_buffer == old(self).event_byte_buffer,
            final(self).config == old(self).config,
            final(self).is_start == old(self).is_start,
    {
        match self.noresponse_yet_events_buffer.remove(moesif_gloo_id.as_str()) {
            Some(mut stored_event) => {
                stored_event.response = Some(response);
                (true, stored_event)
            },
            None => {
                let mut new_event = Event::new();
                new_event.moesif_gloo_id = moesif_gloo_id;
                new_event.response = Some(response);
                (false, new_event)
            },
        }
    }

    /// Pairs a response with its request event as `match_response` does; a
    /// response without an id is given a fresh random one (a version-4
    /// UUID).
    pub fn match_and_store_response(
        &mut self,
        moesif_gloo_id: Option<String>,
        response: ResponseInfo,
    ) -> (r: (bool, Event))
        ensures
            ({
                let pending = old(self).noresponse_yet_events_buffer@;
                &&& moesif_gloo_id is Some ==> r.1@ == completed_event(
                    pending,
                    moesif_gloo_id->0@,
                    response@,
                )
                &&& moesif_gloo_id is Some ==> r.0 == (lookup(pending, moesif_gloo_id->0@) is Some)
                &&& moesif_gloo_id is Some ==> final(self).noresponse_yet_events_buffer@
                    == remove_spec(pending, moesif_gloo_id->0@)
                &&& moesif_gloo_id is None ==> exists|id: Seq<char>|
                    #![trigger is_v4_uuid_text(id)]
                    {
                        &&& is_v4_uuid_text(id)
                        &&& r.0 == (lookup(pending, id) is Some)
                        &&& r.1@ == completed_event(pending, id, response@)
                        &&& final(self).noresponse_yet_events_buffer@ == remove_spec(pending, id)
                    }
            }),
            final(self).event_byte_buffer == old(self).event_byte_buffer,
            final(self).config == old(self).config,
            final(self).is_start == old(self).is_start,
    {
        let id = match moesif_gloo_id {
            Some(id) => id,
            None => new_uuid_v4(),
        };
        let ghost pending = self.noresponse_yet_events_buffer@;
        let r = self.match_response(id, response);
        proof {
            if lookup(pending, id@) is Some {
                crate::map::lemma_lookup_some_key(pending, id@);
            }
        }
        r
    }

    /// Takes out the waiting events that went stale at time `now` (see
    /// `is_stale`), with the cutoff `batch_max_wait_ms` milliseconds before
    /// `now`; they are returned in order, with their ids, to be serialized
    /// and added with `process_event`.
    pub fn take_stale_events(&mut self, batch_max_wait_ms: u64, now: (i64, u32)) -> (moved: Vec<
        (String, Event),
    >)
        ensures
            ({
                let now_ns = instant_nanos(now);
                let cutoff = now_ns - batch_max_wait_ms * 1_000_000;
                let pending = old(self).noresponse_yet_events_buffer@;
                let flags = stale_flags(pending, now_ns, cutoff);
                &&& final(self).noresponse_yet_events_buffer@ == kept_entries(pending, flags)
                &&& moved@.map_values(|e: (String, Event)| (e.0@, e.1@)) == taken_entries(
                    pending,
                    flags,
                )
            }),
            final(self).event_byte_buffer == old(self).event_byte_buffer,
            final(self).config == old(self).config,
            final(self).is_start == old(self).is_start,
    {
        let now_ns: i128 = (now.0 as i128) * 1_000_000_000i128 + (now.1 as i128);
        let cutoff: i128 = now_ns - (batch_max_wait_ms as i128) * 1_000_000i128;
        let ghost pending = self.noresponse_yet_events_buffer@;
        let ghost want = stale_flags(pending, now_ns as int, cutoff as int);
        let mut flags: Vec<bool> = Vec::new();
        let mut i: usize = 0;
        while i < self.noresponse_yet_events_buffer.len()
            invariant
                i <= pending.len(),
                pending == self.noresponse_yet_events_buffer@,
                want == stale_flags(pending, now_ns as int, cutoff as int),
                now_ns == instant_nanos(now),
                cutoff == now_ns - batch_max_wait_ms * 1_000_000,
                flags@ == want.take(i as int),
            decreases pending.len() - i,
        {
            let e = self.noresponse_yet_events_buffer.value_at(i);
            let request_time = time_nanos_or(&e.request.time, now_ns);
            let response_time = match &e.response {
                Some(r) => time_nanos_or(&r.time, now_ns),
                None => now_ns,
            };
            flags.push(request_time < cutoff || response_time < cutoff);
            assert(flags@ =~= want.take(i + 1));
            i = i + 1;
        }
        assert(want.take(i as int) =~= want);
        self.noresponse_yet_events_buffer.take_flagged(&flags)
    }

    /// Takes out the waiting events that went stale by the clock's current
    /// time, as `take_stale_events` does with that time. The clock's reading
    /// is not known, so only that some time was used is stated.
    pub fn cleanup_temporary_buffer(&mut self, batch_max_wait_ms: u64) -> (moved: Vec<(String, Event)>)
        ensures
            exists|now_ns: int|
                #![trigger stale_moved(
                    old(self).noresponse_yet_events_buffer@,
                    final(self).noresponse_yet_events_buffer@,
                    entry_views(moved@),
                    batch_max_wait_ms as int,
                    now_ns,
                )]
                stale_moved(
                    old(self).noresponse_yet_events_buffer@,
                    final(self).noresponse_yet_events_buffer@,
                    entry_views(moved@),
                    batch_max_wait_ms as int,
                    now_ns,
                ),
            final(self).event_byte_buffer == old(self).event_byte_buffer,
            final(self).config == old(self).config,
            final(self).is_start == old(self).is_start,
    {
        let now = now_instant();
        let moved = self.take_stale_events(batch_max_wait_ms, now);
        assert(stale_moved(
            old(self).noresponse_yet_events_buffer@,
            self.noresponse_yet_events_buffer@,
            entry_views(moved@),
            batch_max_wait_ms as int,
            instant_nanos(now),
        ));
        moved
    }

    /// One round of the periodic sender: the buffer is drained in batches of
    /// at most `batch_max_size` events (see `drain_batches`), whose request
    /// bodies are returned to be sent; then the waiting events that went
    /// stale, `batch_max_wait` milliseconds before the clock's current time,
    /// are taken out (see `cleanup_temporary_buffer`), to be serialized and
    /// added for the next round.
    pub fn periodic_send(&mut self) -> (r: (Vec<Vec<u8>>, Vec<(String, Event)>))
        requires
            old(self).config.env.batch_max_size > 0,
        ensures
            byte_views(r.0@) == batch_bodies(
                batches_of(
                    byte_views(old(self).event_byte_buffer@),
                    1,
                    old(self).config.env.batch_max_size as nat,
                ),
            ),
            byte_views(final(self).event_byte_buffer@) == left_after_drain(
                byte_views(old(self).event_byte_buffer@),
                1,
                old(self).config.env.batch_max_size as nat,
            ),
            exists|now_ns: int|
                #![trigger stale_moved(
                    old(self).noresponse_yet_events_buffer@,
                    final(self).noresponse_yet_events_buffer@,
                    entry_views(r.1@),
                    old(self).config.env.batch_max_wait as int,
                    now_ns,
                )]
                stale_moved(
                    old(self).noresponse_yet_events_buffer@,
                    final(self).noresponse_yet_events_buffer@,
                    entry_views(r.1@),
                    old(self).config.env.batch_max_wait as int,
                    now_ns,
                ),
            final(self).config == old(self).config,
            final(self).is_start == old(self).is_start,
    {
        let bodies = self.drain_batches(1);
        let ghost pending = self.noresponse_yet_events_buffer@;
        let wait = self.config.env.batch_max_wait as u64;
        assert(wait as int == self.config.env.batch_max_wait as int);
        let moved = self.cleanup_temporary_buffer(wait);
        proof {
            let n = choose|n: int|
                stale_moved(
                    pending,
                    self.noresponse_yet_events_buffer@,
                    entry_views(moved@),
                    wait as int,
                    n,
                );
            assert(stale_moved(
                old(self).noresponse_yet_events_buffer@,
                self.noresponse_yet_events_buffer@,
                entry_views(moved@),
                old(self).config.env.batch_max_wait as int,
                n,
            ));
        }
        let ghost mv = moved@;
        let r = (bodies, moved);
        assert(r.1@ == mv);
        assert(entry_views(r.1@) == entry_views(mv));
        assert(exists|now_ns: int|
            #![trigger stale_moved(
                old(self).noresponse_yet_events_buffer@,
                self.noresponse_yet_events_buffer@,
                entry_views(r.1@),
                old(self).config.env.batch_max_wait as int,
                now_ns,
            )]
            stale_moved(
                old(self).noresponse_yet_events_buffer@,
                self.noresponse_yet_events_buffer@,
                entry_views(r.1@),
                old(self).config.env.batch_max_wait as int,
                now_ns,
            ));
        r
    }

    /// The headers of a request dispatched upstream to the Moesif API:
    /// method, path, authority (the base URI), `accept: */*`, JSON content,
    /// the body length in decimal and the application id, in that order.
    pub fn upstream_request_headers(&self, method: &str, path: &str, body_len: usize) -> (h: Vec<
        (String, String),
    >)
        ensures
            h@.map_values(|p: (String, String)| (p.0@, p.1@)) == seq![
                (":method"@, method@),
                (":path"@, path@),
                (":authority"@, self.config.env.base_uri@),
                ("accept"@, "*/*"@),
                ("content-type"@, "application/json"@),
                ("content-length"@, decimal_spec(body_len as nat)),
                ("x-moesif-application-id"@, self.config.env.moesif_application_id@),
            ],
    {
        let mut h: Vec<(String, String)> = Vec::new();
        h.push((":method".to_string(), owned(method)));
        h.push((":path".to_string(), owned(path)));
        h.push((":authority".to_string(), self.config.env.base_uri.clone()));
        h.push(("accept".to_string(), "*/*".to_string()));
        h.push(("content-type".to_string(), "application/json".to_string()));
        h.push(("content-length".to_string(), usize_to_decimal(body_len)));
        h.push(("x-moesif-application-id".to_string(), self.config.env.moesif_application_id.clone()));
        assert(h@.map_values(|p: (String, String)| (p.0@, p.1@)) =~= seq![
            (":method"@, method@),
            (":path"@, path@),
            (":authority"@, self.config.env.base_uri@),
            ("accept"@, "*/*"@),
            ("content-type"@, "application/json"@),
            ("content-length"@, decimal_spec(body_len as nat)),
            ("x-moesif-application-id"@, self.config.env.moesif_application_id@),
        ]);
        h
    }

    /// The URL of an API path: the base URI followed by the path.
    pub fn api_url(&self, path: &str) -> (url: String)
        ensures
            url@ == self.config.env.base_uri@ + path@,
    {
        concat(self.config.env.base_uri.as_str(), path)
    }

    /// The headers of a request to the Moesif API: JSON content and the
    /// application id.
    pub fn api_headers(&self) -> (h: Vec<(String, String)>)
        ensures
            h@.len() == 2,
            h@[0].0@ == "content-type"@,
            h@[0].1@ == "application/json"@,
            h@[1].0@ == "x-moesif-application-id"@,
            h@[1].1@ == self.config.env.moesif_application_id@,
    {
        let mut h: Vec<(String, String)> = Vec::new();
        h.push(("content-type".to_string(), "application/json".to_string()));
        h.push(("x-moesif-application-id".to_string(), self.config.env.moesif_application_id.clone()));
        h
    }
}

/// The time written in `text` in nanoseconds, or `now` when it cannot be
/// read.
fn time_nanos_or(text: &String, now: i128) -> (t: i128)
    ensures
        t == time_or_now(text@, now as int),
{
    match parse_instant(text.as_str()) {
        Some(p) => (p.0 as i128) * 1_000_000_000i128 + (p.1 as i128),
        None => now,
    }
}

/// The equivalent curl command of an API request, for debugging: method,
/// URL, each header, and the body when it is UTF-8 text (else empty data).
pub open spec fn curl_command(
    method: Seq<char>,
    url: Seq<char>,
    headers: Seq<(Seq<char>, Seq<char>)>,
    body: Option<Seq<u8>>,
) -> Seq<char> {
    "curl -v -X "@ + method + " '"@ + url + "'"@ + curl_headers(headers) + match body {
        Some(b) => " --data '"@ + (if vstd::utf8::valid_utf8(b) {
            vstd::utf8::decode_utf8(b)
        } else {
            Seq::empty()
        }) + "'"@,
        None => Seq::empty(),
    }
}

/// ` -H 'name: value'` for each header, in order.
pub open spec fn curl_headers(headers: Seq<(Seq<char>, Seq<char>)>) -> Seq<char>
    decreases headers.len(),
{
    if headers.len() == 0 {
        Seq::empty()
    } else {
        curl_headers(headers.drop_last()) + " -H '"@ + headers.last().0 + ": "@ + headers.last().1
            + "'"@
    }
}

/// Writes the equivalent curl command of an API request.
pub fn generate_curl_command(
    method: &str,
    url: &str,
    headers: &Vec<(String, String)>,
    body: Option<&Vec<u8>>,
) -> (r: String)
    ensures
        r@ == curl_command(
            method@,
            url@,
            headers@.map_values(|p: (String, String)| (p.0@, p.1@)),
            match body {
                Some(b) => Some(b@),
                None => None,
            },
        ),
{
    let ghost hs = headers@.map_values(|p: (String, String)| (p.0@, p.1@));
    let mut cmd = concat("curl -v -X ", method);
    cmd.append(" '");
    cmd.append(url);
    cmd.append("'");
    let ghost head = cmd@;
    assert(head =~= "curl -v -X "@ + method@ + " '"@ + url@ + "'"@);
    let mut i: usize = 0;
    assert(hs.take(0) =~= Seq::<(Seq<char>, Seq<char>)>::empty());
    while i < headers.len()
        invariant
            i <= headers@.len(),
            hs == headers@.map_values(|p: (String, String)| (p.0@, p.1@)),
            cmd@ == head + curl_headers(hs.take(i as int)),
        decreases headers@.len() - i,
    {
        assert(hs.take(i + 1).drop_last() =~= hs.take(i as int));
        cmd.append(" -H '");
        cmd.append(headers[i].0.as_str());
        cmd.append(": ");
        cmd.append(headers[i].1.as_str());
        cmd.append("'");
        assert(cmd@ =~= head + curl_headers(hs.take(i + 1)));
        i = i + 1;
    }
    assert(hs.take(i as int) =~= hs);
    let ghost with_headers = cmd@;
    if let Some(b) = body {
        let text = match from_utf8(b.as_slice()) {
            Some(s) => s,
            None => String::new(),
        };
        cmd.append(" --data '");
        cmd.append(text.as_str());
        cmd.append("'");
        assert(cmd@ =~= with_headers + " --data '"@ + text@ + "'"@);
    } else {
        assert(cmd@ =~= with_headers + Seq::<char>::empty());
    }
    cmd
}


/// Draining loses, duplicates and reorders no event: the batches, one after
/// the other, followed by the events left, are the buffer as it was. Each
/// batch holds at least one and at most `max` events, and fewer than
/// `at_least` events are left.
pub proof fn law_drain_conserves_events(buf: Seq<Seq<u8>>, at_least: nat, max: nat)
    requires
        at_least > 0,
        max > 0,
    ensures
        flatten(batches_of(buf, at_least, max)) + left_after_drain(buf, at_least, max) == buf,
        forall|i: int|
            0 <= i < batches_of(buf, at_least, max).len() ==> 0 < (#[trigger] batches_of(
                buf,
                at_least,
                max,
            )[i]).len() <= max,
        left_after_drain(buf, at_least, max).len() < at_least,
    decreases buf.len(),
{
    if buf.len() >= at_least {
        let end: int = if buf.len() < max { buf.len() as int } else { max as int };
        let rest = buf.skip(end);
        law_drain_conserves_events(rest, at_least, max);
        let bs = batches_of(buf, at_least, max);
        assert(bs == seq![buf.take(end)] + batches_of(rest, at_least, max));
        assert(bs.drop_first() =~= batches_of(rest, at_least, max));
        assert(flatten(bs) == bs[0] + flatten(bs.drop_first()));
        assert(buf.take(end) + rest =~= buf);
        assert(flatten(bs) + left_after_drain(buf, at_least, max) =~= buf.take(end) + (flatten(
            batches_of(rest, at_least, max),
        ) + left_after_drain(rest, at_least, max)));
        assert forall|i: int| 0 <= i < bs.len() implies 0 < (#[trigger] bs[i]).len() <= max by {
            if i > 0 {
                assert(bs[i] == batches_of(rest, at_least, max)[i - 1]);
            }
        }
    } else {
        assert(flatten(batches_of(buf, at_least, max)) =~= Seq::<Seq<u8>>::empty());
        assert(Seq::<Seq<u8>>::empty() + buf =~= buf);
    }
}

/// A response paired with a request event just stored under its id gets
/// that event back with the response attached, and the id no longer waits:
/// the waiting events are as if the request had never been stored.
pub proof fn law_store_then_match(
    pending: Seq<(Seq<char>, EventModel)>,
    id: Seq<char>,
    request_event: EventModel,
    response: ResponseModel,
)
    requires
        crate::map::keys_distinct(pending),
    ensures
        (lookup(insert_spec(pending, id, request_event), id) is Some),
        completed_event(insert_spec(pending, id, request_event), id, response) == (EventModel {
            response: Some(response),
            ..request_event
        }),
        remove_spec(insert_spec(pending, id, request_event), id) == remove_spec(pending, id),
{
    crate::map::law_get_after_insert(pending, id, request_event, id);
    crate::map::law_remove_after_insert(pending, id, request_event);
}

/// Taking out the stale events splits the waiting events in two: those
/// taken are exactly the stale ones and those kept exactly the others, and
/// together they are as many as before.
pub proof fn law_stale_split(pending: Seq<(Seq<char>, EventModel)>, now: int, cutoff: int)
    ensures
        ({
            let flags = stale_flags(pending, now, cutoff);
            let kept = kept_entries(pending, flags);
            let taken = taken_entries(pending, flags);
            &&& kept.len() + taken.len() == pending.len()
            &&& forall|i: int| 0 <= i < taken.len() ==> is_stale(#[trigger] taken[i].1, now, cutoff)
            &&& forall|i: int| 0 <= i < kept.len() ==> !is_stale(#[trigger] kept[i].1, now, cutoff)
        }),
    decreases pending.len(),
{
    if pending.len() > 0 {
        let tail = pending.drop_first();
        law_stale_split(tail, now, cutoff);
        let flags = stale_flags(pending, now, cutoff);
        assert(flags.drop_first() =~= stale_flags(tail, now, cutoff));
        let kt = kept_entries(tail, stale_flags(tail, now, cutoff));
        let tt = taken_entries(tail, stale_flags(tail, now, cutoff));
        let kept = kept_entries(pending, flags);
        let taken = taken_entries(pending, flags);
        if flags[0] {
            assert(taken == seq![pending[0]] + tt);
            assert(kept == kt);
            assert forall|i: int| 0 <= i < taken.len() implies is_stale(
                #[trigger] taken[i].1,
                now,
                cutoff,
            ) by {
                if i > 0 {
                    assert(taken[i] == tt[i - 1]);
                }
            }
        } else {
            assert(kept == seq![pending[0]] + kt);
            assert(taken == tt);
            assert forall|i: int| 0 <= i < kept.len() implies !is_stale(
                #[trigger] kept[i].1,
                now,
                cutoff,
            ) by {
                if i > 0 {
                    assert(kept[i] == kt[i - 1]);
                }
            }
        }
    }
}

proof fn lemma_split_contains(es: Seq<(Seq<char>, EventModel)>, flags: Seq<bool>, i: int)
    requires
        flags.len() == es.len(),
        0 <= i < es.len(),
    ensures
        flags[i] ==> taken_entries(es, flags).contains(es[i]),
        !flags[i] ==> kept_entries(es, flags).contains(es[i]),
    decreases es.len(),
{
    let rest_k = kept_entries(es.drop_first(), flags.drop_first());
    let rest_t = taken_entries(es.drop_first(), flags.drop_first());
    if i == 0 {
        if flags[0] {
            assert(taken_entries(es, flags)[0] == es[0]);
        } else {
            assert(kept_entries(es, flags)[0] == es[0]);
        }
    } else {
        lemma_split_contains(es.drop_first(), flags.drop_first(), i - 1);
        if flags[i] {
            let j = choose|j: int| 0 <= j < rest_t.len() && rest_t[j] == es[i];
            if flags[0] {
                assert(taken_entries(es, flags)[j + 1] == es[i]);
            } else {
                assert(taken_entries(es, flags)[j] == es[i]);
            }
        } else {
            let j = choose|j: int| 0 <= j < rest_k.len() && rest_k[j] == es[i];
            if flags[0] {
                assert(kept_entries(es, flags)[j] == es[i]);
            } else {
                assert(kept_entries(es, flags)[j + 1] == es[i]);
            }
        }
    }
}

/// Taking out the stale events at time `now_ns` with a wait of `wait_ms`
/// milliseconds: a waiting event whose request time (or response time) lies
/// more than `wait_ms` before `now_ns` is taken out and no longer waits; one
/// whose request time, and response time if it has one, are no earlier than
/// that (or cannot be read) keeps waiting and is not taken out.
pub proof fn law_stale_by_time(
    pending: Seq<(Seq<char>, EventModel)>,
    after: Seq<(Seq<char>, EventModel)>,
    moved: Seq<(Seq<char>, EventModel)>,
    wait_ms: int,
    now_ns: int,
    i: int,
)
    requires
        stale_moved(pending, after, moved, wait_ms, now_ns),
        0 <= i < pending.len(),
        wait_ms >= 0,
    ensures
        ({
            let cutoff = now_ns - wait_ms * 1_000_000;
            let e = pending[i].1;
            let req = rfc3339_instant(e.request.time);
            let resp = match e.response {
                Some(r) => rfc3339_instant(r.time),
                None => None,
            };
            let early = (req matches Some(t) && instant_nanos(t) < cutoff) || (resp matches Some(t)
                && instant_nanos(t) < cutoff);
            let late = (req matches Some(t) ==> instant_nanos(t) >= cutoff) && (resp matches Some(t)
                ==> instant_nanos(t) >= cutoff);
            &&& early ==> moved.contains(pending[i]) && !after.contains(pending[i])
            &&& late ==> after.contains(pending[i]) && !moved.contains(pending[i])
        }),
{
    let cutoff = now_ns - wait_ms * 1_000_000;
    let flags = stale_flags(pending, now_ns, cutoff);
    lemma_split_contains(pending, flags, i);
    law_stale_split(pending, now_ns, cutoff);
    let kept = kept_entries(pending, flags);
    let taken = taken_entries(pending, flags);
    if kept.contains(pending[i]) {
        let j = choose|j: int| 0 <= j < kept.len() && kept[j] == pending[i];
        assert(!is_stale(kept[j].1, now_ns, cutoff));
    }
    if taken.contains(pending[i]) {
        let j = choose|j: int| 0 <= j < taken.len() && taken[j] == pending[i];
        assert(is_stale(taken[j].1, now_ns, cutoff));
    }
}

} // verus!
