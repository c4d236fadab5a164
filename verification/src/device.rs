//! Devices, and the sequence that yields them with their tags resolved.

use crate::address::url_join;
use crate::lava::{
    found_so_far, lemma_run_finds_resolvable, lemma_unresolved_is_right, resolvable, resolves,
    unresolved, Lava, ResolutionView, Step, TagResolution,
};
use crate::paginator::{
    chained, collection, delivers, in_step, lemma_fresh_walk_in_step, lemma_pull_in_step, pulls,
    served, Page, PageView, PaginationError, Paginator, PaginatorView, Phase, Pull,
};
use crate::tag::Tag;
use crate::text::{str_equal, LabelError};
use vstd::prelude::*;
use vstd::string::StringExecFns;

verus! {

/// The condition of a device.
#[derive(Clone, Copy, Debug, PartialEq, Eq, Structural)]
pub enum Health {
    Unknown,
    Maintenance,
    Good,
    Bad,
    Looping,
    Retired,
}

impl Health {
    /// The text that stands for this health on the wire.
    pub open spec fn label(&self) -> Seq<char> {
        match self {
            Health::Unknown => "Unknown"@,
            Health::Maintenance => "Maintenance"@,
            Health::Good => "Good"@,
            Health::Bad => "Bad"@,
            Health::Looping => "Looping"@,
            Health::Retired => "Retired"@,
        }
    }

    /// Renders this health as the server spells it.
    pub fn to_string(&self) -> (text: String)
        ensures
            text@ == self.label(),
    {
        match self {
            Health::Unknown => String::from_str("Unknown"),
            Health::Maintenance => String::from_str("Maintenance"),
            Health::Good => String::from_str("Good"),
            Health::Bad => String::from_str("Bad"),
            Health::Looping => String::from_str("Looping"),
            Health::Retired => String::from_str("Retired"),
        }
    }

    /// Reads a health from the server's spelling, which must match exactly.
    pub fn from_str(text: &str) -> (parsed: Result<Health, LabelError>)
        ensures
            match parsed {
                Ok(value) => value.label() == text@,
                Err(_) => forall|value: Health| value.label() != text@,
            },
    {
        if str_equal(text, "Unknown") {
            Ok(Health::Unknown)
        } else if str_equal(text, "Maintenance") {
            Ok(Health::Maintenance)
        } else if str_equal(text, "Good") {
            Ok(Health::Good)
        } else if str_equal(text, "Bad") {
            Ok(Health::Bad)
        } else if str_equal(text, "Looping") {
            Ok(Health::Looping)
        } else if str_equal(text, "Retired") {
            Ok(Health::Retired)
        } else {
            Err(LabelError::VariantNotFound)
        }
    }

    /// The health that a device of the stand-in server shows to clients.
    pub fn from_mock(health: crate::mock::DeviceHealth) -> (converted: Health)
        ensures
            converted.label() == health.label(),
    {
        match health {
            crate::mock::DeviceHealth::Unknown => Health::Unknown,
            crate::mock::DeviceHealth::Maintenance => Health::Maintenance,
            crate::mock::DeviceHealth::Good => Health::Good,
            crate::mock::DeviceHealth::Bad => Health::Bad,
            crate::mock::DeviceHealth::Looping => Health::Looping,
            crate::mock::DeviceHealth::Retired => Health::Retired,
        }
    }

    /// Reads a health from the server's spelling.
    pub fn try_from(text: &str) -> (parsed: Result<Health, TryFromHealthError>)
        ensures
            match parsed {
                Ok(value) => value.label() == text@,
                Err(_) => forall|value: Health| value.label() != text@,
            },
    {
        match Health::from_str(text) {
            Ok(value) => Ok(value),
            Err(_) => Err(TryFromHealthError {  }),
        }
    }
}

/// The text was not the name of a device health.
#[derive(Clone, Copy, Debug, PartialEq, Eq, Structural)]
pub struct TryFromHealthError {}

/// A device as the server sends it, its tags still ids.
#[derive(Clone, Debug)]
pub struct LavaDevice {
    pub hostname: String,
    pub worker_host: String,
    pub device_type: String,
    pub description: Option<String>,
    pub health: Health,
    pub tags: Vec<u32>,
}

/// A device, with the tags that its ids stand for.
#[derive(Clone, Debug, PartialEq, Eq)]
pub struct Device {
    pub hostname: String,
    pub worker_host: String,
    pub device_type: String,
    pub description: Option<String>,
    pub health: Health,
    pub tags: Vec<Tag>,
}

/// The device that a record stands for, given its resolved tags.
pub open spec fn transformed(device: LavaDevice, tags: Seq<Tag>) -> DeviceView {
    DeviceView {
        hostname: device.hostname,
        worker_host: device.worker_host,
        device_type: device.device_type,
        description: device.description,
        health: device.health,
        tags,
    }
}

/// What a [`Device`] stands for.
pub struct DeviceView {
    pub hostname: String,
    pub worker_host: String,
    pub device_type: String,
    pub description: Option<String>,
    pub health: Health,
    pub tags: Seq<Tag>,
}

impl View for Device {
    type V = DeviceView;

    open spec fn view(&self) -> DeviceView {
        DeviceView {
            hostname: self.hostname,
            worker_host: self.worker_host,
            device_type: self.device_type,
            description: self.description,
            health: self.health,
            tags: self.tags@,
        }
    }
}

/// Puts the resolved tags in the place of a record's tag ids; everything
/// else is taken over as it is.
pub fn transform_device(device: LavaDevice, tags: Vec<Tag>) -> (result: Device)
    ensures
        result@ == transformed(device, tags@),
{
    Device {
        hostname: device.hostname,
        worker_host: device.worker_host,
        device_type: device.device_type,
        description: device.description,
        health: device.health,
        tags,
    }
}

#[derive(Debug)]
enum State {
    Paging,
    Transforming(LavaDevice, TagResolution),
}

/// What a [`Devices`] sequence stands for.
pub struct DevicesView {
    /// The walk over the raw records.
    pub paginator: PaginatorView<LavaDevice>,
    /// The record that is being enriched, with the progress on its tags.
    pub pending: Option<(LavaDevice, ResolutionView)>,
}

/// How work on the record in hand ends a step: with the enriched device
/// when all its tags are dealt with, else with a call for a refresh.
pub open spec fn enriches(
    raw: LavaDevice,
    progress: ResolutionView,
    tags: Map<u32, Tag>,
    pending: Option<(LavaDevice, ResolutionView)>,
    answer: Step<Device>,
) -> bool {
    let (reached, finished) = resolves(progress, tags);
    if finished {
        &&& pending is None
        &&& answer matches Step::Item(device)
        &&& device@ == transformed(raw, reached.found)
    } else {
        &&& pending == Some((raw, reached))
        &&& answer == Step::<Device>::Refresh
    }
}

/// One step of the sequence against the tag cache `tags`.
///
/// While a record is in hand, the walk is left alone: the next record is
/// not asked for before this one was yielded.
pub open spec fn steps(
    before: DevicesView,
    tags: Map<u32, Tag>,
    after: DevicesView,
    answer: Step<Device>,
) -> bool {
    match before.pending {
        Some((raw, progress)) => {
            &&& after.paginator == before.paginator
            &&& enriches(raw, progress, tags, after.pending, answer)
        },
        None => exists|pulled: Pull<LavaDevice>|
            {
                &&& #[trigger] pulls(before.paginator, after.paginator, pulled)
                &&& match pulled {
                    Pull::Item(raw) => enriches(
                        raw,
                        unresolved(raw.tags@),
                        tags,
                        after.pending,
                        answer,
                    ),
                    Pull::Error(reason) => after.pending is None && answer == Step::<Device>::Error(
                        reason,
                    ),
                    Pull::Fetch(address) => after.pending is None && answer == Step::<
                        Device,
                    >::Fetch(address),
                    Pull::End => after.pending is None && answer == Step::<Device>::End,
                }
            },
    }
}

/// Whether `device` is the record `raw` with some tags in the place of
/// its tag ids, and everything else as it was. Which tags they are is not
/// said here.
pub open spec fn is_enriched(raw: LavaDevice, device: Device) -> bool {
    device@ == transformed(raw, device@.tags)
}

/// The devices among the answers to a row of steps, in their order.
pub open spec fn yielded(answers: Seq<Step<Device>>) -> Seq<Device>
    decreases answers.len(),
{
    if answers.len() == 0 {
        Seq::empty()
    } else {
        match answers.last() {
            Step::Item(device) => yielded(answers.drop_last()).push(device),
            _ => yielded(answers.drop_last()),
        }
    }
}

/// How many of the answers to a row of steps asked for a page.
pub open spec fn fetched(answers: Seq<Step<Device>>) -> nat
    decreases answers.len(),
{
    if answers.len() == 0 {
        0
    } else if answers.last() is Fetch {
        fetched(answers.drop_last()) + 1
    } else {
        fetched(answers.drop_last())
    }
}

/// Whether a consumer that starts with the sequence `start` can get
/// `answers` to its steps, one after the other, and be left with the
/// sequence `end`. The step that gives `answers[i]` is made against the tag
/// cache `caches[i]`. Whenever an answer asks for a page, the consumer
/// delivers the page of `pages` that is in turn, as long as there is one.
pub open spec fn session(
    start: DevicesView,
    pages: Seq<PageView<LavaDevice>>,
    caches: Seq<Map<u32, Tag>>,
    answers: Seq<Step<Device>>,
    end: DevicesView,
) -> bool
    decreases answers.len(),
{
    if answers.len() == 0 {
        end == start && caches.len() == 0
    } else {
        &&& caches.len() == answers.len()
        &&& exists|before: DevicesView, after: DevicesView|
            {
                &&& session(start, pages, caches.drop_last(), answers.drop_last(), before)
                &&& #[trigger] steps(before, caches.last(), after, answers.last())
                &&& if answers.last() is Fetch && fetched(answers.drop_last()) < pages.len() {
                    &&& end.pending == after.pending
                    &&& served(
                        after.paginator,
                        pages[fetched(answers.drop_last()) as int],
                        end.paginator,
                    )
                } else {
                    end == after
                }
            }
    }
}

/// The sequence that has not started, at `address`.
pub open spec fn fresh(address: Seq<char>) -> DevicesView {
    DevicesView {
        paginator: PaginatorView { current: address, phase: Phase::<LavaDevice>::Next, count: None },
        pending: None,
    }
}

/// Whether the tag cache was `tags` at every step.
pub open spec fn stable(caches: Seq<Map<u32, Tag>>, tags: Map<u32, Tag>) -> bool {
    forall|i: int| 0 <= i < caches.len() ==> #[trigger] caches[i] == tags
}

/// The device that the record `raw` stands for while the tag cache is
/// `tags`: the record with the tags that the cache holds for its ids, in
/// the order of the ids.
pub open spec fn resolved(raw: LavaDevice, tags: Map<u32, Tag>) -> DeviceView {
    transformed(raw, resolvable(tags, raw.tags@))
}

/// Where a session over a chained collection stands: the walk is in step
/// with the server, and the records that it has handed out are the ones
/// that were yielded as devices, and the one in hand.
pub open spec fn in_order(
    addresses: Seq<Seq<char>>,
    pages: Seq<PageView<LavaDevice>>,
    answers: Seq<Step<Device>>,
    end: DevicesView,
    turn: int,
    taken: int,
    consumed: Seq<LavaDevice>,
) -> bool {
    &&& in_step(addresses, pages, fetched(answers), consumed, end.paginator, turn, taken)
    &&& consumed.len() == yielded(answers).len() + if end.pending is Some {
        1int
    } else {
        0int
    }
    &&& forall|i: int|
        0 <= i < yielded(answers).len() ==> is_enriched(consumed[i], #[trigger] yielded(answers)[i])
    &&& end.pending matches Some((raw, _)) ==> consumed.last() == raw
}

/// Where a session under the one tag cache `tags` stands: each device
/// that was yielded has the tags that the cache holds for its record, and
/// the work on the record in hand was right so far.
pub open spec fn in_tune(
    tags: Map<u32, Tag>,
    answers: Seq<Step<Device>>,
    end: DevicesView,
    consumed: Seq<LavaDevice>,
) -> bool {
    &&& forall|i: int|
        0 <= i < yielded(answers).len() ==> (#[trigger] yielded(answers)[i])@ == resolved(
            consumed[i],
            tags,
        )
    &&& end.pending matches Some((raw, progress)) ==> {
        &&& progress.ids == raw.tags@
        &&& found_so_far(progress, tags)
    }
}

/// Work on a record that was right so far against `tags` ends the step
/// right: with the device that the cache gives for the record, or with the
/// record still in hand.
proof fn lemma_enriches_in_tune(
    raw: LavaDevice,
    progress: ResolutionView,
    tags: Map<u32, Tag>,
    pending: Option<(LavaDevice, ResolutionView)>,
    answer: Step<Device>,
)
    requires
        progress.ids == raw.tags@,
        found_so_far(progress, tags),
        enriches(raw, progress, tags, pending, answer),
    ensures
        answer matches Step::Item(device) ==> device@ == resolved(raw, tags),
        pending matches Some((kept, reached)) ==> {
            &&& kept == raw
            &&& reached.ids == raw.tags@
            &&& found_so_far(reached, tags)
        },
{
    lemma_run_finds_resolvable(progress, tags);
}

/// A session over a chained collection that starts with a fresh sequence
/// at the first address keeps the records in order, and under one tag
/// cache it gives each record the tags of that cache.
proof fn lemma_session_in_order(
    addresses: Seq<Seq<char>>,
    pages: Seq<PageView<LavaDevice>>,
    caches: Seq<Map<u32, Tag>>,
    tags: Map<u32, Tag>,
    answers: Seq<Step<Device>>,
    end: DevicesView,
) -> (place: (int, int, Seq<LavaDevice>))
    requires
        chained(addresses, pages),
        session(fresh(addresses[0]), pages, caches, answers, end),
    ensures
        in_order(addresses, pages, answers, end, place.0, place.1, place.2),
        stable(caches, tags) ==> in_tune(tags, answers, end, place.2),
        answers.len() > 0 ==> {
            &&& !(answers.last() is Error)
            &&& answers.last() matches Step::Fetch(address) ==> {
                &&& fetched(answers.drop_last()) < pages.len()
                &&& address@ == addresses[fetched(answers.drop_last()) as int]
            }
            &&& answers.last() is End ==> place.2 == collection(pages) && end.pending is None
        },
    decreases answers.len(),
{
    let start = fresh(addresses[0]);
    if answers.len() == 0 {
        lemma_fresh_walk_in_step(addresses, pages);
        (0, 0, Seq::empty())
    } else {
        let earlier = answers.drop_last();
        let last = answers.last();
        let cache = caches.last();
        let (before, after) = choose|before: DevicesView, after: DevicesView|
            {
                &&& session(start, pages, caches.drop_last(), earlier, before)
                &&& #[trigger] steps(before, cache, after, last)
                &&& if last is Fetch && fetched(earlier) < pages.len() {
                    &&& end.pending == after.pending
                    &&& served(after.paginator, pages[fetched(earlier) as int], end.paginator)
                } else {
                    end == after
                }
            };
        let (turn, taken, consumed) = lemma_session_in_order(
            addresses,
            pages,
            caches.drop_last(),
            tags,
            earlier,
            before,
        );
        if stable(caches, tags) {
            assert(cache == caches[caches.len() - 1]);
            assert forall|i: int| 0 <= i < caches.drop_last().len() implies #[trigger] caches.drop_last()[i]
                == tags by {
                assert(caches.drop_last()[i] == caches[i]);
            }
        }
        match before.pending {
            Some((raw, progress)) => {
                if stable(caches, tags) {
                    lemma_enriches_in_tune(raw, progress, tags, after.pending, last);
                }
                (turn, taken, consumed)
            },
            None => {
                let pulled = choose|pulled: Pull<LavaDevice>|
                    {
                        &&& #[trigger] pulls(before.paginator, after.paginator, pulled)
                        &&& match pulled {
                            Pull::Item(raw) => enriches(
                                raw,
                                unresolved(raw.tags@),
                                cache,
                                after.pending,
                                last,
                            ),
                            Pull::Error(reason) => after.pending is None && last == Step::<
                                Device,
                            >::Error(reason),
                            Pull::Fetch(address) => after.pending is None && last == Step::<
                                Device,
                            >::Fetch(address),
                            Pull::End => after.pending is None && last == Step::<Device>::End,
                        }
                    };
                let (next_turn, next_taken) = lemma_pull_in_step(
                    addresses,
                    pages,
                    fetched(earlier),
                    consumed,
                    before.paginator,
                    after.paginator,
                    pulled,
                    turn,
                    taken,
                );
                match pulled {
                    Pull::Item(raw) => {
                        if stable(caches, tags) {
                            lemma_unresolved_is_right(raw.tags@, tags);
                            lemma_enriches_in_tune(
                                raw,
                                unresolved(raw.tags@),
                                tags,
                                after.pending,
                                last,
                            );
                        }
                        (next_turn, next_taken, consumed.push(raw))
                    },
                    _ => (next_turn, next_taken, consumed),
                }
            },
        }
    }
}

/// Walking the devices of a server that does not change yields every
/// device once, in the server's order, whatever the size of the pages and
/// whatever the tag cache holds along the way.
///
/// In any session that starts with a fresh sequence at the first address:
/// no step fails; each request is for the address of the page in turn; and
/// when the sequence says that it is over, the consumer has got one device
/// for each record of the collection, in order, each with tags in the
/// place of its tag ids and everything else as the server sent it. Which
/// tags these are depends on the cache at the time; the law after this one
/// says it for a cache that stays as it is.
pub proof fn lemma_stable_devices_are_complete(
    addresses: Seq<Seq<char>>,
    pages: Seq<PageView<LavaDevice>>,
    caches: Seq<Map<u32, Tag>>,
    answers: Seq<Step<Device>>,
    end: DevicesView,
)
    requires
        chained(addresses, pages),
        session(fresh(addresses[0]), pages, caches, answers, end),
        answers.len() > 0,
    ensures
        !(answers.last() is Error),
        answers.last() matches Step::Fetch(address) ==> {
            &&& fetched(answers.drop_last()) < pages.len()
            &&& address@ == addresses[fetched(answers.drop_last()) as int]
        },
        answers.last() is End ==> {
            &&& yielded(answers).len() == collection(pages).len()
            &&& forall|i: int|
                0 <= i < yielded(answers).len() ==> is_enriched(
                    collection(pages)[i],
                    #[trigger] yielded(answers)[i],
                )
        },
{
    lemma_session_in_order(addresses, pages, caches, Map::empty(), answers, end);
}

/// While neither the collection nor the tag cache changes, every device
/// comes out with exactly the tags that the cache holds for the tag ids of
/// its record, in the order of the ids; an id without a tag leaves no
/// trace, whatever refreshes it has caused.
///
/// In any session that starts with a fresh sequence at the first address
/// and meets the cache `tags` at every step: when the sequence says that
/// it is over, the devices that were yielded are, one for one and in
/// order, the records of the collection resolved against `tags`.
pub proof fn lemma_stable_devices_have_their_tags(
    addresses: Seq<Seq<char>>,
    pages: Seq<PageView<LavaDevice>>,
    caches: Seq<Map<u32, Tag>>,
    tags: Map<u32, Tag>,
    answers: Seq<Step<Device>>,
    end: DevicesView,
)
    requires
        chained(addresses, pages),
        session(fresh(addresses[0]), pages, caches, answers, end),
        stable(caches, tags),
        answers.len() > 0,
        answers.last() is End,
    ensures
        yielded(answers).len() == collection(pages).len(),
        forall|i: int|
            0 <= i < yielded(answers).len() ==> (#[trigger] yielded(answers)[i])@ == resolved(
                collection(pages)[i],
                tags,
            ),
{
    lemma_session_in_order(addresses, pages, caches, tags, answers, end);
}

/// Whether `devices` is what asking for the devices below `base` gives: a
/// sequence that has not started, at the address of the collection ordered
/// by host name, or an error where that address cannot be made.
pub open spec fn starts(base: Seq<char>, devices: Result<Devices, url::ParseError>) -> bool {
    match devices {
        Ok(sequence) => {
            &&& url_join(base, "devices/?ordering=hostname"@) matches Some(address)
            &&& sequence@ == (DevicesView {
                paginator: PaginatorView {
                    current: address,
                    phase: Phase::<LavaDevice>::Next,
                    count: None,
                },
                pending: None,
            })
        },
        Err(_) => url_join(base, "devices/?ordering=hostname"@) is None,
    }
}

/// All the devices of a server, one after the other, each with its tags.
#[derive(Debug)]
pub struct Devices {
    paginator: Paginator<LavaDevice>,
    state: State,
}

impl View for Devices {
    type V = DevicesView;

    closed spec fn view(&self) -> DevicesView {
        DevicesView {
            paginator: self.paginator@,
            pending: match self.state {
                State::Paging => None,
                State::Transforming(raw, resolution) => Some((raw, resolution@)),
            },
        }
    }
}

impl Devices {
    /// The sequence of the devices of `lava`, ordered by host name.
    pub fn new(lava: &Lava) -> (devices: Result<Devices, url::ParseError>)
        ensures
            starts(lava@.base, devices),
    {
        match lava.collection("devices/?ordering=hostname") {
            Ok(paginator) => Ok(Devices { paginator, state: State::Paging }),
            Err(reason) => Err(reason),
        }
    }

    /// The number of devices as the server reported it last.
    pub fn reported_items(&self) -> (count: Option<u32>)
        ensures
            count == self@.paginator.count,
    {
        self.paginator.reported_items()
    }

    /// Goes on until the next thing happens: a device is ready, a page has
    /// to be fetched, the tag cache has to be refreshed, a pull failed, or
    /// the sequence is over.
    pub fn step(&mut self, lava: &Lava) -> (answer: Step<Device>)
        ensures
            steps(old(self)@, lava@.tags, final(self)@, answer),
    {
        let mut state = State::Paging;
        std::mem::swap(&mut self.state, &mut state);
        let (raw, mut resolution) = match state {
            State::Transforming(raw, resolution) => (raw, resolution),
            State::Paging => {
                let pulled = self.paginator.pull();
                match pulled {
                    Pull::Item(raw) => {
                        let resolution = TagResolution::of(&raw.tags);
                        (raw, resolution)
                    },
                    Pull::Error(reason) => {
                        return Step::Error(reason);
                    },
                    Pull::Fetch(address) => {
                        return Step::Fetch(address);
                    },
                    Pull::End => {
                        return Step::End;
                    },
                }
            },
        };
        if resolution.advance(lava) {
            Step::Item(transform_device(raw, resolution.into_tags()))
        } else {
            self.state = State::Transforming(raw, resolution);
            Step::Refresh
        }
    }

    /// Takes the outcome of the page fetch that a step asked for.
    pub fn deliver(&mut self, outcome: Result<Page<LavaDevice>, PaginationError>) -> (surfaced:
        Option<PaginationError>)
        ensures
            delivers(old(self)@.paginator, outcome, final(self)@.paginator, surfaced),
            final(self)@.pending == old(self)@.pending,
    {
        self.paginator.deliver(outcome)
    }
}

} // verus!
