//! Jobs: the query builder that selects them, and the sequence that
//! yields them with their tags resolved.

use crate::address::{join_url, pair_texts, url_join, url_with_pairs, with_query_pairs};
use crate::lava::{
    found_so_far, lemma_run_finds_resolvable, lemma_unresolved_is_right, resolvable, resolves,
    unresolved, Lava, ResolutionView, Step, TagResolution,
};
use crate::paginator::{
    chained, collection, delivers, in_step, lemma_fresh_walk_in_step, lemma_pull_in_step, pulls,
    served, Page, PageView, PaginationError, Paginator, PaginatorView, Phase, Pull,
};
use crate::queryset::{
    excluding, including, is_closed, rendering, QuerySet, QuerySetMember, QuerySetView,
};
use crate::tag::Tag;
use crate::text::{decimal, signed_to_string, str_equal, unsigned_to_string, LabelError};
use crate::timestamp::Timestamp;
use vstd::prelude::*;
use vstd::string::StringExecFns;

verus! {

/// How far a job has got.
#[derive(Clone, Copy, Debug, PartialEq, Eq, Structural, Hash)]
pub enum State {
    Submitted,
    Scheduling,
    Scheduled,
    Running,
    Canceling,
    Finished,
}

impl State {
    /// The text that stands for this state on the wire.
    pub open spec fn label(&self) -> Seq<char> {
        match self {
            State::Submitted => "Submitted"@,
            State::Scheduling => "Scheduling"@,
            State::Scheduled => "Scheduled"@,
            State::Running => "Running"@,
            State::Canceling => "Canceling"@,
            State::Finished => "Finished"@,
        }
    }

    /// Renders this state as the server spells it.
    pub fn to_string(&self) -> (text: String)
        ensures
            text@ == self.label(),
    {
        match self {
            State::Submitted => String::from_str("Submitted"),
            State::Scheduling => String::from_str("Scheduling"),
            State::Scheduled => String::from_str("Scheduled"),
            State::Running => String::from_str("Running"),
            State::Canceling => String::from_str("Canceling"),
            State::Finished => String::from_str("Finished"),
        }
    }

    /// Reads a state from the server's spelling, which must match exactly.
    pub fn from_str(text: &str) -> (parsed: Result<State, LabelError>)
        ensures
            match parsed {
                Ok(value) => value.label() == text@,
                Err(_) => forall|value: State| value.label() != text@,
            },
    {
        if str_equal(text, "Submitted") {
            Ok(State::Submitted)
        } else if str_equal(text, "Scheduling") {
            Ok(State::Scheduling)
        } else if str_equal(text, "Scheduled") {
            Ok(State::Scheduled)
        } else if str_equal(text, "Running") {
            Ok(State::Running)
        } else if str_equal(text, "Canceling") {
            Ok(State::Canceling)
        } else if str_equal(text, "Finished") {
            Ok(State::Finished)
        } else {
            Err(LabelError::VariantNotFound)
        }
    }
}

impl QuerySetMember for State {
    open spec fn universe() -> Seq<Self> {
        seq![State::Submitted, State::Scheduling, State::Scheduled, State::Running, State::Canceling, State::Finished]
    }

    open spec fn label(&self) -> Seq<char> {
        State::label(self)
    }

    fn all() -> (values: Vec<Self>) {
        let mut values: Vec<Self> = Vec::new();
        values.push(State::Submitted);
        values.push(State::Scheduling);
        values.push(State::Scheduled);
        values.push(State::Running);
        values.push(State::Canceling);
        values.push(State::Finished);
        assert(values@ =~= Self::universe());
        values
    }

    fn same(&self, other: &Self) -> (equal: bool) {
        *self == *other
    }

    fn to_string(&self) -> (text: String) {
        State::to_string(self)
    }
}

/// How a job ended.
#[derive(Clone, Copy, Debug, PartialEq, Eq, Structural, Hash)]
pub enum Health {
    Unknown,
    Complete,
    Incomplete,
    Canceled,
}

impl Health {
    /// The text that stands for this health on the wire.
    pub open spec fn label(&self) -> Seq<char> {
        match self {
            Health::Unknown => "Unknown"@,
            Health::Complete => "Complete"@,
            Health::Incomplete => "Incomplete"@,
            Health::Canceled => "Canceled"@,
        }
    }

    /// Renders this health as the server spells it.
    pub fn to_string(&self) -> (text: String)
        ensures
            text@ == self.label(),
    {
        match self {
            Health::Unknown => String::from_str("Unknown"),
            Health::Complete => String::from_str("Complete"),
            Health::Incomplete => String::from_str("Incomplete"),
            Health::Canceled => String::from_str("Canceled"),
        }
    }

    /// Reads a health from the server's spelling, which must match exactly.
    pub fn from_str(text: &str) -> (parsed: Result<Health, LabelError>)
        ensures
            match parsed {
                Ok(value) => value.label() == text@,
                Err(_) => forall|value: Health| value.label() != text@,
            },
    {
        if str_equal(text, "Unknown") {
            Ok(Health::Unknown)
        } else if str_equal(text, "Complete") {
            Ok(Health::Complete)
        } else if str_equal(text, "Incomplete") {
            Ok(Health::Incomplete)
        } else if str_equal(text, "Canceled") {
            Ok(Health::Canceled)
        } else {
            Err(LabelError::VariantNotFound)
        }
    }
}

impl QuerySetMember for Health {
    open spec fn universe() -> Seq<Self> {
        seq![Health::Unknown, Health::Complete, Health::Incomplete, Health::Canceled]
    }

    open spec fn label(&self) -> Seq<char> {
        Health::label(self)
    }

    fn all() -> (values: Vec<Self>) {
        let mut values: Vec<Self> = Vec::new();
        values.push(Health::Unknown);
        values.push(Health::Complete);
        values.push(Health::Incomplete);
        values.push(Health::Canceled);
        assert(values@ =~= Self::universe());
        values
    }

    fn same(&self, other: &Self) -> (equal: bool) {
        *self == *other
    }

    fn to_string(&self) -> (text: String) {
        Health::to_string(self)
    }
}

impl State {
    /// The state that a job of the stand-in server shows to clients.
    pub fn from_mock(state: crate::mock::JobState) -> (converted: State)
        ensures
            converted.label() == state.label(),
    {
        match state {
            crate::mock::JobState::Submitted => State::Submitted,
            crate::mock::JobState::Scheduling => State::Scheduling,
            crate::mock::JobState::Scheduled => State::Scheduled,
            crate::mock::JobState::Running => State::Running,
            crate::mock::JobState::Canceling => State::Canceling,
            crate::mock::JobState::Finished => State::Finished,
        }
    }
}

impl Health {
    /// The health that a job of the stand-in server shows to clients.
    pub fn from_mock(health: crate::mock::JobHealth) -> (converted: Health)
        ensures
            converted.label() == health.label(),
    {
        match health {
            crate::mock::JobHealth::Unknown => Health::Unknown,
            crate::mock::JobHealth::Complete => Health::Complete,
            crate::mock::JobHealth::Incomplete => Health::Incomplete,
            crate::mock::JobHealth::Canceled => Health::Canceled,
        }
    }
}

/// The states are a closed enumeration.
pub proof fn lemma_states_closed()
    ensures
        is_closed::<State>(),
{
    let all = State::universe();
    assert forall|q: State| all.contains(q) by {
        assert(all[0] == State::Submitted);
        assert(all[1] == State::Scheduling);
        assert(all[2] == State::Scheduled);
        assert(all[3] == State::Running);
        assert(all[4] == State::Canceling);
        assert(all[5] == State::Finished);
    }
}

/// The healths are a closed enumeration.
pub proof fn lemma_healths_closed()
    ensures
        is_closed::<Health>(),
{
    let all = Health::universe();
    assert forall|q: Health| all.contains(q) by {
        assert(all[0] == Health::Unknown);
        assert(all[1] == Health::Complete);
        assert(all[2] == Health::Incomplete);
        assert(all[3] == Health::Canceled);
    }
}

/// The field by which a query orders the jobs.
#[derive(Clone, Copy, Debug, PartialEq, Eq, Structural)]
pub enum JobOrdering {
    Id,
    StartTime,
    EndTime,
    SubmitTime,
}

impl JobOrdering {
    /// The server's name for the field.
    pub open spec fn label(&self) -> Seq<char> {
        match self {
            JobOrdering::Id => "id"@,
            JobOrdering::StartTime => "start_time"@,
            JobOrdering::EndTime => "end_time"@,
            JobOrdering::SubmitTime => "submit_time"@,
        }
    }

    /// Renders the field as the server names it.
    pub fn to_string(&self) -> (text: String)
        ensures
            text@ == self.label(),
    {
        match self {
            JobOrdering::Id => String::from_str("id"),
            JobOrdering::StartTime => String::from_str("start_time"),
            JobOrdering::EndTime => String::from_str("end_time"),
            JobOrdering::SubmitTime => String::from_str("submit_time"),
        }
    }
}

/// A job as the server sends it, its tags still ids.
#[derive(Clone, Debug)]
pub struct LavaJob {
    pub id: i64,
    pub submitter: String,
    pub viewing_groups: Vec<i64>,
    pub description: String,
    pub health_check: bool,
    pub requested_device_type: Option<String>,
    pub tags: Vec<u32>,
    pub actual_device: Option<String>,
    pub submit_time: Timestamp,
    pub start_time: Option<Timestamp>,
    pub end_time: Option<Timestamp>,
    pub state: State,
    pub health: Health,
    pub priority: i64,
    pub definition: String,
    pub original_definition: String,
    pub multinode_definition: String,
    pub failure_tags: Vec<u32>,
    pub failure_comment: Option<String>,
}

/// A job, with the tags that its ids stand for.
#[derive(Clone, Debug, PartialEq, Eq)]
pub struct Job {
    pub id: i64,
    pub submitter: String,
    pub viewing_groups: Vec<i64>,
    pub description: String,
    pub health_check: bool,
    pub requested_device_type: Option<String>,
    pub tags: Vec<Tag>,
    pub actual_device: Option<String>,
    pub submit_time: Timestamp,
    pub start_time: Option<Timestamp>,
    pub end_time: Option<Timestamp>,
    pub state: State,
    pub health: Health,
    pub priority: i64,
    pub definition: String,
    pub original_definition: String,
    pub multinode_definition: String,
    pub failure_tags: Vec<Tag>,
    pub failure_comment: Option<String>,
}

/// Whether `result` is the record `job` with `tags` and `failure_tags` in
/// the place of its two lists of ids, and everything else as it was.
pub open spec fn transforms(
    job: LavaJob,
    tags: Seq<Tag>,
    failure_tags: Seq<Tag>,
    result: Job,
) -> bool {
    &&& result.id == job.id
    &&& result.submitter == job.submitter
    &&& result.viewing_groups == job.viewing_groups
    &&& result.description == job.description
    &&& result.health_check == job.health_check
    &&& result.requested_device_type == job.requested_device_type
    &&& result.tags@ == tags
    &&& result.actual_device == job.actual_device
    &&& result.submit_time == job.submit_time
    &&& result.start_time == job.start_time
    &&& result.end_time == job.end_time
    &&& result.state == job.state
    &&& result.health == job.health
    &&& result.priority == job.priority
    &&& result.definition == job.definition
    &&& result.original_definition == job.original_definition
    &&& result.multinode_definition == job.multinode_definition
    &&& result.failure_tags@ == failure_tags
    &&& result.failure_comment == job.failure_comment
}

/// Puts the resolved tags in the place of a record's two lists of tag
/// ids; everything else is taken over as it is.
pub fn transform_job(job: LavaJob, tags: Vec<Tag>, failure_tags: Vec<Tag>) -> (result: Job)
    ensures
        transforms(job, tags@, failure_tags@, result),
{
    Job {
        id: job.id,
        submitter: job.submitter,
        viewing_groups: job.viewing_groups,
        description: job.description,
        health_check: job.health_check,
        requested_device_type: job.requested_device_type,
        tags,
        actual_device: job.actual_device,
        submit_time: job.submit_time,
        start_time: job.start_time,
        end_time: job.end_time,
        state: job.state,
        health: job.health,
        priority: job.priority,
        definition: job.definition,
        original_definition: job.original_definition,
        multinode_definition: job.multinode_definition,
        failure_tags,
        failure_comment: job.failure_comment,
    }
}

/// What a [`JobsBuilder`] stands for.
pub struct JobsBuilderView {
    /// The address of the server's API.
    pub base: Seq<char>,
    pub states: QuerySetView<State>,
    pub healths: QuerySetView<Health>,
    /// The page size to ask for.
    pub limit: Option<u32>,
    pub ordering: JobOrdering,
    pub ascending: bool,
    pub id_after: Option<i64>,
    pub started_after: Option<Timestamp>,
    pub submitted_after: Option<Timestamp>,
    pub ended_after: Option<Timestamp>,
}

/// The value of the `ordering` parameter: the field's name, with a minus
/// sign in front for descending order.
pub open spec fn ordering_value(ordering: JobOrdering, ascending: bool) -> Seq<char> {
    if ascending {
        ordering.label()
    } else {
        "-"@ + ordering.label()
    }
}

/// Nothing, or the one pair.
pub open spec fn optional_pair(pair: Option<(Seq<char>, Seq<char>)>) -> Seq<
    (Seq<char>, Seq<char>),
> {
    match pair {
        Some(pair) => seq![pair],
        None => Seq::empty(),
    }
}

/// The pair that asks for a number above `bound`, if there is a bound.
pub open spec fn above(key: Seq<char>, bound: Option<int>) -> Seq<(Seq<char>, Seq<char>)> {
    match bound {
        Some(bound) => seq![(key, decimal(bound))],
        None => Seq::empty(),
    }
}

/// The pair that asks for an instant after `when`, if there is one. `None`
/// where the instant has no text.
pub open spec fn after(key: Seq<char>, when: Option<Timestamp>) -> Option<
    Seq<(Seq<char>, Seq<char>)>,
> {
    match when {
        Some(when) => match when.text() {
            Some(text) => Some(seq![(key, text)]),
            None => None,
        },
        None => Some(Seq::empty()),
    }
}

/// The query pairs of a builder, in the order in which they are appended
/// to the URL: the ordering, the states, the page size, the healths, and
/// the strict lower bounds on id, start, submission and end. `None` where
/// one of the instants has no text.
pub open spec fn query_pairs(builder: JobsBuilderView) -> Option<Seq<(Seq<char>, Seq<char>)>> {
    match (
        after("start_time__gt"@, builder.started_after),
        after("submit_time__gt"@, builder.submitted_after),
        after("end_time__gt"@, builder.ended_after),
    ) {
        (Some(started), Some(submitted), Some(ended)) => Some(
            seq![("ordering"@, ordering_value(builder.ordering, builder.ascending))]
                + optional_pair(rendering(builder.states)) + above(
                "limit"@,
                match builder.limit {
                    Some(limit) => Some(limit as int),
                    None => None,
                },
            ) + optional_pair(rendering(builder.healths)) + above(
                "id__gt"@,
                match builder.id_after {
                    Some(id) => Some(id as int),
                    None => None,
                },
            ) + started + submitted + ended,
        ),
        _ => None,
    }
}

/// The URL that a builder asks for: the jobs collection below the API's
/// address, with the builder's query pairs. `None` where it cannot be
/// built.
pub open spec fn query_url(builder: JobsBuilderView) -> Option<Seq<char>> {
    match (url_join(builder.base, "jobs/"@), query_pairs(builder)) {
        (Some(collection), Some(pairs)) => url_with_pairs(collection, pairs),
        _ => None,
    }
}

/// The query for all the jobs below `base`, in ascending order of their
/// ids.
pub open spec fn unconstrained(base: Seq<char>) -> JobsBuilderView {
    JobsBuilderView {
        base,
        states: QuerySetView { field_name: "state"@, values: None },
        healths: QuerySetView { field_name: "health"@, values: None },
        limit: None,
        ordering: JobOrdering::Id,
        ascending: true,
        id_after: None,
        started_after: None,
        submitted_after: None,
        ended_after: None,
    }
}

/// A query for jobs in the making.
pub struct JobsBuilder<'a> {
    lava: &'a Lava,
    states: QuerySet<State>,
    healths: QuerySet<Health>,
    limit: Option<u32>,
    ordering: JobOrdering,
    id_after: Option<i64>,
    started_after: Option<Timestamp>,
    submitted_after: Option<Timestamp>,
    ended_after: Option<Timestamp>,
    ascending: bool,
}

impl<'a> View for JobsBuilder<'a> {
    type V = JobsBuilderView;

    closed spec fn view(&self) -> JobsBuilderView {
        JobsBuilderView {
            base: self.lava@.base,
            states: self.states@,
            healths: self.healths@,
            limit: self.limit,
            ordering: self.ordering,
            ascending: self.ascending,
            id_after: self.id_after,
            started_after: self.started_after,
            submitted_after: self.submitted_after,
            ended_after: self.ended_after,
        }
    }
}

fn push_after(pairs: &mut Vec<(String, String)>, key: &str, when: Option<Timestamp>) -> (done: bool)
    ensures
        match after(key@, when) {
            Some(more) => done && pair_texts(final(pairs)@) == pair_texts(old(pairs)@) + more,
            None => !done,
        },
{
    match when {
        Some(when) => match when.to_rfc3339() {
            Some(text) => {
                pairs.push((String::from_str(key), text));
                assert(pair_texts(pairs@) =~= pair_texts(old(pairs)@) + seq![(key@, text@)]);
                true
            },
            None => false,
        },
        None => {
            assert(pair_texts(pairs@) =~= pair_texts(old(pairs)@) + Seq::empty());
            true
        },
    }
}

fn push_optional(pairs: &mut Vec<(String, String)>, pair: Option<(String, String)>)
    ensures
        pair_texts(final(pairs)@) == pair_texts(old(pairs)@) + optional_pair(
            match pair {
                Some((key, value)) => Some((key@, value@)),
                None => None,
            },
        ),
{
    match pair {
        Some((key, value)) => {
            pairs.push((key, value));
            assert(pair_texts(pairs@) =~= pair_texts(old(pairs)@) + seq![(key@, value@)]);
        },
        None => {
            assert(pair_texts(pairs@) =~= pair_texts(old(pairs)@) + Seq::empty());
        },
    }
}

impl<'a> JobsBuilder<'a> {
    /// A query for all the jobs of `lava`, in ascending order of their ids.
    pub fn new(lava: &'a Lava) -> (builder: Self)
        ensures
            builder@ == unconstrained(lava@.base),
    {
        proof {
            lemma_states_closed();
            lemma_healths_closed();
        }
        Self {
            lava,
            states: QuerySet::new(String::from_str("state")),
            healths: QuerySet::new(String::from_str("health")),
            limit: None,
            ordering: JobOrdering::Id,
            id_after: None,
            started_after: None,
            submitted_after: None,
            ended_after: None,
            ascending: true,
        }
    }

    /// Return jobs in this state.
    pub fn state(self, state: State) -> (builder: Self)
        ensures
            builder@ == (JobsBuilderView {
                states: QuerySetView {
                    field_name: self@.states.field_name,
                    values: including(self@.states.values, state),
                },
                ..self@
            }),
    {
        let mut builder = self;
        builder.states.include_value(state);
        builder
    }

    /// Leave out jobs in this state.
    pub fn state_not(self, state: State) -> (builder: Self)
        ensures
            builder@ == (JobsBuilderView {
                states: QuerySetView {
                    field_name: self@.states.field_name,
                    values: excluding(self@.states.values, state),
                },
                ..self@
            }),
    {
        let mut builder = self;
        builder.states.exclude(&state);
        builder
    }

    /// Ask the server for pages of `limit` jobs.
    pub fn limit(self, limit: u32) -> (builder: Self)
        ensures
            builder@ == (JobsBuilderView { limit: Some(limit), ..self@ }),
    {
        let mut builder = self;
        builder.limit = Some(limit);
        builder
    }

    /// Return jobs with this health.
    pub fn health(self, health: Health) -> (builder: Self)
        ensures
            builder@ == (JobsBuilderView {
                healths: QuerySetView {
                    field_name: self@.healths.field_name,
                    values: including(self@.healths.values, health),
                },
                ..self@
            }),
    {
        let mut builder = self;
        builder.healths.include_value(health);
        builder
    }

    /// Leave out jobs with this health.
    pub fn health_not(self, health: Health) -> (builder: Self)
        ensures
            builder@ == (JobsBuilderView {
                healths: QuerySetView {
                    field_name: self@.healths.field_name,
                    values: excluding(self@.healths.values, health),
                },
                ..self@
            }),
    {
        let mut builder = self;
        builder.healths.exclude(&health);
        builder
    }

    /// Return only jobs whose id is strictly greater than `id`.
    pub fn id_after(self, id: i64) -> (builder: Self)
        ensures
            builder@ == (JobsBuilderView { id_after: Some(id), ..self@ }),
    {
        let mut builder = self;
        builder.id_after = Some(id);
        builder
    }

    /// Return only jobs that started strictly after the given instant.
    pub fn started_after(self, when: Timestamp) -> (builder: Self)
        ensures
            builder@ == (JobsBuilderView { started_after: Some(when), ..self@ }),
    {
        let mut builder = self;
        builder.started_after = Some(when);
        builder
    }

    /// Return only jobs that were submitted strictly after the given
    /// instant.
    pub fn submitted_after(self, when: Timestamp) -> (builder: Self)
        ensures
            builder@ == (JobsBuilderView { submitted_after: Some(when), ..self@ }),
    {
        let mut builder = self;
        builder.submitted_after = Some(when);
        builder
    }

    /// Return only jobs that ended strictly after the given instant.
    pub fn ended_after(self, when: Timestamp) -> (builder: Self)
        ensures
            builder@ == (JobsBuilderView { ended_after: Some(when), ..self@ }),
    {
        let mut builder = self;
        builder.ended_after = Some(when);
        builder
    }

    /// Order the jobs by the given field, upwards or downwards.
    pub fn ordering(self, ordering: JobOrdering, ascending: bool) -> (builder: Self)
        ensures
            builder@ == (JobsBuilderView { ordering, ascending, ..self@ }),
    {
        let mut builder = self;
        builder.ordering = ordering;
        builder.ascending = ascending;
        builder
    }

    /// The query pairs that this builder adds to the URL of the jobs
    /// collection, in order. `None` where an instant cannot be written
    /// down.
    pub fn query_pairs(&self) -> (pairs: Option<Vec<(String, String)>>)
        ensures
            match pairs {
                Some(list) => query_pairs(self@) == Some(pair_texts(list@)),
                None => query_pairs(self@) is None,
            },
    {
        let mut pairs: Vec<(String, String)> = Vec::new();
        let direction = if self.ascending {
            String::new()
        } else {
            String::from_str("-")
        };
        let label = self.ordering.to_string();
        let value = direction.concat(label.as_str());
        proof {
            assert(value@ =~= ordering_value(self.ordering, self.ascending));
        }
        pairs.push((String::from_str("ordering"), value));
        assert(pair_texts(pairs@) =~= seq![
            ("ordering"@, ordering_value(self.ordering, self.ascending)),
        ]);
        push_optional(&mut pairs, self.states.query());
        match self.limit {
            Some(limit) => {
                let ghost before = pairs@;
                pairs.push((String::from_str("limit"), unsigned_to_string(limit as u64)));
                assert(pair_texts(pairs@) =~= pair_texts(before) + above(
                    "limit"@,
                    Some(limit as int),
                ));
            },
            None => {
                assert(pair_texts(pairs@) =~= pair_texts(pairs@) + above("limit"@, None));
            },
        }
        push_optional(&mut pairs, self.healths.query());
        match self.id_after {
            Some(id) => {
                let ghost before = pairs@;
                pairs.push((String::from_str("id__gt"), signed_to_string(id)));
                assert(pair_texts(pairs@) =~= pair_texts(before) + above("id__gt"@, Some(id as int)));
            },
            None => {
                assert(pair_texts(pairs@) =~= pair_texts(pairs@) + above("id__gt"@, None));
            },
        }
        if !push_after(&mut pairs, "start_time__gt", self.started_after) {
            return None;
        }
        if !push_after(&mut pairs, "submit_time__gt", self.submitted_after) {
            return None;
        }
        if !push_after(&mut pairs, "end_time__gt", self.ended_after) {
            return None;
        }
        Some(pairs)
    }

    /// Turns the builder into the sequence of the jobs that it selects.
    /// Nothing is requested yet; the sequence starts at the URL that the
    /// builder's settings make. `None` where that URL cannot be built.
    pub fn query(self) -> (jobs: Option<Jobs>)
        ensures
            match jobs {
                Some(sequence) => {
                    &&& query_url(self@) matches Some(address)
                    &&& sequence@ == (JobsView {
                        paginator: PaginatorView {
                            current: address,
                            phase: Phase::<LavaJob>::Next,
                            count: None,
                        },
                        pending: None,
                    })
                },
                None => query_url(self@) is None,
            },
    {
        let collection = match join_url(self.lava.base(), "jobs/") {
            Ok(collection) => collection,
            Err(_) => {
                return None;
            },
        };
        let pairs = match self.query_pairs() {
            Some(pairs) => pairs,
            None => {
                return None;
            },
        };
        match with_query_pairs(collection, &pairs) {
            Some(address) => Some(
                Jobs { paginator: Paginator::new(address), state: PagingState::Paging },
            ),
            None => None,
        }
    }
}

#[derive(Debug)]
enum PagingState {
    Paging,
    Transforming(LavaJob, TagResolution, TagResolution),
}

/// What a [`Jobs`] sequence stands for.
pub struct JobsView {
    /// The walk over the raw records.
    pub paginator: PaginatorView<LavaJob>,
    /// The record that is being enriched, with the progress on its tags
    /// and on its failure tags.
    pub pending: Option<(LavaJob, ResolutionView, ResolutionView)>,
}

/// How work on the record in hand ends a step. The tags are resolved
/// first, the failure tags after them; the step ends with a call for a
/// refresh where either list stops, and with the enriched job when both
/// are done.
pub open spec fn enriches(
    raw: LavaJob,
    tag_progress: ResolutionView,
    failure_progress: ResolutionView,
    tags: Map<u32, Tag>,
    pending: Option<(LavaJob, ResolutionView, ResolutionView)>,
    answer: Step<Job>,
) -> bool {
    let (tags_reached, tags_finished) = resolves(tag_progress, tags);
    let (failures_reached, failures_finished) = resolves(failure_progress, tags);
    if !tags_finished {
        &&& pending == Some((raw, tags_reached, failure_progress))
        &&& answer == Step::<Job>::Refresh
    } else if !failures_finished {
        &&& pending == Some((raw, tags_reached, failures_reached))
        &&& answer == Step::<Job>::Refresh
    } else {
        &&& pending is None
        &&& answer matches Step::Item(job)
        &&& transforms(raw, tags_reached.found, failures_reached.found, job)
    }
}

/// One step of the sequence against the tag cache `tags`.
///
/// While a record is in hand, the walk is left alone: the next record is
/// not asked for before this one was yielded.
pub open spec fn steps(
    before: JobsView,
    tags: Map<u32, Tag>,
    after: JobsView,
    answer: Step<Job>,
) -> bool {
    match before.pending {
        Some((raw, tag_progress, failure_progress)) => {
            &&& after.paginator == before.paginator
            &&& enriches(raw, tag_progress, failure_progress, tags, after.pending, answer)
        },
        None => exists|pulled: Pull<LavaJob>|
            {
                &&& #[trigger] pulls(before.paginator, after.paginator, pulled)
                &&& match pulled {
                    Pull::Item(raw) => enriches(
                        raw,
                        unresolved(raw.tags@),
                        unresolved(raw.failure_tags@),
                        tags,
                        after.pending,
                        answer,
                    ),
                    Pull::Error(reason) => after.pending is None && answer == Step::<Job>::Error(
                        reason,
                    ),
                    Pull::Fetch(address) => after.pending is None && answer == Step::<Job>::Fetch(
                        address,
                    ),
                    Pull::End => after.pending is None && answer == Step::<Job>::End,
                }
            },
    }
}

/// Whether `job` is the record `raw` with some tags in the place of its
/// two lists of tag ids, and everything else as it was. Which tags they
/// are is not said here.
pub open spec fn is_enriched(raw: LavaJob, job: Job) -> bool {
    transforms(raw, job.tags@, job.failure_tags@, job)
}

/// The jobs among the answers to a row of steps, in their order.
pub open spec fn yielded(answers: Seq<Step<Job>>) -> Seq<Job>
    decreases answers.len(),
{
    if answers.len() == 0 {
        Seq::empty()
    } else {
        match answers.last() {
            Step::Item(job) => yielded(answers.drop_last()).push(job),
            _ => yielded(answers.drop_last()),
        }
    }
}

/// How many of the answers to a row of steps asked for a page.
pub open spec fn fetched(answers: Seq<Step<Job>>) -> nat
    decreases answers.len(),
{
    if answers.len() == 0 {
        0
    } else if answers.last() is Fetch {
        fetched(answers.drop_last()) + 1
    } else {
        fetched(answers.drop_last())
    }
}

/// Whether a consumer that starts with the sequence `start` can get
/// `answers` to its steps, one after the other, and be left with the
/// sequence `end`. The step that gives `answers[i]` is made against the tag
/// cache `caches[i]`. Whenever an answer asks for a page, the consumer
/// delivers the page of `pages` that is in turn, as long as there is one.
pub open spec fn session(
    start: JobsView,
    pages: Seq<PageView<LavaJob>>,
    caches: Seq<Map<u32, Tag>>,
    answers: Seq<Step<Job>>,
    end: JobsView,
) -> bool
    decreases answers.len(),
{
    if answers.len() == 0 {
        end == start && caches.len() == 0
    } else {
        &&& caches.len() == answers.len()
        &&& exists|before: JobsView, after: JobsView|
            {
                &&& session(start, pages, caches.drop_last(), answers.drop_last(), before)
                &&& #[trigger] steps(before, caches.last(), after, answers.last())
                &&& if answers.last() is Fetch && fetched(answers.drop_last()) < pages.len() {
                    &&& end.pending == after.pending
                    &&& served(
                        after.paginator,
                        pages[fetched(answers.drop_last()) as int],
                        end.paginator,
                    )
                } else {
                    end == after
                }
            }
    }
}

/// The sequence that has not started, at `address`.
pub open spec fn fresh(address: Seq<char>) -> JobsView {
    JobsView {
        paginator: PaginatorView { current: address, phase: Phase::<LavaJob>::Next, count: None },
        pending: None,
    }
}

/// Whether the tag cache was `tags` at every step.
pub open spec fn stable(caches: Seq<Map<u32, Tag>>, tags: Map<u32, Tag>) -> bool {
    forall|i: int| 0 <= i < caches.len() ==> #[trigger] caches[i] == tags
}

/// Whether `job` is what the record `raw` stands for while the tag cache
/// is `tags`: the record with the tags that the cache holds for its tag
/// ids and for its failure tag ids, in the order of the ids.
pub open spec fn is_resolved(raw: LavaJob, tags: Map<u32, Tag>, job: Job) -> bool {
    transforms(raw, resolvable(tags, raw.tags@), resolvable(tags, raw.failure_tags@), job)
}

/// Where a session over a chained collection stands: the walk is in step
/// with the server, and the records that it has handed out are the ones
/// that were yielded as jobs, and the one in hand.
pub open spec fn in_order(
    addresses: Seq<Seq<char>>,
    pages: Seq<PageView<LavaJob>>,
    answers: Seq<Step<Job>>,
    end: JobsView,
    turn: int,
    taken: int,
    consumed: Seq<LavaJob>,
) -> bool {
    &&& in_step(addresses, pages, fetched(answers), consumed, end.paginator, turn, taken)
    &&& consumed.len() == yielded(answers).len() + if end.pending is Some {
        1int
    } else {
        0int
    }
    &&& forall|i: int|
        0 <= i < yielded(answers).len() ==> is_enriched(consumed[i], #[trigger] yielded(answers)[i])
    &&& end.pending matches Some((raw, _, _)) ==> consumed.last() == raw
}

/// Where a session under the one tag cache `tags` stands: each job that
/// was yielded has the tags that the cache holds for its record, and the
/// work on the record in hand was right so far.
pub open spec fn in_tune(
    tags: Map<u32, Tag>,
    answers: Seq<Step<Job>>,
    end: JobsView,
    consumed: Seq<LavaJob>,
) -> bool {
    &&& forall|i: int|
        0 <= i < yielded(answers).len() ==> is_resolved(
            consumed[i],
            tags,
            #[trigger] yielded(answers)[i],
        )
    &&& end.pending matches Some((raw, tag_progress, failure_progress)) ==> {
        &&& tag_progress.ids == raw.tags@
        &&& failure_progress.ids == raw.failure_tags@
        &&& found_so_far(tag_progress, tags)
        &&& found_so_far(failure_progress, tags)
    }
}

/// Work on a record that was right so far against `tags` ends the step
/// right: with the job that the cache gives for the record, or with the
/// record still in hand.
proof fn lemma_enriches_in_tune(
    raw: LavaJob,
    tag_progress: ResolutionView,
    failure_progress: ResolutionView,
    tags: Map<u32, Tag>,
    pending: Option<(LavaJob, ResolutionView, ResolutionView)>,
    answer: Step<Job>,
)
    requires
        tag_progress.ids == raw.tags@,
        failure_progress.ids == raw.failure_tags@,
        found_so_far(tag_progress, tags),
        found_so_far(failure_progress, tags),
        enriches(raw, tag_progress, failure_progress, tags, pending, answer),
    ensures
        answer matches Step::Item(job) ==> is_resolved(raw, tags, job),
        pending matches Some((kept, tags_reached, failures_reached)) ==> {
            &&& kept == raw
            &&& tags_reached.ids == raw.tags@
            &&& failures_reached.ids == raw.failure_tags@
            &&& found_so_far(tags_reached, tags)
            &&& found_so_far(failures_reached, tags)
        },
{
    lemma_run_finds_resolvable(tag_progress, tags);
    lemma_run_finds_resolvable(failure_progress, tags);
}

/// A session over a chained collection that starts with a fresh sequence
/// at the first address keeps the records in order, and under one tag
/// cache it gives each record the tags of that cache.
proof fn lemma_session_in_order(
    addresses: Seq<Seq<char>>,
    pages: Seq<PageView<LavaJob>>,
    caches: Seq<Map<u32, Tag>>,
    tags: Map<u32, Tag>,
    answers: Seq<Step<Job>>,
    end: JobsView,
) -> (place: (int, int, Seq<LavaJob>))
    requires
        chained(addresses, pages),
        session(fresh(addresses[0]), pages, caches, answers, end),
    ensures
        in_order(addresses, pages, answers, end, place.0, place.1, place.2),
        stable(caches, tags) ==> in_tune(tags, answers, end, place.2),
        answers.len() > 0 ==> {
            &&& !(answers.last() is Error)
            &&& answers.last() matches Step::Fetch(address) ==> {
                &&& fetched(answers.drop_last()) < pages.len()
                &&& address@ == addresses[fetched(answers.drop_last()) as int]
            }
            &&& answers.last() is End ==> place.2 == collection(pages) && end.pending is None
        },
    decreases answers.len(),
{
    let start = fresh(addresses[0]);
    if answers.len() == 0 {
        lemma_fresh_walk_in_step(addresses, pages);
        (0, 0, Seq::empty())
    } else {
        let earlier = answers.drop_last();
        let last = answers.last();
        let cache = caches.last();
        let (before, after) = choose|before: JobsView, after: JobsView|
            {
                &&& session(start, pages, caches.drop_last(), earlier, before)
                &&& #[trigger] steps(before, cache, after, last)
                &&& if last is Fetch && fetched(earlier) < pages.len() {
                    &&& end.pending == after.pending
                    &&& served(after.paginator, pages[fetched(earlier) as int], end.paginator)
                } else {
                    end == after
                }
            };
        let (turn, taken, consumed) = lemma_session_in_order(
            addresses,
            pages,
            caches.drop_last(),
            tags,
            earlier,
            before,
        );
        if stable(caches, tags) {
            assert(cache == caches[caches.len() - 1]);
            assert forall|i: int| 0 <= i < caches.drop_last().len() implies #[trigger] caches.drop_last()[i]
                == tags by {
                assert(caches.drop_last()[i] == caches[i]);
            }
        }
        match before.pending {
            Some((raw, tag_progress, failure_progress)) => {
                if stable(caches, tags) {
                    lemma_enriches_in_tune(
                        raw,
                        tag_progress,
                        failure_progress,
                        tags,
                        after.pending,
                        last,
                    );
                }
                (turn, taken, consumed)
            },
            None => {
                let pulled = choose|pulled: Pull<LavaJob>|
                    {
                        &&& #[trigger] pulls(before.paginator, after.paginator, pulled)
                        &&& match pulled {
                            Pull::Item(raw) => enriches(
                                raw,
                                unresolved(raw.tags@),
                                unresolved(raw.failure_tags@),
                                cache,
                                after.pending,
                                last,
                            ),
                            Pull::Error(reason) => after.pending is None && last == Step::<
                                Job,
                            >::Error(reason),
                            Pull::Fetch(address) => after.pending is None && last == Step::<
                                Job,
                            >::Fetch(address),
                            Pull::End => after.pending is None && last == Step::<Job>::End,
                        }
                    };
                let (next_turn, next_taken) = lemma_pull_in_step(
                    addresses,
                    pages,
                    fetched(earlier),
                    consumed,
                    before.paginator,
                    after.paginator,
                    pulled,
                    turn,
                    taken,
                );
                match pulled {
                    Pull::Item(raw) => {
                        if stable(caches, tags) {
                            lemma_unresolved_is_right(raw.tags@, tags);
                            lemma_unresolved_is_right(raw.failure_tags@, tags);
                            lemma_enriches_in_tune(
                                raw,
                                unresolved(raw.tags@),
                                unresolved(raw.failure_tags@),
                                tags,
                                after.pending,
                                last,
                            );
                        }
                        (next_turn, next_taken, consumed.push(raw))
                    },
                    _ => (next_turn, next_taken, consumed),
                }
            },
        }
    }
}

/// Walking the jobs of a query against a server that does not change
/// yields every job once, in the server's order, whatever the size of the
/// pages and whatever the tag cache holds along the way.
///
/// In any session that starts with a fresh sequence at the first address:
/// no step fails; each request is for the address of the page in turn; and
/// when the sequence says that it is over, the consumer has got one job
/// for each record of the collection, in order, each with tags in the
/// place of its tag ids and everything else as the server sent it. Which
/// tags these are depends on the cache at the time; the law after this one
/// says it for a cache that stays as it is.
pub proof fn lemma_stable_jobs_are_complete(
    addresses: Seq<Seq<char>>,
    pages: Seq<PageView<LavaJob>>,
    caches: Seq<Map<u32, Tag>>,
    answers: Seq<Step<Job>>,
    end: JobsView,
)
    requires
        chained(addresses, pages),
        session(fresh(addresses[0]), pages, caches, answers, end),
        answers.len() > 0,
    ensures
        !(answers.last() is Error),
        answers.last() matches Step::Fetch(address) ==> {
            &&& fetched(answers.drop_last()) < pages.len()
            &&& address@ == addresses[fetched(answers.drop_last()) as int]
        },
        answers.last() is End ==> {
            &&& yielded(answers).len() == collection(pages).len()
            &&& forall|i: int|
                0 <= i < yielded(answers).len() ==> is_enriched(
                    collection(pages)[i],
                    #[trigger] yielded(answers)[i],
                )
        },
{
    lemma_session_in_order(addresses, pages, caches, Map::empty(), answers, end);
}

/// While neither the collection nor the tag cache changes, every job comes
/// out with exactly the tags that the cache holds for the tag ids and the
/// failure tag ids of its record, in the order of the ids; an id without a
/// tag leaves no trace, whatever refreshes it has caused.
///
/// In any session that starts with a fresh sequence at the first address
/// and meets the cache `tags` at every step: when the sequence says that
/// it is over, the jobs that were yielded are, one for one and in order,
/// the records of the collection resolved against `tags`.
pub proof fn lemma_stable_jobs_have_their_tags(
    addresses: Seq<Seq<char>>,
    pages: Seq<PageView<LavaJob>>,
    caches: Seq<Map<u32, Tag>>,
    tags: Map<u32, Tag>,
    answers: Seq<Step<Job>>,
    end: JobsView,
)
    requires
        chained(addresses, pages),
        session(fresh(addresses[0]), pages, caches, answers, end),
        stable(caches, tags),
        answers.len() > 0,
        answers.last() is End,
    ensures
        yielded(answers).len() == collection(pages).len(),
        forall|i: int|
            0 <= i < yielded(answers).len() ==> is_resolved(
                collection(pages)[i],
                tags,
                #[trigger] yielded(answers)[i],
            ),
{
    lemma_session_in_order(addresses, pages, caches, tags, answers, end);
}

/// The jobs that a query selects, one after the other, each with its tags.
#[derive(Debug)]
pub struct Jobs {
    paginator: Paginator<LavaJob>,
    state: PagingState,
}

impl View for Jobs {
    type V = JobsView;

    closed spec fn view(&self) -> JobsView {
        JobsView {
            paginator: self.paginator@,
            pending: match self.state {
                PagingState::Paging => None,
                PagingState::Transforming(raw, tags, failure_tags) => Some(
                    (raw, tags@, failure_tags@),
                ),
            },
        }
    }
}

impl Jobs {
    /// The number of jobs that match the query, as the server reported it
    /// last.
    pub fn reported_items(&self) -> (count: Option<u32>)
        ensures
            count == self@.paginator.count,
    {
        self.paginator.reported_items()
    }

    /// Goes on until the next thing happens: a job is ready, a page has to
    /// be fetched, the tag cache has to be refreshed, a pull failed, or the
    /// sequence is over.
    pub fn step(&mut self, lava: &Lava) -> (answer: Step<Job>)
        ensures
            steps(old(self)@, lava@.tags, final(self)@, answer),
    {
        let mut state = PagingState::Paging;
        std::mem::swap(&mut self.state, &mut state);
        let (raw, mut tags, mut failure_tags) = match state {
            PagingState::Transforming(raw, tags, failure_tags) => (raw, tags, failure_tags),
            PagingState::Paging => {
                let pulled = self.paginator.pull();
                match pulled {
                    Pull::Item(raw) => {
                        let tags = TagResolution::of(&raw.tags);
                        let failure_tags = TagResolution::of(&raw.failure_tags);
                        (raw, tags, failure_tags)
                    },
                    Pull::Error(reason) => {
                        return Step::Error(reason);
                    },
                    Pull::Fetch(address) => {
                        return Step::Fetch(address);
                    },
                    Pull::End => {
                        return Step::End;
                    },
                }
            },
        };
        if !tags.advance(lava) {
            self.state = PagingState::Transforming(raw, tags, failure_tags);
            return Step::Refresh;
        }
        if !failure_tags.advance(lava) {
            self.state = PagingState::Transforming(raw, tags, failure_tags);
            return Step::Refresh;
        }
        Step::Item(transform_job(raw, tags.into_tags(), failure_tags.into_tags()))
    }

    /// Takes the outcome of the page fetch that a step asked for.
    pub fn deliver(&mut self, outcome: Result<Page<LavaJob>, PaginationError>) -> (surfaced: Option<
        PaginationError,
    >)
        ensures
            delivers(old(self)@.paginator, outcome, final(self)@.paginator, surfaced),
            final(self)@.pending == old(self)@.pending,
    {
        self.paginator.deliver(outcome)
    }
}

} // verus!
