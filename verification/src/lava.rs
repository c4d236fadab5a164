//! One server as the client sees it: where its API lives, the credentials
//! to present, and the cache of its tags.

use crate::address::{join_url, parse_url, url_join, url_parse};
use crate::device::{starts, Devices};
use crate::job::{unconstrained, JobsBuilder};
use crate::joblog::{JobLogBuilder, JobLogBuilderView};
use crate::paginator::{pulls, PageView, PaginationError, Paginator, PaginatorView, Phase, Pull};
use crate::tag::Tag;
use crate::test::TestCase;
use crate::text::{decimal, signed_to_string};
use crate::worker::Worker;
use std::collections::HashMap;
use vstd::prelude::*;
use vstd::std_specs::hash::{axiom_spec_values_iter, spec_values_iter};
use vstd::std_specs::iter::IteratorSpec;
use vstd::string::StringExecFns;
use vstd::utf8::encode_utf8;

verus! {

broadcast use vstd::std_specs::hash::group_hash_axioms;

/// The value of an HTTP header, `reqwest::header::HeaderValue`. The library
/// keeps it for the transport and never looks into it.
#[verifier::external_type_specification]
#[verifier::external_body]
pub struct ExHeaderValue(reqwest::header::HeaderValue);

/// The error for a text that cannot be a header value,
/// `reqwest::header::InvalidHeaderValue`, handed on as it is.
#[verifier::external_type_specification]
#[verifier::external_body]
pub struct ExInvalidHeaderValue(reqwest::header::InvalidHeaderValue);

/// Whether a byte may stand in the value of an HTTP header: anything from
/// the space upwards but DEL, and the tab.
pub open spec fn header_byte_allowed(byte: u8) -> bool {
    byte >= 32 && byte != 127 || byte == 9
}

/// Whether `text` may be sent as the value of an HTTP header.
pub open spec fn header_text_allowed(text: Seq<char>) -> bool {
    forall|i: int|
        0 <= i < encode_utf8(text).len() ==> header_byte_allowed(#[trigger] encode_utf8(text)[i])
}

/// The bytes that a header value holds, as `HeaderValue::as_bytes` shows
/// them.
pub uninterp spec fn header_bytes(value: reqwest::header::HeaderValue) -> Seq<u8>;

/// Calls `HeaderValue::try_from` on a `String`. It accepts a text exactly
/// when each of its bytes is allowed in a header value, and the value
/// then holds the bytes of the text.
#[verifier::external_body]
fn header_value(text: String) -> (value: Result<
    reqwest::header::HeaderValue,
    reqwest::header::InvalidHeaderValue,
>)
    ensures
        match value {
            Ok(header) => header_text_allowed(text@) && header_bytes(header) == encode_utf8(text@),
            Err(_) => !header_text_allowed(text@),
        },
{
    reqwest::header::HeaderValue::try_from(text)
}

/// Why a [`Lava`] could not be set up.
#[derive(Debug)]
pub enum LavaError {
    /// The server's address is no URL.
    ParseUrlError(url::ParseError),
    /// The token cannot be sent in a header.
    InvalidToken(reqwest::header::InvalidHeaderValue),
}

/// The path of the API below a server's address.
pub open spec fn api_path() -> Seq<char> {
    "api/v0.2/"@
}

/// The header value that presents `token` to the server.
pub open spec fn token_header(token: Seq<char>) -> Seq<char> {
    "Token "@ + token
}

/// What a [`Lava`] stands for.
pub struct LavaView {
    /// The address of the API; every request is relative to it.
    pub base: Seq<char>,
    /// The bytes of the authorisation header that requests carry, if any.
    pub authorization: Option<Seq<u8>>,
    /// The tags known so far, by id.
    pub tags: Map<u32, Tag>,
}

/// A local stand-in for one server.
///
/// The cache holds each tag under the tag's own id.
#[derive(Debug)]
pub struct Lava {
    base: String,
    authorization: Option<reqwest::header::HeaderValue>,
    tags: HashMap<u32, Tag>,
}

/// Whether each tag of a cache is kept under its own id.
pub open spec fn keyed_by_id(tags: Map<u32, Tag>) -> bool {
    forall|id: u32| tags.contains_key(id) ==> (#[trigger] tags[id]).id == id
}

impl View for Lava {
    type V = LavaView;

    closed spec fn view(&self) -> LavaView {
        LavaView {
            base: self.base@,
            authorization: match self.authorization {
                Some(header) => Some(header_bytes(header)),
                None => None,
            },
            tags: self.tags@,
        }
    }
}

/// What a sequence of enriched records answers to one step.
#[derive(Debug)]
pub enum Step<T> {
    /// The next record, complete.
    Item(T),
    /// The step failed; a later one may succeed.
    Error(PaginationError),
    /// The page at this address is needed: fetch it, deliver the outcome,
    /// and step again.
    Fetch(String),
    /// A tag is unknown: refresh the tag cache, and step again.
    Refresh,
    /// The sequence is over.
    End,
}

/// What a look into the tag cache answers.
#[derive(Debug, PartialEq, Eq)]
pub enum Lookup {
    /// The tag is known.
    Found(Tag),
    /// The tag is not known: refresh the cache, then look once more.
    Refresh,
    /// The tag is not known even after a refresh: go on without it.
    Missing,
}

/// The answer to a look for `id` in `tags`. `refreshed` tells whether this
/// lookup has had its refresh already.
pub open spec fn looked_up(tags: Map<u32, Tag>, id: u32, refreshed: bool) -> Lookup {
    if tags.contains_key(id) {
        Lookup::Found(tags[id])
    } else if refreshed {
        Lookup::Missing
    } else {
        Lookup::Refresh
    }
}

/// A tag that is in the cache is found without a refresh.
pub proof fn lemma_known_tag_needs_no_refresh(tags: Map<u32, Tag>, id: u32, refreshed: bool)
    requires
        tags.contains_key(id),
    ensures
        looked_up(tags, id, refreshed) == Lookup::Found(tags[id]),
{
}

/// One lookup asks for one refresh at most: once it has had its refresh,
/// it is answered from the cache as it stands.
pub proof fn lemma_one_refresh_per_miss(before: Map<u32, Tag>, after: Map<u32, Tag>, id: u32)
    ensures
        looked_up(before, id, false) == Lookup::Refresh <==> !before.contains_key(id),
        looked_up(after, id, true) != Lookup::Refresh,
{
}

/// The cache after `items` were stored in turn, each in place of any tag
/// with the same id.
pub open spec fn stored(tags: Map<u32, Tag>, items: Seq<Tag>) -> Map<u32, Tag>
    decreases items.len(),
{
    if items.len() == 0 {
        tags
    } else {
        stored(tags, items.drop_last()).insert(items.last().id, items.last())
    }
}

/// The items that a paginator holds ready.
pub open spec fn buffered<T>(walk: PaginatorView<T>) -> Seq<T> {
    match walk.phase {
        Phase::Data(page) => page.results,
        _ => Seq::empty(),
    }
}

/// A paginator after its ready items were taken out.
pub open spec fn drained<T>(walk: PaginatorView<T>) -> PaginatorView<T> {
    match walk.phase {
        Phase::Data(page) => if page.results.len() > 0 {
            PaginatorView {
                current: walk.current,
                phase: Phase::Data(
                    PageView { count: page.count, next: page.next, results: Seq::empty() },
                ),
                count: Some(page.count),
            }
        } else {
            walk
        },
        _ => walk,
    }
}

/// Storing tags never takes a known id away.
pub proof fn lemma_stored_keeps_ids(tags: Map<u32, Tag>, items: Seq<Tag>, id: u32)
    requires
        tags.contains_key(id),
    ensures
        stored(tags, items).contains_key(id),
    decreases items.len(),
{
    if items.len() > 0 {
        lemma_stored_keeps_ids(tags, items.drop_last(), id);
    }
}

/// The progress of resolving a list of tag ids.
pub struct ResolutionView {
    /// The ids to resolve, in the order of the record.
    pub ids: Seq<u32>,
    /// How many of them are dealt with.
    pub position: nat,
    /// Whether the id in turn has had its refresh.
    pub refreshed: bool,
    /// The tags found so far.
    pub found: Seq<Tag>,
}

/// How far a resolution gets against the cache as it stands, and whether
/// that is the end of it. It stops where an id is unknown and has not had
/// its refresh; an id that is still unknown after its refresh is passed
/// over.
pub open spec fn resolves(before: ResolutionView, tags: Map<u32, Tag>) -> (ResolutionView, bool)
    decreases before.ids.len() - before.position,
{
    if before.position >= before.ids.len() {
        (before, true)
    } else {
        match looked_up(tags, before.ids[before.position as int], before.refreshed) {
            Lookup::Found(tag) => resolves(
                ResolutionView {
                    ids: before.ids,
                    position: before.position + 1,
                    refreshed: false,
                    found: before.found.push(tag),
                },
                tags,
            ),
            Lookup::Missing => resolves(
                ResolutionView {
                    ids: before.ids,
                    position: before.position + 1,
                    refreshed: false,
                    found: before.found,
                },
                tags,
            ),
            Lookup::Refresh => (
                ResolutionView {
                    ids: before.ids,
                    position: before.position,
                    refreshed: true,
                    found: before.found,
                },
                false,
            ),
        }
    }
}

/// A run never goes back, and it stops only at an id that has its refresh
/// still to come.
pub proof fn lemma_run_goes_forward(before: ResolutionView, tags: Map<u32, Tag>)
    ensures
        resolves(before, tags).0.ids == before.ids,
        resolves(before, tags).0.position >= before.position,
        !resolves(before, tags).1 ==> {
            &&& resolves(before, tags).0.refreshed
            &&& resolves(before, tags).0.position < before.ids.len()
        },
    decreases before.ids.len() - before.position,
{
    if before.position < before.ids.len() {
        match looked_up(tags, before.ids[before.position as int], before.refreshed) {
            Lookup::Found(tag) => {
                lemma_run_goes_forward(
                    ResolutionView {
                        ids: before.ids,
                        position: before.position + 1,
                        refreshed: false,
                        found: before.found.push(tag),
                    },
                    tags,
                );
            },
            Lookup::Missing => {
                lemma_run_goes_forward(
                    ResolutionView {
                        ids: before.ids,
                        position: before.position + 1,
                        refreshed: false,
                        found: before.found,
                    },
                    tags,
                );
            },
            Lookup::Refresh => {},
        }
    }
}

/// One miss costs one refresh: when a run has stopped at an unknown id,
/// the run after the refresh gets past that id, whatever the refresh has
/// made of the cache.
pub proof fn lemma_one_refresh_per_missing_id(
    before: ResolutionView,
    tags: Map<u32, Tag>,
    refreshed: Map<u32, Tag>,
)
    requires
        !resolves(before, tags).1,
    ensures
        resolves(resolves(before, tags).0, refreshed).0.position > resolves(
            before,
            tags,
        ).0.position,
{
    lemma_run_goes_forward(before, tags);
    let stopped = resolves(before, tags).0;
    match looked_up(refreshed, stopped.ids[stopped.position as int], true) {
        Lookup::Found(tag) => {
            lemma_run_goes_forward(
                ResolutionView {
                    ids: stopped.ids,
                    position: stopped.position + 1,
                    refreshed: false,
                    found: stopped.found.push(tag),
                },
                refreshed,
            );
        },
        Lookup::Missing => {
            lemma_run_goes_forward(
                ResolutionView {
                    ids: stopped.ids,
                    position: stopped.position + 1,
                    refreshed: false,
                    found: stopped.found,
                },
                refreshed,
            );
        },
        Lookup::Refresh => {},
    }
}

/// The tags that `tags` holds for `ids`, in the order of `ids`; an id
/// without a tag leaves no trace.
pub open spec fn resolvable(tags: Map<u32, Tag>, ids: Seq<u32>) -> Seq<Tag>
    decreases ids.len(),
{
    if ids.len() == 0 {
        Seq::empty()
    } else if tags.contains_key(ids.last()) {
        resolvable(tags, ids.drop_last()).push(tags[ids.last()])
    } else {
        resolvable(tags, ids.drop_last())
    }
}

/// Whether a resolution was right so far against `tags`: of the ids that
/// are dealt with, it has found exactly the tags that `tags` holds.
pub open spec fn found_so_far(progress: ResolutionView, tags: Map<u32, Tag>) -> bool {
    &&& progress.position <= progress.ids.len()
    &&& progress.found == resolvable(tags, progress.ids.take(progress.position as int))
}

/// A run against the cache that the resolution has worked with so far
/// keeps it right, and a run that finishes has found the resolvable tags
/// of all the ids.
pub proof fn lemma_run_finds_resolvable(before: ResolutionView, tags: Map<u32, Tag>)
    requires
        found_so_far(before, tags),
    ensures
        found_so_far(resolves(before, tags).0, tags),
        resolves(before, tags).0.ids == before.ids,
        resolves(before, tags).1 ==> resolves(before, tags).0.found == resolvable(
            tags,
            before.ids,
        ),
    decreases before.ids.len() - before.position,
{
    let ids = before.ids;
    if before.position >= ids.len() {
        assert(ids.take(before.position as int) =~= ids);
    } else {
        let place = before.position as int;
        let id = ids[place];
        assert(ids.take(place + 1).drop_last() =~= ids.take(place));
        assert(ids.take(place + 1).last() == id);
        match looked_up(tags, id, before.refreshed) {
            Lookup::Found(tag) => {
                lemma_run_finds_resolvable(
                    ResolutionView {
                        ids,
                        position: before.position + 1,
                        refreshed: false,
                        found: before.found.push(tag),
                    },
                    tags,
                );
            },
            Lookup::Missing => {
                lemma_run_finds_resolvable(
                    ResolutionView {
                        ids,
                        position: before.position + 1,
                        refreshed: false,
                        found: before.found,
                    },
                    tags,
                );
            },
            Lookup::Refresh => {},
        }
    }
}

/// A resolution that has not begun is right against any cache.
pub proof fn lemma_unresolved_is_right(ids: Seq<u32>, tags: Map<u32, Tag>)
    ensures
        found_so_far(unresolved(ids), tags),
{
    assert(ids.take(0) =~= Seq::<u32>::empty());
}

/// A resolution carried on to its end while the cache stays as it is, one
/// refresh after the other.
pub open spec fn settled(before: ResolutionView, tags: Map<u32, Tag>) -> ResolutionView
    decreases before.ids.len() - before.position, if before.refreshed { 0nat } else { 1nat },
{
    if before.position >= before.ids.len() {
        before
    } else {
        match looked_up(tags, before.ids[before.position as int], before.refreshed) {
            Lookup::Found(tag) => settled(
                ResolutionView {
                    ids: before.ids,
                    position: before.position + 1,
                    refreshed: false,
                    found: before.found.push(tag),
                },
                tags,
            ),
            Lookup::Missing => settled(
                ResolutionView {
                    ids: before.ids,
                    position: before.position + 1,
                    refreshed: false,
                    found: before.found,
                },
                tags,
            ),
            Lookup::Refresh => settled(
                ResolutionView {
                    ids: before.ids,
                    position: before.position,
                    refreshed: true,
                    found: before.found,
                },
                tags,
            ),
        }
    }
}

/// Carrying a resolution on is one run against the cache, a refresh where
/// the run stopped, and so on.
pub proof fn lemma_settled_by_runs(before: ResolutionView, tags: Map<u32, Tag>)
    ensures
        settled(before, tags) == if resolves(before, tags).1 {
            resolves(before, tags).0
        } else {
            settled(resolves(before, tags).0, tags)
        },
    decreases before.ids.len() - before.position,
{
    if before.position < before.ids.len() {
        match looked_up(tags, before.ids[before.position as int], before.refreshed) {
            Lookup::Found(tag) => {
                lemma_settled_by_runs(
                    ResolutionView {
                        ids: before.ids,
                        position: before.position + 1,
                        refreshed: false,
                        found: before.found.push(tag),
                    },
                    tags,
                );
            },
            Lookup::Missing => {
                lemma_settled_by_runs(
                    ResolutionView {
                        ids: before.ids,
                        position: before.position + 1,
                        refreshed: false,
                        found: before.found,
                    },
                    tags,
                );
            },
            Lookup::Refresh => {},
        }
    }
}

/// While the cache stays as it is, a record's ids resolve to exactly the
/// tags that the cache holds for them, in the order of the ids. The ids
/// without a tag are left out, whatever refreshes they caused.
pub proof fn lemma_settled_is_resolvable(before: ResolutionView, tags: Map<u32, Tag>)
    requires
        before.position <= before.ids.len(),
    ensures
        settled(before, tags).found == before.found + resolvable(
            tags,
            before.ids.skip(before.position as int),
        ),
        settled(before, tags).position == before.ids.len(),
        settled(before, tags).ids == before.ids,
    decreases before.ids.len() - before.position, if before.refreshed { 0nat } else { 1nat },
{
    let rest = before.ids.skip(before.position as int);
    if before.position >= before.ids.len() {
        assert(rest =~= Seq::<u32>::empty());
        assert(before.found + resolvable(tags, rest) =~= before.found);
    } else {
        let id = before.ids[before.position as int];
        let later = before.ids.skip(before.position as int + 1);
        lemma_resolvable_first(tags, rest);
        assert(rest.drop_first() =~= later);
        assert(rest[0] == id);
        match looked_up(tags, id, before.refreshed) {
            Lookup::Found(tag) => {
                let next = ResolutionView {
                    ids: before.ids,
                    position: before.position + 1,
                    refreshed: false,
                    found: before.found.push(tag),
                };
                lemma_settled_is_resolvable(next, tags);
                assert(before.found.push(tag) + resolvable(tags, later) =~= before.found + (
                seq![tag] + resolvable(tags, later)));
            },
            Lookup::Missing => {
                let next = ResolutionView {
                    ids: before.ids,
                    position: before.position + 1,
                    refreshed: false,
                    found: before.found,
                };
                lemma_settled_is_resolvable(next, tags);
            },
            Lookup::Refresh => {
                let next = ResolutionView {
                    ids: before.ids,
                    position: before.position,
                    refreshed: true,
                    found: before.found,
                };
                lemma_settled_is_resolvable(next, tags);
            },
        }
    }
}

/// The resolvable tags of a list, told from its first id.
proof fn lemma_resolvable_first(tags: Map<u32, Tag>, ids: Seq<u32>)
    requires
        ids.len() > 0,
    ensures
        resolvable(tags, ids) == if tags.contains_key(ids[0]) {
            seq![tags[ids[0]]] + resolvable(tags, ids.drop_first())
        } else {
            resolvable(tags, ids.drop_first())
        },
    decreases ids.len(),
{
    if ids.len() == 1 {
        assert(ids.drop_last() =~= Seq::<u32>::empty());
        assert(ids.drop_first() =~= Seq::<u32>::empty());
        assert(resolvable(tags, ids.drop_last()) =~= Seq::<Tag>::empty());
        if tags.contains_key(ids[0]) {
            assert(resolvable(tags, ids) =~= seq![tags[ids[0]]] + resolvable(
                tags,
                ids.drop_first(),
            ));
        }
    } else {
        let front = ids.drop_last();
        lemma_resolvable_first(tags, front);
        assert(front.drop_first() =~= ids.drop_first().drop_last());
        assert(ids.drop_first().last() == ids.last());
        assert(front[0] == ids[0]);
        let tail = resolvable(tags, front.drop_first());
        if tags.contains_key(ids.last()) {
            if tags.contains_key(ids[0]) {
                assert((seq![tags[ids[0]]] + tail).push(tags[ids.last()]) =~= seq![tags[ids[0]]]
                    + tail.push(tags[ids.last()]));
            }
        }
    }
}

/// A list of tag ids on its way to the tags that they stand for.
#[derive(Debug)]
pub struct TagResolution {
    ids: Vec<u32>,
    position: usize,
    refreshed: bool,
    found: Vec<Tag>,
}

impl View for TagResolution {
    type V = ResolutionView;

    closed spec fn view(&self) -> ResolutionView {
        ResolutionView {
            ids: self.ids@,
            position: self.position as nat,
            refreshed: self.refreshed,
            found: self.found@,
        }
    }
}

/// The resolution of a list of tag ids before it has begun.
pub open spec fn unresolved(ids: Seq<u32>) -> ResolutionView {
    ResolutionView { ids, position: 0, refreshed: false, found: Seq::empty() }
}

impl TagResolution {
    /// A resolution of `ids` that has not started.
    pub fn new(ids: Vec<u32>) -> (resolution: Self)
        ensures
            resolution@ == unresolved(ids@),
    {
        TagResolution { ids, position: 0, refreshed: false, found: Vec::new() }
    }

    /// A resolution of a copy of `ids` that has not started.
    pub fn of(ids: &Vec<u32>) -> (resolution: Self)
        ensures
            resolution@ == unresolved(ids@),
    {
        let mut copy: Vec<u32> = Vec::new();
        let mut i: usize = 0;
        while i < ids.len()
            invariant
                i <= ids@.len(),
                copy@ == ids@.take(i as int),
            decreases ids@.len() - i,
        {
            copy.push(ids[i]);
            assert(copy@ =~= ids@.take(i + 1));
            i += 1;
        }
        assert(ids@.take(i as int) =~= ids@);
        TagResolution::new(copy)
    }

    /// Resolves ids against the cache of `lava` until the list is done,
    /// or until an id asks for a refresh. Answers whether the list is done.
    pub fn advance(&mut self, lava: &Lava) -> (finished: bool)
        ensures
            (final(self)@, finished) == resolves(old(self)@, lava@.tags),
    {
        while self.position < self.ids.len()
            invariant
                resolves(self@, lava@.tags) == resolves(old(self)@, lava@.tags),
            decreases self.ids@.len() - self.position,
        {
            match lava.tag(self.ids[self.position], self.refreshed) {
                Lookup::Found(tag) => {
                    self.found.push(tag);
                    self.position += 1;
                    self.refreshed = false;
                },
                Lookup::Missing => {
                    self.position += 1;
                    self.refreshed = false;
                },
                Lookup::Refresh => {
                    self.refreshed = true;
                    return false;
                },
            }
        }
        true
    }

    /// The tags that were found, in the order of their ids.
    pub fn into_tags(self) -> (tags: Vec<Tag>)
        ensures
            tags@ == self@.found,
    {
        self.found
    }
}

/// The address of the test cases of one job: `jobs/`, the job's id and
/// `tests/`, each joined to what came before. `None` where a join fails.
pub open spec fn test_cases_url(base: Seq<char>, job_id: i64) -> Option<Seq<char>> {
    match url_join(base, "jobs/"@) {
        Some(jobs) => match url_join(jobs, decimal(job_id as int) + "/"@) {
            Some(job) => url_join(job, "tests/"@),
            None => None,
        },
        None => None,
    }
}

impl Lava {
    #[verifier::type_invariant]
    spec fn cache_keyed_by_id(&self) -> bool {
        keyed_by_id(self.tags@)
    }

    /// A stand-in for the server at `url`. With a `token`, every request
    /// will carry it in an authorisation header.
    pub fn new(url: &str, token: Option<String>) -> (made: Result<Lava, LavaError>)
        ensures
            match made {
                Ok(lava) => {
                    &&& url_parse(url@) matches Some(host)
                    &&& url_join(host, api_path()) == Some(lava@.base)
                    &&& token matches Some(secret) ==> header_text_allowed(token_header(secret@))
                    &&& lava@.authorization == match token {
                        Some(secret) => Some(encode_utf8(token_header(secret@))),
                        None => None,
                    }
                    &&& lava@.tags == Map::<u32, Tag>::empty()
                },
                Err(LavaError::ParseUrlError(_)) => match url_parse(url@) {
                    Some(host) => url_join(host, api_path()) is None,
                    None => true,
                },
                Err(LavaError::InvalidToken(_)) => {
                    &&& url_parse(url@) matches Some(host)
                    &&& url_join(host, api_path()) is Some
                    &&& token matches Some(secret)
                    &&& !header_text_allowed(token_header(secret@))
                },
            },
    {
        let host = match parse_url(url) {
            Ok(host) => host,
            Err(reason) => {
                return Err(LavaError::ParseUrlError(reason));
            },
        };
        let base = match join_url(host.as_str(), "api/v0.2/") {
            Ok(base) => base,
            Err(reason) => {
                return Err(LavaError::ParseUrlError(reason));
            },
        };
        let authorization = match token {
            Some(secret) => {
                let text = String::from_str("Token ").concat(secret.as_str());
                match header_value(text) {
                    Ok(value) => Some(value),
                    Err(reason) => {
                        return Err(LavaError::InvalidToken(reason));
                    },
                }
            },
            None => None,
        };
        Ok(Lava { base, authorization, tags: HashMap::new() })
    }

    /// The address of the API.
    pub fn base(&self) -> (address: &str)
        ensures
            address@ == self@.base,
    {
        self.base.as_str()
    }

    /// The authorisation header to send with every request, if any.
    pub fn authorization(&self) -> (value: Option<&reqwest::header::HeaderValue>)
        ensures
            match value {
                Some(header) => self@.authorization == Some(header_bytes(*header)),
                None => self@.authorization is None,
            },
    {
        self.authorization.as_ref()
    }

    /// Looks for a tag in the cache. A tag that is there is found at once.
    /// One that is not asks for a refresh of the cache the first time, and
    /// counts as missing when the refresh did not bring it.
    pub fn tag(&self, tag: u32, refreshed: bool) -> (answer: Lookup)
        ensures
            answer == looked_up(self@.tags, tag, refreshed),
            answer matches Lookup::Found(found) ==> found.id == tag,
            keyed_by_id(self@.tags),
    {
        proof {
            use_type_invariant(self);
        }
        match self.tags.get(&tag) {
            Some(found) => Lookup::Found(found.clone()),
            None => if refreshed {
                Lookup::Missing
            } else {
                Lookup::Refresh
            },
        }
    }

    /// Puts one tag into the cache under its id, in place of any tag with
    /// the same id.
    pub fn store(&mut self, tag: Tag)
        ensures
            final(self)@.tags == old(self)@.tags.insert(tag.id, tag),
            final(self)@.base == old(self)@.base,
            final(self)@.authorization == old(self)@.authorization,
            keyed_by_id(final(self)@.tags),
    {
        proof {
            use_type_invariant(&*self);
        }
        let mut tags: HashMap<u32, Tag> = HashMap::new();
        std::mem::swap(&mut self.tags, &mut tags);
        tags.insert(tag.id, tag);
        std::mem::swap(&mut self.tags, &mut tags);
    }
    /// A walk over the collection at `path` below the API's address.
    pub fn collection<T>(&self, path: &str) -> (walk: Result<Paginator<T>, url::ParseError>)
        ensures
            match walk {
                Ok(paginator) => {
                    &&& url_join(self@.base, path@) matches Some(address)
                    &&& paginator@ == (PaginatorView {
                        current: address,
                        phase: Phase::<T>::Next,
                        count: None,
                    })
                },
                Err(_) => url_join(self@.base, path@) is None,
            },
    {
        match join_url(self.base.as_str(), path) {
            Ok(address) => Ok(Paginator::new(address)),
            Err(reason) => Err(reason),
        }
    }

    /// Starts a refresh of the tag cache: a walk over all the server's
    /// tags, to be fed to [`Lava::absorb`] until it is done.
    pub fn refresh_tags(&self) -> (walk: Result<Paginator<Tag>, PaginationError>)
        ensures
            match walk {
                Ok(paginator) => {
                    &&& url_join(self@.base, "tags/"@) matches Some(address)
                    &&& paginator@ == (PaginatorView {
                        current: address,
                        phase: Phase::<Tag>::Next,
                        count: None,
                    })
                },
                Err(reason) => {
                    &&& url_join(self@.base, "tags/"@) is None
                    &&& reason is ParseNextError
                },
            },
    {
        match self.collection("tags/") {
            Ok(paginator) => Ok(paginator),
            Err(reason) => Err(PaginationError::ParseNextError(reason)),
        }
    }

    /// Stores every tag that `walk` holds ready, then says how the refresh
    /// goes on: with a page to fetch, with a failure that ends it, or not
    /// at all because the walk is over. Tags that the walk does not bring
    /// stay in the cache.
    pub fn absorb(&mut self, walk: &mut Paginator<Tag>) -> (answer: Pull<Tag>)
        ensures
            final(self)@.tags == stored(old(self)@.tags, buffered(old(walk)@)),
            final(self)@.base == old(self)@.base,
            final(self)@.authorization == old(self)@.authorization,
            pulls(drained(old(walk)@), final(walk)@, answer),
            !(answer is Item),
    {
        let ghost ready = buffered(old(walk)@);
        let ghost mut taken: int = 0;
        proof {
            assert(ready.take(0) =~= Seq::<Tag>::empty());
        }
        loop
            invariant
                0 <= taken <= ready.len(),
                ready == buffered(old(walk)@),
                self@.base == old(self)@.base,
                self@.authorization == old(self)@.authorization,
                self@.tags == stored(old(self)@.tags, ready.take(taken)),
                taken == 0 ==> walk@ == old(walk)@,
                taken > 0 ==> walk@ == (PaginatorView {
                    current: old(walk)@.current,
                    phase: Phase::Data(
                        PageView {
                            count: old(walk)@.phase->Data_0.count,
                            next: old(walk)@.phase->Data_0.next,
                            results: ready.skip(taken),
                        },
                    ),
                    count: Some(old(walk)@.phase->Data_0.count),
                }) && old(walk)@.phase is Data,
            decreases ready.len() - taken,
        {
            let ghost before = walk@;
            let answer = walk.pull();
            match answer {
                Pull::Item(tag) => {
                    proof {
                        assert(ready.skip(taken).drop_first() =~= ready.skip(taken + 1));
                        assert(ready.take(taken + 1).drop_last() =~= ready.take(taken));
                        assert(ready.skip(taken)[0] == ready[taken]);
                    }
                    self.store(tag);
                    proof {
                        taken = taken + 1;
                    }
                },
                other => {
                    proof {
                        assert(ready.take(taken) =~= ready);
                        assert(ready.skip(taken) =~= Seq::<Tag>::empty());
                        assert(before == drained(old(walk)@));
                    }
                    return other;
                },
            }
        }
    }

    /// A walk over all the workers of the server.
    pub fn workers(&self) -> (walk: Result<Paginator<Worker>, url::ParseError>)
        ensures
            match walk {
                Ok(paginator) => {
                    &&& url_join(self@.base, "workers/"@) matches Some(address)
                    &&& paginator@ == (PaginatorView {
                        current: address,
                        phase: Phase::<Worker>::Next,
                        count: None,
                    })
                },
                Err(_) => url_join(self@.base, "workers/"@) is None,
            },
    {
        self.collection("workers/")
    }
    /// All the tags in the cache, in no particular order: each tag that is
    /// cached under its id, once.
    pub fn tags(&self) -> (all: Vec<Tag>)
        ensures
            all@.to_set() == self@.tags.values(),
            all@.len() == self@.tags.len(),
            forall|i: int|
                0 <= i < all@.len() ==> self@.tags.contains_key((#[trigger] all@[i]).id)
                    && self@.tags[all@[i].id] == all@[i],
    {
        proof {
            use_type_invariant(self);
        }
        let mut all: Vec<Tag> = Vec::new();
        for tag in iter: self.tags.values()
            invariant
                all@.len() == iter.index(),
                forall|j: int| 0 <= j < all@.len() ==> all@[j] == *iter.seq()[j],
        {
            all.push(tag.clone());
        }
        proof {
            let walked = spec_values_iter(&self.tags).remaining();
            axiom_spec_values_iter(&self.tags);
            assert(all@ =~= walked.unref());
            assert forall|i: int| 0 <= i < all@.len() implies self@.tags.contains_key(
                (#[trigger] all@[i]).id,
            ) && self@.tags[all@[i].id] == all@[i] by {
                assert(all@.to_set().contains(all@[i]));
                assert(self@.tags.values().contains(all@[i]));
                let key = choose|key: u32|
                    self@.tags.contains_key(key) && self@.tags[key] == all@[i];
                assert(self@.tags[key].id == key);
            }
        }
        all
    }

    /// The sequence of all the devices of the server.
    pub fn devices(&self) -> (devices: Result<Devices, url::ParseError>)
        ensures
            starts(self@.base, devices),
    {
        Devices::new(self)
    }

    /// A query for the jobs of the server, to be narrowed down and then
    /// turned into a sequence.
    pub fn jobs(&self) -> (builder: JobsBuilder<'_>)
        ensures
            builder@ == unconstrained(self@.base),
    {
        JobsBuilder::new(self)
    }

    /// A request for the log of the job with the given id, to be narrowed
    /// down to a range of lines and then read.
    pub fn log(&self, id: i64) -> (builder: JobLogBuilder<'_>)
        ensures
            builder@ == (JobLogBuilderView { base: self@.base, id, start: 0, end: 0 }),
    {
        JobLogBuilder::new(self, id)
    }

    /// A walk over the test cases of the job with the given id.
    pub fn test_cases(&self, job_id: i64) -> (walk: Result<Paginator<TestCase>, url::ParseError>)
        ensures
            match walk {
                Ok(paginator) => {
                    &&& test_cases_url(self@.base, job_id) matches Some(address)
                    &&& paginator@ == (PaginatorView {
                        current: address,
                        phase: Phase::<TestCase>::Next,
                        count: None,
                    })
                },
                Err(_) => test_cases_url(self@.base, job_id) is None,
            },
    {
        let jobs = match join_url(self.base.as_str(), "jobs/") {
            Ok(jobs) => jobs,
            Err(reason) => {
                return Err(reason);
            },
        };
        let segment = signed_to_string(job_id).concat("/");
        let job = match join_url(jobs.as_str(), segment.as_str()) {
            Ok(job) => job,
            Err(reason) => {
                return Err(reason);
            },
        };
        match join_url(job.as_str(), "tests/") {
            Ok(address) => Ok(Paginator::new(address)),
            Err(reason) => Err(reason),
        }
    }
}

} // verus!
