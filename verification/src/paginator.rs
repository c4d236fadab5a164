//! Cursor pagination: one page of a collection at a time, following the
//! server's `next` link.
//!
//! The paginator never performs a request. It says which address has to be
//! fetched next, takes the outcome of that fetch, and hands out the buffered
//! items one by one, in the order in which the server listed them.

use crate::address::{
    has_scheme, join_url, replace_scheme, url_join, url_scheme, url_with_scheme,
};
use crate::text::utf8_text;
use std::collections::VecDeque;
use vstd::prelude::*;
use vstd::utf8::{decode_utf8, valid_utf8};

verus! {

/// A failed request, as far as the library looks at it.
#[derive(Clone, Debug, PartialEq, Eq)]
pub struct RequestError {
    /// The HTTP status of the response, where the failure came with one.
    pub status: Option<u16>,
    /// A description of the failure for the user.
    pub message: String,
}

/// What can go wrong while walking a paginated collection.
#[derive(Debug, PartialEq, Eq)]
#[non_exhaustive]
pub enum PaginationError {
    /// The request failed, or its answer was not a page.
    ReqWest(RequestError),
    /// A redirection came without a `Location` header.
    RedirectMissing,
    /// The `Location` header of a redirection is not UTF-8.
    RedirectInvalidUTF8,
    /// The server redirected more often than the client is willing to follow.
    TooManyRedirects,
    /// A `next` link or a redirect target is not a URL, not even relative
    /// to the address that it came from.
    ParseNextError(url::ParseError),
    /// A redirection away from a secure address could not be kept secure.
    RedirectDowngrade,
}

/// One page of a collection as the server sends it.
#[derive(Debug)]
pub struct Page<T> {
    /// The size of the whole collection, as the server counted it for this page.
    pub count: u32,
    /// Where the following page is, if there is one.
    pub next: Option<String>,
    /// The items of this page, in the server's order.
    pub results: VecDeque<T>,
}

/// What a [`Page`] stands for.
pub struct PageView<T> {
    pub count: u32,
    pub next: Option<Seq<char>>,
    pub results: Seq<T>,
}

impl<T> View for Page<T> {
    type V = PageView<T>;

    open spec fn view(&self) -> PageView<T> {
        PageView {
            count: self.count,
            next: match self.next {
                Some(link) => Some(link@),
                None => None,
            },
            results: self.results@,
        }
    }
}

#[derive(Debug)]
enum State<T> {
    Data(Page<T>),
    Next,
    Failed,
}

/// The phase a paginator is in.
pub enum Phase<T> {
    /// A page is buffered; its remaining items are handed out first.
    Data(PageView<T>),
    /// The page at the current address has to be fetched.
    Next,
    /// The walk has failed for good: a `next` link was no URL, or a
    /// redirection could not be followed. Nothing more will come.
    Failed,
}

/// What a [`Paginator`] stands for.
pub struct PaginatorView<T> {
    /// The address of the page that was asked for last.
    pub current: Seq<char>,
    pub phase: Phase<T>,
    /// The collection size that the server reported last.
    pub count: Option<u32>,
}

/// A pull-based walk over a paginated collection.
#[derive(Debug)]
pub struct Paginator<T> {
    current: String,
    next: State<T>,
    count: Option<u32>,
}

impl<T> View for Paginator<T> {
    type V = PaginatorView<T>;

    closed spec fn view(&self) -> PaginatorView<T> {
        PaginatorView {
            current: self.current@,
            phase: match self.next {
                State::Data(page) => Phase::Data(page@),
                State::Next => Phase::Next,
                State::Failed => Phase::Failed,
            },
            count: self.count,
        }
    }
}

/// What a paginator does when it is asked for buffered data: `before` is
/// its state at that moment, `after` the state it is left in, and `found`
/// what it hands out.
///
/// When the buffered page has run out, its `next` link is read against the
/// address that the page came from, so that the server may send the link
/// in full or relative to that address. Only a link that is no URL even
/// so ends the walk.
pub open spec fn looks_at_buffer<T>(
    before: PaginatorView<T>,
    after: PaginatorView<T>,
    found: Result<Option<T>, PaginationError>,
) -> bool {
    match before.phase {
        Phase::Data(page) => {
            &&& after.count == Some(page.count)
            &&& if page.results.len() > 0 {
                &&& found == Ok::<Option<T>, PaginationError>(Some(page.results[0]))
                &&& after.phase == Phase::Data(
                    PageView { count: page.count, next: page.next, results: page.results.drop_first() },
                )
                &&& after.current == before.current
            } else {
                match page.next {
                    None => {
                        &&& found == Ok::<Option<T>, PaginationError>(None)
                        &&& after.phase == before.phase
                        &&& after.current == before.current
                    },
                    Some(link) => match url_join(before.current, link) {
                        Some(address) => {
                            &&& found == Ok::<Option<T>, PaginationError>(None)
                            &&& after.phase == Phase::<T>::Next
                            &&& after.current == address
                        },
                        None => {
                            &&& found matches Err(PaginationError::ParseNextError(_))
                            &&& after.phase == Phase::<T>::Failed
                            &&& after.current == before.current
                        },
                    },
                }
            }
        },
        _ => found == Ok::<Option<T>, PaginationError>(None) && after == before,
    }
}

/// What a consumer is told when it pulls on a paginator.
#[derive(Debug)]
pub enum Pull<T> {
    /// The next item of the collection.
    Item(T),
    /// The pull failed; a later pull may succeed.
    Error(PaginationError),
    /// The page at this address is needed: fetch it, hand the outcome to
    /// [`Paginator::deliver`], and pull again.
    Fetch(String),
    /// The collection is exhausted, or the walk has failed for good.
    End,
}

/// How one pull changes a paginator and what it answers.
pub open spec fn pulls<T>(before: PaginatorView<T>, after: PaginatorView<T>, answer: Pull<T>) -> bool {
    exists|found: Result<Option<T>, PaginationError>|
        {
            &&& #[trigger] looks_at_buffer(before, after, found)
            &&& match found {
                Ok(Some(item)) => answer == Pull::Item(item),
                Err(reason) => answer == Pull::<T>::Error(reason),
                Ok(None) => match after.phase {
                    Phase::Next => answer matches Pull::Fetch(address) && address@ == after.current,
                    _ => answer == Pull::<T>::End,
                },
            }
        }
}

/// Whether a failed fetch ends the walk. A request that failed, or whose
/// answer was no page, may be made again. A redirection that cannot be
/// followed ends the walk: asking again would only meet it again.
pub open spec fn ends_walk(reason: PaginationError) -> bool {
    !(reason is ReqWest)
}

/// How the outcome of a fetch changes a paginator that waits for a page.
/// A page is buffered, and its count is the collection's size from then
/// on. A failure is surfaced; it leaves the paginator waiting for the same
/// address, unless it ends the walk. In any other phase the outcome is
/// dropped.
pub open spec fn delivers<T>(
    before: PaginatorView<T>,
    outcome: Result<Page<T>, PaginationError>,
    after: PaginatorView<T>,
    surfaced: Option<PaginationError>,
) -> bool {
    &&& after.current == before.current
    &&& match before.phase {
        Phase::Next => match outcome {
            Ok(page) => {
                &&& after.phase == Phase::Data(page@)
                &&& after.count == Some(page.count)
                &&& surfaced is None
            },
            Err(reason) => {
                &&& after.phase == if ends_walk(reason) {
                    Phase::<T>::Failed
                } else {
                    Phase::<T>::Next
                }
                &&& after.count == before.count
                &&& surfaced == Some(reason)
            },
        },
        _ => after.phase == before.phase && after.count == before.count && surfaced is None,
    }
}

impl<T> Paginator<T> {
    /// A paginator that starts by asking for the page at `url`.
    pub fn new(url: String) -> (paginator: Self)
        ensures
            paginator@ == (PaginatorView { current: url@, phase: Phase::<T>::Next, count: None }),
    {
        Paginator { current: url, next: State::Next, count: None }
    }

    /// The size of the collection as the server reported it on the page
    /// that was read last; `None` before the first page was read.
    pub fn reported_items(&self) -> (count: Option<u32>)
        ensures
            count == self@.count,
    {
        self.count
    }

    /// The address of the page that was asked for last.
    pub fn current(&self) -> (address: &str)
        ensures
            address@ == self@.current,
    {
        self.current.as_str()
    }

    /// Moves on after the buffered page ran out, given the address that its
    /// `next` link stands for: a good link becomes the address to fetch, a
    /// malformed one ends the walk for good.
    pub fn follow(&mut self, link: Result<String, url::ParseError>) -> (moved: Result<
        (),
        PaginationError,
    >)
        ensures
            final(self)@.count == old(self)@.count,
            match link {
                Ok(address) => {
                    &&& moved == Ok::<(), PaginationError>(())
                    &&& final(self)@.phase == Phase::<T>::Next
                    &&& final(self)@.current == address@
                },
                Err(reason) => {
                    &&& moved == Err::<(), PaginationError>(PaginationError::ParseNextError(reason))
                    &&& final(self)@.phase == Phase::<T>::Failed
                    &&& final(self)@.current == old(self)@.current
                },
            },
    {
        match link {
            Ok(address) => {
                self.next = State::Next;
                self.current = address;
                Ok(())
            },
            Err(reason) => {
                self.next = State::Failed;
                Err(PaginationError::ParseNextError(reason))
            },
        }
    }
    /// Takes the next item out of the buffered page. When the page has run
    /// out, its `next` link decides: read against the address of the page,
    /// it becomes the address to fetch; a link that is no URL even so fails
    /// the walk for good; and without a link the paginator stays as it is.
    pub fn next_data(&mut self) -> (found: Result<Option<T>, PaginationError>)
        ensures
            looks_at_buffer(old(self)@, final(self)@, found),
    {
        let mut link: Option<Result<String, url::ParseError>> = None;
        match &mut self.next {
            State::Data(page) => {
                self.count = Some(page.count);
                match page.results.pop_front() {
                    Some(item) => {
                        assert(page.results@ =~= old(self)@.phase->Data_0.results.drop_first());
                        return Ok(Some(item));
                    },
                    None => {},
                }
                match &page.next {
                    Some(text) => {
                        link = Some(join_url(self.current.as_str(), text.as_str()));
                    },
                    None => {},
                }
            },
            _ => {},
        }
        match link {
            Some(parsed) => match self.follow(parsed) {
                Ok(()) => Ok(None),
                Err(reason) => Err(reason),
            },
            None => Ok(None),
        }
    }

    /// Answers one pull: an item from the buffer where there is one, else
    /// the address that has to be fetched, else the end of the collection.
    pub fn pull(&mut self) -> (answer: Pull<T>)
        ensures
            pulls(old(self)@, final(self)@, answer),
    {
        let found = self.next_data();
        match found {
            Ok(Some(item)) => Pull::Item(item),
            Err(reason) => Pull::Error(reason),
            Ok(None) => match self.next {
                State::Next => Pull::Fetch(self.current.clone()),
                _ => Pull::End,
            },
        }
    }

    /// Takes the outcome of fetching the current address. A page is buffered
    /// for the following pulls. A failure is handed back to be surfaced.
    /// After a failed request the same address stays due, so that the next
    /// pull asks for it again; after a redirection that could not be
    /// followed the walk is over.
    pub fn deliver(&mut self, outcome: Result<Page<T>, PaginationError>) -> (surfaced: Option<
        PaginationError,
    >)
        ensures
            delivers(old(self)@, outcome, final(self)@, surfaced),
    {
        match self.next {
            State::Next => match outcome {
                Ok(page) => {
                    self.count = Some(page.count);
                    self.next = State::Data(page);
                    None
                },
                Err(reason) => {
                    let again = match &reason {
                        PaginationError::ReqWest(_) => true,
                        _ => false,
                    };
                    if !again {
                        self.next = State::Failed;
                    }
                    Some(reason)
                },
            },
            _ => None,
        }
    }
}

/// A collection that stays as it is while it is walked: page `i` is served
/// at `addresses[i]`, every page but the last links to the page after it,
/// in full or relative to its own address, and the last page links to
/// nothing.
pub open spec fn chained<T>(addresses: Seq<Seq<char>>, pages: Seq<PageView<T>>) -> bool {
    &&& pages.len() == addresses.len()
    &&& pages.len() > 0
    &&& forall|i: int|
        0 <= i < pages.len() - 1 ==> ((#[trigger] pages[i]).next matches Some(link) && url_join(
            addresses[i],
            link,
        ) == Some(addresses[i + 1]))
    &&& pages.last().next is None
}

/// All the items of `pages`, in the server's order.
pub open spec fn collection<T>(pages: Seq<PageView<T>>) -> Seq<T>
    decreases pages.len(),
{
    if pages.len() == 0 {
        Seq::empty()
    } else {
        collection(pages.drop_last()) + pages.last().results
    }
}

/// The items among the answers to a row of pulls, in their order.
pub open spec fn items<T>(answers: Seq<Pull<T>>) -> Seq<T>
    decreases answers.len(),
{
    if answers.len() == 0 {
        Seq::empty()
    } else {
        match answers.last() {
            Pull::Item(item) => items(answers.drop_last()).push(item),
            _ => items(answers.drop_last()),
        }
    }
}

/// How many of the answers to a row of pulls asked for a page.
pub open spec fn fetches<T>(answers: Seq<Pull<T>>) -> nat
    decreases answers.len(),
{
    if answers.len() == 0 {
        0
    } else if answers.last() is Fetch {
        fetches(answers.drop_last()) + 1
    } else {
        fetches(answers.drop_last())
    }
}

/// Whether `after` is the paginator `before` once the server has answered
/// its request with `page`.
pub open spec fn served<T>(
    before: PaginatorView<T>,
    page: PageView<T>,
    after: PaginatorView<T>,
) -> bool {
    exists|sent: Page<T>| sent@ == page && #[trigger] delivers(before, Ok(sent), after, None)
}

/// Whether a consumer that starts with the paginator `start` can get
/// `answers` to its pulls, one after the other, and be left with the
/// paginator `end`. Whenever an answer asks for a page, the consumer
/// delivers the page of `pages` that is in turn, as long as there is one.
pub open spec fn session<T>(
    start: PaginatorView<T>,
    pages: Seq<PageView<T>>,
    answers: Seq<Pull<T>>,
    end: PaginatorView<T>,
) -> bool
    decreases answers.len(),
{
    if answers.len() == 0 {
        end == start
    } else {
        exists|before: PaginatorView<T>, after: PaginatorView<T>|
            {
                &&& session(start, pages, answers.drop_last(), before)
                &&& #[trigger] pulls(before, after, answers.last())
                &&& if answers.last() is Fetch && fetches(answers.drop_last()) < pages.len() {
                    served(after, pages[fetches(answers.drop_last()) as int], end)
                } else {
                    end == after
                }
            }
    }
}

/// Where a walk over a chained collection stands: `fetched` pages were
/// delivered and `consumed` are the items handed out so far; `turn` is the
/// page that the paginator waits for or hands out, `taken` the number of
/// items of that page that were handed out.
pub open spec fn in_step<T>(
    addresses: Seq<Seq<char>>,
    pages: Seq<PageView<T>>,
    fetched: nat,
    consumed: Seq<T>,
    walk: PaginatorView<T>,
    turn: int,
    taken: int,
) -> bool {
    &&& 0 <= turn < pages.len()
    &&& match walk.phase {
        Phase::Next => {
            &&& walk.current == addresses[turn]
            &&& fetched == turn
            &&& consumed == collection(pages.take(turn))
        },
        Phase::Data(page) => {
            &&& walk.current == addresses[turn]
            &&& 0 <= taken <= pages[turn].results.len()
            &&& page.results == pages[turn].results.skip(taken)
            &&& page.next == pages[turn].next
            &&& fetched == turn + 1
            &&& consumed == collection(pages.take(turn)) + pages[turn].results.take(taken)
        },
        Phase::Failed => false,
    }
}

/// A fresh walk from the first address of a chained collection is in step
/// with it.
pub proof fn lemma_fresh_walk_in_step<T>(addresses: Seq<Seq<char>>, pages: Seq<PageView<T>>)
    requires
        chained(addresses, pages),
    ensures
        in_step(
            addresses,
            pages,
            0,
            Seq::empty(),
            PaginatorView { current: addresses[0], phase: Phase::<T>::Next, count: None },
            0,
            0,
        ),
{
    assert(pages.take(0) =~= Seq::<PageView<T>>::empty());
}

/// One pull keeps a walk in step with a chained collection. An item that
/// is handed out is the next one of the collection; a request is for the
/// address of the page in turn, and the walk is in step again once that
/// page was delivered; the walk is over only when the whole collection
/// was handed out; and no pull fails.
pub proof fn lemma_pull_in_step<T>(
    addresses: Seq<Seq<char>>,
    pages: Seq<PageView<T>>,
    fetched: nat,
    consumed: Seq<T>,
    before: PaginatorView<T>,
    after: PaginatorView<T>,
    answer: Pull<T>,
    turn: int,
    taken: int,
) -> (place: (int, int))
    requires
        chained(addresses, pages),
        in_step(addresses, pages, fetched, consumed, before, turn, taken),
        pulls(before, after, answer),
    ensures
        match answer {
            Pull::Item(item) => in_step(
                addresses,
                pages,
                fetched,
                consumed.push(item),
                after,
                place.0,
                place.1,
            ),
            Pull::Fetch(address) => {
                &&& fetched < pages.len()
                &&& address@ == addresses[fetched as int]
                &&& forall|end: PaginatorView<T>| #[trigger]
                    served(after, pages[fetched as int], end) ==> in_step(
                        addresses,
                        pages,
                        fetched + 1,
                        consumed,
                        end,
                        place.0,
                        place.1,
                    )
            },
            Pull::End => {
                &&& consumed == collection(pages)
                &&& in_step(addresses, pages, fetched, consumed, after, place.0, place.1)
            },
            Pull::Error(_) => false,
        },
{
    let found = choose|found: Result<Option<T>, PaginationError>|
        {
            &&& #[trigger] looks_at_buffer(before, after, found)
            &&& match found {
                Ok(Some(item)) => answer == Pull::Item(item),
                Err(reason) => answer == Pull::<T>::Error(reason),
                Ok(None) => match after.phase {
                    Phase::Next => answer matches Pull::Fetch(address) && address@ == after.current,
                    _ => answer == Pull::<T>::End,
                },
            }
        };
    match before.phase {
        Phase::Next => {
            lemma_delivery_in_step(addresses, pages, consumed, after, turn);
            (turn, 0)
        },
        Phase::Data(page) => {
            let whole = pages[turn].results;
            if page.results.len() > 0 {
                assert(whole.skip(taken).drop_first() =~= whole.skip(taken + 1));
                assert(whole.take(taken + 1) =~= whole.take(taken).push(whole[taken]));
                assert(whole.skip(taken)[0] == whole[taken]);
                assert(collection(pages.take(turn)) + whole.take(taken + 1) =~= (collection(
                    pages.take(turn),
                ) + whole.take(taken)).push(whole[taken]));
                (turn, taken + 1)
            } else {
                assert(taken == whole.len());
                assert(whole.take(taken) =~= whole);
                assert(pages.take(turn + 1).drop_last() =~= pages.take(turn));
                assert(pages.take(turn + 1).last() == pages[turn]);
                match page.next {
                    None => {
                        assert(turn == pages.len() - 1);
                        assert(pages.take(turn + 1) =~= pages);
                        (turn, taken)
                    },
                    Some(link) => {
                        assert(turn < pages.len() - 1);
                        lemma_delivery_in_step(addresses, pages, consumed, after, turn + 1);
                        (turn + 1, 0)
                    },
                }
            }
        },
        Phase::Failed => (turn, taken),
    }
}

/// A walk that waits for the page in turn is in step again once that page
/// was delivered.
proof fn lemma_delivery_in_step<T>(
    addresses: Seq<Seq<char>>,
    pages: Seq<PageView<T>>,
    consumed: Seq<T>,
    waiting: PaginatorView<T>,
    turn: int,
)
    requires
        0 <= turn < pages.len(),
        waiting.phase is Next,
        waiting.current == addresses[turn],
        consumed == collection(pages.take(turn)),
    ensures
        forall|end: PaginatorView<T>| #[trigger]
            served(waiting, pages[turn], end) ==> in_step(
                addresses,
                pages,
                (turn + 1) as nat,
                consumed,
                end,
                turn,
                0,
            ),
{
    assert forall|end: PaginatorView<T>| #[trigger]
        served(waiting, pages[turn], end) implies in_step(
        addresses,
        pages,
        (turn + 1) as nat,
        consumed,
        end,
        turn,
        0,
    ) by {
        let sent = choose|sent: Page<T>|
            sent@ == pages[turn] && #[trigger] delivers(waiting, Ok(sent), end, None);
        let whole = pages[turn].results;
        assert(whole.skip(0) =~= whole);
        assert(whole.take(0) =~= Seq::<T>::empty());
        assert(collection(pages.take(turn)) + whole.take(0) =~= collection(pages.take(turn)));
    }
}

/// A session over a chained collection that starts with a fresh walk from
/// the first address is always in step with the server.
proof fn lemma_session_in_step<T>(
    addresses: Seq<Seq<char>>,
    pages: Seq<PageView<T>>,
    answers: Seq<Pull<T>>,
    end: PaginatorView<T>,
) -> (place: (int, int))
    requires
        chained(addresses, pages),
        session(
            PaginatorView { current: addresses[0], phase: Phase::<T>::Next, count: None },
            pages,
            answers,
            end,
        ),
    ensures
        in_step(addresses, pages, fetches(answers), items(answers), end, place.0, place.1),
        answers.len() > 0 ==> {
            &&& !(answers.last() is Error)
            &&& answers.last() matches Pull::Fetch(address) ==> {
                &&& fetches(answers.drop_last()) < pages.len()
                &&& address@ == addresses[fetches(answers.drop_last()) as int]
            }
            &&& answers.last() is End ==> items(answers) == collection(pages)
        },
    decreases answers.len(),
{
    let start = PaginatorView { current: addresses[0], phase: Phase::<T>::Next, count: None };
    if answers.len() == 0 {
        lemma_fresh_walk_in_step(addresses, pages);
        (0, 0)
    } else {
        let earlier = answers.drop_last();
        let last = answers.last();
        let (before, after) = choose|before: PaginatorView<T>, after: PaginatorView<T>|
            {
                &&& session(start, pages, earlier, before)
                &&& #[trigger] pulls(before, after, last)
                &&& if last is Fetch && fetches(earlier) < pages.len() {
                    served(after, pages[fetches(earlier) as int], end)
                } else {
                    end == after
                }
            };
        let (turn, taken) = lemma_session_in_step(addresses, pages, earlier, before);
        lemma_pull_in_step(
            addresses,
            pages,
            fetches(earlier),
            items(earlier),
            before,
            after,
            last,
            turn,
            taken,
        )
    }
}

/// Walking a collection that does not change yields every item of it once,
/// in the server's order, whatever the size of its pages.
///
/// In any session that starts with a fresh walk from the first address: no
/// pull fails; each request is for the address of the page in turn; and
/// when the walk says that it is over, the consumer has got exactly the
/// items of the collection, in order.
pub proof fn lemma_stable_walk_is_complete<T>(
    addresses: Seq<Seq<char>>,
    pages: Seq<PageView<T>>,
    answers: Seq<Pull<T>>,
    end: PaginatorView<T>,
)
    requires
        chained(addresses, pages),
        session(
            PaginatorView { current: addresses[0], phase: Phase::<T>::Next, count: None },
            pages,
            answers,
            end,
        ),
        answers.len() > 0,
    ensures
        !(answers.last() is Error),
        answers.last() matches Pull::Fetch(address) ==> {
            &&& fetches(answers.drop_last()) < pages.len()
            &&& address@ == addresses[fetches(answers.drop_last()) as int]
        },
        answers.last() is End ==> items(answers) == collection(pages),
{
    lemma_session_in_step(addresses, pages, answers, end);
}

/// How many redirections one page fetch follows.
pub const MAX_REDIRECTS: u8 = 9;

/// Whether going from `origin` to `target` leaves a secure connection for
/// an insecure one.
pub open spec fn is_downgrade(origin: Seq<char>, target: Seq<char>) -> bool {
    url_scheme(origin) == Some("https"@) && url_scheme(target) == Some("http"@)
}

/// Where a redirection leads.
pub enum Redirected {
    /// The request goes on at this address.
    To(Seq<char>),
    /// The `Location` header is no URL, not even relative to the request.
    Unparsed,
    /// The target is insecure and cannot be made secure.
    Insecure,
}

/// The address that a request for `current`, first made for `origin`, turns
/// to when it is redirected to `location`. A target that would leave a
/// secure connection is forced back to the secure scheme.
pub open spec fn redirect_target(
    origin: Seq<char>,
    current: Seq<char>,
    location: Seq<char>,
) -> Redirected {
    match url_join(current, location) {
        None => Redirected::Unparsed,
        Some(joined) => if is_downgrade(origin, joined) {
            match url_with_scheme(joined, "https"@) {
                Some(forced) => if is_downgrade(origin, forced) {
                    Redirected::Insecure
                } else {
                    Redirected::To(forced)
                },
                None => Redirected::Insecure,
            }
        } else {
            Redirected::To(joined)
        },
    }
}

/// A redirection never takes a request that started on a secure address to
/// an insecure one.
pub proof fn lemma_redirect_stays_secure(
    origin: Seq<char>,
    current: Seq<char>,
    location: Seq<char>,
    target: Seq<char>,
)
    requires
        url_scheme(origin) == Some("https"@),
        redirect_target(origin, current, location) == Redirected::To(target),
    ensures
        url_scheme(target) != Some("http"@),
{
}

/// What a [`Request`] stands for.
pub struct RequestView {
    /// The address that the request was first made for.
    pub origin: Seq<char>,
    /// The address to ask now.
    pub target: Seq<char>,
    /// The redirections followed so far.
    pub redirects: nat,
}

/// One page fetch on its way through the server's redirections.
#[derive(Debug)]
pub struct Request {
    origin: String,
    target: String,
    redirects: u8,
}

impl View for Request {
    type V = RequestView;

    closed spec fn view(&self) -> RequestView {
        RequestView { origin: self.origin@, target: self.target@, redirects: self.redirects as nat }
    }
}

impl Request {
    /// A request for the page at `url`, not redirected yet.
    pub fn new(url: String) -> (request: Self)
        ensures
            request@ == (RequestView { origin: url@, target: url@, redirects: 0 }),
    {
        let origin = url.clone();
        Request { origin, target: url, redirects: 0 }
    }

    /// The address to ask now.
    pub fn target(&self) -> (address: &str)
        ensures
            address@ == self@.target,
    {
        self.target.as_str()
    }

    /// The redirections followed so far.
    pub fn redirects(&self) -> (followed: u8)
        ensures
            followed == self@.redirects,
    {
        self.redirects
    }

    /// The request that follows a redirection, given the raw `Location`
    /// header of the response, if it had one.
    ///
    /// At most [`MAX_REDIRECTS`] redirections are followed. The header is
    /// read relative to the address that was asked. A request that started
    /// on `https` is never sent on to `http`: such a target has its scheme
    /// forced back.
    pub fn redirected(self, location: Option<&[u8]>) -> (next: Result<Request, PaginationError>)
        ensures
            match next {
                Ok(request) => {
                    &&& self@.redirects < MAX_REDIRECTS
                    &&& location matches Some(bytes)
                    &&& valid_utf8(bytes@)
                    &&& redirect_target(self@.origin, self@.target, decode_utf8(bytes@))
                        == Redirected::To(request@.target)
                    &&& request@.origin == self@.origin
                    &&& request@.redirects == self@.redirects + 1
                    &&& !is_downgrade(request@.origin, request@.target)
                },
                Err(PaginationError::TooManyRedirects) => self@.redirects >= MAX_REDIRECTS,
                Err(PaginationError::RedirectMissing) => {
                    &&& self@.redirects < MAX_REDIRECTS
                    &&& location is None
                },
                Err(PaginationError::RedirectInvalidUTF8) => {
                    &&& self@.redirects < MAX_REDIRECTS
                    &&& location matches Some(bytes)
                    &&& !valid_utf8(bytes@)
                },
                Err(PaginationError::ParseNextError(_)) => {
                    &&& self@.redirects < MAX_REDIRECTS
                    &&& location matches Some(bytes)
                    &&& valid_utf8(bytes@)
                    &&& redirect_target(self@.origin, self@.target, decode_utf8(bytes@))
                        == Redirected::Unparsed
                },
                Err(PaginationError::RedirectDowngrade) => {
                    &&& self@.redirects < MAX_REDIRECTS
                    &&& location matches Some(bytes)
                    &&& valid_utf8(bytes@)
                    &&& redirect_target(self@.origin, self@.target, decode_utf8(bytes@))
                        == Redirected::Insecure
                },
                Err(PaginationError::ReqWest(_)) => false,
            },
    {
        if self.redirects >= MAX_REDIRECTS {
            return Err(PaginationError::TooManyRedirects);
        }
        let bytes = match location {
            Some(bytes) => bytes,
            None => {
                return Err(PaginationError::RedirectMissing);
            },
        };
        let text = match utf8_text(bytes) {
            Some(text) => text,
            None => {
                return Err(PaginationError::RedirectInvalidUTF8);
            },
        };
        let joined = match join_url(self.target.as_str(), text) {
            Ok(joined) => joined,
            Err(reason) => {
                return Err(PaginationError::ParseNextError(reason));
            },
        };
        let target = if leaves_secure(self.origin.as_str(), joined.as_str()) {
            match replace_scheme(joined.as_str(), "https") {
                Some(forced) => {
                    if leaves_secure(self.origin.as_str(), forced.as_str()) {
                        return Err(PaginationError::RedirectDowngrade);
                    }
                    forced
                },
                None => {
                    return Err(PaginationError::RedirectDowngrade);
                },
            }
        } else {
            joined
        };
        Ok(Request { origin: self.origin, target, redirects: self.redirects + 1 })
    }
}

/// Whether a request first made for `origin` would leave a secure
/// connection by going to `target`.
pub fn leaves_secure(origin: &str, target: &str) -> (leaves: bool)
    ensures
        leaves == is_downgrade(origin@, target@),
{
    has_scheme(origin, "https") && has_scheme(target, "http")
}

} // verus!
