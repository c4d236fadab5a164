//! Job logs: the request for a log, and the lines of what comes back.
//!
//! Like the paginator, nothing here performs a request. The types say what
//! has to be asked or read next and take what came of it.

use crate::address::{
    append_path_segments, pair_texts, texts, url_with_pairs, url_with_segments, with_query_pairs,
};
use crate::lava::Lava;
use crate::paginator::RequestError;
use crate::text::{decimal, signed_to_string, str_equal, unsigned_to_string, LabelError};
use vstd::prelude::*;
use vstd::string::StringExecFns;

verus! {

/// The level of a log entry.
#[derive(Clone, Copy, Debug, PartialEq, Eq, Structural)]
pub enum JobLogLevel {
    Debug,
    Info,
    Warning,
    Error,
    Results,
    Target,
    Input,
    Feedback,
    Exception,
}

impl JobLogLevel {
    /// The text that stands for this level on the wire.
    pub open spec fn label(&self) -> Seq<char> {
        match self {
            JobLogLevel::Debug => "debug"@,
            JobLogLevel::Info => "info"@,
            JobLogLevel::Warning => "warning"@,
            JobLogLevel::Error => "error"@,
            JobLogLevel::Results => "results"@,
            JobLogLevel::Target => "target"@,
            JobLogLevel::Input => "input"@,
            JobLogLevel::Feedback => "feedback"@,
            JobLogLevel::Exception => "exception"@,
        }
    }

    /// Renders this level as the server spells it.
    pub fn to_string(&self) -> (text: String)
        ensures
            text@ == self.label(),
    {
        match self {
            JobLogLevel::Debug => String::from_str("debug"),
            JobLogLevel::Info => String::from_str("info"),
            JobLogLevel::Warning => String::from_str("warning"),
            JobLogLevel::Error => String::from_str("error"),
            JobLogLevel::Results => String::from_str("results"),
            JobLogLevel::Target => String::from_str("target"),
            JobLogLevel::Input => String::from_str("input"),
            JobLogLevel::Feedback => String::from_str("feedback"),
            JobLogLevel::Exception => String::from_str("exception"),
        }
    }

    /// Reads a level from the server's spelling, which must match exactly.
    pub fn from_str(text: &str) -> (parsed: Result<JobLogLevel, LabelError>)
        ensures
            match parsed {
                Ok(value) => value.label() == text@,
                Err(_) => forall|value: JobLogLevel| value.label() != text@,
            },
    {
        if str_equal(text, "debug") {
            Ok(JobLogLevel::Debug)
        } else if str_equal(text, "info") {
            Ok(JobLogLevel::Info)
        } else if str_equal(text, "warning") {
            Ok(JobLogLevel::Warning)
        } else if str_equal(text, "error") {
            Ok(JobLogLevel::Error)
        } else if str_equal(text, "results") {
            Ok(JobLogLevel::Results)
        } else if str_equal(text, "target") {
            Ok(JobLogLevel::Target)
        } else if str_equal(text, "input") {
            Ok(JobLogLevel::Input)
        } else if str_equal(text, "feedback") {
            Ok(JobLogLevel::Feedback)
        } else if str_equal(text, "exception") {
            Ok(JobLogLevel::Exception)
        } else {
            Err(LabelError::VariantNotFound)
        }
    }
}

/// Why a log could not be read.
#[derive(Debug, PartialEq, Eq)]
pub enum JobLogError {
    /// The request failed.
    RequestError(RequestError),
    /// The server has no log for the job.
    NoData,
}

/// The HTTP status by which the server says that it has no log.
pub const NOT_FOUND: u16 = 404;

/// The error that a failed request for a log is reported as: the lack of a
/// log where the server answered "not found", else the failure itself.
pub open spec fn reported(failure: RequestError) -> JobLogError {
    if failure.status == Some(NOT_FOUND) {
        JobLogError::NoData
    } else {
        JobLogError::RequestError(failure)
    }
}

/// What a [`JobLogBuilder`] stands for.
pub struct JobLogBuilderView {
    /// The address of the server's API.
    pub base: Seq<char>,
    /// The job whose log is wanted.
    pub id: i64,
    /// The first line wanted; 0 for the beginning.
    pub start: u64,
    /// The line to stop at; 0 for the end.
    pub end: u64,
}

/// A request for a job's log in the making.
#[derive(Debug)]
pub struct JobLogBuilder<'a> {
    lava: &'a Lava,
    id: i64,
    start: u64,
    end: u64,
}

impl<'a> View for JobLogBuilder<'a> {
    type V = JobLogBuilderView;

    closed spec fn view(&self) -> JobLogBuilderView {
        JobLogBuilderView { base: self.lava@.base, id: self.id, start: self.start, end: self.end }
    }
}

impl<'a> JobLogBuilder<'a> {
    /// A request for the whole log of the job `id`.
    pub fn new(lava: &'a Lava, id: i64) -> (builder: Self)
        ensures
            builder@ == (JobLogBuilderView { base: lava@.base, id, start: 0, end: 0 }),
    {
        Self { lava, id, start: 0, end: 0 }
    }

    /// Start at this line.
    pub fn start(self, start: u64) -> (builder: Self)
        ensures
            builder@ == (JobLogBuilderView { start, ..self@ }),
    {
        let mut builder = self;
        builder.start = start;
        builder
    }

    /// Stop at this line.
    pub fn end(self, end: u64) -> (builder: Self)
        ensures
            builder@ == (JobLogBuilderView { end, ..self@ }),
    {
        let mut builder = self;
        builder.end = end;
        builder
    }

    /// The log as the server sends it, in chunks of bytes.
    pub fn raw(self) -> (log: JobLogRaw)
        ensures
            log@ == (JobLogRawView { request: self@, state: LogRequest::Initial }),
    {
        JobLogRaw::new(self.lava, self.id, self.start, self.end)
    }

    /// The log, line by line.
    pub fn log(self) -> (log: JobLog)
        ensures
            log@ == (JobLogView {
                pending: Seq::empty(),
                raw: JobLogRawView { request: self@, state: LogRequest::Initial },
            }),
    {
        JobLog::new(self.lava, self.id, self.start, self.end)
    }
}

/// How far the request for a log has got.
#[derive(Clone, Copy, Debug, PartialEq, Eq, Structural)]
pub enum LogRequest {
    /// Nothing was asked yet.
    Initial,
    /// The request is on its way.
    Request,
    /// The answer is being read.
    Stream,
    /// There is nothing more to read.
    Done,
}

impl LogRequest {
    /// The name of the state.
    pub open spec fn label(&self) -> Seq<char> {
        match self {
            LogRequest::Initial => "Initial"@,
            LogRequest::Request => "Request"@,
            LogRequest::Stream => "Stream"@,
            LogRequest::Done => "Done"@,
        }
    }

    /// The name of the state, for debugging output.
    pub fn name(&self) -> (text: &'static str)
        ensures
            text@ == self.label(),
    {
        match self {
            LogRequest::Initial => "Initial",
            LogRequest::Request => "Request",
            LogRequest::Stream => "Stream",
            LogRequest::Done => "Done",
        }
    }
}

/// What a [`JobLogRaw`] stands for.
pub struct JobLogRawView {
    pub request: JobLogBuilderView,
    pub state: LogRequest,
}

/// The range of lines asked for, as query pairs: a start and an end, each
/// only where it is not 0.
pub open spec fn range_pairs(start: u64, end: u64) -> Seq<(Seq<char>, Seq<char>)> {
    (if start != 0 {
        seq![("start"@, decimal(start as int))]
    } else {
        Seq::empty()
    }) + (if end != 0 {
        seq![("end"@, decimal(end as int))]
    } else {
        Seq::empty()
    })
}

/// The address of a job's log: below the API's address the segments
/// `jobs`, the job's id, `logs` and an empty one, then the range of lines.
/// `None` where it cannot be built.
pub open spec fn log_url(request: JobLogBuilderView) -> Option<Seq<char>> {
    match url_with_segments(
        request.base,
        seq!["jobs"@, decimal(request.id as int), "logs"@, ""@],
    ) {
        Some(path) => url_with_pairs(path, range_pairs(request.start, request.end)),
        None => None,
    }
}

/// What has to happen next for a log to go on.
#[derive(Debug, PartialEq, Eq)]
pub enum LogPoll {
    /// Send a request to this address, and report the response.
    Send(String),
    /// Wait for the response, and report it.
    Await,
    /// Read the next chunk of the answer, and report it.
    Read,
    /// The request cannot be made: the address of the log cannot be built.
    Unaddressable,
    /// The log is over.
    End,
}

/// How a poll changes a raw log and what it answers. The first poll
/// starts the request, if the address of the log can be built; after that
/// a poll only says what the log waits for.
pub open spec fn polls(before: JobLogRawView, after: JobLogRawView, next: LogPoll) -> bool {
    &&& after.request == before.request
    &&& match before.state {
        LogRequest::Initial => match log_url(before.request) {
            Some(address) => {
                &&& next matches LogPoll::Send(text)
                &&& text@ == address
                &&& after.state == LogRequest::Request
            },
            None => next == LogPoll::Unaddressable && after.state == LogRequest::Done,
        },
        LogRequest::Request => next == LogPoll::Await && after.state == LogRequest::Request,
        LogRequest::Stream => next == LogPoll::Read && after.state == LogRequest::Stream,
        LogRequest::Done => next == LogPoll::End && after.state == LogRequest::Done,
    }
}

/// The state of a raw log after the response to its request came in: a
/// good response opens the stream, a failed request ends the log. A log
/// that does not wait for a response stays as it is.
pub open spec fn after_response(state: LogRequest, outcome: Result<(), RequestError>) -> LogRequest {
    if state == LogRequest::Request {
        match outcome {
            Ok(()) => LogRequest::Stream,
            Err(_) => LogRequest::Done,
        }
    } else {
        state
    }
}

/// The state of a raw log after a read of its stream: the end of the
/// stream ends the log, anything else leaves it reading.
pub open spec fn after_chunk(state: LogRequest, ended: bool) -> LogRequest {
    if ended && state == LogRequest::Stream {
        LogRequest::Done
    } else {
        state
    }
}

/// The log of a job as the server sends it.
#[derive(Debug)]
pub struct JobLogRaw {
    base: String,
    id: i64,
    start: u64,
    end: u64,
    state: LogRequest,
}

impl View for JobLogRaw {
    type V = JobLogRawView;

    closed spec fn view(&self) -> JobLogRawView {
        JobLogRawView {
            request: JobLogBuilderView {
                base: self.base@,
                id: self.id,
                start: self.start,
                end: self.end,
            },
            state: self.state,
        }
    }
}

impl JobLogRaw {
    fn new(lava: &Lava, id: i64, start: u64, end: u64) -> (log: Self)
        ensures
            log@ == (JobLogRawView {
                request: JobLogBuilderView { base: lava@.base, id, start, end },
                state: LogRequest::Initial,
            }),
    {
        Self { base: String::from_str(lava.base()), id, start, end, state: LogRequest::Initial }
    }

    /// The address to ask for the log.
    pub fn url(&self) -> (address: Option<String>)
        ensures
            match address {
                Some(text) => log_url(self@.request) == Some(text@),
                None => log_url(self@.request) is None,
            },
    {
        let mut segments: Vec<String> = Vec::new();
        segments.push(String::from_str("jobs"));
        segments.push(signed_to_string(self.id));
        segments.push(String::from_str("logs"));
        segments.push(String::from_str(""));
        assert(texts(segments@) =~= seq!["jobs"@, decimal(self.id as int), "logs"@, ""@]);
        let path = match append_path_segments(self.base.as_str(), &segments) {
            Some(path) => path,
            None => {
                return None;
            },
        };
        let mut pairs: Vec<(String, String)> = Vec::new();
        if self.start != 0 {
            pairs.push((String::from_str("start"), unsigned_to_string(self.start)));
        }
        if self.end != 0 {
            pairs.push((String::from_str("end"), unsigned_to_string(self.end)));
        }
        assert(pair_texts(pairs@) =~= range_pairs(self.start, self.end));
        with_query_pairs(path, &pairs)
    }

    /// Says what has to happen next. The first poll starts the request.
    pub fn poll(&mut self) -> (next: LogPoll)
        ensures
            polls(old(self)@, final(self)@, next),
    {
        match self.state {
            LogRequest::Initial => match self.url() {
                Some(address) => {
                    self.state = LogRequest::Request;
                    LogPoll::Send(address)
                },
                None => {
                    self.state = LogRequest::Done;
                    LogPoll::Unaddressable
                },
            },
            LogRequest::Request => LogPoll::Await,
            LogRequest::Stream => LogPoll::Read,
            LogRequest::Done => LogPoll::End,
        }
    }

    /// Takes the response to the request. A good response opens the
    /// stream. A failed request ends the log; it is reported as the lack
    /// of a log where the server answered "not found", else as it is.
    pub fn on_response(&mut self, outcome: Result<(), RequestError>) -> (surfaced: Option<
        JobLogError,
    >)
        ensures
            final(self)@.request == old(self)@.request,
            final(self)@.state == after_response(old(self)@.state, outcome),
            surfaced == match outcome {
                Ok(()) => None,
                Err(failure) => Some(reported(failure)),
            },
    {
        let waiting = match self.state {
            LogRequest::Request => true,
            _ => false,
        };
        match outcome {
            Ok(()) => {
                if waiting {
                    self.state = LogRequest::Stream;
                }
                None
            },
            Err(failure) => {
                if waiting {
                    self.state = LogRequest::Done;
                }
                let missing = match failure.status {
                    Some(status) => status == NOT_FOUND,
                    None => false,
                };
                if missing {
                    Some(JobLogError::NoData)
                } else {
                    Some(JobLogError::RequestError(failure))
                }
            },
        }
    }

    /// Takes what reading the stream gave: a chunk, a failure, or the end
    /// of the stream, which ends the log.
    pub fn on_chunk(&mut self, chunk: Option<Result<Vec<u8>, RequestError>>) -> (item: Option<
        Result<Vec<u8>, JobLogError>,
    >)
        ensures
            final(self)@.request == old(self)@.request,
            final(self)@.state == after_chunk(old(self)@.state, chunk is None),
            item == match chunk {
                Some(Ok(bytes)) => Some(Ok::<Vec<u8>, JobLogError>(bytes)),
                Some(Err(failure)) => Some(
                    Err::<Vec<u8>, JobLogError>(JobLogError::RequestError(failure)),
                ),
                None => None,
            },
    {
        match chunk {
            Some(Ok(bytes)) => Some(Ok(bytes)),
            Some(Err(failure)) => Some(Err(JobLogError::RequestError(failure))),
            None => {
                match self.state {
                    LogRequest::Stream => {
                        self.state = LogRequest::Done;
                    },
                    _ => {},
                }
                None
            },
        }
    }
}

/// The byte that ends a line.
pub const NEWLINE: u8 = 10;

/// The place of the first line end in `bytes`, or `None` without one.
pub open spec fn line_end(bytes: Seq<u8>) -> Option<int> {
    if exists|i: int| 0 <= i < bytes.len() && bytes[i] == NEWLINE {
        Some(choose|i: int| is_first_line_end(bytes, i))
    } else {
        None
    }
}

/// Whether the first line end in `bytes` is at `i`.
pub open spec fn is_first_line_end(bytes: Seq<u8>, i: int) -> bool {
    &&& 0 <= i < bytes.len()
    &&& bytes[i] == NEWLINE
    &&& forall|j: int| 0 <= j < i ==> bytes[j] != NEWLINE
}

/// The first line end of `bytes` is where the definition says.
pub proof fn lemma_line_end(bytes: Seq<u8>, i: int)
    requires
        is_first_line_end(bytes, i),
    ensures
        line_end(bytes) == Some(i),
{
    let found = choose|k: int| is_first_line_end(bytes, k);
    assert(is_first_line_end(bytes, found));
    if found < i {
        assert(bytes[found] != NEWLINE);
    }
    if i < found {
        assert(bytes[i] != NEWLINE);
    }
}

/// What a [`JobLog`] stands for.
pub struct JobLogView {
    /// The bytes that were read and not handed out yet.
    pub pending: Seq<u8>,
    pub raw: JobLogRawView,
}

/// The first complete line of `pending`, if there is one: what an entry is
/// read from, and what stays behind. The entry is the line with its end,
/// without the marker in its first byte.
pub open spec fn first_line(pending: Seq<u8>) -> Option<(Seq<u8>, Seq<u8>)> {
    match line_end(pending) {
        Some(end) => Some((pending.subrange(1, end + 1), pending.skip(end + 1))),
        None => None,
    }
}

/// The log of a job, cut into lines.
#[derive(Debug)]
pub struct JobLog {
    buf: Vec<u8>,
    raw: JobLogRaw,
}

impl View for JobLog {
    type V = JobLogView;

    closed spec fn view(&self) -> JobLogView {
        JobLogView { pending: self.buf@, raw: self.raw@ }
    }
}

/// What a line-wise log answers to a poll.
#[derive(Debug, PartialEq, Eq)]
pub enum LogStep {
    /// The bytes of the next entry.
    Entry(Vec<u8>),
    /// Nothing is complete: this has to happen next.
    Raw(LogPoll),
}

fn find_line_end(bytes: &Vec<u8>) -> (end: Option<usize>)
    ensures
        match end {
            Some(i) => line_end(bytes@) == Some(i as int) && is_first_line_end(bytes@, i as int),
            None => line_end(bytes@) is None,
        },
{
    let mut i: usize = 0;
    while i < bytes.len()
        invariant
            i <= bytes@.len(),
            forall|j: int| 0 <= j < i ==> bytes@[j] != NEWLINE,
        decreases bytes@.len() - i,
    {
        if bytes[i] == NEWLINE {
            proof {
                lemma_line_end(bytes@, i as int);
            }
            return Some(i);
        }
        i += 1;
    }
    None
}

impl JobLog {
    fn new(lava: &Lava, id: i64, start: u64, end: u64) -> (log: Self)
        ensures
            log@ == (JobLogView {
                pending: Seq::empty(),
                raw: JobLogRawView {
                    request: JobLogBuilderView { base: lava@.base, id, start, end },
                    state: LogRequest::Initial,
                },
            }),
    {
        let raw = JobLogRaw::new(lava, id, start, end);
        Self { buf: Vec::new(), raw }
    }

    /// Hands out the next entry where a complete line is pending, else
    /// says what the request needs next. Bytes after the last line end
    /// wait for the rest of their line; when the log ends before it came,
    /// they are dropped.
    pub fn poll(&mut self) -> (step: LogStep)
        ensures
            match first_line(old(self)@.pending) {
                Some((entry, rest)) => {
                    &&& step matches LogStep::Entry(bytes)
                    &&& bytes@ == entry
                    &&& final(self)@.pending == rest
                    &&& final(self)@.raw == old(self)@.raw
                },
                None => {
                    &&& step matches LogStep::Raw(next)
                    &&& polls(old(self)@.raw, final(self)@.raw, next)
                    &&& final(self)@.pending == old(self)@.pending
                },
            },
    {
        match find_line_end(&self.buf) {
            Some(end) => {
                assert(end < self.buf.len());
                let rest = self.buf.split_off(end + 1);
                let mut line = Vec::new();
                std::mem::swap(&mut self.buf, &mut line);
                self.buf = rest;
                line.remove(0);
                proof {
                    let pending = old(self)@.pending;
                    assert(line@ =~= pending.subrange(1, end + 1));
                    assert(self.buf@ =~= pending.skip(end + 1));
                }
                LogStep::Entry(line)
            },
            None => LogStep::Raw(self.raw.poll()),
        }
    }

    /// Takes the response to the request.
    pub fn on_response(&mut self, outcome: Result<(), RequestError>) -> (surfaced: Option<
        JobLogError,
    >)
        ensures
            final(self)@.pending == old(self)@.pending,
            final(self)@.raw.request == old(self)@.raw.request,
            final(self)@.raw.state == after_response(old(self)@.raw.state, outcome),
            surfaced == match outcome {
                Ok(()) => None,
                Err(failure) => Some(reported(failure)),
            },
    {
        self.raw.on_response(outcome)
    }

    /// Takes what reading the stream gave. A chunk is put behind the
    /// pending bytes; a failure is handed back to be surfaced.
    pub fn on_chunk(&mut self, chunk: Option<Result<Vec<u8>, RequestError>>) -> (surfaced: Option<
        JobLogError,
    >)
        ensures
            final(self)@.raw.request == old(self)@.raw.request,
            final(self)@.raw.state == after_chunk(old(self)@.raw.state, chunk is None),
            final(self)@.pending == match chunk {
                Some(Ok(bytes)) => old(self)@.pending + bytes@,
                _ => old(self)@.pending,
            },
            surfaced == match chunk {
                Some(Err(failure)) => Some(JobLogError::RequestError(failure)),
                _ => None,
            },
    {
        match self.raw.on_chunk(chunk) {
            Some(Ok(mut bytes)) => {
                self.buf.append(&mut bytes);
                None
            },
            Some(Err(reason)) => Some(reason),
            None => None,
        }
    }
}

} // verus!
