//! One query against the cache, as a machine that is told what happened
//! outside and says what to do next.
//!
//! The caller runs the store and the generation service. It starts a query
//! with `Query::begin`, performs each `Action`, and hands the `Event` that
//! came of it to `Query::step`, until the action is `Action::Finish`.

use crate::canonical::{canonical, canonicalize};
use crate::codec::{encode, reads_back, restored, stored_form, CorruptPayloadError};
use crate::fingerprint::{fingerprint, fingerprint_of};
use crate::record::{record_fields, record_of, CacheRecord, Fields, RecordView};
use crate::stream::{append_fragments, chunk_text, is_success, read_chunk, success_status};
use vstd::prelude::*;
use vstd::string::*;

verus! {

/// Why a query ended without an answer.
#[derive(Clone, Copy, Debug, PartialEq, Eq, Structural)]
pub enum QueryError {
    /// The key-value store could not be reached, or an operation on it failed.
    Store,
    /// The generation service could not be reached, or the connection broke.
    Network,
    /// A chunk of the service's body was no UTF-8.
    MalformedBody,
    /// The store held a record whose answer cannot be turned back.
    CorruptPayload(CorruptPayloadError),
    /// The stored form of the answer would be too long to hold in memory.
    AnswerTooLong,
    /// The event is none that the query was waiting for.
    UnexpectedEvent,
}

/// What a query is waiting for.
#[derive(Clone, Copy, Debug, PartialEq, Eq, Structural)]
pub enum Phase {
    /// The fields that the store holds under the key.
    Lookup,
    /// The status of the service's reply.
    Status,
    /// The next chunk of the reply's body, or its end.
    Body,
    /// The store's word that the record was written.
    Store,
    /// Nothing: the query has finished.
    Done,
}

/// A request to the generation service.
#[derive(Clone, Debug, PartialEq, Eq)]
pub struct GenerationRequest {
    pub model: String,
    pub prompt: String,
    pub stream: bool,
}

/// What a `GenerationRequest` holds.
pub struct RequestView {
    pub model: Seq<char>,
    pub prompt: Seq<char>,
    pub stream: bool,
}

impl View for GenerationRequest {
    type V = RequestView;

    open spec fn view(&self) -> RequestView {
        RequestView { model: self.model@, prompt: self.prompt@, stream: self.stream }
    }
}

/// What happened outside, as the caller tells it to the query.
#[derive(Clone, Debug, PartialEq, Eq)]
pub enum Event {
    /// The store returned these fields for the key; none where it does not
    /// hold the key.
    Fields(Vec<(String, String)>),
    /// The store has written the record.
    Stored,
    /// The store could not be reached, or the operation failed.
    StoreFailed,
    /// The service replied with this HTTP status.
    Status(u16),
    /// The service sent these bytes of the body.
    Chunk(Vec<u8>),
    /// The body has ended.
    EndOfBody,
    /// The service could not be reached, or the connection broke.
    NetworkFailed,
}

/// What an `Event` holds.
pub enum EventView {
    Fields(Fields),
    Stored,
    StoreFailed,
    Status(u16),
    Chunk(Seq<u8>),
    EndOfBody,
    NetworkFailed,
}

impl View for Event {
    type V = EventView;

    open spec fn view(&self) -> EventView {
        match self {
            Event::Fields(fields) => EventView::Fields(fields.deep_view()),
            Event::Stored => EventView::Stored,
            Event::StoreFailed => EventView::StoreFailed,
            Event::Status(status) => EventView::Status(*status),
            Event::Chunk(bytes) => EventView::Chunk(bytes@),
            Event::EndOfBody => EventView::EndOfBody,
            Event::NetworkFailed => EventView::NetworkFailed,
        }
    }
}

/// What the caller is to do next.
#[derive(Debug, PartialEq, Eq)]
pub enum Action {
    /// Read all fields that the store holds under `key`.
    Lookup { key: String },
    /// Send the request to the generation service and report its status.
    Generate(GenerationRequest),
    /// Read the next chunk of the body.
    ReadChunk,
    /// Set these fields under `key` in the store.
    Store { key: String, fields: Vec<(String, String)> },
    /// Nothing more: the query has ended with this answer or error.
    Finish(Result<String, QueryError>),
}

/// What an `Action` holds.
pub enum ActionView {
    Lookup { key: Seq<char> },
    Generate(RequestView),
    ReadChunk,
    Store { key: Seq<char>, fields: Fields },
    Finish(Result<Seq<char>, QueryError>),
}

impl View for Action {
    type V = ActionView;

    open spec fn view(&self) -> ActionView {
        match self {
            Action::Lookup { key } => ActionView::Lookup { key: key@ },
            Action::Generate(request) => ActionView::Generate(request@),
            Action::ReadChunk => ActionView::ReadChunk,
            Action::Store { key, fields } => ActionView::Store {
                key: key@,
                fields: fields.deep_view(),
            },
            Action::Finish(Ok(answer)) => ActionView::Finish(Ok(answer@)),
            Action::Finish(Err(e)) => ActionView::Finish(Err(*e)),
        }
    }
}

/// A query in progress.
#[derive(Clone, Debug, PartialEq, Eq)]
pub struct Query {
    /// What the query is waiting for.
    pub phase: Phase,
    /// The model that is asked on a miss.
    pub model: String,
    /// The query in canonical form.
    pub question: String,
    /// The fingerprint of the question.
    pub key: String,
    /// The answer as far as it has been put together.
    pub answer: String,
}

/// What a `Query` holds.
pub struct QueryView {
    pub phase: Phase,
    pub model: Seq<char>,
    pub question: Seq<char>,
    pub key: Seq<char>,
    pub answer: Seq<char>,
}

impl View for Query {
    type V = QueryView;

    open spec fn view(&self) -> QueryView {
        QueryView {
            phase: self.phase,
            model: self.model@,
            question: self.question@,
            key: self.key@,
            answer: self.answer@,
        }
    }
}

impl QueryView {
    /// Whether the key is the fingerprint of the question, and the question
    /// is the canonical form of some text.
    pub open spec fn well_formed(self) -> bool {
        &&& self.key == fingerprint_of(self.question)
        &&& canonical(self.question) == self.question
    }
}

/// A query as it starts, and its first action: the lookup of its key.
pub open spec fn started(model: Seq<char>, raw: Seq<char>) -> (QueryView, ActionView) {
    let question = canonical(raw);
    let key = fingerprint_of(question);
    (
        QueryView { phase: Phase::Lookup, model, question, key, answer: Seq::empty() },
        ActionView::Lookup { key },
    )
}

/// The end of a query.
pub open spec fn finished(query: QueryView, outcome: Result<Seq<char>, QueryError>) -> (
    QueryView,
    ActionView,
) {
    (QueryView { phase: Phase::Done, ..query }, ActionView::Finish(outcome))
}

/// What follows a hit: the answer that the record stands for, or the reason
/// why its payload is corrupt.
pub open spec fn hit_outcome(record: RecordView) -> Result<Seq<char>, QueryError> {
    match restored(record.answer) {
        Ok(answer) => Ok(answer),
        Err(e) => Err(QueryError::CorruptPayload(e)),
    }
}

/// What follows when the answer is complete: the record is written, unless
/// the answer has no stored form.
pub open spec fn completed(query: QueryView) -> (QueryView, ActionView) {
    match stored_form(query.answer) {
        Some(stored) => (
            QueryView { phase: Phase::Store, ..query },
            ActionView::Store {
                key: query.key,
                fields: record_fields(RecordView { question: query.question, answer: stored }),
            },
        ),
        None => finished(query, Err(QueryError::AnswerTooLong)),
    }
}

/// The query after an event, and the action that it asks for.
pub open spec fn next(query: QueryView, event: EventView) -> (QueryView, ActionView) {
    match (query.phase, event) {
        (Phase::Lookup, EventView::Fields(fields)) => match record_of(fields) {
            Some(record) => finished(query, hit_outcome(record)),
            None => (
                QueryView { phase: Phase::Status, ..query },
                ActionView::Generate(
                    RequestView { model: query.model, prompt: query.question, stream: true },
                ),
            ),
        },
        (Phase::Lookup, EventView::StoreFailed) => finished(query, Err(QueryError::Store)),
        (Phase::Status, EventView::Status(status)) => if success_status(status) {
            (QueryView { phase: Phase::Body, ..query }, ActionView::ReadChunk)
        } else {
            completed(QueryView { answer: Seq::empty(), ..query })
        },
        (Phase::Status, EventView::NetworkFailed) => finished(query, Err(QueryError::Network)),
        (Phase::Body, EventView::Chunk(bytes)) => match chunk_text(bytes) {
            Some(text) => (QueryView { answer: query.answer + text, ..query }, ActionView::ReadChunk),
            None => finished(query, Err(QueryError::MalformedBody)),
        },
        (Phase::Body, EventView::EndOfBody) => completed(query),
        (Phase::Body, EventView::NetworkFailed) => finished(query, Err(QueryError::Network)),
        (Phase::Store, EventView::Stored) => finished(query, Ok(query.answer)),
        (Phase::Store, EventView::StoreFailed) => finished(query, Err(QueryError::Store)),
        _ => finished(query, Err(QueryError::UnexpectedEvent)),
    }
}

impl Query {
    /// Starts a query: brings the text into canonical form, computes its
    /// key, and asks for the lookup of that key.
    pub fn begin(model: &str, raw: &str) -> (res: (Query, Action))
        ensures
            (res.0@, res.1@) == started(model@, raw@),
            res.0@.well_formed(),
    {
        let question = canonicalize(raw);
        let key = fingerprint(question);
        proof {
            crate::canonical::lemma_canonical_idempotent(raw@);
        }
        let query = Query {
            phase: Phase::Lookup,
            model: model.to_owned(),
            question: question.to_owned(),
            key: key.clone(),
            answer: String::new(),
        };
        (query, Action::Lookup { key })
    }

    /// Ends the query.
    fn finish(self, outcome: Result<String, QueryError>) -> (res: (Query, Action))
        ensures
            (res.0@, res.1@) == finished(self@, Action::Finish(outcome)@->Finish_0),
    {
        let query = Query { phase: Phase::Done, ..self };
        (query, Action::Finish(outcome))
    }

    /// Writes the record of the complete answer.
    fn complete(self) -> (res: (Query, Action))
        ensures
            (res.0@, res.1@) == completed(self@),
            reads_back(self@.answer),
    {
        match encode(self.answer.as_str()) {
            Some(stored) => {
                let record = CacheRecord { question: self.question.clone(), answer: stored };
                let fields = record.fields();
                let key = self.key.clone();
                let query = Query { phase: Phase::Store, ..self };
                (query, Action::Store { key, fields })
            },
            None => self.finish(Err(QueryError::AnswerTooLong)),
        }
    }

    /// Takes an event and says what to do next.
    pub fn step(self, event: Event) -> (res: (Query, Action))
        ensures
            (res.0@, res.1@) == next(self@, event@),
            self@.well_formed() ==> res.0@.well_formed(),
            res.1 is Store ==> reads_back(res.0@.answer),
    {
        match self.phase {
            Phase::Lookup => match event {
                Event::Fields(fields) => match CacheRecord::from_fields(&fields) {
                    Some(record) => match record.answer_text() {
                        Ok(answer) => self.finish(Ok(answer)),
                        Err(e) => self.finish(Err(QueryError::CorruptPayload(e))),
                    },
                    None => {
                        let request = GenerationRequest {
                            model: self.model.clone(),
                            prompt: self.question.clone(),
                            stream: true,
                        };
                        let query = Query { phase: Phase::Status, ..self };
                        (query, Action::Generate(request))
                    },
                },
                Event::StoreFailed => self.finish(Err(QueryError::Store)),
                _ => self.finish(Err(QueryError::UnexpectedEvent)),
            },
            Phase::Status => match event {
                Event::Status(status) => {
                    if is_success(status) {
                        let query = Query { phase: Phase::Body, ..self };
                        (query, Action::ReadChunk)
                    } else {
                        let query = Query { answer: String::new(), ..self };
                        query.complete()
                    }
                },
                Event::NetworkFailed => self.finish(Err(QueryError::Network)),
                _ => self.finish(Err(QueryError::UnexpectedEvent)),
            },
            Phase::Body => match event {
                Event::Chunk(bytes) => match read_chunk(bytes.as_slice()) {
                    Some(fragments) => {
                        let mut answer = self.answer;
                        append_fragments(&mut answer, &fragments);
                        let query = Query {
                            phase: self.phase,
                            model: self.model,
                            question: self.question,
                            key: self.key,
                            answer,
                        };
                        (query, Action::ReadChunk)
                    },
                    None => self.finish(Err(QueryError::MalformedBody)),
                },
                Event::EndOfBody => self.complete(),
                Event::NetworkFailed => self.finish(Err(QueryError::Network)),
                _ => self.finish(Err(QueryError::UnexpectedEvent)),
            },
            Phase::Store => match event {
                Event::Stored => {
                    let answer = self.answer.clone();
                    self.finish(Ok(answer))
                },
                Event::StoreFailed => self.finish(Err(QueryError::Store)),
                _ => self.finish(Err(QueryError::UnexpectedEvent)),
            },
            Phase::Done => self.finish(Err(QueryError::UnexpectedEvent)),
        }
    }
}

} // verus!
