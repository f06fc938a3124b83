//! A whole query, run against a model of the store and of the generation
//! service, and what holds of such runs.

use crate::canonical::{all_whitespace, canonical, lemma_canonical_ignores_padding};
use crate::codec::{reads_back, stored_form};
use crate::fingerprint::fingerprint_of;
use crate::query::{
    hit_outcome, next, started, ActionView, EventView, Phase, QueryError, QueryView,
};
use crate::record::{
    lemma_put_then_get, record_fields, record_of, store_get, store_put, RecordView, Store,
};
use crate::stream::success_status;
use vstd::prelude::*;

verus! {

/// How a query ended.
pub struct Outcome {
    /// The store after the query.
    pub store: Store,
    /// The answer, or why there is none.
    pub result: Result<Seq<char>, QueryError>,
    /// Whether the generation service was asked.
    pub asked: bool,
}

/// The query after the generation service has sent `service`, event by
/// event, for as long as the query asks for more. A service that sends
/// nothing more has broken the connection.
pub open spec fn served(query: QueryView, service: Seq<EventView>) -> (QueryView, ActionView)
    decreases service.len(),
{
    if service.len() == 0 {
        next(query, EventView::NetworkFailed)
    } else {
        let (after, action) = next(query, service.first());
        if action is ReadChunk {
            served(after, service.drop_first())
        } else {
            (after, action)
        }
    }
}

/// How a query ends once it asks for `action`: a record to store is
/// written, and the store says so.
pub open spec fn settled(store: Store, query: QueryView, action: ActionView, asked: bool) -> Outcome {
    match action {
        ActionView::Store { key, fields } => match next(query, EventView::Stored).1 {
            ActionView::Finish(result) => Outcome {
                store: store_put(store, key, fields),
                result,
                asked,
            },
            _ => Outcome { store, result: Err(QueryError::UnexpectedEvent), asked },
        },
        ActionView::Finish(result) => Outcome { store, result, asked },
        _ => Outcome { store, result: Err(QueryError::UnexpectedEvent), asked },
    }
}

/// How the query `raw` ends against a store that holds `store` and answers
/// every operation, and a generation service that would send `service`.
pub open spec fn outcome(
    store: Store,
    model: Seq<char>,
    raw: Seq<char>,
    service: Seq<EventView>,
) -> Outcome {
    let (query, _) = started(model, raw);
    let (looked, action) = next(query, EventView::Fields(store_get(store, query.key)));
    if action is Generate {
        let (after, last) = served(looked, service);
        settled(store, after, last, true)
    } else {
        settled(store, looked, action, false)
    }
}

/// While the service is heard, the query keeps its question and its key,
/// and it ends in an error or in the writing of the record of its answer.
pub proof fn lemma_served(query: QueryView, service: Seq<EventView>)
    requires
        query.phase == Phase::Status || query.phase == Phase::Body,
    ensures
        ({
            let (after, action) = served(query, service);
            &&& after.question == query.question
            &&& after.key == query.key
            &&& after.model == query.model
            &&& match action {
                ActionView::Finish(result) => result is Err,
                ActionView::Store { key, fields } => {
                    &&& after.phase == Phase::Store
                    &&& stored_form(after.answer) is Some
                    &&& key == query.key
                    &&& fields == record_fields(
                        RecordView {
                            question: query.question,
                            answer: stored_form(after.answer)->0,
                        },
                    )
                },
                _ => false,
            }
        }),
    decreases service.len(),
{
    if service.len() > 0 {
        let (after, action) = next(query, service.first());
        if action is ReadChunk {
            lemma_served(after, service.drop_first());
        }
    }
}

/// Miss, then hit: where the store holds no record for a query and the
/// query ends with an answer, the generation service was asked, and every
/// later query with the same canonical text ends with the same answer,
/// leaves the store as it is and does not ask the service. The stored form
/// of the answer reads back, as `encode` ensures of what it returns.
pub proof fn lemma_miss_then_hit(
    store: Store,
    model: Seq<char>,
    raw: Seq<char>,
    service: Seq<EventView>,
    answer: Seq<char>,
    later_model: Seq<char>,
    again: Seq<char>,
    later_service: Seq<EventView>,
)
    requires
        record_of(store_get(store, fingerprint_of(canonical(raw)))) is None,
        outcome(store, model, raw, service).result == Ok::<Seq<char>, QueryError>(answer),
        reads_back(answer),
        canonical(again) == canonical(raw),
    ensures
        outcome(store, model, raw, service).asked,
        outcome(outcome(store, model, raw, service).store, later_model, again, later_service)
            == (Outcome {
            store: outcome(store, model, raw, service).store,
            result: Ok(answer),
            asked: false,
        }),
{
    let (query, _) = started(model, raw);
    let (looked, action) = next(query, EventView::Fields(store_get(store, query.key)));
    assert(action is Generate);
    lemma_served(looked, service);
    let (after, last) = served(looked, service);
    assert(last is Store);
    assert(after.answer == answer);
    let stored = stored_form(answer)->0;
    let record = RecordView { question: query.question, answer: stored };
    lemma_put_then_get(store, query.key, record);
    let later = outcome(store, model, raw, service).store;
    assert(later == store_put(store, query.key, record_fields(record)));
    assert(record_of(store_get(later, query.key)) == Some(record));
    assert(hit_outcome(record) == Ok::<Seq<char>, QueryError>(answer));
}

/// Whitespace around a query changes neither its key nor how it ends.
pub proof fn lemma_padding_is_ignored(
    store: Store,
    model: Seq<char>,
    before: Seq<char>,
    raw: Seq<char>,
    after: Seq<char>,
    service: Seq<EventView>,
)
    requires
        all_whitespace(before),
        all_whitespace(after),
    ensures
        started(model, before + raw + after) == started(model, raw),
        outcome(store, model, before + raw + after, service) == outcome(
            store,
            model,
            raw,
            service,
        ),
{
    lemma_canonical_ignores_padding(before, raw, after);
}

/// A reply without success counts as the empty answer, and that answer is
/// cached: the query ends with the empty text, and the store then holds a
/// record for its key with the stored form of the empty text.
pub proof fn lemma_failed_status_is_cached(
    store: Store,
    model: Seq<char>,
    raw: Seq<char>,
    status: u16,
    rest: Seq<EventView>,
)
    requires
        record_of(store_get(store, fingerprint_of(canonical(raw)))) is None,
        !success_status(status),
        stored_form(Seq::<char>::empty()) is Some,
    ensures
        ({
            let end = outcome(store, model, raw, seq![EventView::Status(status)] + rest);
            &&& end.result == Ok::<Seq<char>, QueryError>(Seq::<char>::empty())
            &&& end.asked
            &&& record_of(store_get(end.store, fingerprint_of(canonical(raw)))) == Some(
                RecordView {
                    question: canonical(raw),
                    answer: stored_form(Seq::<char>::empty())->0,
                },
            )
        }),
{
    let service = seq![EventView::Status(status)] + rest;
    let (query, _) = started(model, raw);
    let (looked, action) = next(query, EventView::Fields(store_get(store, query.key)));
    assert(service.first() == EventView::Status(status));
    let record = RecordView {
        question: canonical(raw),
        answer: stored_form(Seq::<char>::empty())->0,
    };
    lemma_put_then_get(store, query.key, record);
}

} // verus!
