//! The cached record of a query, and the hash fields that hold it in the
//! key-value store.

use crate::canonical::{canonical, canonicalize};
use crate::codec::{decode, encode, restored, stored_form, CorruptPayloadError};
use vstd::prelude::*;
use vstd::string::*;

verus! {

/// A record of the cache: the canonical question, and the answer in its
/// stored form.
#[derive(Clone, Debug, PartialEq, Eq)]
pub struct CacheRecord {
    pub question: String,
    pub answer: String,
}

/// What a `CacheRecord` holds.
pub struct RecordView {
    pub question: Seq<char>,
    pub answer: Seq<char>,
}

impl View for CacheRecord {
    type V = RecordView;

    open spec fn view(&self) -> RecordView {
        RecordView { question: self.question@, answer: self.answer@ }
    }
}

/// The fields of a hash record: names with their values.
pub type Fields = Seq<(Seq<char>, Seq<char>)>;

/// The key-value store: for each key that it holds, the fields written
/// under it, the latest last.
pub type Store = Map<Seq<char>, Fields>;

/// Name of the field that holds the question.
pub open spec fn question_name() -> Seq<char> {
    "question"@
}

/// Name of the field that holds the answer.
pub open spec fn answer_name() -> Seq<char> {
    "answer"@
}

/// The value of the field `name`: that of the last pair with this name.
pub open spec fn field_value(fields: Fields, name: Seq<char>) -> Option<Seq<char>>
    decreases fields.len(),
{
    if fields.len() == 0 {
        None
    } else if fields.last().0 == name {
        Some(fields.last().1)
    } else {
        field_value(fields.drop_last(), name)
    }
}

/// The value of the field `name`, or the empty text where there is none.
pub open spec fn field_or_empty(fields: Fields, name: Seq<char>) -> Seq<char> {
    match field_value(fields, name) {
        Some(value) => value,
        None => Seq::empty(),
    }
}

/// The two fields that hold a record.
pub open spec fn record_fields(record: RecordView) -> Fields {
    seq![(question_name(), record.question), (answer_name(), record.answer)]
}

/// The record that a set of fields holds. A key without fields holds none.
pub open spec fn record_of(fields: Fields) -> Option<RecordView> {
    if fields.len() == 0 {
        None
    } else {
        Some(
            RecordView {
                question: field_or_empty(fields, question_name()),
                answer: field_or_empty(fields, answer_name()),
            },
        )
    }
}

/// What reading a key's fields gives: no record, or the question with the
/// answer that the stored form stands for.
pub open spec fn fetched(fields: Fields) -> Result<
    Option<(Seq<char>, Seq<char>)>,
    CorruptPayloadError,
> {
    match record_of(fields) {
        None => Ok(None),
        Some(record) => match restored(record.answer) {
            Ok(answer) => Ok(Some((record.question, answer))),
            Err(e) => Err(e),
        },
    }
}

/// The fields under `key`: none where the store does not hold the key.
pub open spec fn store_get(store: Store, key: Seq<char>) -> Fields {
    if store.dom().contains(key) {
        store[key]
    } else {
        Seq::empty()
    }
}

/// The store after `fields` were set under `key`: fields of other names
/// stay, and so does every other key.
pub open spec fn store_put(store: Store, key: Seq<char>, fields: Fields) -> Store {
    store.insert(key, store_get(store, key) + fields)
}

/// A key that the store does not hold reads as no record.
pub proof fn lemma_absent_key_reads_none(store: Store, key: Seq<char>)
    requires
        !store.dom().contains(key),
    ensures
        record_of(store_get(store, key)) is None,
        fetched(store_get(store, key)) == Ok::<Option<(Seq<char>, Seq<char>)>, CorruptPayloadError>(
            None,
        ),
{
}

/// The two field names differ.
pub proof fn lemma_field_names_differ()
    ensures
        question_name() != answer_name(),
{
    reveal_strlit("question");
    reveal_strlit("answer");
    assert(question_name().len() == 8);
    assert(answer_name().len() == 6);
}

/// A field set behind others is the one that is read.
pub proof fn lemma_field_value_of_appended(fields: Fields, more: Fields, name: Seq<char>)
    ensures
        field_value(fields + more, name) == match field_value(more, name) {
            Some(value) => Some(value),
            None => field_value(fields, name),
        },
    decreases more.len(),
{
    if more.len() == 0 {
        assert(fields + more =~= fields);
    } else {
        assert((fields + more).last() == more.last());
        assert((fields + more).drop_last() =~= fields + more.drop_last());
        lemma_field_value_of_appended(fields, more.drop_last(), name);
    }
}

/// The fields of a record hold that record.
pub proof fn lemma_record_of_fields(record: RecordView)
    ensures
        field_value(record_fields(record), question_name()) == Some(record.question),
        field_value(record_fields(record), answer_name()) == Some(record.answer),
        record_of(record_fields(record)) == Some(record),
{
    lemma_field_names_differ();
    let fields = record_fields(record);
    assert(fields.last() == (answer_name(), record.answer));
    assert(fields.drop_last() =~= seq![(question_name(), record.question)]);
    assert(fields.drop_last().last() == (question_name(), record.question));
    assert(field_value(fields, answer_name()) == Some(record.answer));
    assert(field_value(fields.drop_last(), question_name()) == Some(record.question));
}

/// A record written under a key is the record read under that key,
/// whatever the store held before; other keys are not touched.
pub proof fn lemma_put_then_get(store: Store, key: Seq<char>, record: RecordView)
    ensures
        record_of(store_get(store_put(store, key, record_fields(record)), key)) == Some(record),
        forall|other: Seq<char>|
            other != key ==> #[trigger] store_get(
                store_put(store, key, record_fields(record)),
                other,
            ) == store_get(store, other),
{
    let before = store_get(store, key);
    let fields = record_fields(record);
    lemma_record_of_fields(record);
    lemma_field_value_of_appended(before, fields, question_name());
    lemma_field_value_of_appended(before, fields, answer_name());
    assert(store_get(store_put(store, key, fields), key) == before + fields);
    assert((before + fields).len() > 0);
}

/// A record whose stored answer reads back as `answer`, once written under a
/// key, is fetched under that key as the question with `answer`.
pub proof fn lemma_put_then_fetch(
    store: Store,
    key: Seq<char>,
    record: RecordView,
    answer: Seq<char>,
)
    requires
        restored(record.answer) == Ok::<Seq<char>, CorruptPayloadError>(answer),
    ensures
        fetched(store_get(store_put(store, key, record_fields(record)), key)) == Ok::<
            Option<(Seq<char>, Seq<char>)>,
            CorruptPayloadError,
        >(Some((record.question, answer))),
{
    lemma_put_then_get(store, key, record);
}

/// Looks up the value of the field `name`.
pub fn find_field(fields: &Vec<(String, String)>, name: &str) -> (res: Option<String>)
    ensures
        res.deep_view() == field_value(fields.deep_view(), name@),
{
    let wanted = name.to_owned();
    let ghost all = fields.deep_view();
    let mut i: usize = fields.len();
    proof {
        assert(all.take(i as int) =~= all);
    }
    while i > 0
        invariant
            i <= fields.len(),
            all == fields.deep_view(),
            wanted@ == name@,
            field_value(all, name@) == field_value(all.take(i as int), name@),
        decreases i,
    {
        i = i - 1;
        proof {
            let upto = all.take(i + 1);
            assert(upto.last() == all[i as int]);
            assert(upto.drop_last() =~= all.take(i as int));
            assert(all[i as int] == (fields@[i as int].0@, fields@[i as int].1@));
        }
        if fields[i].0 == wanted {
            return Some(fields[i].1.clone());
        }
    }
    None
}

/// The value of the field `name`, or the empty text where there is none.
pub fn field_or_default(fields: &Vec<(String, String)>, name: &str) -> (res: String)
    ensures
        res@ == field_or_empty(fields.deep_view(), name@),
{
    match find_field(fields, name) {
        Some(value) => value,
        None => String::new(),
    }
}

impl CacheRecord {
    /// The record for a question and its answer: the question in canonical
    /// form, the answer in its stored form. `None` only where that form
    /// would be too long to hold in memory.
    pub fn new(question: &str, answer: &str) -> (res: Option<CacheRecord>)
        ensures
            res is Some <==> stored_form(answer@) is Some,
            res matches Some(record) ==> {
                &&& record@.question == canonical(question@)
                &&& stored_form(answer@) == Some(record@.answer)
                &&& restored(record@.answer) == Ok::<Seq<char>, CorruptPayloadError>(answer@)
            },
    {
        match encode(answer) {
            Some(stored) => Some(
                CacheRecord { question: canonicalize(question).to_owned(), answer: stored },
            ),
            None => None,
        }
    }

    /// The fields to set in the store for this record.
    pub fn fields(&self) -> (res: Vec<(String, String)>)
        ensures
            res.deep_view() == record_fields(self@),
    {
        let mut res: Vec<(String, String)> = Vec::new();
        res.push(("question".to_owned(), self.question.clone()));
        res.push(("answer".to_owned(), self.answer.clone()));
        proof {
            assert(res.deep_view() =~= record_fields(self@));
        }
        res
    }

    /// The record that the fields read under a key hold. A key without
    /// fields holds none; a field that is missing reads as the empty text.
    pub fn from_fields(fields: &Vec<(String, String)>) -> (res: Option<CacheRecord>)
        ensures
            res is Some <==> record_of(fields.deep_view()) is Some,
            res matches Some(record) ==> record_of(fields.deep_view()) == Some(record@),
    {
        if fields.len() == 0 {
            None
        } else {
            Some(
                CacheRecord {
                    question: field_or_default(fields, "question"),
                    answer: field_or_default(fields, "answer"),
                },
            )
        }
    }

    /// The answer that this record stands for.
    pub fn answer_text(&self) -> (res: Result<String, CorruptPayloadError>)
        ensures
            match res {
                Ok(answer) => restored(self@.answer) == Ok::<Seq<char>, CorruptPayloadError>(
                    answer@,
                ),
                Err(e) => restored(self@.answer) == Err::<Seq<char>, CorruptPayloadError>(e),
            },
    {
        decode(self.answer.as_str())
    }
}

/// Reads what the store returned for a key: `None` where the key holds
/// nothing, else the question and the answer that the stored form stands for.
pub fn fetch(fields: &Vec<(String, String)>) -> (res: Result<
    Option<(String, String)>,
    CorruptPayloadError,
>)
    ensures
        match res {
            Ok(found) => fetched(fields.deep_view()) == Ok::<
                Option<(Seq<char>, Seq<char>)>,
                CorruptPayloadError,
            >(found.deep_view()),
            Err(e) => fetched(fields.deep_view()) == Err::<
                Option<(Seq<char>, Seq<char>)>,
                CorruptPayloadError,
            >(e),
        },
{
    match CacheRecord::from_fields(fields) {
        None => Ok(None),
        Some(record) => match record.answer_text() {
            Ok(answer) => Ok(Some((record.question, answer))),
            Err(e) => Err(e),
        },
    }
}

} // verus!
