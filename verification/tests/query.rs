use answer_cache::base64::to_base64;
use answer_cache::canonical::canonicalize;
use answer_cache::codec::{encode, CorruptPayloadError};
use answer_cache::fingerprint::fingerprint;
use answer_cache::query::{Action, Event, GenerationRequest, Phase, Query, QueryError};
use std::collections::HashMap;
use std::io::Write;

const MODEL: &str = "llama2";
const QUESTION: &str = "Explain the concept of ownership in Rust.";

/// A store that keeps, for each key, the fields set under it.
struct Store {
    held: HashMap<String, Vec<(String, String)>>,
    writes: usize,
}

impl Store {
    fn new() -> Store {
        Store { held: HashMap::new(), writes: 0 }
    }

    fn get(&self, key: &str) -> Vec<(String, String)> {
        self.held.get(key).cloned().unwrap_or_default()
    }

    fn set(&mut self, key: String, fields: Vec<(String, String)>) {
        self.writes += 1;
        self.held.entry(key).or_default().extend(fields);
    }
}

/// How a query ended, and how often the service was asked for it.
struct Ended {
    result: Result<String, QueryError>,
    requests: Vec<GenerationRequest>,
}

/// Runs a query against the store and a service that sends `service`.
fn run(store: &mut Store, raw: &str, service: Vec<Event>) -> Ended {
    let mut service = service.into_iter();
    let mut requests = Vec::new();
    let (mut query, mut action) = Query::begin(MODEL, raw);
    loop {
        let event = match action {
            Action::Lookup { key } => Event::Fields(store.get(&key)),
            Action::Generate(request) => {
                requests.push(request);
                service.next().unwrap_or(Event::NetworkFailed)
            }
            Action::ReadChunk => service.next().unwrap_or(Event::NetworkFailed),
            Action::Store { key, fields } => {
                store.set(key, fields);
                Event::Stored
            }
            Action::Finish(result) => return Ended { result, requests },
        };
        (query, action) = query.step(event);
    }
}

fn chunk(text: &str) -> Event {
    Event::Chunk(text.as_bytes().to_vec())
}

fn ownership_reply() -> Vec<Event> {
    vec![
        Event::Status(200),
        chunk("{\"response\":\"Owner\"}\n{\"response\":\"ship \"}\n"),
        chunk("{\"response\":\"means...\",\"done\":true}\n"),
        Event::EndOfBody,
    ]
}

fn pair(name: &str, value: &str) -> (String, String) {
    (name.to_string(), value.to_string())
}

#[test]
fn query_starts_with_the_lookup_of_its_key() {
    let (query, action) = Query::begin(MODEL, "  Explain X  ");
    assert_eq!(query.phase, Phase::Lookup);
    assert_eq!(query.model, MODEL);
    assert_eq!(query.question, "Explain X");
    assert_eq!(query.key, fingerprint("Explain X"));
    assert_eq!(query.answer, "");
    assert_eq!(action, Action::Lookup { key: fingerprint("Explain X") });
}

#[test]
fn miss_asks_the_service_with_the_canonical_question() {
    let (query, _) = Query::begin(MODEL, "  Explain X \n");
    let (query, action) = query.step(Event::Fields(vec![]));
    assert_eq!(query.phase, Phase::Status);
    assert_eq!(
        action,
        Action::Generate(GenerationRequest {
            model: MODEL.to_string(),
            prompt: "Explain X".to_string(),
            stream: true,
        })
    );
}

#[test]
fn first_call_misses_and_second_call_hits() {
    let mut store = Store::new();
    let first = run(&mut store, QUESTION, ownership_reply());
    assert_eq!(first.result, Ok("Ownership means...".to_string()));
    assert_eq!(first.requests.len(), 1);
    assert_eq!(first.requests[0].prompt, QUESTION);
    assert_eq!(store.writes, 1);
    assert_eq!(
        store.get(&fingerprint(QUESTION)),
        vec![pair("question", QUESTION), pair("answer", &encode("Ownership means...").unwrap())]
    );

    let second = run(&mut store, QUESTION, vec![]);
    assert_eq!(second.result, Ok("Ownership means...".to_string()));
    assert!(second.requests.is_empty());
    assert_eq!(store.writes, 1);
}

#[test]
fn padded_query_hits_the_record_of_the_plain_one() {
    let mut store = Store::new();
    let first = run(&mut store, "Explain X", ownership_reply());
    assert_eq!(first.result, Ok("Ownership means...".to_string()));
    let second = run(&mut store, "  Explain X  ", vec![]);
    assert_eq!(second.result, Ok("Ownership means...".to_string()));
    assert!(second.requests.is_empty());
    assert_eq!(store.held.len(), 1);
    assert!(store.held.contains_key(&fingerprint(canonicalize("\tExplain X\n"))));
}

#[test]
fn different_queries_have_records_of_their_own() {
    let mut store = Store::new();
    run(&mut store, "Explain X", ownership_reply());
    let other = run(&mut store, "Explain Y", vec![Event::Status(200), chunk("{\"response\":\"Y\"}\n"), Event::EndOfBody]);
    assert_eq!(other.result, Ok("Y".to_string()));
    assert_eq!(other.requests.len(), 1);
    assert_eq!(store.held.len(), 2);
    assert_eq!(run(&mut store, "Explain X", vec![]).result, Ok("Ownership means...".to_string()));
    assert_eq!(run(&mut store, "Explain Y", vec![]).result, Ok("Y".to_string()));
}

#[test]
fn failed_status_gives_the_empty_answer_and_caches_it() {
    let mut store = Store::new();
    let first = run(&mut store, QUESTION, vec![Event::Status(500)]);
    assert_eq!(first.result, Ok(String::new()));
    assert_eq!(first.requests.len(), 1);
    assert_eq!(
        store.get(&fingerprint(QUESTION)),
        vec![pair("question", QUESTION), pair("answer", "eJwDAAAAAAE=")]
    );
    let second = run(&mut store, QUESTION, ownership_reply());
    assert_eq!(second.result, Ok(String::new()));
    assert!(second.requests.is_empty());
}

#[test]
fn every_status_outside_success_counts_as_failure() {
    for status in [100u16, 199, 300, 301, 404, 503] {
        let mut store = Store::new();
        let ended = run(&mut store, QUESTION, vec![Event::Status(status), chunk("{\"response\":\"ignored\"}\n")]);
        assert_eq!(ended.result, Ok(String::new()));
        assert_eq!(store.writes, 1);
    }
    for status in [200u16, 201, 299] {
        let mut store = Store::new();
        let ended = run(&mut store, QUESTION, vec![Event::Status(status), chunk("{\"response\":\"kept\"}\n"), Event::EndOfBody]);
        assert_eq!(ended.result, Ok("kept".to_string()));
    }
}

#[test]
fn corrupt_payload_fails_that_query_only() {
    let mut store = Store::new();
    let stored = encode("Ownership means...").unwrap();
    let cut = &stored[..stored.len() - 3];
    store.set(fingerprint("broken"), vec![pair("question", "broken"), pair("answer", cut)]);
    let broken = run(&mut store, "broken", ownership_reply());
    assert_eq!(broken.result, Err(QueryError::CorruptPayload(CorruptPayloadError::Base64)));
    assert!(broken.requests.is_empty());
    let sound = run(&mut store, QUESTION, ownership_reply());
    assert_eq!(sound.result, Ok("Ownership means...".to_string()));
}

#[test]
fn record_without_an_answer_field_is_corrupt() {
    let mut store = Store::new();
    store.set(fingerprint("half"), vec![pair("question", "half")]);
    let ended = run(&mut store, "half", vec![]);
    assert_eq!(ended.result, Err(QueryError::CorruptPayload(CorruptPayloadError::Zlib)));
}

#[test]
fn record_with_bytes_that_are_no_text_is_corrupt() {
    let mut store = Store::new();
    let mut encoder = flate2::write::ZlibEncoder::new(Vec::new(), flate2::Compression::default());
    encoder.write_all(&[0xff]).unwrap();
    let payload = to_base64(&encoder.finish().unwrap());
    store.set(fingerprint("bytes"), vec![pair("answer", &payload)]);
    let ended = run(&mut store, "bytes", vec![]);
    assert_eq!(ended.result, Err(QueryError::CorruptPayload(CorruptPayloadError::Utf8)));
}

#[test]
fn malformed_lines_are_skipped() {
    let mut store = Store::new();
    let reply = vec![
        Event::Status(200),
        chunk("{\"response\":\"a\"}\ngarbage\n{\"response\":7}\n{\"response\":\"b\"}\n"),
        chunk("{\"resp"),
        chunk("onse\":\"lost\"}\n{\"response\":\"c\"}"),
        Event::EndOfBody,
    ];
    assert_eq!(run(&mut store, QUESTION, reply).result, Ok("abc".to_string()));
}

#[test]
fn body_without_fragments_gives_the_empty_answer() {
    let mut store = Store::new();
    let ended = run(&mut store, QUESTION, vec![Event::Status(200), Event::EndOfBody]);
    assert_eq!(ended.result, Ok(String::new()));
    assert_eq!(store.writes, 1);
}

#[test]
fn chunk_that_is_no_utf8_ends_the_query() {
    let mut store = Store::new();
    let reply = vec![Event::Status(200), chunk("{\"response\":\"a\"}\n"), Event::Chunk(vec![0xff]), Event::EndOfBody];
    let ended = run(&mut store, QUESTION, reply);
    assert_eq!(ended.result, Err(QueryError::MalformedBody));
    assert_eq!(store.writes, 0);
}

#[test]
fn unreachable_service_ends_the_query() {
    let mut store = Store::new();
    let ended = run(&mut store, QUESTION, vec![Event::NetworkFailed]);
    assert_eq!(ended.result, Err(QueryError::Network));
    assert_eq!(store.writes, 0);
}

#[test]
fn broken_connection_ends_the_query() {
    let mut store = Store::new();
    let reply = vec![Event::Status(200), chunk("{\"response\":\"a\"}\n"), Event::NetworkFailed];
    let ended = run(&mut store, QUESTION, reply);
    assert_eq!(ended.result, Err(QueryError::Network));
    assert_eq!(store.writes, 0);
}

#[test]
fn failing_lookup_ends_the_query() {
    let (query, _) = Query::begin(MODEL, QUESTION);
    let (query, action) = query.step(Event::StoreFailed);
    assert_eq!(action, Action::Finish(Err(QueryError::Store)));
    assert_eq!(query.phase, Phase::Done);
}

#[test]
fn failing_write_ends_the_query_without_the_answer() {
    let (query, _) = Query::begin(MODEL, QUESTION);
    let (query, _) = query.step(Event::Fields(vec![]));
    let (query, _) = query.step(Event::Status(200));
    let (query, _) = query.step(chunk("{\"response\":\"a\"}\n"));
    let (query, action) = query.step(Event::EndOfBody);
    assert_eq!(query.phase, Phase::Store);
    assert!(matches!(action, Action::Store { .. }));
    let (query, action) = query.step(Event::StoreFailed);
    assert_eq!(action, Action::Finish(Err(QueryError::Store)));
    assert_eq!(query.phase, Phase::Done);
}

#[test]
fn answer_is_handed_out_once_the_record_is_written() {
    let (query, _) = Query::begin(MODEL, QUESTION);
    let (query, _) = query.step(Event::Fields(vec![]));
    let (query, action) = query.step(Event::Status(200));
    assert_eq!(action, Action::ReadChunk);
    assert_eq!(query.phase, Phase::Body);
    let (query, action) = query.step(chunk("{\"response\":\"Owner\"}\n"));
    assert_eq!(action, Action::ReadChunk);
    assert_eq!(query.answer, "Owner");
    let (query, action) = query.step(chunk("{\"response\":\"ship\"}\n"));
    assert_eq!(action, Action::ReadChunk);
    assert_eq!(query.answer, "Ownership");
    let (query, action) = query.step(Event::EndOfBody);
    assert_eq!(
        action,
        Action::Store {
            key: fingerprint(QUESTION),
            fields: vec![pair("question", QUESTION), pair("answer", &encode("Ownership").unwrap())],
        }
    );
    let (query, action) = query.step(Event::Stored);
    assert_eq!(action, Action::Finish(Ok("Ownership".to_string())));
    assert_eq!(query.phase, Phase::Done);
}

#[test]
fn event_that_was_not_waited_for_ends_the_query() {
    let unexpected = Action::Finish(Err(QueryError::UnexpectedEvent));

    let (query, _) = Query::begin(MODEL, QUESTION);
    assert_eq!(query.clone().step(Event::Status(200)).1, unexpected);
    assert_eq!(query.clone().step(Event::Stored).1, unexpected);
    assert_eq!(query.clone().step(Event::EndOfBody).1, unexpected);
    assert_eq!(query.clone().step(Event::NetworkFailed).1, unexpected);
    assert_eq!(query.clone().step(chunk("x")).1, unexpected);

    let (query, _) = query.step(Event::Fields(vec![]));
    assert_eq!(query.clone().step(Event::Fields(vec![])).1, unexpected);
    assert_eq!(query.clone().step(Event::EndOfBody).1, unexpected);
    assert_eq!(query.clone().step(Event::StoreFailed).1, unexpected);

    let (query, _) = query.step(Event::Status(200));
    assert_eq!(query.clone().step(Event::Status(200)).1, unexpected);
    assert_eq!(query.clone().step(Event::Stored).1, unexpected);

    let (query, _) = query.step(Event::EndOfBody);
    assert_eq!(query.clone().step(Event::EndOfBody).1, unexpected);
    assert_eq!(query.clone().step(chunk("x")).1, unexpected);

    let (query, _) = query.step(Event::Stored);
    assert_eq!(query.phase, Phase::Done);
    let (query, action) = query.step(Event::Stored);
    assert_eq!(action, unexpected);
    assert_eq!(query.phase, Phase::Done);
}
