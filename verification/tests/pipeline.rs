//! End-to-end exercises of the ingestion pipeline over the store model:
//! the document parsing stage, the chunk embedding stage, the scheduler's
//! interval, and the consistency guarantees.

use rag_engine::embedding::{apply_embedding_outcome, embedding_next};
use rag_engine::parsing::{
    apply_structuring_outcome, document_pass_begin, failure_message, FatalError, Segment,
};
use rag_engine::scheduler::POLL_INTERVAL_MILLIS;
use rag_engine::store::{Dataset, Document, EmbeddingVector, Store, TenantKey};

fn dataset(id: i32, combine_under_n_chars: u32) -> Dataset {
    Dataset {
        id,
        combine_under_n_chars,
        new_after_n_chars: 1000,
        multipage_sections: false,
        embeddings_base_url: "http://embed.example".to_string(),
        embeddings_model: "test-model".to_string(),
        api_key: "key-123".to_string(),
    }
}

fn document(id: i32, dataset_id: i32, content: &str, file_name: &str) -> Document {
    Document {
        id,
        dataset_id,
        content: content.to_string(),
        file_name: file_name.to_string(),
        failure: None,
    }
}

fn segment(text: &str, page_number: Option<u32>) -> Segment {
    Segment { text: text.to_string(), page_number }
}

#[test]
fn scenario_hello_world_two_segments() {
    let mut store = Store::new();
    store.add_dataset(dataset(1, 500));
    store.add_document(document(1, 1, "Hello world", "hello.txt"));

    let requests = document_pass_begin(&store).expect("backlog with a known dataset");
    assert_eq!(requests.len(), 1);
    assert_eq!(requests[0].document_id, 1);
    assert_eq!(requests[0].content, "Hello world");
    assert_eq!(requests[0].file_name, "hello.txt");
    assert_eq!(requests[0].combine_under_n_chars, 500);
    assert_eq!(requests[0].new_after_n_chars, 1000);
    assert!(!requests[0].multipage_sections);

    let segments = vec![segment("Hello", Some(1)), segment("world", None)];
    apply_structuring_outcome(&mut store, 1, None, Ok(segments));

    assert_eq!(store.chunks.len(), 2);
    assert_eq!(store.chunks[0].text, "Hello");
    assert_eq!(store.chunks[0].page_number, 1);
    assert_eq!(store.chunks[1].text, "world");
    assert_eq!(store.chunks[1].page_number, 0);
    for chunk in &store.chunks {
        assert_eq!(chunk.document_id, 1);
        assert!(!chunk.processed);
        assert!(chunk.embedding.is_none());
        assert!(!chunk.encrypted);
    }
    assert!(store.documents[0].failure.is_none());
    assert!(store.unprocessed_documents().is_empty());
}

#[test]
fn tenant_key_routes_writes_through_encryption() {
    let mut store = Store::new();
    store.add_dataset(dataset(1, 500));
    store.add_document(document(1, 1, "secret text", "s.txt"));

    let key = TenantKey { secret: "tenant-key".to_string() };
    apply_structuring_outcome(&mut store, 1, Some(&key), Ok(vec![segment("secret text", None)]));

    assert_eq!(store.chunks.len(), 1);
    assert!(store.chunks[0].encrypted);
    assert_eq!(store.chunks[0].text, "secret text");
}

#[test]
fn scenario_structuring_failure_isolated() {
    let mut store = Store::new();
    store.add_dataset(dataset(1, 500));
    store.add_document(document(1, 1, "first", "a.txt"));
    store.add_document(document(2, 1, "second", "b.txt"));

    apply_structuring_outcome(&mut store, 1, None, Err("timeout".to_string()));

    assert_eq!(
        store.documents[0].failure.as_deref(),
        Some("Not able to parse document timeout")
    );
    assert!(store.chunks.is_empty());

    // The next document of the same pass is still processed.
    let backlog = store.unprocessed_documents();
    assert_eq!(backlog.len(), 1);
    assert_eq!(backlog[0].id, 2);
    apply_structuring_outcome(&mut store, 2, None, Ok(vec![segment("second", None)]));
    assert_eq!(store.chunks.len(), 1);
    assert_eq!(store.chunks[0].document_id, 2);
    assert!(store.documents[1].failure.is_none());
}

#[test]
fn missing_dataset_is_a_fatal_error() {
    let mut store = Store::new();
    store.add_dataset(dataset(1, 500));
    store.add_document(document(1, 99, "orphan", "o.txt"));

    match document_pass_begin(&store) {
        Err(e) => assert_eq!(e, FatalError::DatasetNotFound { dataset_id: 99 }),
        Ok(_) => panic!("a missing dataset must be fatal"),
    }
}

#[test]
fn failure_message_carries_the_service_error() {
    assert_eq!(failure_message("timeout"), "Not able to parse document timeout");
    assert_eq!(failure_message(""), "Not able to parse document ");
}

#[test]
fn scenario_embedding_success() {
    let mut store = Store::new();
    store.add_dataset(dataset(1, 500));
    store.add_document(document(1, 1, "foo", "f.txt"));
    apply_structuring_outcome(&mut store, 1, None, Ok(vec![segment("foo", None)]));

    let job = embedding_next(&store).expect("one unprocessed chunk");
    assert_eq!(job.chunk_id, store.chunks[0].id);
    assert_eq!(job.text, "foo");
    assert_eq!(job.base_url, "http://embed.example");
    assert_eq!(job.model, "test-model");
    assert_eq!(job.api_key, "key-123");

    let bits = vec![0.1f32.to_bits(), 0.2f32.to_bits(), 0.3f32.to_bits()];
    apply_embedding_outcome(&mut store, job.chunk_id, Ok(EmbeddingVector { bits: bits.clone() }));

    assert!(store.chunks[0].processed);
    let stored = store.chunks[0].embedding.as_ref().expect("embedding stored");
    assert_eq!(stored.bits, bits);
    let values: Vec<f32> = stored.bits.iter().map(|b| f32::from_bits(*b)).collect();
    assert_eq!(values, vec![0.1, 0.2, 0.3]);
}

#[test]
fn scenario_embedding_failure_is_a_permanent_skip() {
    let mut store = Store::new();
    store.add_dataset(dataset(1, 500));
    store.add_document(document(1, 1, "foo", "f.txt"));
    apply_structuring_outcome(&mut store, 1, None, Ok(vec![segment("foo", None)]));

    let job = embedding_next(&store).expect("one unprocessed chunk");
    apply_embedding_outcome(&mut store, job.chunk_id, Err("provider down".to_string()));

    assert!(store.chunks[0].processed);
    assert!(store.chunks[0].embedding.is_none());
    // Never re-selected on this or a later cycle.
    assert!(embedding_next(&store).is_none());
    assert!(embedding_next(&store).is_none());
}

#[test]
fn scenario_idle_cycle_plans_no_work() {
    let store = Store::new();
    let requests = document_pass_begin(&store).expect("an empty backlog is not an error");
    assert!(requests.is_empty());
    assert!(embedding_next(&store).is_none());
    assert!(store.documents.is_empty() && store.chunks.is_empty());
    assert_eq!(POLL_INTERVAL_MILLIS, 5000);
}

#[test]
fn empty_structuring_result_commits_no_chunks() {
    let mut store = Store::new();
    store.add_dataset(dataset(1, 500));
    store.add_document(document(1, 1, "", "empty.txt"));

    apply_structuring_outcome(&mut store, 1, None, Ok(vec![]));

    assert!(store.chunks.is_empty());
    assert!(store.documents[0].failure.is_none());
    // With no chunk row and no failure marker the backlog query still
    // returns the document.
    assert_eq!(store.unprocessed_documents().len(), 1);
}

#[test]
fn failure_and_chunks_never_coexist() {
    let mut store = Store::new();
    store.add_dataset(dataset(1, 500));
    store.add_document(document(1, 1, "ok", "ok.txt"));
    store.add_document(document(2, 1, "bad", "bad.txt"));
    apply_structuring_outcome(&mut store, 1, None, Ok(vec![segment("ok", Some(3))]));
    apply_structuring_outcome(&mut store, 2, None, Err("parse error".to_string()));

    for doc in &store.documents {
        let has_chunks = store.chunks.iter().any(|c| c.document_id == doc.id);
        assert!(!(doc.failure.is_some() && has_chunks));
    }
}

#[test]
fn embedding_implies_processed() {
    let mut store = Store::new();
    store.add_dataset(dataset(1, 500));
    store.add_document(document(1, 1, "a b", "ab.txt"));
    apply_structuring_outcome(
        &mut store,
        1,
        None,
        Ok(vec![segment("a", None), segment("b", None)]),
    );
    let first = embedding_next(&store).expect("two unprocessed chunks");
    apply_embedding_outcome(&mut store, first.chunk_id, Ok(EmbeddingVector { bits: vec![0] }));
    let second = embedding_next(&store).expect("one unprocessed chunk left");
    apply_embedding_outcome(&mut store, second.chunk_id, Err("down".to_string()));

    for chunk in &store.chunks {
        if chunk.embedding.is_some() {
            assert!(chunk.processed);
        }
    }
}

#[test]
fn terminal_states_never_reappear() {
    let mut store = Store::new();
    store.add_dataset(dataset(1, 500));
    store.add_document(document(1, 1, "bad", "bad.txt"));
    store.add_document(document(2, 1, "good", "good.txt"));
    apply_structuring_outcome(&mut store, 1, None, Err("timeout".to_string()));
    apply_structuring_outcome(&mut store, 2, None, Ok(vec![segment("good", None)]));
    let job = embedding_next(&store).expect("one unprocessed chunk");
    apply_embedding_outcome(&mut store, job.chunk_id, Err("down".to_string()));

    // Several later cycles: the failed document and the processed chunk are
    // never returned by the backlog queries again.
    for _ in 0..3 {
        let requests = document_pass_begin(&store).expect("known datasets");
        assert!(requests.iter().all(|r| r.document_id != 1));
        assert!(requests.is_empty());
        assert!(embedding_next(&store).is_none());
    }
}

#[test]
fn backlogs_keep_the_store_row_order() {
    let mut store = Store::new();
    store.add_dataset(dataset(1, 500));
    for id in 1..=3 {
        store.add_document(document(id, 1, "text", "t.txt"));
    }
    let requests = document_pass_begin(&store).expect("known dataset");
    let ids: Vec<i32> = requests.iter().map(|r| r.document_id).collect();
    assert_eq!(ids, vec![1, 2, 3]);

    // A failure in the middle leaves the others in order.
    apply_structuring_outcome(&mut store, 2, None, Err("timeout".to_string()));
    let remaining: Vec<i32> =
        store.unprocessed_documents().iter().map(|d| d.id).collect();
    assert_eq!(remaining, vec![1, 3]);

    // Chunks are embedded first-row-first.
    apply_structuring_outcome(&mut store, 1, None, Ok(vec![segment("a", None)]));
    apply_structuring_outcome(&mut store, 3, None, Ok(vec![segment("b", None)]));
    let first = embedding_next(&store).expect("two unprocessed chunks");
    assert_eq!(first.text, "a");
    apply_embedding_outcome(&mut store, first.chunk_id, Err("down".to_string()));
    let second = embedding_next(&store).expect("one unprocessed chunk");
    assert_eq!(second.text, "b");
}

#[test]
fn chunk_ids_are_fresh_across_documents() {
    let mut store = Store::new();
    store.add_dataset(dataset(1, 500));
    store.add_document(document(1, 1, "a", "a.txt"));
    store.add_document(document(2, 1, "b", "b.txt"));
    assert!(store.has_chunk_capacity(4));
    apply_structuring_outcome(&mut store, 1, None, Ok(vec![segment("a", None)]));
    apply_structuring_outcome(
        &mut store,
        2,
        None,
        Ok(vec![segment("b", None), segment("c", None)]),
    );
    let ids: Vec<i32> = store.chunks.iter().map(|c| c.id).collect();
    assert_eq!(ids, vec![1, 2, 3]);
    assert_eq!(store.next_chunk_id, 4);
}
