//! The pipeline's consistency guarantees, stated and proved over the store
//! model: processing a document is all-or-nothing, an embedding implies the
//! processed mark, and failed documents and processed chunks are terminal —
//! they never reappear in their backlog queries.

use crate::store::{Chunk, Document, Store};
use vstd::prelude::*;

verus! {

/// The document backlog is empty exactly when no document row is
/// unprocessed — so an idle cycle stays idle until rows change.
proof fn lemma_document_backlog_empty_rec(store: Store, docs: Seq<Document>)
    ensures
        (store.spec_unprocessed_documents_of(docs).len() == 0) <==> (forall|k: int|
            0 <= k < docs.len() ==> !store.spec_document_unprocessed(#[trigger] docs[k])),
    decreases docs.len(),
{
    if docs.len() == 0 {
    } else {
        lemma_document_backlog_empty_rec(store, docs.drop_last());
        assert forall|k: int| 0 <= k < docs.drop_last().len() implies docs.drop_last()[k]
            == docs[k] by {}
        if store.spec_unprocessed_documents_of(docs).len() == 0 {
            assert(!store.spec_document_unprocessed(docs.last()));
            assert(docs[docs.len() - 1] == docs.last());
        }
    }
}

/// A chunk backlog is empty exactly when every chunk row is processed.
proof fn lemma_chunk_backlog_empty_rec(chunks: Seq<Chunk>)
    ensures
        (Store::spec_unprocessed_chunks_of(chunks).len() == 0) <==> (forall|k: int|
            0 <= k < chunks.len() ==> (#[trigger] chunks[k]).processed),
    decreases chunks.len(),
{
    if chunks.len() == 0 {
    } else {
        lemma_chunk_backlog_empty_rec(chunks.drop_last());
        assert forall|k: int| 0 <= k < chunks.drop_last().len() implies chunks.drop_last()[k]
            == chunks[k] by {}
        if Store::spec_unprocessed_chunks_of(chunks).len() == 0 {
            assert(chunks.last().processed);
            assert(chunks[chunks.len() - 1] == chunks.last());
        }
    }
}

/// Idle cycles: the two backlogs are empty exactly when no document row is
/// unprocessed and every chunk row is processed; a cycle then plans no
/// structuring call, selects no chunk, and writes nothing until rows change
/// from outside.
pub proof fn lemma_idle_cycle_characterization(store: Store)
    ensures
        (store.spec_unprocessed_documents().len() == 0) <==> (forall|k: int|
            0 <= k < store.documents@.len() ==> !store.spec_document_unprocessed(
                #[trigger] store.documents@[k],
            )),
        (store.spec_unprocessed_chunks().len() == 0) <==> (forall|k: int|
            0 <= k < store.chunks@.len() ==> (#[trigger] store.chunks@[k]).processed),
{
    lemma_document_backlog_empty_rec(store, store.documents@);
    lemma_chunk_backlog_empty_rec(store.chunks@);
}

/// Completeness of the document backlog: every unprocessed document row is
/// listed by the backlog query.
proof fn lemma_document_backlog_complete_rec(store: Store, docs: Seq<Document>, k: int)
    requires
        0 <= k < docs.len(),
        store.spec_document_unprocessed(docs[k]),
    ensures
        store.spec_unprocessed_documents_of(docs).contains(docs[k]),
    decreases docs.len(),
{
    if k == docs.len() - 1 {
        assert(docs[k] == docs.last());
        let s = store.spec_unprocessed_documents_of(docs);
        assert(s[s.len() - 1] == docs.last());
    } else {
        lemma_document_backlog_complete_rec(store, docs.drop_last(), k);
        assert(docs.drop_last()[k] == docs[k]);
        let rest = store.spec_unprocessed_documents_of(docs.drop_last());
        let w = choose|j: int| 0 <= j < rest.len() && rest[j] == docs[k];
        if store.spec_document_unprocessed(docs.last()) {
            assert(store.spec_unprocessed_documents_of(docs)[w] == docs[k]);
        } else {
            assert(store.spec_unprocessed_documents_of(docs)[w] == docs[k]);
        }
    }
}

/// Every unprocessed document row is listed by the backlog query.
pub proof fn lemma_unprocessed_document_in_backlog(store: Store, k: int)
    requires
        0 <= k < store.documents@.len(),
        store.spec_document_unprocessed(store.documents@[k]),
    ensures
        store.spec_unprocessed_documents().contains(store.documents@[k]),
{
    lemma_document_backlog_complete_rec(store, store.documents@, k);
}

/// Completeness of the chunk backlog: every unprocessed chunk row is listed
/// by the backlog query.
proof fn lemma_chunk_backlog_complete_rec(chunks: Seq<Chunk>, k: int)
    requires
        0 <= k < chunks.len(),
        !chunks[k].processed,
    ensures
        Store::spec_unprocessed_chunks_of(chunks).contains(chunks[k]),
    decreases chunks.len(),
{
    if k == chunks.len() - 1 {
        assert(chunks[k] == chunks.last());
        let s = Store::spec_unprocessed_chunks_of(chunks);
        assert(s[s.len() - 1] == chunks.last());
    } else {
        lemma_chunk_backlog_complete_rec(chunks.drop_last(), k);
        assert(chunks.drop_last()[k] == chunks[k]);
        let rest = Store::spec_unprocessed_chunks_of(chunks.drop_last());
        let w = choose|j: int| 0 <= j < rest.len() && rest[j] == chunks[k];
        assert(Store::spec_unprocessed_chunks_of(chunks)[w] == chunks[k]);
    }
}

/// Every unprocessed chunk row is listed by the backlog query.
pub proof fn lemma_unprocessed_chunk_in_backlog(store: Store, k: int)
    requires
        0 <= k < store.chunks@.len(),
        !store.chunks@[k].processed,
    ensures
        store.spec_unprocessed_chunks().contains(store.chunks@[k]),
{
    lemma_chunk_backlog_complete_rec(store.chunks@, k);
}

/// Atomicity of document processing: a document never carries both a
/// recorded failure message and chunk rows — either structuring failed and
/// only the message exists, or the chunks were committed with no message.
pub proof fn lemma_failure_excludes_chunks(store: Store, k: int)
    requires
        store.wf(),
        0 <= k < store.documents@.len(),
    ensures
        !(store.documents@[k].failure is Some && store.spec_document_has_chunks(
            store.documents@[k].id,
        )),
{
}

/// Embedding consistency: every chunk that carries an embedding is marked
/// processed.  (The converse does not hold: a chunk whose embedding call
/// failed is processed with no embedding.)
pub proof fn lemma_embedding_implies_processed(store: Store, k: int)
    requires
        store.wf(),
        0 <= k < store.chunks@.len(),
    ensures
        store.chunks@[k].embedding is Some ==> store.chunks@[k].processed,
{
}

/// Terminal documents: a document once marked failed never reappears in the
/// unprocessed-document backlog, on this or any later cycle — the stages
/// never clear a failure message.
pub proof fn lemma_failed_document_not_in_backlog(store: Store, document_id: i32)
    requires
        store.wf(),
        store.spec_has_document(document_id),
        store.spec_document(document_id).failure is Some,
    ensures
        forall|k: int|
            0 <= k < store.spec_unprocessed_documents().len() ==> (#[trigger] store.spec_unprocessed_documents()[k]).id
                != document_id,
{
    store.lemma_unprocessed_documents_of_props(store.documents@);
    assert forall|k: int|
        0 <= k < store.spec_unprocessed_documents().len() implies (#[trigger] store.spec_unprocessed_documents()[k]).id
        != document_id by {
        let d = store.spec_unprocessed_documents()[k];
        if d.id == document_id {
            assert(store.documents@.contains(d));
            let w = choose|j: int| 0 <= j < store.documents@.len() && store.documents@[j] == d;
            let wi = store.spec_document_index(document_id);
            assert(store.documents@[wi].id == document_id);
            assert(store.documents@[w].id == document_id);
            assert(w == wi);
            assert(d.failure is Some);
            assert(store.spec_document_unprocessed(d));
            assert(false);
        }
    }
}

/// Terminal chunks: a chunk once marked processed never reappears in the
/// unprocessed-chunk backlog, on this or any later cycle — the stages never
/// clear a processed mark, whether or not an embedding was stored.
pub proof fn lemma_processed_chunk_not_in_backlog(store: Store, chunk_id: i32)
    requires
        store.wf(),
        store.spec_has_chunk(chunk_id),
        store.spec_chunk(chunk_id).processed,
    ensures
        forall|k: int|
            0 <= k < store.spec_unprocessed_chunks().len() ==> (#[trigger] store.spec_unprocessed_chunks()[k]).id
                != chunk_id,
{
    Store::lemma_unprocessed_chunks_of_props(store.chunks@);
    assert forall|k: int|
        0 <= k < store.spec_unprocessed_chunks().len() implies (#[trigger] store.spec_unprocessed_chunks()[k]).id
        != chunk_id by {
        let c = store.spec_unprocessed_chunks()[k];
        if c.id == chunk_id {
            assert(store.chunks@.contains(c));
            let w = choose|j: int| 0 <= j < store.chunks@.len() && store.chunks@[j] == c;
            let wi = store.spec_chunk_index(chunk_id);
            assert(store.chunks@[wi].id == chunk_id);
            assert(store.chunks@[w].id == chunk_id);
            assert(w == wi);
            assert(c.processed);
            assert(!c.processed);
            assert(false);
        }
    }
}

} // verus!
