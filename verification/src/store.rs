//! In-memory model of the relational store the pipeline acts on.
//!
//! The worker's persistence gateway exposes typed queries over documents,
//! datasets and chunks.  This module models that state as plain values, so
//! that the two pipeline stages can be verified against it: the queries the
//! stages issue are methods here, each with a contract saying exactly which
//! rows it returns or changes.

use vstd::pervasive::VecAdditionalExecFns;
use vstd::prelude::*;

verus! {

/// Tenant-scoped configuration owned by a dataset: how documents are split
/// into segments, and which embedding provider the resulting chunks use.
pub struct Dataset {
    pub id: i32,
    /// Segments shorter than this are combined with their neighbours.
    pub combine_under_n_chars: u32,
    /// A new segment is started once this many characters are reached.
    pub new_after_n_chars: u32,
    /// Whether a structured segment may span multiple source pages.
    pub multipage_sections: bool,
    /// Base URL of the embedding provider.
    pub embeddings_base_url: String,
    /// Model identifier sent to the embedding provider.
    pub embeddings_model: String,
    /// Credential sent to the embedding provider.
    pub api_key: String,
}

/// A raw uploaded artifact awaiting decomposition into chunks.
pub struct Document {
    pub id: i32,
    /// The dataset owning this document's configuration.
    pub dataset_id: i32,
    /// Raw content handed to the structuring service.
    pub content: String,
    pub file_name: String,
    /// A human-readable message recorded when structuring failed; a document
    /// with a failure message is terminally failed and never retried.
    pub failure: Option<String>,
}

/// A fixed-width vector returned by the embedding service.  The pipeline
/// never interprets the scalars, only stores them, so each one is carried as
/// the bit pattern of a 32-bit IEEE 754 value.
pub struct EmbeddingVector {
    pub bits: Vec<u32>,
}

/// An optional per-run tenant key: while it is configured, chunk-text writes
/// are routed through the store's encrypt-on-write path.
pub struct TenantKey {
    pub secret: String,
}

/// A page-scoped text segment derived from a document, the unit of
/// embedding.
pub struct Chunk {
    pub id: i32,
    /// The document this chunk was derived from.
    pub document_id: i32,
    /// Source page, zero when the structuring service gave none.
    pub page_number: u32,
    pub text: String,
    /// Whether the text write was routed through the encrypt-on-write path.
    pub encrypted: bool,
    /// Once true the chunk never re-enters the unprocessed set.
    pub processed: bool,
    /// Present only when the embedding path succeeded.
    pub embedding: Option<EmbeddingVector>,
}

/// The relational state the pipeline reads and writes: document, dataset and
/// chunk rows, plus the id the next inserted chunk receives.
pub struct Store {
    pub documents: Vec<Document>,
    pub datasets: Vec<Dataset>,
    pub chunks: Vec<Chunk>,
    pub next_chunk_id: i32,
}

impl Store {
    /// There is a document row with this id.
    pub open spec fn spec_has_document(self, id: i32) -> bool {
        exists|i: int| 0 <= i < self.documents@.len() && self.documents@[i].id == id
    }

    /// Index of the document row with this id (well defined when ids are
    /// unique and the row exists).
    pub open spec fn spec_document_index(self, id: i32) -> int {
        choose|i: int| 0 <= i < self.documents@.len() && self.documents@[i].id == id
    }

    /// The document row with this id.
    pub open spec fn spec_document(self, id: i32) -> Document {
        self.documents@[self.spec_document_index(id)]
    }

    /// There is a dataset row with this id.
    pub open spec fn spec_has_dataset(self, id: i32) -> bool {
        exists|i: int| 0 <= i < self.datasets@.len() && self.datasets@[i].id == id
    }

    /// Index of the dataset row with this id.
    pub open spec fn spec_dataset_index(self, id: i32) -> int {
        choose|i: int| 0 <= i < self.datasets@.len() && self.datasets@[i].id == id
    }

    /// The dataset row with this id.
    pub open spec fn spec_dataset(self, id: i32) -> Dataset {
        self.datasets@[self.spec_dataset_index(id)]
    }

    /// There is a chunk row with this id.
    pub open spec fn spec_has_chunk(self, id: i32) -> bool {
        exists|i: int| 0 <= i < self.chunks@.len() && self.chunks@[i].id == id
    }

    /// Index of the chunk row with this id.
    pub open spec fn spec_chunk_index(self, id: i32) -> int {
        choose|i: int| 0 <= i < self.chunks@.len() && self.chunks@[i].id == id
    }

    /// The chunk row with this id.
    pub open spec fn spec_chunk(self, id: i32) -> Chunk {
        self.chunks@[self.spec_chunk_index(id)]
    }

    /// Some chunk row belongs to this document.
    pub open spec fn spec_document_has_chunks(self, document_id: i32) -> bool {
        exists|i: int| 0 <= i < self.chunks@.len() && self.chunks@[i].document_id == document_id
    }

    /// A document is unprocessed while it carries no failure message and no
    /// chunk row: exactly the rows the backlog query returns.
    pub open spec fn spec_document_unprocessed(self, d: Document) -> bool {
        d.failure is None && !self.spec_document_has_chunks(d.id)
    }

    /// The unprocessed-document backlog drawn from a given row sequence, in
    /// row order.
    pub open spec fn spec_unprocessed_documents_of(self, docs: Seq<Document>) -> Seq<Document>
        decreases docs.len(),
    {
        if docs.len() == 0 {
            Seq::empty()
        } else if self.spec_document_unprocessed(docs.last()) {
            self.spec_unprocessed_documents_of(docs.drop_last()).push(docs.last())
        } else {
            self.spec_unprocessed_documents_of(docs.drop_last())
        }
    }

    /// The unprocessed-document backlog, in the store's row order.
    pub open spec fn spec_unprocessed_documents(self) -> Seq<Document> {
        self.spec_unprocessed_documents_of(self.documents@)
    }

    /// The unprocessed-chunk backlog drawn from a given row sequence, in row
    /// order.
    pub open spec fn spec_unprocessed_chunks_of(chunks: Seq<Chunk>) -> Seq<Chunk>
        decreases chunks.len(),
    {
        if chunks.len() == 0 {
            Seq::empty()
        } else if !chunks.last().processed {
            Self::spec_unprocessed_chunks_of(chunks.drop_last()).push(chunks.last())
        } else {
            Self::spec_unprocessed_chunks_of(chunks.drop_last())
        }
    }

    /// The unprocessed-chunk backlog, in the store's row order.
    pub open spec fn spec_unprocessed_chunks(self) -> Seq<Chunk> {
        Self::spec_unprocessed_chunks_of(self.chunks@)
    }

    /// Well-formedness of the store: unique row ids, referential integrity
    /// from chunks up to datasets, fresh chunk ids, and the two row-level
    /// invariants the pipeline maintains — an embedded chunk is processed,
    /// and a failed document has no chunks.
    pub open spec fn wf(self) -> bool {
        &&& forall|i: int, j: int|
            0 <= i < j < self.documents@.len() ==> self.documents@[i].id != self.documents@[j].id
        &&& forall|i: int, j: int|
            0 <= i < j < self.datasets@.len() ==> self.datasets@[i].id != self.datasets@[j].id
        &&& forall|i: int, j: int|
            0 <= i < j < self.chunks@.len() ==> self.chunks@[i].id != self.chunks@[j].id
        &&& self.next_chunk_id >= 1
        &&& forall|i: int| 0 <= i < self.chunks@.len() ==> self.chunks@[i].id < self.next_chunk_id
        &&& forall|i: int|
            0 <= i < self.chunks@.len() ==> self.spec_has_document(
                #[trigger] self.chunks@[i].document_id,
            )
        &&& forall|i: int|
            0 <= i < self.chunks@.len() ==> self.spec_has_dataset(
                self.spec_document(#[trigger] self.chunks@[i].document_id).dataset_id,
            )
        &&& forall|i: int|
            0 <= i < self.chunks@.len() ==> (#[trigger] self.chunks@[i].embedding is Some
                ==> self.chunks@[i].processed)
        &&& forall|i: int|
            0 <= i < self.documents@.len() ==> (#[trigger] self.documents@[i].failure is Some
                ==> !self.spec_document_has_chunks(self.documents@[i].id))
    }

    /// Whether a document row with this id exists.
    pub fn has_document(&self, id: i32) -> (r: bool)
        ensures
            r == self.spec_has_document(id),
    {
        let mut i: usize = 0;
        while i < self.documents.len()
            invariant
                i <= self.documents@.len(),
                forall|j: int| 0 <= j < i ==> self.documents@[j].id != id,
            decreases self.documents@.len() - i,
        {
            if self.documents[i].id == id {
                return true;
            }
            i += 1;
        }
        false
    }

    /// Whether a dataset row with this id exists.
    pub fn has_dataset(&self, id: i32) -> (r: bool)
        ensures
            r == self.spec_has_dataset(id),
    {
        let mut i: usize = 0;
        while i < self.datasets.len()
            invariant
                i <= self.datasets@.len(),
                forall|j: int| 0 <= j < i ==> self.datasets@[j].id != id,
            decreases self.datasets@.len() - i,
        {
            if self.datasets[i].id == id {
                return true;
            }
            i += 1;
        }
        false
    }

    /// Whether a chunk row with this id exists.
    pub fn has_chunk(&self, id: i32) -> (r: bool)
        ensures
            r == self.spec_has_chunk(id),
    {
        let mut i: usize = 0;
        while i < self.chunks.len()
            invariant
                i <= self.chunks@.len(),
                forall|j: int| 0 <= j < i ==> self.chunks@[j].id != id,
            decreases self.chunks@.len() - i,
        {
            if self.chunks[i].id == id {
                return true;
            }
            i += 1;
        }
        false
    }

    /// Whether some chunk row belongs to this document.
    pub fn document_has_chunks(&self, document_id: i32) -> (r: bool)
        ensures
            r == self.spec_document_has_chunks(document_id),
    {
        let mut i: usize = 0;
        while i < self.chunks.len()
            invariant
                i <= self.chunks@.len(),
                forall|j: int| 0 <= j < i ==> self.chunks@[j].document_id != document_id,
            decreases self.chunks@.len() - i,
        {
            if self.chunks[i].document_id == document_id {
                return true;
            }
            i += 1;
        }
        false
    }

    /// An empty store, as a deployment starts with before any upload.
    pub fn new() -> (r: Store)
        ensures
            r.wf(),
            r.documents@.len() == 0,
            r.datasets@.len() == 0,
            r.chunks@.len() == 0,
            r.next_chunk_id == 1,
    {
        Store { documents: Vec::new(), datasets: Vec::new(), chunks: Vec::new(), next_chunk_id: 1 }
    }

    /// Registers a dataset's configuration; dataset rows are created by the
    /// tenant-administration flow, outside the pipeline.
    pub fn add_dataset(&mut self, dataset: Dataset)
        requires
            old(self).wf(),
            !old(self).spec_has_dataset(dataset.id),
        ensures
            final(self).wf(),
            final(self).datasets@ == old(self).datasets@.push(dataset),
            final(self).documents@ == old(self).documents@,
            final(self).chunks@ == old(self).chunks@,
            final(self).next_chunk_id == old(self).next_chunk_id,
    {
        self.datasets.push(dataset);
        proof {
            assert forall|i: int| 0 <= i < self.chunks@.len() implies self.spec_has_dataset(
                self.spec_document(#[trigger] self.chunks@[i].document_id).dataset_id,
            ) by {
                let id = old(self).spec_document(self.chunks@[i].document_id).dataset_id;
                let w = old(self).spec_dataset_index(id);
                assert(self.datasets@[w].id == id);
            }
        }
    }

    /// Records a freshly uploaded document; the upload flow creates documents
    /// in the unprocessed state, so no failure message is present yet.
    pub fn add_document(&mut self, document: Document)
        requires
            old(self).wf(),
            !old(self).spec_has_document(document.id),
            document.failure is None,
        ensures
            final(self).wf(),
            final(self).documents@ == old(self).documents@.push(document),
            final(self).datasets@ == old(self).datasets@,
            final(self).chunks@ == old(self).chunks@,
            final(self).next_chunk_id == old(self).next_chunk_id,
    {
        self.documents.push(document);
        proof {
            let n = old(self).documents@.len() as int;
            assert forall|i: int| 0 <= i < n implies self.documents@[i].id != document.id by {
                assert(old(self).documents@[i].id == self.documents@[i].id);
            }
            assert forall|i: int| 0 <= i < self.chunks@.len() implies {
                &&& self.spec_has_document(#[trigger] self.chunks@[i].document_id)
                &&& self.spec_has_dataset(self.spec_document(self.chunks@[i].document_id).dataset_id)
            } by {
                let id = self.chunks@[i].document_id;
                assert(old(self).spec_has_document(id));
                let w = old(self).spec_document_index(id);
                assert(old(self).documents@[w].id == id);
                assert(self.documents@[w].id == id);
                assert(self.spec_has_document(id));
                let w2 = self.spec_document_index(id);
                assert(0 <= w2 < self.documents@.len() && self.documents@[w2].id == id);
                assert(w2 == w);
                assert(self.spec_document(id) == old(self).spec_document(id));
                let did = old(self).spec_document(id).dataset_id;
                assert(old(self).spec_has_dataset(did));
                let dw = old(self).spec_dataset_index(did);
                assert(self.datasets@[dw].id == did);
            }
        }
    }

    /// Index of the document row with this id.
    pub(crate) fn document_index(&self, id: i32) -> (i: usize)
        requires
            self.wf(),
            self.spec_has_document(id),
        ensures
            i < self.documents@.len(),
            self.documents@[i as int].id == id,
            i as int == self.spec_document_index(id),
    {
        let mut i: usize = 0;
        while i < self.documents.len()
            invariant
                i <= self.documents@.len(),
                forall|j: int| 0 <= j < i ==> self.documents@[j].id != id,
                self.wf(),
                self.spec_has_document(id),
            decreases self.documents@.len() - i,
        {
            if self.documents[i].id == id {
                proof {
                    let w = self.spec_document_index(id);
                    assert(0 <= w < self.documents@.len() && self.documents@[w].id == id);
                    assert(w == i as int);
                }
                return i;
            }
            i += 1;
        }
        proof {
            let w = self.spec_document_index(id);
            assert(0 <= w < self.documents@.len() && self.documents@[w].id == id);
            assert(false);
        }
        vstd::pervasive::unreached()
    }

    /// Index of the chunk row with this id.
    pub(crate) fn chunk_index(&self, id: i32) -> (i: usize)
        requires
            self.wf(),
            self.spec_has_chunk(id),
        ensures
            i < self.chunks@.len(),
            self.chunks@[i as int].id == id,
            i as int == self.spec_chunk_index(id),
    {
        let mut i: usize = 0;
        while i < self.chunks.len()
            invariant
                i <= self.chunks@.len(),
                forall|j: int| 0 <= j < i ==> self.chunks@[j].id != id,
                self.wf(),
                self.spec_has_chunk(id),
            decreases self.chunks@.len() - i,
        {
            if self.chunks[i].id == id {
                proof {
                    let w = self.spec_chunk_index(id);
                    assert(0 <= w < self.chunks@.len() && self.chunks@[w].id == id);
                    assert(w == i as int);
                }
                return i;
            }
            i += 1;
        }
        proof {
            let w = self.spec_chunk_index(id);
            assert(0 <= w < self.chunks@.len() && self.chunks@[w].id == id);
            assert(false);
        }
        vstd::pervasive::unreached()
    }

    /// The unprocessed-document backlog: every document row that carries no
    /// failure message and owns no chunk row, in the store's row order.
    pub fn unprocessed_documents(&self) -> (r: Vec<Document>)
        ensures
            r@ == self.spec_unprocessed_documents(),
    {
        let mut r: Vec<Document> = Vec::new();
        let mut i: usize = 0;
        while i < self.documents.len()
            invariant
                i <= self.documents@.len(),
                r@ == self.spec_unprocessed_documents_of(self.documents@.take(i as int)),
            decreases self.documents@.len() - i,
        {
            let d = &self.documents[i];
            let unprocessed = d.failure.is_none() && !self.document_has_chunks(d.id);
            if unprocessed {
                r.push(d.clone());
            }
            proof {
                let docs = self.documents@;
                assert(docs.take(i as int + 1).drop_last() =~= docs.take(i as int));
                assert(docs.take(i as int + 1).last() == docs[i as int]);
            }
            i += 1;
        }
        proof {
            assert(self.documents@.take(self.documents@.len() as int) =~= self.documents@);
        }
        r
    }

    /// Records the failure message on a document that produced no chunks;
    /// this write stands outside any chunk-insert transaction and marks the
    /// document terminally failed.
    pub fn mark_document_failed(&mut self, document_id: i32, message: String)
        requires
            old(self).wf(),
            old(self).spec_has_document(document_id),
            !old(self).spec_document_has_chunks(document_id),
        ensures
            final(self).wf(),
            final(self).datasets@ == old(self).datasets@,
            final(self).chunks@ == old(self).chunks@,
            final(self).next_chunk_id == old(self).next_chunk_id,
            final(self).documents@.len() == old(self).documents@.len(),
            forall|i: int|
                0 <= i < old(self).documents@.len() && i != old(self).spec_document_index(
                    document_id,
                ) ==> final(self).documents@[i] == old(self).documents@[i],
            final(self).documents@[old(self).spec_document_index(document_id)] == (Document {
                failure: Some(message),
                ..old(self).spec_document(document_id)
            }),
    {
        let i = self.document_index(document_id);
        let mut row = Document {
            id: 0,
            dataset_id: 0,
            content: "".to_owned(),
            file_name: "".to_owned(),
            failure: None,
        };
        self.documents.set_and_swap(i, &mut row);
        row.failure = Some(message);
        self.documents.set(i, row);
        proof {
            let pre = *old(self);
            let ii = i as int;
            assert forall|k: int| #![all_triggers]
                0 <= k < self.documents@.len() implies self.documents@[k].id
                == pre.documents@[k].id by {}
            Self::lemma_document_lookup_stable(pre, *self);
            Self::lemma_chunk_presence_stable(pre, *self);
            assert forall|k: int| 0 <= k < self.chunks@.len() implies {
                &&& self.spec_has_document(#[trigger] self.chunks@[k].document_id)
                &&& self.spec_has_dataset(self.spec_document(self.chunks@[k].document_id).dataset_id)
            } by {
                let id = self.chunks@[k].document_id;
                assert(pre.chunks@[k].document_id == id);
                assert(pre.spec_has_document(id));
                let w = pre.spec_document_index(id);
                assert(self.spec_document_index(id) == w);
                assert(id != document_id);
                assert(pre.documents@[ii].id == document_id);
                assert(pre.documents@[w].id == id);
                assert(w != ii);
                assert(self.documents@[w] == pre.documents@[w]);
                assert(self.spec_document(id) == pre.spec_document(id));
                let dx = pre.spec_document(id).dataset_id;
                assert(pre.spec_has_dataset(dx));
                let dw = pre.spec_dataset_index(dx);
                assert(self.datasets@[dw].id == dx);
            }
            assert forall|j: int|
                0 <= j < self.documents@.len() && #[trigger] self.documents@[j].failure is Some
                    implies !self.spec_document_has_chunks(self.documents@[j].id) by {
                if j != ii {
                    assert(self.documents@[j] == pre.documents@[j]);
                    assert(!pre.spec_document_has_chunks(pre.documents@[j].id));
                } else {
                    assert(self.documents@[j].id == document_id);
                    assert(!pre.spec_document_has_chunks(document_id));
                }
                assert(!pre.spec_document_has_chunks(self.documents@[j].id));
            }
        }
    }

    /// Inserts one chunk row for a document inside its commit; the text write
    /// is routed through the encrypt-on-write path exactly when a tenant key
    /// is configured.  Returns the id the new row received.
    pub fn insert_chunk(
        &mut self,
        document_id: i32,
        page_number: u32,
        text: String,
        key: Option<&TenantKey>,
    ) -> (id: i32)
        requires
            old(self).wf(),
            old(self).spec_has_document(document_id),
            old(self).spec_document(document_id).failure is None,
            old(self).spec_has_dataset(old(self).spec_document(document_id).dataset_id),
            old(self).next_chunk_id < i32::MAX,
        ensures
            final(self).wf(),
            final(self).documents@ == old(self).documents@,
            final(self).datasets@ == old(self).datasets@,
            final(self).next_chunk_id == old(self).next_chunk_id + 1,
            id == old(self).next_chunk_id,
            final(self).chunks@ == old(self).chunks@.push(
                (Chunk {
                    id,
                    document_id,
                    page_number,
                    text,
                    encrypted: key is Some,
                    processed: false,
                    embedding: None,
                }),
            ),
            forall|x: i32| #![all_triggers]
                final(self).spec_has_document(x) == old(self).spec_has_document(x),
            forall|x: i32| #![all_triggers]
                old(self).spec_has_document(x) ==> final(self).spec_document(x) == old(
                    self,
                ).spec_document(x),
            forall|x: i32| #![all_triggers]
                final(self).spec_has_dataset(x) == old(self).spec_has_dataset(x),
    {
        let id = self.next_chunk_id;
        let encrypted = key.is_some();
        self.chunks.push(
            Chunk {
                id,
                document_id,
                page_number,
                text,
                encrypted,
                processed: false,
                embedding: None,
            },
        );
        self.next_chunk_id = id + 1;
        proof {
            let pre = *old(self);
            let n = pre.chunks@.len() as int;
            Self::lemma_document_lookup_stable(pre, *self);
            Self::lemma_dataset_lookup_stable(pre, *self);
            assert forall|x: i32| #![all_triggers]
                pre.spec_has_document(x) implies self.spec_document(x) == pre.spec_document(
                x,
            ) by {
                let w = pre.spec_document_index(x);
                assert(self.spec_document_index(x) == w);
            }
            assert forall|a: int, b: int| 0 <= a < b < self.chunks@.len() implies self.chunks@[a].id
                != self.chunks@[b].id by {
                if b == n {
                    assert(self.chunks@[a].id < pre.next_chunk_id);
                }
            }
            assert forall|k: int| 0 <= k < self.chunks@.len() implies {
                &&& self.spec_has_document(#[trigger] self.chunks@[k].document_id)
                &&& self.spec_has_dataset(self.spec_document(self.chunks@[k].document_id).dataset_id)
            } by {
                let did = self.chunks@[k].document_id;
                if k < n {
                    assert(pre.chunks@[k].document_id == did);
                    assert(pre.spec_has_document(did));
                } else {
                    assert(did == document_id);
                }
                let w = pre.spec_document_index(did);
                assert(pre.documents@[w].id == did);
                assert(self.documents@[w].id == did);
                assert(self.spec_has_document(did));
                let w2 = self.spec_document_index(did);
                assert(self.documents@[w2].id == did);
                assert(pre.documents@[w2].id == did);
                assert(w2 == w);
                assert(self.spec_document(did) == pre.spec_document(did));
                let dx = pre.spec_document(did).dataset_id;
                assert(pre.spec_has_dataset(dx));
                let dw = pre.spec_dataset_index(dx);
                assert(self.datasets@[dw].id == dx);
            }
            assert forall|j: int|
                0 <= j < self.documents@.len() && #[trigger] self.documents@[j].failure is Some
                    implies !self.spec_document_has_chunks(self.documents@[j].id) by {
                let did = self.documents@[j].id;
                let w = pre.spec_document_index(document_id);
                assert(pre.documents@[w].id == document_id);
                if did == document_id {
                    assert(pre.documents@[j].id == did);
                    assert(j == w);
                    assert(pre.documents@[w].failure is None);
                    assert(false);
                }
                assert forall|k: int| 0 <= k < self.chunks@.len() implies self.chunks@[k].document_id
                    != did by {
                    if k < n {
                        assert(!pre.spec_document_has_chunks(did));
                        assert(pre.chunks@[k].document_id != did);
                    }
                }
            }
        }
        id
    }

    /// Marks a chunk processed and stores the embedding the service returned:
    /// the single atomic update on the embedding success path.
    pub fn set_chunk_embedded(&mut self, chunk_id: i32, vector: EmbeddingVector)
        requires
            old(self).wf(),
            old(self).spec_has_chunk(chunk_id),
        ensures
            final(self).wf(),
            final(self).documents@ == old(self).documents@,
            final(self).datasets@ == old(self).datasets@,
            final(self).next_chunk_id == old(self).next_chunk_id,
            final(self).chunks@.len() == old(self).chunks@.len(),
            forall|i: int|
                0 <= i < old(self).chunks@.len() && i != old(self).spec_chunk_index(chunk_id)
                    ==> final(self).chunks@[i] == old(self).chunks@[i],
            final(self).chunks@[old(self).spec_chunk_index(chunk_id)] == (Chunk {
                processed: true,
                embedding: Some(vector),
                ..old(self).spec_chunk(chunk_id)
            }),
    {
        let i = self.chunk_index(chunk_id);
        let mut row = Self::placeholder_chunk();
        self.chunks.set_and_swap(i, &mut row);
        row.processed = true;
        row.embedding = Some(vector);
        self.chunks.set(i, row);
        proof {
            self.lemma_chunk_row_update_wf(*old(self), i as int);
        }
    }

    /// Marks a chunk processed while leaving its embedding untouched: the
    /// single atomic update on the embedding failure path (permanent skip).
    pub fn set_chunk_processed(&mut self, chunk_id: i32)
        requires
            old(self).wf(),
            old(self).spec_has_chunk(chunk_id),
        ensures
            final(self).wf(),
            final(self).documents@ == old(self).documents@,
            final(self).datasets@ == old(self).datasets@,
            final(self).next_chunk_id == old(self).next_chunk_id,
            final(self).chunks@.len() == old(self).chunks@.len(),
            forall|i: int|
                0 <= i < old(self).chunks@.len() && i != old(self).spec_chunk_index(chunk_id)
                    ==> final(self).chunks@[i] == old(self).chunks@[i],
            final(self).chunks@[old(self).spec_chunk_index(chunk_id)] == (Chunk {
                processed: true,
                ..old(self).spec_chunk(chunk_id)
            }),
    {
        let i = self.chunk_index(chunk_id);
        let mut row = Self::placeholder_chunk();
        self.chunks.set_and_swap(i, &mut row);
        row.processed = true;
        self.chunks.set(i, row);
        proof {
            self.lemma_chunk_row_update_wf(*old(self), i as int);
        }
    }

    /// A throwaway row used to swap a real row out for in-place update.
    fn placeholder_chunk() -> (r: Chunk)
    {
        Chunk {
            id: 0,
            document_id: 0,
            page_number: 0,
            text: "".to_owned(),
            encrypted: false,
            processed: false,
            embedding: None,
        }
    }

    /// Whether the next `n` chunk inserts stay within the id space.
    pub fn has_chunk_capacity(&self, n: usize) -> (r: bool)
        requires
            self.wf(),
        ensures
            r == (self.next_chunk_id + n as int <= i32::MAX as int),
    {
        n as u64 <= (i32::MAX as u64) - (self.next_chunk_id as u64)
    }

    /// A row update that keeps id, document id and the processed mark's
    /// one-way direction preserves well-formedness.
    proof fn lemma_chunk_row_update_wf(self, pre: Store, i: int)
        requires
            pre.wf(),
            self.documents@ == pre.documents@,
            self.datasets@ == pre.datasets@,
            self.next_chunk_id == pre.next_chunk_id,
            self.chunks@.len() == pre.chunks@.len(),
            0 <= i < pre.chunks@.len(),
            forall|k: int|
                0 <= k < pre.chunks@.len() && k != i ==> self.chunks@[k] == pre.chunks@[k],
            self.chunks@[i].id == pre.chunks@[i].id,
            self.chunks@[i].document_id == pre.chunks@[i].document_id,
            self.chunks@[i].embedding is Some ==> self.chunks@[i].processed,
        ensures
            self.wf(),
    {
        assert forall|k: int| #![all_triggers]
            0 <= k < self.chunks@.len() implies self.chunks@[k].id == pre.chunks@[k].id
            && self.chunks@[k].document_id == pre.chunks@[k].document_id by {}
        Self::lemma_chunk_presence_stable(pre, self);
        Self::lemma_document_lookup_stable(pre, self);
        assert forall|k: int| 0 <= k < self.chunks@.len() implies {
            &&& self.spec_has_document(#[trigger] self.chunks@[k].document_id)
            &&& self.spec_has_dataset(self.spec_document(self.chunks@[k].document_id).dataset_id)
        } by {
            let did = self.chunks@[k].document_id;
            assert(pre.chunks@[k].document_id == did);
            assert(pre.spec_has_document(did));
            assert(self.spec_document_index(did) == pre.spec_document_index(did));
            assert(self.spec_document(did) == pre.spec_document(did));
            let dx = pre.spec_document(did).dataset_id;
            assert(pre.spec_has_dataset(dx));
            let dw = pre.spec_dataset_index(dx);
            assert(self.datasets@[dw].id == dx);
        }
        assert forall|j: int|
            0 <= j < self.documents@.len() && #[trigger] self.documents@[j].failure is Some
                implies !self.spec_document_has_chunks(self.documents@[j].id) by {
            assert(pre.documents@[j].failure is Some);
            assert(!pre.spec_document_has_chunks(pre.documents@[j].id));
        }
    }

    /// Row updates that keep every document's id leave the document lookups
    /// unchanged.
    proof fn lemma_document_lookup_stable(pre: Store, post: Store)
        requires
            pre.wf(),
            post.documents@.len() == pre.documents@.len(),
            forall|k: int| #![all_triggers]
                0 <= k < pre.documents@.len() ==> post.documents@[k].id == pre.documents@[k].id,
        ensures
            forall|id: i32| #![all_triggers]
                post.spec_has_document(id) == pre.spec_has_document(id),
            forall|id: i32| #![all_triggers]
                pre.spec_has_document(id) ==> post.spec_document_index(id)
                    == pre.spec_document_index(id),
    {
        assert forall|id: i32| #![all_triggers]
            post.spec_has_document(id) == pre.spec_has_document(id) && (pre.spec_has_document(id)
                ==> post.spec_document_index(id) == pre.spec_document_index(id)) by {
            if pre.spec_has_document(id) {
                let w = pre.spec_document_index(id);
                assert(pre.documents@[w].id == id);
                assert(post.documents@[w].id == id);
                assert(post.spec_has_document(id));
                let w2 = post.spec_document_index(id);
                assert(post.documents@[w2].id == id);
                assert(pre.documents@[w2].id == id);
                assert(w2 == w);
            }
            if post.spec_has_document(id) && !pre.spec_has_document(id) {
                let w = choose|k: int|
                    0 <= k < post.documents@.len() && post.documents@[k].id == id;
                assert(pre.documents@[w].id == id);
                assert(false);
            }
        }
    }

    /// Unchanged dataset rows leave the dataset lookups unchanged.
    proof fn lemma_dataset_lookup_stable(pre: Store, post: Store)
        requires
            pre.wf(),
            post.datasets@.len() == pre.datasets@.len(),
            forall|k: int| #![all_triggers]
                0 <= k < pre.datasets@.len() ==> post.datasets@[k] == pre.datasets@[k],
        ensures
            forall|id: i32| #![all_triggers]
                post.spec_has_dataset(id) == pre.spec_has_dataset(id),
            forall|id: i32| #![all_triggers]
                pre.spec_has_dataset(id) ==> post.spec_dataset(id) == pre.spec_dataset(id),
    {
        assert forall|id: i32| #![all_triggers]
            post.spec_has_dataset(id) == pre.spec_has_dataset(id) && (pre.spec_has_dataset(id)
                ==> post.spec_dataset(id) == pre.spec_dataset(id)) by {
            if pre.spec_has_dataset(id) {
                let w = pre.spec_dataset_index(id);
                assert(pre.datasets@[w].id == id);
                assert(post.datasets@[w].id == id);
                assert(post.spec_has_dataset(id));
                let w2 = post.spec_dataset_index(id);
                assert(post.datasets@[w2].id == id);
                assert(pre.datasets@[w2].id == id);
                assert(w2 == w);
            }
            if post.spec_has_dataset(id) && !pre.spec_has_dataset(id) {
                let w = choose|k: int| 0 <= k < post.datasets@.len() && post.datasets@[k].id == id;
                assert(pre.datasets@[w].id == id);
                assert(false);
            }
        }
    }

    /// Resolves a dataset's chunking and embedding configuration by id, as
    /// the per-document configuration query does.
    pub fn dataset_config(&self, id: i32) -> (r: Option<&Dataset>)
        requires
            self.wf(),
        ensures
            match r {
                Some(d) => self.spec_has_dataset(id) && *d == self.spec_dataset(id),
                None => !self.spec_has_dataset(id),
            },
    {
        let mut i: usize = 0;
        while i < self.datasets.len()
            invariant
                i <= self.datasets@.len(),
                forall|j: int| 0 <= j < i ==> self.datasets@[j].id != id,
                self.wf(),
            decreases self.datasets@.len() - i,
        {
            if self.datasets[i].id == id {
                proof {
                    let w = self.spec_dataset_index(id);
                    assert(0 <= w < self.datasets@.len() && self.datasets@[w].id == id);
                    assert(w == i as int);
                }
                return Some(&self.datasets[i]);
            }
            i += 1;
        }
        None
    }

    /// Row updates that keep every chunk's id and document id leave the
    /// chunk-presence queries unchanged.
    proof fn lemma_chunk_presence_stable(pre: Store, post: Store)
        requires
            post.chunks@.len() == pre.chunks@.len(),
            forall|k: int| #![all_triggers]
                0 <= k < pre.chunks@.len() ==> post.chunks@[k].id == pre.chunks@[k].id
                    && post.chunks@[k].document_id == pre.chunks@[k].document_id,
        ensures
            forall|d: i32| post.spec_document_has_chunks(d) == pre.spec_document_has_chunks(d),
            forall|id: i32| post.spec_has_chunk(id) == pre.spec_has_chunk(id),
    {
        assert forall|d: i32| post.spec_document_has_chunks(d) == pre.spec_document_has_chunks(
            d,
        ) by {
            if pre.spec_document_has_chunks(d) {
                let w = choose|k: int|
                    0 <= k < pre.chunks@.len() && pre.chunks@[k].document_id == d;
                assert(post.chunks@[w].document_id == d);
            }
            if post.spec_document_has_chunks(d) {
                let w = choose|k: int|
                    0 <= k < post.chunks@.len() && post.chunks@[k].document_id == d;
                assert(pre.chunks@[w].document_id == d);
            }
        }
        assert forall|id: i32| post.spec_has_chunk(id) == pre.spec_has_chunk(id) by {
            if pre.spec_has_chunk(id) {
                let w = choose|k: int| 0 <= k < pre.chunks@.len() && pre.chunks@[k].id == id;
                assert(post.chunks@[w].id == id);
            }
            if post.spec_has_chunk(id) {
                let w = choose|k: int| 0 <= k < post.chunks@.len() && post.chunks@[k].id == id;
                assert(pre.chunks@[w].id == id);
            }
        }
    }

    /// Every row the unprocessed-document backlog lists is an unprocessed row
    /// drawn from the given rows.
    pub proof fn lemma_unprocessed_documents_of_props(self, docs: Seq<Document>)
        ensures
            forall|k: int|
                0 <= k < self.spec_unprocessed_documents_of(docs).len()
                    ==> self.spec_document_unprocessed(
                    #[trigger] self.spec_unprocessed_documents_of(docs)[k],
                ) && docs.contains(self.spec_unprocessed_documents_of(docs)[k]),
        decreases docs.len(),
    {
        if docs.len() == 0 {
        } else {
            self.lemma_unprocessed_documents_of_props(docs.drop_last());
            assert forall|k: int|
                0 <= k < self.spec_unprocessed_documents_of(docs).len()
                    implies self.spec_document_unprocessed(
                    #[trigger] self.spec_unprocessed_documents_of(docs)[k],
                ) && docs.contains(self.spec_unprocessed_documents_of(docs)[k]) by {
                let s = self.spec_unprocessed_documents_of(docs);
                let rest = self.spec_unprocessed_documents_of(docs.drop_last());
                if k < rest.len() {
                    let x = rest[k];
                    assert(docs.drop_last().contains(x));
                    let w = choose|j: int| 0 <= j < docs.drop_last().len() && docs.drop_last()[j] == x;
                    assert(docs[w] == x);
                } else {
                    assert(s[k] == docs.last());
                    assert(docs[docs.len() - 1] == docs.last());
                }
            }
        }
    }

    /// Every row the unprocessed-chunk backlog lists is an unprocessed row
    /// drawn from the given rows.
    pub proof fn lemma_unprocessed_chunks_of_props(chunks: Seq<Chunk>)
        ensures
            forall|k: int|
                0 <= k < Self::spec_unprocessed_chunks_of(chunks).len() ==> !(
                #[trigger] Self::spec_unprocessed_chunks_of(chunks)[k]).processed
                    && chunks.contains(Self::spec_unprocessed_chunks_of(chunks)[k]),
        decreases chunks.len(),
    {
        if chunks.len() == 0 {
        } else {
            Self::lemma_unprocessed_chunks_of_props(chunks.drop_last());
            assert forall|k: int|
                0 <= k < Self::spec_unprocessed_chunks_of(chunks).len() implies !(
                #[trigger] Self::spec_unprocessed_chunks_of(chunks)[k]).processed
                    && chunks.contains(Self::spec_unprocessed_chunks_of(chunks)[k]) by {
                let s = Self::spec_unprocessed_chunks_of(chunks);
                let rest = Self::spec_unprocessed_chunks_of(chunks.drop_last());
                if k < rest.len() {
                    let x = rest[k];
                    assert(chunks.drop_last().contains(x));
                    let w = choose|j: int|
                        0 <= j < chunks.drop_last().len() && chunks.drop_last()[j] == x;
                    assert(chunks[w] == x);
                } else {
                    assert(s[k] == chunks.last());
                    assert(chunks[chunks.len() - 1] == chunks.last());
                }
            }
        }
    }
}

impl Clone for Document {
    /// A row read hands back an equal copy of the stored row.
    fn clone(&self) -> (r: Self)
        ensures
            r == *self,
    {
        Document {
            id: self.id,
            dataset_id: self.dataset_id,
            content: self.content.clone(),
            file_name: self.file_name.clone(),
            failure: match &self.failure {
                Some(m) => Some(m.clone()),
                None => None,
            },
        }
    }
}

} // verus!
