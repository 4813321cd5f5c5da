//! Chunk Embedding Stage.
//!
//! The stage loops: it fetches the entire current unprocessed-chunk backlog,
//! takes the first row under the store's order, has the driver call the
//! embedding service with that chunk's text and its denormalized provider
//! configuration, and commits the outcome through
//! [`apply_embedding_outcome`].  Success stores the vector; failure marks the
//! chunk processed with no embedding, a permanent skip.  Either way the chunk
//! leaves the backlog, so the loop reaches every row.

use crate::store::{Chunk, EmbeddingVector, Store};
use vstd::prelude::*;

verus! {

/// One pending call to the embedding service: a chunk's text together with
/// the provider configuration denormalized from its dataset.
pub struct EmbeddingJob {
    pub chunk_id: i32,
    pub text: String,
    pub base_url: String,
    pub model: String,
    pub api_key: String,
}

/// The job built for one backlog chunk: its own text, and the provider
/// configuration of the dataset owning its document.
pub open spec fn spec_job_for(store: Store, c: Chunk, j: EmbeddingJob) -> bool {
    let ds = store.spec_dataset(store.spec_document(c.document_id).dataset_id);
    &&& j.chunk_id == c.id
    &&& j.text == c.text
    &&& j.base_url == ds.embeddings_base_url
    &&& j.model == ds.embeddings_model
    &&& j.api_key == ds.api_key
}

impl Store {
    /// The unprocessed-chunk backlog, in the store's row order, each row
    /// joined with its dataset's embedding-provider configuration.
    pub fn unprocessed_chunks(&self) -> (r: Vec<EmbeddingJob>)
        requires
            self.wf(),
        ensures
            r@.len() == self.spec_unprocessed_chunks().len(),
            forall|k: int|
                0 <= k < r@.len() ==> spec_job_for(
                    *self,
                    self.spec_unprocessed_chunks()[k],
                    #[trigger] r@[k],
                ),
    {
        let mut jobs: Vec<EmbeddingJob> = Vec::new();
        let mut i: usize = 0;
        while i < self.chunks.len()
            invariant
                self.wf(),
                i <= self.chunks@.len(),
                jobs@.len() == Store::spec_unprocessed_chunks_of(
                    self.chunks@.take(i as int),
                ).len(),
                forall|k: int|
                    0 <= k < jobs@.len() ==> spec_job_for(
                        *self,
                        Store::spec_unprocessed_chunks_of(self.chunks@.take(i as int))[k],
                        #[trigger] jobs@[k],
                    ),
            decreases self.chunks@.len() - i,
        {
            proof {
                let cs = self.chunks@;
                assert(cs.take(i as int + 1).drop_last() =~= cs.take(i as int));
                assert(cs.take(i as int + 1).last() == cs[i as int]);
            }
            let c = &self.chunks[i];
            if !c.processed {
                let di = self.document_index(c.document_id);
                let doc = &self.documents[di];
                match self.dataset_config(doc.dataset_id) {
                    Some(ds) => {
                        jobs.push(
                            EmbeddingJob {
                                chunk_id: c.id,
                                text: c.text.clone(),
                                base_url: ds.embeddings_base_url.clone(),
                                model: ds.embeddings_model.clone(),
                                api_key: ds.api_key.clone(),
                            },
                        );
                    },
                    None => {
                        proof {
                            assert(self.spec_has_dataset(self.spec_document(c.document_id).dataset_id));
                            assert(false);
                        }
                        vstd::pervasive::unreached()
                    },
                }
            }
            i += 1;
        }
        proof {
            assert(self.chunks@.take(self.chunks@.len() as int) =~= self.chunks@);
        }
        jobs
    }
}

/// Re-reads the unprocessed-chunk backlog and selects exactly one candidate:
/// the row the store returns first.  `None` means the backlog is empty and
/// the stage ends for this cycle.
pub fn embedding_next(store: &Store) -> (r: Option<EmbeddingJob>)
    requires
        store.wf(),
    ensures
        match r {
            None => store.spec_unprocessed_chunks().len() == 0,
            Some(job) => store.spec_unprocessed_chunks().len() > 0 && spec_job_for(
                *store,
                store.spec_unprocessed_chunks()[0],
                job,
            ),
        },
{
    let mut jobs = store.unprocessed_chunks();
    if jobs.len() == 0 {
        None
    } else {
        Some(jobs.remove(0))
    }
}

/// Commits the outcome of one embedding call as a single atomic row update:
/// on success the chunk is marked processed and the vector stored; on
/// failure the chunk is marked processed with its embedding left as it was —
/// a permanent skip, never retried.  A chunk already processed stays
/// processed, and every other row stays exactly as it was.
pub fn apply_embedding_outcome(
    store: &mut Store,
    chunk_id: i32,
    outcome: Result<EmbeddingVector, String>,
)
    requires
        old(store).wf(),
        old(store).spec_has_chunk(chunk_id),
    ensures
        final(store).wf(),
        final(store).documents@ == old(store).documents@,
        final(store).datasets@ == old(store).datasets@,
        final(store).next_chunk_id == old(store).next_chunk_id,
        final(store).chunks@.len() == old(store).chunks@.len(),
        forall|i: int|
            0 <= i < old(store).chunks@.len() && i != old(store).spec_chunk_index(chunk_id)
                ==> final(store).chunks@[i] == old(store).chunks@[i],
        ({
            let pre = old(store).spec_chunk(chunk_id);
            let post = final(store).chunks@[old(store).spec_chunk_index(chunk_id)];
            &&& post.id == pre.id
            &&& post.document_id == pre.document_id
            &&& post.page_number == pre.page_number
            &&& post.text == pre.text
            &&& post.encrypted == pre.encrypted
            &&& post.processed == true
            &&& match outcome {
                Ok(v) => post.embedding == Some(v),
                Err(_) => post.embedding == pre.embedding,
            }
        }),
        forall|i: int|
            0 <= i < old(store).chunks@.len() && (#[trigger] old(store).chunks@[i]).processed
                ==> final(store).chunks@[i].processed,
{
    match outcome {
        Ok(v) => store.set_chunk_embedded(chunk_id, v),
        Err(_) => store.set_chunk_processed(chunk_id),
    }
}

} // verus!
