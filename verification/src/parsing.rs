//! Document Parsing Stage.
//!
//! Each cycle drains the unprocessed-document backlog read once at stage
//! entry: for every document there, the driver calls the structuring service
//! with the document's content and its dataset's chunking parameters, and
//! hands the outcome back to [`apply_structuring_outcome`].  On success the
//! segments are committed as chunk rows, all or nothing; on failure a
//! human-readable message is recorded on the document alone, and the pass
//! continues with the next document.

use crate::store::{Chunk, Document, Store, TenantKey};
use vstd::prelude::*;
use vstd::string::StringExecFns;

verus! {

/// One page-aware text segment returned by the structuring service; the page
/// number may be absent.
pub struct Segment {
    pub text: String,
    pub page_number: Option<u32>,
}

/// One pending call to the structuring service: a document's content and
/// file name together with its dataset's chunking parameters.
pub struct StructuringRequest {
    pub document_id: i32,
    pub content: String,
    pub file_name: String,
    pub combine_under_n_chars: u32,
    pub new_after_n_chars: u32,
    pub multipage_sections: bool,
}

/// An unrecoverable persistence fault: it propagates out of the cycle and
/// halts the worker, rather than being absorbed per item.
#[derive(Debug, PartialEq, Eq)]
pub enum FatalError {
    /// An unprocessed document references a dataset row that does not exist.
    DatasetNotFound { dataset_id: i32 },
}

/// The request built for one backlog document: its own identity and content,
/// and the chunking parameters of its dataset.
pub open spec fn spec_request_for(store: Store, d: Document, r: StructuringRequest) -> bool {
    let ds = store.spec_dataset(d.dataset_id);
    &&& r.document_id == d.id
    &&& r.content == d.content
    &&& r.file_name == d.file_name
    &&& r.combine_under_n_chars == ds.combine_under_n_chars
    &&& r.new_after_n_chars == ds.new_after_n_chars
    &&& r.multipage_sections == ds.multipage_sections
}

/// The message recorded on a document whose structuring call failed.
pub open spec fn spec_failure_message(detail: Seq<char>) -> Seq<char> {
    "Not able to parse document "@ + detail
}

/// Builds the failure message recorded on a document from the structuring
/// service's error text.
pub fn failure_message(detail: &str) -> (r: String)
    ensures
        r@ == spec_failure_message(detail@),
{
    let mut r = "Not able to parse document ".to_owned();
    r.append(detail);
    r
}

/// A missing page number defaults to page zero.
pub open spec fn spec_page_or_zero(p: Option<u32>) -> u32 {
    match p {
        Some(n) => n,
        None => 0,
    }
}

/// The chunk row committed for one structured segment.
pub open spec fn spec_chunk_for_segment(s: Segment, document_id: i32, id: int, encrypted: bool) -> Chunk {
    Chunk {
        id: id as i32,
        document_id,
        page_number: spec_page_or_zero(s.page_number),
        text: s.text,
        encrypted,
        processed: false,
        embedding: None,
    }
}

/// Reads the unprocessed-document backlog once, at stage entry, and resolves
/// each document's chunking parameters: the structuring calls the stage will
/// make this pass, in backlog order.  A document whose dataset row is missing
/// is an unrecoverable persistence fault.
pub fn document_pass_begin(store: &Store) -> (r: Result<Vec<StructuringRequest>, FatalError>)
    requires
        store.wf(),
    ensures
        ({
            let backlog = store.spec_unprocessed_documents();
            match r {
                Ok(reqs) => {
                    &&& reqs@.len() == backlog.len()
                    &&& forall|i: int|
                        0 <= i < backlog.len() ==> store.spec_has_dataset(
                            #[trigger] backlog[i].dataset_id,
                        )
                    &&& forall|i: int|
                        0 <= i < backlog.len() ==> spec_request_for(
                            *store,
                            backlog[i],
                            #[trigger] reqs@[i],
                        )
                },
                Err(e) => match e {
                    FatalError::DatasetNotFound { dataset_id } => {
                        &&& !store.spec_has_dataset(dataset_id)
                        &&& exists|i: int|
                            0 <= i < backlog.len() && (#[trigger] backlog[i]).dataset_id
                                == dataset_id
                    },
                },
            }
        }),
        store.spec_unprocessed_documents().len() == 0 ==> r is Ok,
{
    let docs = store.unprocessed_documents();
    let mut reqs: Vec<StructuringRequest> = Vec::new();
    let mut i: usize = 0;
    while i < docs.len()
        invariant
            store.wf(),
            docs@ == store.spec_unprocessed_documents(),
            i <= docs@.len(),
            reqs@.len() == i,
            forall|j: int|
                0 <= j < i ==> store.spec_has_dataset(#[trigger] docs@[j].dataset_id),
            forall|j: int|
                0 <= j < i ==> spec_request_for(*store, docs@[j], #[trigger] reqs@[j]),
        decreases docs@.len() - i,
    {
        let d = &docs[i];
        match store.dataset_config(d.dataset_id) {
            Some(ds) => {
                reqs.push(
                    StructuringRequest {
                        document_id: d.id,
                        content: d.content.clone(),
                        file_name: d.file_name.clone(),
                        combine_under_n_chars: ds.combine_under_n_chars,
                        new_after_n_chars: ds.new_after_n_chars,
                        multipage_sections: ds.multipage_sections,
                    },
                );
            },
            None => {
                proof {
                    assert(store.spec_unprocessed_documents()[i as int].dataset_id == d.dataset_id);
                }
                return Err(FatalError::DatasetNotFound { dataset_id: d.dataset_id });
            },
        }
        i += 1;
    }
    Ok(reqs)
}

/// Commits the outcome of one structuring call for one backlog document.
///
/// On success every returned segment becomes one chunk row, inserted
/// together; a missing page number defaults to zero, and the text write is
/// routed through the encrypt-on-write path exactly when a tenant key is
/// configured.  On failure the document alone is marked failed with the
/// recorded message, and no chunk row is touched.  Either way, a document
/// already failed and a chunk already processed stay exactly as they were.
pub fn apply_structuring_outcome(
    store: &mut Store,
    document_id: i32,
    key: Option<&TenantKey>,
    outcome: Result<Vec<Segment>, String>,
)
    requires
        old(store).wf(),
        old(store).spec_has_document(document_id),
        old(store).spec_document_unprocessed(old(store).spec_document(document_id)),
        old(store).spec_has_dataset(old(store).spec_document(document_id).dataset_id),
        outcome matches Ok(segments) ==> old(store).next_chunk_id + segments@.len() <= i32::MAX
            as int,
    ensures
        final(store).wf(),
        final(store).datasets@ == old(store).datasets@,
        match outcome {
            Ok(segments) => {
                &&& final(store).documents@ == old(store).documents@
                &&& final(store).next_chunk_id == old(store).next_chunk_id + segments@.len()
                &&& final(store).chunks@.len() == old(store).chunks@.len() + segments@.len()
                &&& forall|k: int|
                    0 <= k < old(store).chunks@.len() ==> final(store).chunks@[k] == old(
                        store,
                    ).chunks@[k]
                &&& forall|j: int|
                    0 <= j < segments@.len() ==> final(store).chunks@[old(store).chunks@.len() + j]
                        == spec_chunk_for_segment(
                        segments@[j],
                        document_id,
                        old(store).next_chunk_id + j,
                        key is Some,
                    )
            },
            Err(detail) => {
                &&& final(store).chunks@ == old(store).chunks@
                &&& final(store).next_chunk_id == old(store).next_chunk_id
                &&& final(store).documents@.len() == old(store).documents@.len()
                &&& forall|k: int|
                    0 <= k < old(store).documents@.len() && k != old(store).spec_document_index(
                        document_id,
                    ) ==> final(store).documents@[k] == old(store).documents@[k]
                &&& ({
                    let doc = final(store).documents@[old(store).spec_document_index(document_id)];
                    let pre = old(store).spec_document(document_id);
                    &&& doc.id == pre.id
                    &&& doc.dataset_id == pre.dataset_id
                    &&& doc.content == pre.content
                    &&& doc.file_name == pre.file_name
                    &&& doc.failure matches Some(m) && m@ == spec_failure_message(detail@)
                })
            },
        },
        forall|k: int|
            0 <= k < old(store).documents@.len() && (#[trigger] old(
                store,
            ).documents@[k]).failure is Some ==> final(store).documents@[k] == old(
                store,
            ).documents@[k],
        forall|k: int|
            0 <= k < old(store).chunks@.len() && (#[trigger] old(store).chunks@[k]).processed
                ==> final(store).chunks@[k] == old(store).chunks@[k],
{
    match outcome {
        Ok(segments) => {
            let ghost pre = *old(store);
            let mut j: usize = 0;
            while j < segments.len()
                invariant
                    store.wf(),
                    j <= segments@.len(),
                    pre.wf(),
                    pre.spec_has_document(document_id),
                    pre.spec_document(document_id).failure is None,
                    pre.spec_has_dataset(pre.spec_document(document_id).dataset_id),
                    pre.next_chunk_id + segments@.len() <= i32::MAX as int,
                    store.documents@ == pre.documents@,
                    store.datasets@ == pre.datasets@,
                    store.next_chunk_id == pre.next_chunk_id + j,
                    store.chunks@.len() == pre.chunks@.len() + j,
                    forall|k: int|
                        0 <= k < pre.chunks@.len() ==> #[trigger] store.chunks@[k]
                            == pre.chunks@[k],
                    forall|t: int|
                        0 <= t < j ==> store.chunks@[pre.chunks@.len() + t]
                            == spec_chunk_for_segment(
                            segments@[t],
                            document_id,
                            pre.next_chunk_id + t,
                            key is Some,
                        ),
                    store.spec_has_document(document_id),
                    store.spec_document(document_id) == pre.spec_document(document_id),
                    forall|x: i32| #![all_triggers]
                        store.spec_has_dataset(x) == pre.spec_has_dataset(x),
                decreases segments@.len() - j,
            {
                let s = &segments[j];
                let page = match s.page_number {
                    Some(n) => n,
                    None => 0,
                };
                store.insert_chunk(document_id, page, s.text.clone(), key);
                j += 1;
            }
        },
        Err(detail) => {
            let m = failure_message(detail.as_str());
            store.mark_document_failed(document_id, m);
        },
    }
}

} // verus!
