//! Progress of indexing the built-in documents for search.
use vstd::prelude::*;

verus! {

/// How many built-in documents are indexed for search.
#[derive(Debug, Clone, PartialEq, Eq)]
pub struct EmbeddedContentStats {
    /// Built-in documents available.
    pub total_embedded_documents: usize,
    /// Documents present in the search index.
    pub indexed_documents: usize,
    /// Whether every built-in document is indexed.
    pub indexing_complete: bool,
}

} // verus!
