//! Documents built into the library and their publication as resources.
pub mod documents;
pub mod indexer;
pub mod resources;

pub use documents::{create_embedded_documents, EmbeddedDocument};
pub use resources::EmbeddedResourceProvider;

use vstd::prelude::*;

use crate::strmap::{StrMap, lookup};
use crate::parser::ast::queries::info::strs;
use crate::parser::ast::queries::processor::lemma_filter_take;
use documents::is_catalog;

verus! {

/// Index of the last document of `docs` among the first `n` with
/// identifier `id`.
pub open spec fn last_with_id(docs: Seq<EmbeddedDocument>, id: Seq<char>, n: nat) -> Option<nat>
    decreases n,
{
    if n == 0 || n > docs.len() {
        None
    } else if docs[n - 1].id@ == id {
        Some((n - 1) as nat)
    } else {
        last_with_id(docs, id, (n - 1) as nat)
    }
}

/// The document that an identifier names: the last one with that identifier.
pub open spec fn document_named(docs: Seq<EmbeddedDocument>, id: Seq<char>) -> Option<EmbeddedDocument> {
    match last_with_id(docs, id, docs.len()) {
        Some(i) => Some(docs[i as int]),
        None => None,
    }
}

/// Whether `d` carries every tag of `tags`.
pub open spec fn has_all_tags(d: EmbeddedDocument, tags: Seq<Seq<char>>) -> bool {
    forall|i: int| 0 <= i < tags.len() ==> strs(d.tags@).contains(#[trigger] tags[i])
}

/// A found index names a document with that identifier, and none after it has it.
proof fn lemma_last_with_id(docs: Seq<EmbeddedDocument>, id: Seq<char>, n: nat)
    requires
        n <= docs.len(),
    ensures
        last_with_id(docs, id, n) matches Some(i) ==> i < n && docs[i as int].id@ == id && forall|j: int|
            i < j < n ==> #[trigger] docs[j].id@ != id,
        last_with_id(docs, id, n) is None ==> forall|j: int| 0 <= j < n ==> #[trigger] docs[j].id@ != id,
    decreases n,
{
    if n > 0 && docs[n - 1].id@ != id {
        lemma_last_with_id(docs, id, (n - 1) as nat);
    }
}

/// All built-in documents, indexed by identifier.
#[derive(Debug)]
pub struct EmbeddedContentRegistry {
    documents: Vec<EmbeddedDocument>,
    id_index: StrMap<usize>,
}

impl View for EmbeddedContentRegistry {
    type V = Seq<EmbeddedDocument>;

    closed spec fn view(&self) -> Seq<EmbeddedDocument> {
        self.documents@
    }
}

impl EmbeddedContentRegistry {
    /// The index gives, for each identifier, the last document with it.
    #[verifier::type_invariant]
    closed spec fn index_matches(self) -> bool {
        forall|k: Seq<char>|
            #![trigger lookup(self.id_index@, k)]
            match lookup(self.id_index@, k) {
                Some(i) => last_with_id(self.documents@, k, self.documents@.len()) == Some(i as nat),
                None => last_with_id(self.documents@, k, self.documents@.len()) is None,
            }
    }

    /// A registry of all built-in documents.
    pub fn new() -> (r: Self)
        ensures
            is_catalog(r@),
    {
        let documents = create_embedded_documents();
        let mut id_index: StrMap<usize> = StrMap::new();
        let mut i: usize = 0;
        while i < documents.len()
            invariant
                i <= documents@.len(),
                forall|k: Seq<char>|
                    #![trigger lookup(id_index@, k)]
                    match lookup(id_index@, k) {
                        Some(j) => last_with_id(documents@, k, i as nat) == Some(j as nat),
                        None => last_with_id(documents@, k, i as nat) is None,
                    },
            decreases documents.len() - i,
        {
            let ghost m0 = id_index@;
            let ghost key = documents@[i as int].id@;
            id_index.insert(documents[i].id.clone(), i);
            proof {
                assert forall|k: Seq<char>|
                    #![trigger lookup(id_index@, k)]
                    match lookup(id_index@, k) {
                        Some(j) => last_with_id(documents@, k, (i + 1) as nat) == Some(j as nat),
                        None => last_with_id(documents@, k, (i + 1) as nat) is None,
                    } by {
                    assert(lookup(id_index@, k) == if k == key {
                        Some(i)
                    } else {
                        lookup(m0, k)
                    });
                    if k != key {
                        assert(match lookup(m0, k) {
                            Some(j) => last_with_id(documents@, k, i as nat) == Some(j as nat),
                            None => last_with_id(documents@, k, i as nat) is None,
                        });
                    }
                }
            }
            i = i + 1;
        }
        EmbeddedContentRegistry { documents, id_index }
    }

    /// All documents, in order.
    pub fn get_all_documents(&self) -> (d: &[EmbeddedDocument])
        ensures
            d@ == self@,
    {
        self.documents.as_slice()
    }

    /// The document with identifier `id`.
    pub fn get_document_by_id(&self, id: &str) -> (d: Option<&EmbeddedDocument>)
        ensures
            d matches Some(x) ==> document_named(self@, id@) == Some(*x),
            d is None ==> document_named(self@, id@) is None,
    {
        proof {
            use_type_invariant(self);
        }
        assert(match lookup(self.id_index@, id@) {
            Some(i) => last_with_id(self.documents@, id@, self.documents@.len()) == Some(i as nat),
            None => last_with_id(self.documents@, id@, self.documents@.len()) is None,
        });
        proof {
            lemma_last_with_id(self.documents@, id@, self.documents@.len() as nat);
        }
        match self.id_index.get(id) {
            Some(i) => {
                let i = *i;
                if i < self.documents.len() {
                    Some(&self.documents[i])
                } else {
                    None
                }
            },
            None => None,
        }
    }

    /// Documents carrying `tag`, in order.
    pub fn get_documents_by_tag(&self, tag: &str) -> (r: Vec<&EmbeddedDocument>)
        ensures
            r@.map_values(|d: &EmbeddedDocument| *d) == self@.filter(
                |d: EmbeddedDocument| strs(d.tags@).contains(tag@),
            ),
    {
        let mut out: Vec<&EmbeddedDocument> = Vec::new();
        let mut i: usize = 0;
        while i < self.documents.len()
            invariant
                i <= self.documents@.len(),
                out@.map_values(|d: &EmbeddedDocument| *d) == self.documents@.take(i as int).filter(
                    |d: EmbeddedDocument| strs(d.tags@).contains(tag@),
                ),
            decreases self.documents.len() - i,
        {
            proof {
                lemma_filter_take(self.documents@, |d: EmbeddedDocument| strs(d.tags@).contains(tag@), i as int);
            }
            let d = &self.documents[i];
            if d.has_tag(tag) {
                let ghost prev = out@.map_values(|d: &EmbeddedDocument| *d);
                out.push(d);
                assert(out@.map_values(|d: &EmbeddedDocument| *d) =~= prev.push(*d));
            }
            i = i + 1;
        }
        assert(self.documents@.take(self.documents@.len() as int) =~= self.documents@);
        out
    }

    /// Documents carrying every tag of `tags`, in order.
    pub fn get_documents_by_tags(&self, tags: &[&str]) -> (r: Vec<&EmbeddedDocument>)
        ensures
            r@.map_values(|d: &EmbeddedDocument| *d) == self@.filter(
                |d: EmbeddedDocument| has_all_tags(d, tags@.map_values(|t: &str| t@)),
            ),
    {
        let ghost ts = tags@.map_values(|t: &str| t@);
        let mut out: Vec<&EmbeddedDocument> = Vec::new();
        let mut i: usize = 0;
        while i < self.documents.len()
            invariant
                i <= self.documents@.len(),
                ts == tags@.map_values(|t: &str| t@),
                out@.map_values(|d: &EmbeddedDocument| *d) == self.documents@.take(i as int).filter(
                    |d: EmbeddedDocument| has_all_tags(d, tags@.map_values(|t: &str| t@)),
                ),
            decreases self.documents.len() - i,
        {
            proof {
                lemma_filter_take(
                    self.documents@,
                    |d: EmbeddedDocument| has_all_tags(d, tags@.map_values(|t: &str| t@)),
                    i as int,
                );
            }
            let d = &self.documents[i];
            let mut all = true;
            let mut j: usize = 0;
            while j < tags.len()
                invariant
                    j <= tags@.len(),
                    ts == tags@.map_values(|t: &str| t@),
                    all == forall|k: int| 0 <= k < j ==> strs(d.tags@).contains(#[trigger] ts[k]),
                decreases tags.len() - j,
            {
                let has = d.has_tag(tags[j]);
                assert(ts[j as int] == tags@[j as int]@);
                all = all && has;
                j = j + 1;
            }
            if all {
                let ghost prev = out@.map_values(|d: &EmbeddedDocument| *d);
                out.push(d);
                assert(out@.map_values(|d: &EmbeddedDocument| *d) =~= prev.push(*d));
            }
            i = i + 1;
        }
        assert(self.documents@.take(self.documents@.len() as int) =~= self.documents@);
        out
    }

    /// Number of documents.
    pub fn len(&self) -> (n: usize)
        ensures
            n == self@.len(),
    {
        self.documents.len()
    }

    /// Whether there is no document.
    pub fn is_empty(&self) -> (b: bool)
        ensures
            b == (self@.len() == 0),
    {
        self.documents.len() == 0
    }
}

impl Default for EmbeddedContentRegistry {
    fn default() -> (r: Self)
        ensures
            is_catalog(r@),
    {
        Self::new()
    }
}

/// Every document of a registry is found by its identifier, when no two
/// documents share one.
pub proof fn lemma_registry_finds_each_document(docs: Seq<EmbeddedDocument>, k: int)
    requires
        0 <= k < docs.len(),
        forall|i: int, j: int| 0 <= i < j < docs.len() ==> docs[i].id@ != docs[j].id@,
    ensures
        document_named(docs, docs[k].id@) == Some(docs[k]),
{
    lemma_last_with_id(docs, docs[k].id@, docs.len());
    match last_with_id(docs, docs[k].id@, docs.len()) {
        Some(i) => {
            if (i as int) < k {
                assert(docs[k].id@ != docs[k].id@);
            }
            if (i as int) > k {
                assert(docs[k].id@ != docs[i as int].id@);
            }
        },
        None => {
            assert(docs[k].id@ != docs[k].id@);
        },
    }
}

} // verus!
