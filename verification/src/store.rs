use vstd::prelude::*;
use crate::util::bytes_eq;
use crate::util::copy_bytes;
use crate::ident::content_token;
use crate::ident::format_content_token;
use crate::ident::format_token;
use crate::ident::token_of;
use crate::ident::is_random_token;
use crate::ident::is_content_token;
use crate::ident::lemma_token_of_shape;
use crate::ident::lemma_content_token_shape;

verus! {

/// One identifier-to-storage-key record of the random scheme's index:
/// created exactly once per upload, never changed afterwards.
pub struct NewPost {
    pub post_id: Vec<u8>,
    pub file_id: Vec<u8>,
}

/// The identifier index of the random scheme. Newer records stand in
/// front of older ones, so a lookup sees the newest binding of a key.
struct IndexTable {
    rows: Vec<NewPost>,
}

spec fn rows_map(rows: Seq<NewPost>) -> Map<Seq<u8>, Seq<u8>>
    decreases rows.len(),
{
    if rows.len() == 0 {
        Map::empty()
    } else {
        rows_map(rows.drop_first()).insert(rows[0].post_id@, rows[0].file_id@)
    }
}

impl IndexTable {
    spec fn as_map(self) -> Map<Seq<u8>, Seq<u8>> {
        rows_map(self.rows@)
    }

    fn new() -> (t: IndexTable)
        ensures
            t.as_map() == Map::<Seq<u8>, Seq<u8>>::empty(),
    {
        IndexTable { rows: Vec::new() }
    }

    fn get(&self, key: &[u8]) -> (r: Option<Vec<u8>>)
        ensures
            match r {
                Some(v) => self.as_map().contains_key(key@) && v@ == self.as_map()[key@],
                None => !self.as_map().contains_key(key@),
            },
    {
        let mut i: usize = 0;
        proof {
            assert(self.rows@.skip(0) =~= self.rows@);
        }
        while i < self.rows.len()
            invariant
                i <= self.rows.len(),
                rows_map(self.rows@.skip(i as int)).contains_key(key@) == rows_map(
                    self.rows@,
                ).contains_key(key@),
                rows_map(self.rows@.skip(i as int)).contains_key(key@) ==> rows_map(
                    self.rows@.skip(i as int),
                )[key@] == rows_map(self.rows@)[key@],
        decreases self.rows.len() - i,
        {
            proof {
                assert(self.rows@.skip(i as int).drop_first() =~= self.rows@.skip(i + 1));
            }
            if bytes_eq(self.rows[i].post_id.as_slice(), key) {
                return Some(copy_bytes(self.rows[i].file_id.as_slice()));
            }
            i += 1;
        }
        proof {
            assert(self.rows@.skip(self.rows@.len() as int) =~= Seq::<NewPost>::empty());
        }
        None
    }

    fn put(&mut self, post_id: Vec<u8>, file_id: Vec<u8>)
        ensures
            final(self).as_map() == old(self).as_map().insert(post_id@, file_id@),
    {
        self.rows.insert(0, NewPost { post_id, file_id });
        proof {
            assert(self.rows@.drop_first() =~= old(self).rows@);
        }
    }
}

/// One stored blob: raw bytes at a storage key.
struct Blob {
    key: Vec<u8>,
    bytes: Vec<u8>,
}

/// The byte-addressable blob table. As in the index, newer blobs stand
/// in front, so writing an existing key shadows the older bytes.
struct BlobTable {
    blobs: Vec<Blob>,
}

spec fn blobs_map(blobs: Seq<Blob>) -> Map<Seq<u8>, Seq<u8>>
    decreases blobs.len(),
{
    if blobs.len() == 0 {
        Map::empty()
    } else {
        blobs_map(blobs.drop_first()).insert(blobs[0].key@, blobs[0].bytes@)
    }
}

impl BlobTable {
    spec fn as_map(self) -> Map<Seq<u8>, Seq<u8>> {
        blobs_map(self.blobs@)
    }

    fn new() -> (t: BlobTable)
        ensures
            t.as_map() == Map::<Seq<u8>, Seq<u8>>::empty(),
    {
        BlobTable { blobs: Vec::new() }
    }

    fn read(&self, key: &[u8]) -> (r: Option<Vec<u8>>)
        ensures
            match r {
                Some(v) => self.as_map().contains_key(key@) && v@ == self.as_map()[key@],
                None => !self.as_map().contains_key(key@),
            },
    {
        let mut i: usize = 0;
        proof {
            assert(self.blobs@.skip(0) =~= self.blobs@);
        }
        while i < self.blobs.len()
            invariant
                i <= self.blobs.len(),
                blobs_map(self.blobs@.skip(i as int)).contains_key(key@) == blobs_map(
                    self.blobs@,
                ).contains_key(key@),
                blobs_map(self.blobs@.skip(i as int)).contains_key(key@) ==> blobs_map(
                    self.blobs@.skip(i as int),
                )[key@] == blobs_map(self.blobs@)[key@],
        decreases self.blobs.len() - i,
        {
            proof {
                assert(self.blobs@.skip(i as int).drop_first() =~= self.blobs@.skip(i + 1));
            }
            if bytes_eq(self.blobs[i].key.as_slice(), key) {
                return Some(copy_bytes(self.blobs[i].bytes.as_slice()));
            }
            i += 1;
        }
        proof {
            assert(self.blobs@.skip(self.blobs@.len() as int) =~= Seq::<Blob>::empty());
        }
        None
    }

    fn write(&mut self, key: Vec<u8>, bytes: Vec<u8>)
        ensures
            final(self).as_map() == old(self).as_map().insert(key@, bytes@),
    {
        self.blobs.insert(0, Blob { key, bytes });
        proof {
            assert(self.blobs@.drop_first() =~= old(self).blobs@);
        }
    }
}

/// How submitted bytes are mapped to an identifier and a storage key.
#[derive(Debug, Clone, Copy, PartialEq, Eq, Structural)]
pub enum Strategy {
    /// Identifier and storage key are independent random tokens, tied
    /// together through the index.
    RandomIndirection,
    /// The identifier is a hash of the content and is itself the
    /// storage key; no index is involved.
    ContentHash,
}

/// Why a retrieval failed.
#[derive(Debug, Clone, Copy, PartialEq, Eq, Structural)]
pub enum StoreError {
    /// The identifier resolves to nothing.
    NotFound,
}

/// The paste store: one addressing strategy, chosen at start-up, over
/// an identifier index and a blob table.
pub struct PasteStore {
    strategy: Strategy,
    index: IndexTable,
    blobs: BlobTable,
}

/// Relies on uuid::Uuid::new_v4, which draws a fresh random 128-bit
/// token; nothing is promised of the value.
#[verifier::external_body]
fn fresh_token_bits() -> u128 {
    uuid::Uuid::new_v4().as_u128()
}

impl PasteStore {
    /// The strategy the store was opened with.
    pub closed spec fn active_strategy(self) -> Strategy {
        self.strategy
    }

    /// The index, as a map from identifier to storage key.
    pub closed spec fn index_view(self) -> Map<Seq<u8>, Seq<u8>> {
        self.index.as_map()
    }

    /// The blob table, as a map from storage key to content bytes.
    pub closed spec fn blob_view(self) -> Map<Seq<u8>, Seq<u8>> {
        self.blobs.as_map()
    }

    /// Opens an empty store with the given strategy.
    pub fn new(strategy: Strategy) -> (s: PasteStore)
        ensures
            s.active_strategy() == strategy,
            s.index_view() == Map::<Seq<u8>, Seq<u8>>::empty(),
            s.blob_view() == Map::<Seq<u8>, Seq<u8>>::empty(),
    {
        PasteStore { strategy, index: IndexTable::new(), blobs: BlobTable::new() }
    }

    /// The strategy, readable at runtime.
    pub fn strategy(&self) -> (s: Strategy)
        ensures
            s == self.active_strategy(),
    {
        self.strategy
    }

    /// Persists `content` and returns its fresh identifier.
    pub fn store(&mut self, content: &[u8]) -> (id: Vec<u8>)
        ensures
            old(self).active_strategy() == Strategy::ContentHash ==> content_store_step(
                *old(self),
                *final(self),
                id@,
                content@,
            ),
            old(self).active_strategy() == Strategy::RandomIndirection ==> is_random_token(id@)
                && (exists|k: Seq<u8>|
                random_store_step(*old(self), *final(self), id@, k, content@)),
    {
        match self.strategy {
            Strategy::ContentHash => {
                let id = format_content_token(content);
                let key = copy_bytes(id.as_slice());
                self.blobs.write(key, copy_bytes(content));
                proof {
                    lemma_content_token_shape(content@);
                }
                id
            },
            Strategy::RandomIndirection => {
                let id_bits = fresh_token_bits();
                let key_bits = fresh_token_bits();
                let id = format_token(id_bits);
                let key = format_token(key_bits);
                self.blobs.write(copy_bytes(key.as_slice()), copy_bytes(content));
                self.index.put(copy_bytes(id.as_slice()), key);
                proof {
                    lemma_token_of_shape(id_bits);
                    lemma_token_of_shape(key_bits);
                    assert(random_store_step(*old(self), *self, id@, token_of(key_bits), content@));
                }
                id
            },
        }
    }

    /// Retrieves the bytes stored under `id`, or says that the
    /// identifier resolves to nothing.
    pub fn load(&self, id: &[u8]) -> (r: Result<Vec<u8>, StoreError>)
        ensures
            match r {
                Ok(v) => spec_load(*self, id@) == Some(v@),
                Err(e) => spec_load(*self, id@) is None && e == StoreError::NotFound,
            },
    {
        match self.strategy {
            Strategy::ContentHash => match self.blobs.read(id) {
                Some(v) => Ok(v),
                None => Err(StoreError::NotFound),
            },
            Strategy::RandomIndirection => match self.index.get(id) {
                None => Err(StoreError::NotFound),
                Some(key) => match self.blobs.read(key.as_slice()) {
                    Some(v) => Ok(v),
                    None => Err(StoreError::NotFound),
                },
            },
        }
    }
}

/// What retrieval means, over the store's views: under random
/// indirection the identifier leads through the index to a storage key
/// and from there to the blob; under content hashing the identifier is
/// the storage key itself.
pub open spec fn spec_load(s: PasteStore, id: Seq<u8>) -> Option<Seq<u8>> {
    match s.active_strategy() {
        Strategy::RandomIndirection => {
            if s.index_view().contains_key(id) && s.blob_view().contains_key(s.index_view()[id]) {
                Some(s.blob_view()[s.index_view()[id]])
            } else {
                None
            }
        },
        Strategy::ContentHash => {
            if s.blob_view().contains_key(id) {
                Some(s.blob_view()[id])
            } else {
                None
            }
        },
    }
}

/// One upload under random indirection: identifier `id` now leads to
/// the fresh storage key `k`, which holds the submitted bytes; nothing
/// else about the store changed.
pub open spec fn random_store_step(
    pre: PasteStore,
    post: PasteStore,
    id: Seq<u8>,
    k: Seq<u8>,
    content: Seq<u8>,
) -> bool {
    &&& post.active_strategy() == pre.active_strategy()
    &&& is_random_token(k)
    &&& post.index_view() == pre.index_view().insert(id, k)
    &&& post.blob_view() == pre.blob_view().insert(k, content)
}

/// One upload under content hashing: the blob now sits at the
/// content-derived identifier; the index is untouched.
pub open spec fn content_store_step(
    pre: PasteStore,
    post: PasteStore,
    id: Seq<u8>,
    content: Seq<u8>,
) -> bool {
    &&& post.active_strategy() == pre.active_strategy()
    &&& id == content_token(content)
    &&& is_content_token(id)
    &&& post.index_view() == pre.index_view()
    &&& post.blob_view() == pre.blob_view().insert(content_token(content), content)
}

/// Round trip under random indirection: after an upload, loading the
/// returned identifier yields exactly the stored bytes.
pub proof fn lemma_random_round_trip(
    pre: PasteStore,
    post: PasteStore,
    id: Seq<u8>,
    k: Seq<u8>,
    content: Seq<u8>,
)
    requires
        post.active_strategy() == Strategy::RandomIndirection,
        random_store_step(pre, post, id, k, content),
    ensures
        spec_load(post, id) == Some(content),
{
}

/// Round trip under content hashing: after an upload, loading the
/// content-derived identifier yields exactly the stored bytes.
pub proof fn lemma_content_round_trip(pre: PasteStore, post: PasteStore, content: Seq<u8>)
    requires
        post.active_strategy() == Strategy::ContentHash,
        content_store_step(pre, post, content_token(content), content),
    ensures
        spec_load(post, content_token(content)) == Some(content),
{
}

/// Idempotence of content hashing: uploading the same bytes twice
/// yields the same identifier both times, and the second upload leaves
/// every retrievable paste exactly as the first upload left it.
pub proof fn lemma_content_store_idempotent(
    s0: PasteStore,
    s1: PasteStore,
    s2: PasteStore,
    id1: Seq<u8>,
    id2: Seq<u8>,
    content: Seq<u8>,
)
    requires
        content_store_step(s0, s1, id1, content),
        content_store_step(s1, s2, id2, content),
    ensures
        id1 == id2,
        s2.blob_view() == s1.blob_view(),
        s2.index_view() == s1.index_view(),
        forall|q: Seq<u8>| spec_load(s2, q) == spec_load(s1, q),
{
    assert(s2.blob_view() =~= s1.blob_view());
}

} // verus!
