//! The embedding ingestion pipeline: which documents are accepted, and how
//! their embedded chunks gather into batches for the vector store.
//!
//! The pipeline decides and never performs. Its caller reads the file, asks
//! the backend for each chunk's embedding and upserts each batch; an
//! [`Ingestion`] tells it which chunk is next and when a batch is due. Chunks
//! are taken strictly in document order, so that a chunk's identifier depends
//! on nothing but the path and the chunk's position.

use crate::chunk::{chunk_id, chunk_id_of, chunks, split_chunks};
use crate::text::{str_eq, string_views};
use vstd::prelude::*;

verus! {

/// The number of chunks that go to the vector store in one call.
pub const BATCH_CAPACITY: usize = 5;

/// Why a source was not ingested.
#[derive(Debug, Clone, Copy, PartialEq, Eq, Structural)]
pub enum IngestError {
    /// The path names a directory.
    Directory,
    /// The path's extension is not `txt`.
    NotPlainText,
}

/// Whether a source with this extension may be ingested.
pub open spec fn source_checked(is_directory: bool, extension: Option<Seq<char>>) -> Result<
    (),
    IngestError,
> {
    if is_directory {
        Err(IngestError::Directory)
    } else if extension != Some("txt"@) {
        Err(IngestError::NotPlainText)
    } else {
        Ok(())
    }
}

/// Decides whether a source may be ingested, from what the file system says
/// of its path: whether it is a directory, and its extension if it has one.
///
/// Only a file whose extension is exactly `txt` passes.
pub fn check_source(is_directory: bool, extension: Option<&str>) -> (r: Result<(), IngestError>)
    ensures
        r == source_checked(
            is_directory,
            match extension {
                Some(e) => Some(e@),
                None => None,
            },
        ),
{
    if is_directory {
        return Err(IngestError::Directory);
    }
    match extension {
        Some(e) => if str_eq(e, "txt") {
            Ok(())
        } else {
            Err(IngestError::NotPlainText)
        },
        None => Err(IngestError::NotPlainText),
    }
}

/// One embedded chunk: its identifier, its text and its vector.
#[derive(Debug, Clone, PartialEq)]
pub struct Entry<V> {
    pub id: String,
    pub document: String,
    pub vector: V,
}

pub struct EntryView<V> {
    pub id: Seq<char>,
    pub document: Seq<char>,
    pub vector: V,
}

impl<V> View for Entry<V> {
    type V = EntryView<V>;

    open spec fn view(&self) -> EntryView<V> {
        EntryView { id: self.id@, document: self.document@, vector: self.vector }
    }
}

pub open spec fn entry_views<V>(entries: Seq<Entry<V>>) -> Seq<EntryView<V>> {
    entries.map_values(|e: Entry<V>| e@)
}

/// The chunks that go to the vector store in one call. Identifier, text and
/// vector of a chunk are held together, so the three sequences that the store
/// takes cannot fall out of step.
#[derive(Debug, Clone, PartialEq)]
pub struct EmbeddingBatch<V> {
    entries: Vec<Entry<V>>,
}

impl<V> View for EmbeddingBatch<V> {
    type V = Seq<EntryView<V>>;

    closed spec fn view(&self) -> Seq<EntryView<V>> {
        entry_views(self.entries@)
    }
}

impl<V> EmbeddingBatch<V> {
    pub fn len(&self) -> (n: usize)
        ensures
            n == self@.len(),
    {
        self.entries.len()
    }

    /// The entries in document order.
    pub fn entries(&self) -> (r: &[Entry<V>])
        ensures
            entry_views(r@) == self@,
    {
        self.entries.as_slice()
    }

    /// The batch as the three sequences that the vector store takes:
    /// identifiers, texts and vectors, equally long and in step.
    pub fn into_parts(self) -> (parts: (Vec<String>, Vec<String>, Vec<V>))
        ensures
            string_views(parts.0@) == self@.map_values(|e: EntryView<V>| e.id),
            string_views(parts.1@) == self@.map_values(|e: EntryView<V>| e.document),
            parts.2@ == self@.map_values(|e: EntryView<V>| e.vector),
    {
        let ghost all = self@;
        let mut ids: Vec<String> = Vec::new();
        let mut documents: Vec<String> = Vec::new();
        let mut vectors: Vec<V> = Vec::new();
        for entry in it: self.entries
            invariant
                all == entry_views(it.seq()),
                ids@.len() == it.index(),
                documents@.len() == it.index(),
                vectors@.len() == it.index(),
                forall|i: int| 0 <= i < it.index() ==> (#[trigger] ids@[i])@ == all[i].id,
                forall|i: int|
                    0 <= i < it.index() ==> (#[trigger] documents@[i])@ == all[i].document,
                forall|i: int| 0 <= i < it.index() ==> (#[trigger] vectors@[i]) == all[i].vector,
        {
            ids.push(entry.id);
            documents.push(entry.document);
            vectors.push(entry.vector);
        }
        proof {
            assert(string_views(ids@) =~= all.map_values(|e: EntryView<V>| e.id));
            assert(string_views(documents@) =~= all.map_values(|e: EntryView<V>| e.document));
            assert(vectors@ =~= all.map_values(|e: EntryView<V>| e.vector));
        }
        (ids, documents, vectors)
    }
}

/// The ingestion of one document in progress.
#[derive(Debug)]
pub struct Ingestion<V> {
    path: String,
    chunks: Vec<String>,
    next: usize,
    capacity: usize,
    pending: Vec<Entry<V>>,
}

/// The state of an ingestion.
pub struct IngestionView<V> {
    pub path: Seq<char>,
    pub chunks: Seq<Seq<char>>,
    /// The position of the chunk whose embedding is awaited.
    pub next: nat,
    pub capacity: nat,
    /// The embedded chunks that have not gone to the store yet.
    pub pending: Seq<EntryView<V>>,
}

impl<V> View for Ingestion<V> {
    type V = IngestionView<V>;

    closed spec fn view(&self) -> IngestionView<V> {
        IngestionView {
            path: self.path@,
            chunks: string_views(self.chunks@),
            next: self.next as nat,
            capacity: self.capacity as nat,
            pending: entry_views(self.pending@),
        }
    }
}

/// An ingestion as it starts.
pub open spec fn started<V>(path: Seq<char>, text: Seq<char>, capacity: nat) -> IngestionView<V> {
    IngestionView { path, chunks: chunks(text), next: 0, capacity, pending: Seq::empty() }
}

/// The state after the awaited chunk was given up.
pub open spec fn skipped<V>(s: IngestionView<V>) -> IngestionView<V> {
    if s.next < s.chunks.len() {
        IngestionView { next: s.next + 1, ..s }
    } else {
        s
    }
}

/// The entry that the chunk at position `index` makes with its vector.
pub open spec fn entry_at<V>(
    path: Seq<char>,
    chunks: Seq<Seq<char>>,
    index: nat,
    vector: V,
) -> EntryView<V> {
    EntryView { id: chunk_id_of(path, index), document: chunks[index as int], vector }
}

/// The entry that the awaited chunk makes with its vector.
pub open spec fn entry_of<V>(s: IngestionView<V>, vector: V) -> EntryView<V> {
    entry_at(s.path, s.chunks, s.next, vector)
}

/// The state after the awaited chunk was embedded, and the batch that is due
/// if the chunk filled one.
pub open spec fn accepted<V>(s: IngestionView<V>, vector: V) -> (
    IngestionView<V>,
    Option<Seq<EntryView<V>>>,
) {
    let grown = s.pending.push(entry_of(s, vector));
    if s.next >= s.chunks.len() {
        (s, None)
    } else if grown.len() >= s.capacity {
        (IngestionView { next: s.next + 1, pending: Seq::empty(), ..s }, Some(grown))
    } else {
        (IngestionView { next: s.next + 1, pending: grown, ..s }, None)
    }
}

/// The batch that is due when the ingestion ends: what is pending, if
/// anything is.
pub open spec fn finished<V>(s: IngestionView<V>) -> Option<Seq<EntryView<V>>> {
    if s.pending.len() > 0 {
        Some(s.pending)
    } else {
        None
    }
}

/// The state after one chunk's embedding came back, `None` standing for a
/// failure, and the batch that is due.
pub open spec fn fed<V>(s: IngestionView<V>, outcome: Option<V>) -> (
    IngestionView<V>,
    Option<Seq<EntryView<V>>>,
) {
    match outcome {
        Some(vector) => accepted(s, vector),
        None => (skipped(s), None),
    }
}

/// The batches that go to the store, in order, when the embeddings come back
/// as `outcomes` say and the ingestion then ends.
pub open spec fn upserts<V>(s: IngestionView<V>, outcomes: Seq<Option<V>>) -> Seq<
    Seq<EntryView<V>>,
>
    decreases outcomes.len(),
{
    if outcomes.len() == 0 {
        match finished(s) {
            Some(batch) => seq![batch],
            None => Seq::empty(),
        }
    } else {
        let (t, due) = fed(s, outcomes[0]);
        let rest = upserts(t, outcomes.drop_first());
        match due {
            Some(batch) => seq![batch] + rest,
            None => rest,
        }
    }
}

/// The entries of the chunks from position `next` on whose embedding
/// succeeded, in document order.
pub open spec fn embedded<V>(
    path: Seq<char>,
    chunks: Seq<Seq<char>>,
    next: nat,
    outcomes: Seq<Option<V>>,
) -> Seq<EntryView<V>>
    decreases outcomes.len(),
{
    if outcomes.len() == 0 {
        Seq::empty()
    } else {
        let rest = embedded(path, chunks, next + 1, outcomes.drop_first());
        match outcomes[0] {
            Some(vector) => seq![entry_at(path, chunks, next, vector)] + rest,
            None => rest,
        }
    }
}

/// The entries of all batches, in order.
pub open spec fn joined<V>(batches: Seq<Seq<EntryView<V>>>) -> Seq<EntryView<V>>
    decreases batches.len(),
{
    if batches.len() == 0 {
        Seq::empty()
    } else {
        batches[0] + joined(batches.drop_first())
    }
}

/// Whether every batch but the last holds exactly `capacity` entries, and the
/// last at least one and at most `capacity`.
pub open spec fn well_sized<V>(batches: Seq<Seq<EntryView<V>>>, capacity: nat) -> bool {
    &&& forall|k: int| 0 <= k < batches.len() - 1 ==> (#[trigger] batches[k]).len() == capacity
    &&& batches.len() > 0 ==> 0 < batches.last().len() <= capacity
}

proof fn upserts_from<V>(s: IngestionView<V>, outcomes: Seq<Option<V>>)
    requires
        s.capacity > 0,
        s.pending.len() < s.capacity,
        s.next + outcomes.len() == s.chunks.len(),
    ensures
        joined(upserts(s, outcomes)) == s.pending + embedded(s.path, s.chunks, s.next, outcomes),
        well_sized(upserts(s, outcomes), s.capacity),
    decreases outcomes.len(),
{
    let all = upserts(s, outcomes);
    if outcomes.len() == 0 {
        if s.pending.len() > 0 {
            assert(all =~= seq![s.pending]);
            assert(all.drop_first() =~= Seq::<Seq<EntryView<V>>>::empty());
            assert(joined(all.drop_first()) =~= Seq::<EntryView<V>>::empty());
            assert(joined(all) =~= s.pending);
        }
        assert(joined(all) =~= s.pending + embedded(s.path, s.chunks, s.next, outcomes));
    } else {
        let (t, due) = fed(s, outcomes[0]);
        let rest = upserts(t, outcomes.drop_first());
        let tail = embedded(s.path, s.chunks, s.next + 1, outcomes.drop_first());
        upserts_from(t, outcomes.drop_first());
        match due {
            Some(batch) => {
                assert(all == seq![batch] + rest);
                assert(all.drop_first() =~= rest);
                assert(joined(all) =~= batch + joined(rest));
                assert(joined(all) =~= s.pending + embedded(
                    s.path,
                    s.chunks,
                    s.next,
                    outcomes,
                ));
                assert forall|k: int| 0 <= k < all.len() - 1 implies (#[trigger] all[k]).len()
                    == s.capacity by {
                    if k > 0 {
                        assert(all[k] == rest[k - 1]);
                    }
                }
                if rest.len() > 0 {
                    assert(all.last() == rest.last());
                }
            },
            None => {
                assert(joined(all) =~= s.pending + embedded(
                    s.path,
                    s.chunks,
                    s.next,
                    outcomes,
                ));
            },
        }
    }
}

/// Nothing is dropped and nothing is sent twice: whatever the embeddings
/// come to, the batches that go to the store hold, taken together and in
/// order, exactly the chunks whose embedding succeeded. Every batch but the
/// last is full, and the last, which may be partial, is sent too.
pub proof fn every_embedded_chunk_is_upserted_once<V>(
    path: Seq<char>,
    text: Seq<char>,
    capacity: nat,
    outcomes: Seq<Option<V>>,
)
    requires
        capacity > 0,
        outcomes.len() == chunks(text).len(),
    ensures
        joined(upserts(started(path, text, capacity), outcomes)) == embedded(
            path,
            chunks(text),
            0,
            outcomes,
        ),
        well_sized(upserts(started(path, text, capacity), outcomes), capacity),
{
    let s = started::<V>(path, text, capacity);
    upserts_from(s, outcomes);
    assert(s.pending + embedded(path, chunks(text), 0, outcomes) =~= embedded(
        path,
        chunks(text),
        0,
        outcomes,
    ));
}

/// Whether every outcome is a success.
pub open spec fn all_succeed<V>(outcomes: Seq<Option<V>>) -> bool {
    forall|i: int| 0 <= i < outcomes.len() ==> (#[trigger] outcomes[i]) is Some
}

proof fn embedded_when_all_succeed<V>(
    path: Seq<char>,
    chunks: Seq<Seq<char>>,
    next: nat,
    outcomes: Seq<Option<V>>,
)
    requires
        all_succeed(outcomes),
    ensures
        embedded(path, chunks, next, outcomes) == Seq::new(
            outcomes.len(),
            |i: int| entry_at(path, chunks, (next + i) as nat, outcomes[i]->0),
        ),
    decreases outcomes.len(),
{
    if outcomes.len() > 0 {
        let rest = outcomes.drop_first();
        assert forall|i: int| 0 <= i < rest.len() implies (#[trigger] rest[i]) is Some by {
            assert(rest[i] == outcomes[i + 1]);
        }
        embedded_when_all_succeed(path, chunks, next + 1, rest);
        assert(outcomes[0] is Some);
    }
    assert(embedded(path, chunks, next, outcomes) =~= Seq::new(
        outcomes.len(),
        |i: int| entry_at(path, chunks, (next + i) as nat, outcomes[i]->0),
    ));
}

proof fn joined_len<V>(batches: Seq<Seq<EntryView<V>>>, capacity: nat)
    requires
        well_sized(batches, capacity),
        batches.len() > 0,
    ensures
        joined(batches).len() == (batches.len() - 1) * capacity + batches.last().len(),
    decreases batches.len(),
{
    let rest = batches.drop_first();
    if batches.len() == 1 {
        assert(joined(rest) =~= Seq::<EntryView<V>>::empty());
        assert((batches.len() - 1) * capacity == 0) by (nonlinear_arith)
            requires
                batches.len() == 1,
        ;
    } else {
        assert forall|k: int| 0 <= k < rest.len() - 1 implies (#[trigger] rest[k]).len()
            == capacity by {
            assert(rest[k] == batches[k + 1]);
        }
        assert(rest.last() == batches.last());
        joined_len(rest, capacity);
        assert(batches[0].len() == capacity);
        assert((batches.len() - 1) * capacity == capacity + (rest.len() - 1) * capacity)
            by (nonlinear_arith)
            requires
                rest.len() == batches.len() - 1,
        ;
    }
}

/// When every embedding succeeds, the batches hold every chunk of the
/// document, each under its own position, and their number and sizes follow
/// from the number of chunks alone: all are full but the last, which holds
/// what is left. Thirteen chunks at capacity five go out as five, five and
/// three.
pub proof fn batch_sizes_when_all_succeed<V>(
    path: Seq<char>,
    text: Seq<char>,
    capacity: nat,
    outcomes: Seq<Option<V>>,
)
    requires
        capacity > 0,
        outcomes.len() == chunks(text).len(),
        all_succeed(outcomes),
    ensures
        ({
            let sent = upserts(started(path, text, capacity), outcomes);
            let n = chunks(text).len();
            &&& joined(sent) == Seq::new(
                n,
                |i: int| entry_at(path, chunks(text), i as nat, outcomes[i]->0),
            )
            &&& well_sized(sent, capacity)
            &&& n > 0 ==> sent.len() > 0
            &&& sent.len() > 0 ==> (sent.len() - 1) * capacity < n <= sent.len() * capacity
            &&& sent.len() > 0 ==> sent.last().len() == n - (sent.len() - 1) * capacity
        }),
{
    let sent = upserts(started::<V>(path, text, capacity), outcomes);
    let n = chunks(text).len();
    every_embedded_chunk_is_upserted_once(path, text, capacity, outcomes);
    embedded_when_all_succeed(path, chunks(text), 0, outcomes);
    assert(joined(sent) =~= Seq::new(
        n,
        |i: int| entry_at(path, chunks(text), i as nat, outcomes[i]->0),
    ));
    if sent.len() > 0 {
        joined_len(sent, capacity);
        assert(sent.len() * capacity == (sent.len() - 1) * capacity + capacity)
            by (nonlinear_arith);
    }
}

/// The identifiers of a batch, in order.
pub open spec fn ids_of<V>(batch: Seq<EntryView<V>>) -> Seq<Seq<char>> {
    Seq::new(batch.len(), |i: int| batch[i].id)
}

/// The identifiers of each batch, in order.
pub open spec fn ids_sent<V>(batches: Seq<Seq<EntryView<V>>>) -> Seq<Seq<Seq<char>>> {
    Seq::new(batches.len(), |k: int| ids_of(batches[k]))
}

/// Whether two runs succeed on the same chunks.
pub open spec fn same_successes<V>(first: Seq<Option<V>>, second: Seq<Option<V>>) -> bool {
    &&& first.len() == second.len()
    &&& forall|i: int| 0 <= i < first.len() ==> (first[i] is Some <==> second[i] is Some)
}

proof fn same_ids_from<V>(
    s1: IngestionView<V>,
    s2: IngestionView<V>,
    first: Seq<Option<V>>,
    second: Seq<Option<V>>,
)
    requires
        s1.path == s2.path,
        s1.chunks == s2.chunks,
        s1.next == s2.next,
        s1.capacity == s2.capacity,
        ids_of(s1.pending) == ids_of(s2.pending),
        same_successes(first, second),
    ensures
        ids_sent(upserts(s1, first)) == ids_sent(upserts(s2, second)),
    decreases first.len(),
{
    let u1 = upserts(s1, first);
    let u2 = upserts(s2, second);
    assert(s1.pending.len() == ids_of(s1.pending).len());
    assert(s2.pending.len() == ids_of(s2.pending).len());
    if first.len() == 0 {
        assert(ids_sent(u1) =~= ids_sent(u2));
    } else {
        let (t1, d1) = fed(s1, first[0]);
        let (t2, d2) = fed(s2, second[0]);
        let r1 = upserts(t1, first.drop_first());
        let r2 = upserts(t2, second.drop_first());
        assert(first[0] is Some <==> second[0] is Some);
        assert forall|i: int| 0 <= i < first.drop_first().len() implies (first.drop_first()[i]
            is Some <==> second.drop_first()[i] is Some) by {
            assert(first.drop_first()[i] == first[i + 1]);
            assert(second.drop_first()[i] == second[i + 1]);
        }
        if first[0] is Some {
            let g1 = s1.pending.push(entry_of(s1, first[0]->0));
            let g2 = s2.pending.push(entry_of(s2, second[0]->0));
            assert(ids_of(g1) =~= ids_of(s1.pending).push(entry_of(s1, first[0]->0).id));
            assert(ids_of(g2) =~= ids_of(s2.pending).push(entry_of(s2, second[0]->0).id));
            assert(ids_of(g1) == ids_of(g2));
            assert(g1.len() == ids_of(g1).len());
            assert(g2.len() == ids_of(g2).len());
            assert(ids_of(Seq::<EntryView<V>>::empty()) =~= Seq::<Seq<char>>::empty());
        }
        assert(ids_of(t1.pending) == ids_of(t2.pending));
        same_ids_from(t1, t2, first.drop_first(), second.drop_first());
        assert(d1 is Some <==> d2 is Some);
        match d1 {
            Some(b1) => {
                let b2 = d2->0;
                assert(ids_of(b1) == ids_of(b2));
                assert(u1 == seq![b1] + r1);
                assert(u2 == seq![b2] + r2);
                assert(ids_sent(r1).len() == ids_sent(r2).len());
                assert(ids_sent(u1) =~= seq![ids_of(b1)] + ids_sent(r1));
                assert(ids_sent(u2) =~= seq![ids_of(b2)] + ids_sent(r2));
            },
            None => {},
        }
    }
}

/// Ingesting an unchanged document again sends the same identifiers in the
/// same batches, so the store overwrites what it holds and duplicates
/// nothing. This holds whatever vectors the backend returns, as long as it
/// succeeds on the same chunks.
pub proof fn reingestion_sends_the_same_ids<V>(
    path: Seq<char>,
    text: Seq<char>,
    capacity: nat,
    first: Seq<Option<V>>,
    second: Seq<Option<V>>,
)
    requires
        same_successes(first, second),
    ensures
        ids_sent(upserts(started(path, text, capacity), first)) == ids_sent(
            upserts(started(path, text, capacity), second),
        ),
{
    same_ids_from(
        started::<V>(path, text, capacity),
        started::<V>(path, text, capacity),
        first,
        second,
    );
}

impl<V> Ingestion<V> {
    /// Starts the ingestion of the document `text` found at `path`, with
    /// batches of [`BATCH_CAPACITY`] chunks.
    pub fn begin(path: &str, text: &str) -> (r: Ingestion<V>)
        ensures
            r@ == started::<V>(path@, text@, BATCH_CAPACITY as nat),
    {
        Ingestion::start(path, text, BATCH_CAPACITY)
    }

    fn start(path: &str, text: &str, capacity: usize) -> (r: Ingestion<V>)
        ensures
            r@ == started::<V>(path@, text@, capacity as nat),
    {
        let pending: Vec<Entry<V>> = Vec::new();
        proof {
            assert(entry_views(pending@) =~= Seq::<EntryView<V>>::empty());
        }
        Ingestion { path: path.to_owned(), chunks: split_chunks(text), next: 0, capacity, pending }
    }

    /// Starts an ingestion with batches of `capacity` chunks. There is no
    /// batch of no chunks: a capacity of zero gives `None`.
    pub fn with_capacity(path: &str, text: &str, capacity: usize) -> (r: Option<Ingestion<V>>)
        ensures
            match r {
                Some(i) => capacity > 0 && i@ == started::<V>(path@, text@, capacity as nat),
                None => capacity == 0,
            },
    {
        if capacity == 0 {
            None
        } else {
            Some(Ingestion::start(path, text, capacity))
        }
    }

    /// The chunk whose embedding is to be asked for next, or `None` when
    /// every chunk has had its turn.
    pub fn chunk(&self) -> (r: Option<&str>)
        ensures
            match r {
                Some(c) => self@.next < self@.chunks.len() && c@ == self@.chunks[self@.next as int],
                None => self@.next >= self@.chunks.len(),
            },
    {
        if self.next < self.chunks.len() {
            Some(self.chunks[self.next].as_str())
        } else {
            None
        }
    }

    /// The position of the awaited chunk, counted from zero.
    pub fn position(&self) -> (n: usize)
        ensures
            n == self@.next,
    {
        self.next
    }

    /// Takes the embedding of the awaited chunk. Returns the batch to upsert
    /// if this chunk filled one; the pipeline then holds nothing pending.
    ///
    /// When no chunk is awaited the vector is dropped and nothing changes.
    pub fn accept(&mut self, vector: V) -> (r: Option<EmbeddingBatch<V>>)
        ensures
            final(self)@ == accepted(old(self)@, vector).0,
            match r {
                Some(batch) => accepted(old(self)@, vector).1 == Some(batch@),
                None => accepted(old(self)@, vector).1 is None,
            },
    {
        if self.next >= self.chunks.len() {
            return None;
        }
        let entry = Entry {
            id: chunk_id(self.path.as_str(), self.next),
            document: self.chunks[self.next].clone(),
            vector,
        };
        proof {
            assert(entry@ == entry_of(self@, vector));
            assert(entry_views(self.pending@.push(entry)) =~= entry_views(self.pending@).push(
                entry@,
            ));
        }
        self.pending.push(entry);
        self.next = self.next + 1;
        if self.pending.len() >= self.capacity {
            let mut entries: Vec<Entry<V>> = Vec::new();
            std::mem::swap(&mut self.pending, &mut entries);
            proof {
                assert(entry_views(self.pending@) =~= Seq::<EntryView<V>>::empty());
            }
            Some(EmbeddingBatch { entries })
        } else {
            None
        }
    }

    /// Gives up the awaited chunk, whose embedding failed. What is pending
    /// stays pending, and the chunks after it keep their identifiers.
    pub fn skip(&mut self)
        ensures
            final(self)@ == skipped(old(self)@),
    {
        if self.next < self.chunks.len() {
            self.next = self.next + 1;
        }
    }

    /// Ends the ingestion. Returns the last batch to upsert: whatever is
    /// still pending, however few chunks that is.
    pub fn finish(self) -> (r: Option<EmbeddingBatch<V>>)
        ensures
            match r {
                Some(batch) => finished(self@) == Some(batch@),
                None => finished(self@) is None,
            },
    {
        if self.pending.len() > 0 {
            Some(EmbeddingBatch { entries: self.pending })
        } else {
            None
        }
    }
}

} // verus!
