//! Content store: blobs kept under the hash of their bytes, and the packs
//! that their archives unpack to under a cache root.
//!
//! The store decides; its caller writes and unpacks. What the store holds is
//! the index: which blobs are known and which are being unpacked right now.
//! Whether a pack is already on disk is for the caller to look up and tell.

use sha2::Digest;
use vstd::prelude::*;

verus! {

/// The reference to a blob: the hash of its bytes, written out as text.
#[derive(Debug)]
pub struct BlobRef(pub String);

impl View for BlobRef {
    type V = Seq<char>;

    open spec fn view(&self) -> Seq<char> {
        self.0@
    }
}

impl Clone for BlobRef {
    fn clone(&self) -> (copy: Self)
        ensures
            copy == *self,
    {
        BlobRef(self.0.clone())
    }
}

/// The directory that a blob's archive unpacks to, relative to the cache
/// root.
#[derive(Debug)]
pub struct ArchivePack {
    pub path: String,
}

/// Why a blob could not be stored.
#[derive(Clone, Copy, Debug, PartialEq, Eq, Structural)]
pub enum StoreError {
    /// The storage medium failed to take the blob.
    IoError,
}

/// Why no pack could be had for a reference.
#[derive(Clone, Copy, Debug, PartialEq, Eq, Structural)]
pub enum ResolveError {
    /// No blob is stored under the reference.
    NotFound,
    /// The blob's archive could not be unpacked.
    CorruptArchive,
}

/// What the caller of `resolve` is to do next.
#[derive(Debug)]
pub enum Resolution {
    /// The pack is on disk: use it.
    Ready(ArchivePack),
    /// The pack is not on disk and nobody is unpacking the blob: unpack it to
    /// the pack's path, then report with `finish_extraction`.
    Extract(ArchivePack),
    /// Somebody else is unpacking the blob: wait, then ask again.
    Busy(ArchivePack),
}

/// The SHA-256 digest of `bytes`.
pub uninterp spec fn sha256_of(bytes: Seq<u8>) -> Seq<u8>;

/// Computes the SHA-256 digest of `bytes` with `sha2::Sha256::digest`.
/// Trusted: the digest depends on the bytes alone, and is 32 bytes long.
#[verifier::external_body]
fn sha256(bytes: &[u8]) -> (digest: Vec<u8>)
    ensures
        digest@ == sha256_of(bytes@),
        digest@.len() == 32,
{
    sha2::Sha256::digest(bytes).to_vec()
}

/// The sixteen hexadecimal digits, in order.
pub open spec fn hex_digits() -> Seq<char> {
    seq!['0', '1', '2', '3', '4', '5', '6', '7', '8', '9', 'a', 'b', 'c', 'd', 'e', 'f']
}

/// `bytes` in lower-case hexadecimal: two digits per byte, the high half
/// first.
pub open spec fn hex_of(bytes: Seq<u8>) -> Seq<char> {
    Seq::new(
        2 * bytes.len(),
        |i: int|
            if i % 2 == 0 {
                hex_digits()[bytes[i / 2] as int / 16]
            } else {
                hex_digits()[bytes[i / 2] as int % 16]
            },
    )
}

/// The reference under which `bytes` are stored.
pub open spec fn reference_of(bytes: Seq<u8>) -> Seq<char> {
    hex_of(sha256_of(bytes))
}

/// The path of the pack of `reference` in `namespace`.
pub open spec fn pack_path_of(namespace: Seq<char>, reference: Seq<char>) -> Seq<char> {
    namespace + seq!['/'] + reference
}

/// Writes `bytes` in lower-case hexadecimal.
pub fn to_hex(bytes: &[u8]) -> (text: String)
    ensures
        text@ == hex_of(bytes@),
{
    let digits = "0123456789abcdef";
    proof {
        reveal_strlit("0123456789abcdef");
        assert(digits@ =~= hex_digits());
    }
    let mut text = String::new();
    let mut i: usize = 0;
    while i < bytes.len()
        invariant
            i <= bytes.len(),
            digits@ == hex_digits(),
            text@ == hex_of(bytes@.take(i as int)),
        decreases bytes.len() - i,
    {
        let high: usize = (bytes[i] / 16) as usize;
        let low: usize = (bytes[i] % 16) as usize;
        text.append(digits.substring_char(high, high + 1));
        text.append(digits.substring_char(low, low + 1));
        proof {
            assert(digits@.subrange(high as int, high + 1) =~= seq![hex_digits()[high as int]]);
            assert(digits@.subrange(low as int, low + 1) =~= seq![hex_digits()[low as int]]);
            assert(text@ =~= hex_of(bytes@.take(i + 1)));
        }
        i += 1;
    }
    assert(bytes@.take(i as int) =~= bytes@);
    text
}

/// Computes the reference under which `bytes` are stored.
pub fn blob_ref(bytes: &[u8]) -> (reference: BlobRef)
    ensures
        reference@ == reference_of(bytes@),
        reference@.len() == 64,
{
    let digest = sha256(bytes);
    BlobRef(to_hex(digest.as_slice()))
}

/// Builds the path of the pack of `reference` in `namespace`.
pub fn pack_path(namespace: &str, reference: &BlobRef) -> (pack: ArchivePack)
    ensures
        pack.path@ == pack_path_of(namespace@, reference@),
{
    proof {
        reveal_strlit("/");
        assert("/"@ =~= seq!['/']);
    }
    let mut path = String::new();
    path.append(namespace);
    path.append("/");
    path.append(reference.0.as_str());
    assert(path@ =~= pack_path_of(namespace@, reference@));
    ArchivePack { path }
}

/// The texts of `references`, in order.
pub open spec fn texts_of(references: Seq<BlobRef>) -> Seq<Seq<char>> {
    references.map_values(|reference: BlobRef| reference@)
}

/// What a content store holds.
pub struct StoreIndex {
    /// The references of the blobs stored, each once, oldest first.
    pub blobs: Seq<Seq<char>>,
    /// The references of the blobs that are being unpacked.
    pub extracting: Set<Seq<char>>,
}

/// The store after `bytes` were handed to it, where `written` tells whether
/// the medium took them.
pub open spec fn after_store(store: StoreIndex, bytes: Seq<u8>, written: bool) -> StoreIndex {
    if !store.blobs.contains(reference_of(bytes)) && written {
        StoreIndex { blobs: store.blobs.push(reference_of(bytes)), extracting: store.extracting }
    } else {
        store
    }
}

/// The store after `reference` was entered as that of a blob that the
/// medium holds already.
pub open spec fn after_adoption(store: StoreIndex, reference: Seq<char>) -> StoreIndex {
    if store.blobs.contains(reference) {
        store
    } else {
        StoreIndex { blobs: store.blobs.push(reference), extracting: store.extracting }
    }
}

/// Whether handing `bytes` to the store succeeds: it does unless the blob is
/// new and the medium failed to take it.
pub open spec fn store_succeeds(store: StoreIndex, bytes: Seq<u8>, written: bool) -> bool {
    store.blobs.contains(reference_of(bytes)) || written
}

/// The reference that handing `bytes` to the store returns, if it
/// succeeds: it depends on the bytes alone.
pub open spec fn store_answer(store: StoreIndex, bytes: Seq<u8>, written: bool) -> Option<Seq<char>> {
    if store_succeeds(store, bytes, written) {
        Some(reference_of(bytes))
    } else {
        None
    }
}

/// What `resolve` answers.
pub enum Answer {
    NotFound,
    Ready,
    Extract,
    Busy,
}

/// The answer to a request for the pack of `reference`, where `on_disk`
/// tells whether the pack's directory exists.
pub open spec fn answer_of(store: StoreIndex, reference: Seq<char>, on_disk: bool) -> Answer {
    if !store.blobs.contains(reference) {
        Answer::NotFound
    } else if store.extracting.contains(reference) {
        Answer::Busy
    } else if on_disk {
        Answer::Ready
    } else {
        Answer::Extract
    }
}

/// Whether `resolved` gives `answer`, with `path` as the path of the pack
/// where there is one.
pub open spec fn gives_answer(resolved: Result<Resolution, ResolveError>, answer: Answer, path: Seq<char>) -> bool {
    match answer {
        Answer::NotFound => resolved == Err::<Resolution, ResolveError>(ResolveError::NotFound),
        Answer::Ready => resolved matches Ok(Resolution::Ready(pack)) && pack.path@ == path,
        Answer::Extract => resolved matches Ok(Resolution::Extract(pack)) && pack.path@ == path,
        Answer::Busy => resolved matches Ok(Resolution::Busy(pack)) && pack.path@ == path,
    }
}

/// The store after a request for the pack of `reference`: when the answer is
/// to unpack, the blob counts as being unpacked from then on.
pub open spec fn after_resolve(store: StoreIndex, reference: Seq<char>, on_disk: bool) -> StoreIndex {
    if answer_of(store, reference, on_disk) is Extract {
        StoreIndex { blobs: store.blobs, extracting: store.extracting.insert(reference) }
    } else {
        store
    }
}

/// The store after the unpacking of `reference` has ended, well or not.
pub open spec fn after_extraction(store: StoreIndex, reference: Seq<char>) -> StoreIndex {
    StoreIndex { blobs: store.blobs, extracting: store.extracting.remove(reference) }
}

/// The references in flight that `extracting` holds.
pub open spec fn in_flight(extracting: Seq<BlobRef>) -> Set<Seq<char>> {
    Set::new(|reference: Seq<char>| exists|i: int| 0 <= i < extracting.len() && (#[trigger] extracting[i])@ == reference)
}

/// The index of a content store.
#[derive(Debug)]
pub struct ContentStore {
    blobs: Vec<BlobRef>,
    extracting: Vec<BlobRef>,
}

impl View for ContentStore {
    type V = StoreIndex;

    closed spec fn view(&self) -> StoreIndex {
        StoreIndex { blobs: texts_of(self.blobs@), extracting: in_flight(self.extracting@) }
    }
}

/// Looks `reference` up among `references`.
fn holds(references: &Vec<BlobRef>, reference: &BlobRef) -> (found: bool)
    ensures
        found == texts_of(references@).contains(reference@),
        found == in_flight(references@).contains(reference@),
{
    let mut i: usize = 0;
    while i < references.len()
        invariant
            i <= references.len(),
            forall|k: int| 0 <= k < i ==> (#[trigger] references@[k])@ != reference@,
        decreases references.len() - i,
    {
        if references[i].0 == reference.0 {
            assert(texts_of(references@)[i as int] == reference@);
            return true;
        }
        i += 1;
    }
    assert forall|k: int| 0 <= k < texts_of(references@).len() implies texts_of(references@)[k] != reference@ by {
        assert(references@[k]@ != reference@);
    }
    false
}

impl ContentStore {
    #[verifier::type_invariant]
    spec fn each_blob_once(self) -> bool {
        texts_of(self.blobs@).no_duplicates()
    }

    /// A store that holds nothing.
    pub fn new() -> (store: ContentStore)
        ensures
            store@.blobs == Seq::<Seq<char>>::empty(),
            store@.extracting == Set::<Seq<char>>::empty(),
    {
        let store = ContentStore { blobs: Vec::new(), extracting: Vec::new() };
        assert(store@.blobs =~= Seq::<Seq<char>>::empty());
        assert(store@.extracting =~= Set::<Seq<char>>::empty());
        store
    }

    /// Tells whether a blob is stored under `reference`.
    pub fn contains(&self, reference: &BlobRef) -> (known: bool)
        ensures
            known == self@.blobs.contains(reference@),
    {
        holds(&self.blobs, reference)
    }

    /// The number of blobs stored; no reference is counted twice.
    pub fn blob_count(&self) -> (count: usize)
        ensures
            count == self@.blobs.len(),
            self@.blobs.no_duplicates(),
    {
        proof {
            use_type_invariant(self);
        }
        self.blobs.len()
    }

    /// Enters `reference` as that of a blob that the medium holds already,
    /// as after a restart, without looking at the bytes. A reference that
    /// is entered already is left alone.
    pub fn adopt(&mut self, reference: BlobRef)
        ensures
            final(self)@ == after_adoption(old(self)@, reference@),
    {
        proof {
            use_type_invariant(&*self);
        }
        if !holds(&self.blobs, &reference) {
            let mut blobs: Vec<BlobRef> = Vec::new();
            core::mem::swap(&mut self.blobs, &mut blobs);
            assert(texts_of(self.blobs@) =~= Seq::<Seq<char>>::empty());
            let ghost before = blobs@;
            blobs.push(reference);
            proof {
                assert(texts_of(blobs@) =~= texts_of(before).push(reference@));
            }
            core::mem::swap(&mut self.blobs, &mut blobs);
        }
    }

    /// Stores `bytes` and returns their reference. A blob that is already
    /// stored is left alone and `written` is not looked at; a new one is
    /// entered if the medium took it, which `written` tells, and refused
    /// with `IoError` otherwise.
    pub fn store(&mut self, bytes: &[u8], written: bool) -> (stored: Result<BlobRef, StoreError>)
        ensures
            final(self)@ == after_store(old(self)@, bytes@, written),
            stored is Ok <==> store_answer(old(self)@, bytes@, written) is Some,
            stored matches Ok(reference) ==> Some(reference@) == store_answer(old(self)@, bytes@, written)
                && final(self)@.blobs.contains(reference@),
            stored matches Err(error) ==> error == StoreError::IoError,
    {
        proof {
            use_type_invariant(&*self);
        }
        let reference = blob_ref(bytes);
        if holds(&self.blobs, &reference) {
            Ok(reference)
        } else if written {
            let mut blobs: Vec<BlobRef> = Vec::new();
            core::mem::swap(&mut self.blobs, &mut blobs);
            assert(texts_of(self.blobs@) =~= Seq::<Seq<char>>::empty());
            let ghost before = blobs@;
            blobs.push(reference.clone());
            proof {
                assert(texts_of(blobs@) =~= texts_of(before).push(reference@));
                assert(texts_of(blobs@)[before.len() as int] == reference@);
            }
            core::mem::swap(&mut self.blobs, &mut blobs);
            Ok(reference)
        } else {
            Err(StoreError::IoError)
        }
    }

    /// Asks for the pack of `reference` in `namespace`, where `on_disk`
    /// tells whether the pack's directory exists under the cache root.
    /// An unknown reference is refused with `NotFound`. Otherwise the answer
    /// holds the pack's path and says what to do: wait while the blob is
    /// being unpacked, use the pack if it is on disk, and else unpack it,
    /// in which case the blob counts as being unpacked until
    /// `finish_extraction` is called for it.
    pub fn resolve(&mut self, reference: &BlobRef, namespace: &str, on_disk: bool) -> (resolved: Result<
        Resolution,
        ResolveError,
    >)
        ensures
            final(self)@ == after_resolve(old(self)@, reference@, on_disk),
            gives_answer(
                resolved,
                answer_of(old(self)@, reference@, on_disk),
                pack_path_of(namespace@, reference@),
            ),
    {
        proof {
            use_type_invariant(&*self);
        }
        if !holds(&self.blobs, reference) {
            return Err(ResolveError::NotFound);
        }
        let pack = pack_path(namespace, reference);
        if holds(&self.extracting, reference) {
            Ok(Resolution::Busy(pack))
        } else if on_disk {
            Ok(Resolution::Ready(pack))
        } else {
            let ghost before = self.extracting@;
            let mut extracting: Vec<BlobRef> = Vec::new();
            core::mem::swap(&mut self.extracting, &mut extracting);
            extracting.push(reference.clone());
            core::mem::swap(&mut self.extracting, &mut extracting);
            proof {
                assert forall|text: Seq<char>| in_flight(self.extracting@).contains(text) <==> in_flight(
                    before,
                ).insert(reference@).contains(text) by {
                    if in_flight(self.extracting@).contains(text) {
                        let i = choose|i: int|
                            0 <= i < self.extracting@.len() && (#[trigger] self.extracting@[i])@ == text;
                        if i < before.len() {
                            assert(before[i]@ == text);
                        }
                    }
                    if in_flight(before).contains(text) {
                        let i = choose|i: int| 0 <= i < before.len() && (#[trigger] before[i])@ == text;
                        assert(self.extracting@[i]@ == text);
                    }
                    if text == reference@ {
                        assert(self.extracting@[before.len() as int]@ == text);
                    }
                }
                assert(in_flight(self.extracting@) =~= in_flight(before).insert(reference@));
            }
            Ok(Resolution::Extract(pack))
        }
    }

    /// Reports that the unpacking of `reference` in `namespace` has ended,
    /// where `unpacked` tells whether it went well. The blob no longer
    /// counts as being unpacked. The answer is the pack if it went well, and
    /// `CorruptArchive` if not.
    pub fn finish_extraction(&mut self, reference: &BlobRef, namespace: &str, unpacked: bool) -> (finished:
        Result<ArchivePack, ResolveError>)
        ensures
            final(self)@ == after_extraction(old(self)@, reference@),
            unpacked ==> (finished matches Ok(pack) && pack.path@ == pack_path_of(namespace@, reference@)),
            !unpacked ==> finished == Err::<ArchivePack, ResolveError>(ResolveError::CorruptArchive),
    {
        proof {
            use_type_invariant(&*self);
        }
        let mut kept: Vec<BlobRef> = Vec::new();
        let mut i: usize = 0;
        while i < self.extracting.len()
            invariant
                i <= self.extracting.len(),
                forall|text: Seq<char>|
                    in_flight(kept@).contains(text) <==> (text != reference@ && exists|k: int|
                        0 <= k < i && (#[trigger] self.extracting@[k])@ == text),
            decreases self.extracting.len() - i,
        {
            let ghost before = kept@;
            if self.extracting[i].0 != reference.0 {
                kept.push(self.extracting[i].clone());
            }
            proof {
                let current = self.extracting@[i as int]@;
                assert forall|text: Seq<char>|
                    in_flight(kept@).contains(text) <==> (text != reference@ && exists|k: int|
                        0 <= k < i + 1 && (#[trigger] self.extracting@[k])@ == text) by {
                    if in_flight(kept@).contains(text) {
                        let j = choose|j: int| 0 <= j < kept@.len() && (#[trigger] kept@[j])@ == text;
                        if j < before.len() {
                            assert(before[j]@ == text);
                            assert(in_flight(before).contains(text));
                            let k = choose|k: int| 0 <= k < i && (#[trigger] self.extracting@[k])@ == text;
                            assert(self.extracting@[k]@ == text);
                        } else {
                            assert(self.extracting@[i as int]@ == text);
                        }
                    }
                    if text != reference@ && exists|k: int|
                        0 <= k < i + 1 && (#[trigger] self.extracting@[k])@ == text {
                        let k = choose|k: int| 0 <= k < i + 1 && (#[trigger] self.extracting@[k])@ == text;
                        if k < i {
                            assert(in_flight(before).contains(text));
                            let j = choose|j: int| 0 <= j < before.len() && (#[trigger] before[j])@ == text;
                            assert(kept@[j]@ == text);
                        } else {
                            assert(kept@[before.len() as int]@ == text);
                        }
                    }
                }
            }
            i += 1;
        }
        proof {
            assert(in_flight(kept@) =~= in_flight(self.extracting@).remove(reference@));
        }
        self.extracting = kept;
        if unpacked {
            Ok(pack_path(namespace, reference))
        } else {
            Err(ResolveError::CorruptArchive)
        }
    }
}

/// The store after `bytes` were handed to it once for each entry of
/// `written`, in order.
pub open spec fn after_stores(store: StoreIndex, bytes: Seq<u8>, written: Seq<bool>) -> StoreIndex
    decreases written.len(),
{
    if written.len() == 0 {
        store
    } else {
        after_store(after_stores(store, bytes, written.drop_last()), bytes, written.last())
    }
}

/// Storing the same bytes again and again enters them once at most: however
/// often it is done, and whatever the medium does each time, all the calls
/// that succeed return the same reference, and the store ends as it was or
/// with that one reference added at the end; and it ends with the reference
/// in it as soon as one of the calls succeeded.
pub proof fn lemma_store_is_idempotent(store: StoreIndex, bytes: Seq<u8>, written: Seq<bool>)
    ensures
        forall|i: int, j: int|
            #![trigger written[i], written[j]]
            0 <= i < written.len() && 0 <= j < written.len() && store_answer(
                after_stores(store, bytes, written.take(i)),
                bytes,
                written[i],
            ) is Some && store_answer(after_stores(store, bytes, written.take(j)), bytes, written[j]) is Some
                ==> store_answer(after_stores(store, bytes, written.take(i)), bytes, written[i]) == store_answer(
                after_stores(store, bytes, written.take(j)),
                bytes,
                written[j],
            ),
        after_stores(store, bytes, written).extracting == store.extracting,
        after_stores(store, bytes, written).blobs == store.blobs || (!store.blobs.contains(reference_of(bytes))
            && after_stores(store, bytes, written).blobs == store.blobs.push(reference_of(bytes))),
        after_stores(store, bytes, written).blobs.len() <= store.blobs.len() + 1,
        forall|i: int|
            0 <= i < written.len() && store_succeeds(
                after_stores(store, bytes, written.take(i)),
                bytes,
                #[trigger] written[i],
            ) ==> after_stores(store, bytes, written).blobs.contains(reference_of(bytes)),
    decreases written.len(),
{
    if written.len() > 0 {
        let rest = written.drop_last();
        lemma_store_is_idempotent(store, bytes, rest);
        let before = after_stores(store, bytes, rest);
        if before.blobs == store.blobs.push(reference_of(bytes)) {
            assert(before.blobs[store.blobs.len() as int] == reference_of(bytes));
        }
        let after = after_stores(store, bytes, written);
        if after.blobs == before.blobs.push(reference_of(bytes)) {
            assert(after.blobs[before.blobs.len() as int] == reference_of(bytes));
        }
        assert forall|i: int|
            0 <= i < written.len() && store_succeeds(
                after_stores(store, bytes, written.take(i)),
                bytes,
                #[trigger] written[i],
            ) implies after.blobs.contains(reference_of(bytes)) by {
            if i < rest.len() {
                assert(rest.take(i) =~= written.take(i));
                assert(rest[i] == written[i]);
                assert(before.blobs.contains(reference_of(bytes)));
            } else {
                assert(written.take(i) =~= rest);
                if before.blobs.contains(reference_of(bytes)) {
                } else {
                    assert(written.last());
                }
            }
        }
    }
}

/// The store after the pack of `reference` was asked for once for each
/// entry of `on_disk`, in order, with no unpacking reported in between.
pub open spec fn after_resolves(store: StoreIndex, reference: Seq<char>, on_disk: Seq<bool>) -> StoreIndex
    decreases on_disk.len(),
{
    if on_disk.len() == 0 {
        store
    } else {
        after_resolves(after_resolve(store, reference, on_disk.first()), reference, on_disk.drop_first())
    }
}

/// How many of those requests were answered with the order to unpack.
pub open spec fn extractions_ordered(store: StoreIndex, reference: Seq<char>, on_disk: Seq<bool>) -> nat
    decreases on_disk.len(),
{
    if on_disk.len() == 0 {
        0
    } else {
        (if answer_of(store, reference, on_disk.first()) is Extract {
            1nat
        } else {
            0nat
        }) + extractions_ordered(after_resolve(store, reference, on_disk.first()), reference, on_disk.drop_first())
    }
}

/// One unpacking at a time: of any number of requests for the pack of one
/// blob, made before any unpacking of it is reported as ended, at most one
/// is told to unpack; and none is if the blob is being unpacked already.
pub proof fn lemma_at_most_one_extraction(store: StoreIndex, reference: Seq<char>, on_disk: Seq<bool>)
    ensures
        extractions_ordered(store, reference, on_disk) <= 1,
        store.extracting.contains(reference) ==> extractions_ordered(store, reference, on_disk) == 0,
    decreases on_disk.len(),
{
    if on_disk.len() > 0 {
        lemma_at_most_one_extraction(after_resolve(store, reference, on_disk.first()), reference, on_disk.drop_first());
    }
}

/// Requests for different blobs do not interfere: what a request for one
/// blob is answered does not depend on whether a request for another blob
/// came before it.
pub proof fn lemma_other_references_undisturbed(
    store: StoreIndex,
    other: Seq<char>,
    other_on_disk: bool,
    reference: Seq<char>,
    on_disk: bool,
)
    requires
        other != reference,
    ensures
        answer_of(after_resolve(store, other, other_on_disk), reference, on_disk) == answer_of(
            store,
            reference,
            on_disk,
        ),
        answer_of(after_extraction(store, other), reference, on_disk) == answer_of(store, reference, on_disk),
{
}

/// Two packs share a path only if they are the same blob's in the same
/// namespace, as long as the references are of one length, which those
/// that `blob_ref` computes are.
pub proof fn lemma_pack_paths_differ(
    namespace: Seq<char>,
    reference: Seq<char>,
    other_namespace: Seq<char>,
    other_reference: Seq<char>,
)
    requires
        reference.len() == other_reference.len(),
        pack_path_of(namespace, reference) == pack_path_of(other_namespace, other_reference),
    ensures
        namespace == other_namespace,
        reference == other_reference,
{
    let path = pack_path_of(namespace, reference);
    let other_path = pack_path_of(other_namespace, other_reference);
    assert(path.len() == namespace.len() + 1 + reference.len());
    assert(other_path.len() == other_namespace.len() + 1 + other_reference.len());
    assert(namespace =~= path.subrange(0, namespace.len() as int));
    assert(other_namespace =~= other_path.subrange(0, other_namespace.len() as int));
    assert(reference =~= path.subrange(namespace.len() as int + 1, path.len() as int));
    assert(other_reference =~= other_path.subrange(other_namespace.len() as int + 1, other_path.len() as int));
}

} // verus!
