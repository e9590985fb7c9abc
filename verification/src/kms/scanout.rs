//! Framebuffers on their way to, on, and off the screen.

use vstd::prelude::*;

verus! {

/// Where a primary plane's framebuffer comes from.
#[derive(Debug, Clone, Copy, PartialEq, Eq, Structural)]
pub enum PrimaryPlaneFrame {
    /// The compositor's own rendering.
    Composited,
    /// A client buffer, shown as it is.
    DirectClient,
}

impl PrimaryPlaneFrame {
    /// Whether the display must report when it is done with the frame, because
    /// a client waits for its buffer.
    pub fn needs_kms_completion_fence(self) -> (needed: bool)
        ensures
            needed == (self == PrimaryPlaneFrame::DirectClient),
    {
        match self {
            PrimaryPlaneFrame::DirectClient => true,
            PrimaryPlaneFrame::Composited => false,
        }
    }
}

/// The memory object behind a shared buffer.
#[derive(Debug, Clone, Copy, PartialEq, Eq, Hash, Structural)]
pub struct DmabufIdentity {
    pub device: u64,
    pub inode: u64,
}

/// The full identity of one render target.
///
/// The slot number alone is not enough: a resized surface uses the same slots
/// for new memory. The memory object tells them apart, the layout fields guard
/// against a change of format, and the epoch guards against a memory object
/// whose number is used again.
#[derive(Debug, Clone, Copy, PartialEq, Eq, Hash, Structural)]
pub struct CompositeFbKey {
    pub epoch: u64,
    pub slot: u32,
    pub identity: DmabufIdentity,
    pub width: u32,
    pub height: u32,
    pub stride: u32,
    pub fourcc: u32,
    pub modifier: u64,
}

/// Who owns the framebuffer that is shown.
#[derive(Debug, Clone, Copy, PartialEq, Eq, Structural)]
pub enum ScanoutOwnership {
    /// A render target that could not be cached; it goes when it leaves the
    /// screen.
    TransientCompositor,
    /// A client buffer; it goes when it leaves the screen.
    TransientClient,
    /// A render target that the cache owns under the given key.
    Cached(CompositeFbKey),
}

impl ScanoutOwnership {
    /// Whether a framebuffer owned this way may be shown as the given source.
    pub open spec fn fits(self, frame: PrimaryPlaneFrame) -> bool {
        match self {
            ScanoutOwnership::TransientCompositor => frame == PrimaryPlaneFrame::Composited,
            ScanoutOwnership::TransientClient => frame == PrimaryPlaneFrame::DirectClient,
            ScanoutOwnership::Cached(_) => frame == PrimaryPlaneFrame::Composited,
        }
    }

    /// Whether a framebuffer owned this way may be shown as the given source.
    pub fn matches_frame(self, frame: PrimaryPlaneFrame) -> (fits: bool)
        ensures
            fits == self.fits(frame),
    {
        match (self, frame) {
            (ScanoutOwnership::TransientCompositor, PrimaryPlaneFrame::Composited) => true,
            (ScanoutOwnership::Cached(_), PrimaryPlaneFrame::Composited) => true,
            (ScanoutOwnership::TransientClient, PrimaryPlaneFrame::DirectClient) => true,
            _ => false,
        }
    }
}

/// A framebuffer that is to be shown, is shown, or is being replaced.
#[derive(Debug, Clone, Copy, PartialEq, Eq, Structural)]
pub struct Scanout {
    pub framebuffer: u32,
    /// The memory handle behind the framebuffer.
    pub gem: u32,
    pub slot: u32,
    /// The fence that the display waits for before it shows the framebuffer.
    pub acquire_fence: Option<i32>,
    pub ownership: ScanoutOwnership,
}

/// A framebuffer and its memory handle, to be given back to the kernel.
#[derive(Debug, Clone, Copy, PartialEq, Eq, Structural)]
pub struct Resource {
    pub framebuffer: u32,
    pub gem: u32,
}

/// A buffer that has been imported for display, with its layout.
#[derive(Debug, Clone, Copy, PartialEq, Eq)]
pub struct ImportedBuffer {
    pub size: (u32, u32),
    pub stride: u32,
    pub modifier: u64,
    pub format: u32,
    /// Where in the memory object the first pixel is.
    pub offset: u32,
    pub gem: u32,
}

impl ImportedBuffer {
    /// The size in pixels.
    pub fn size(&self) -> (size: (u32, u32))
        ensures
            size == self.size,
    {
        self.size
    }

    /// The pixel format.
    pub fn format(&self) -> (format: u32)
        ensures
            format == self.format,
    {
        self.format
    }

    /// The explicit memory layout, if there is one.
    pub fn modifier(&self) -> (modifier: Option<u64>)
        ensures
            modifier == if self.modifier == crate::kms::formats::MODIFIER_INVALID {
                None
            } else {
                Some(self.modifier)
            },
    {
        if self.modifier == crate::kms::formats::MODIFIER_INVALID {
            None
        } else {
            Some(self.modifier)
        }
    }

    /// The bytes per row of each memory plane; there is one plane.
    pub fn pitches(&self) -> (pitches: [u32; 4])
        ensures
            pitches@ == seq![self.stride, 0u32, 0u32, 0u32],
    {
        let pitches = [self.stride, 0, 0, 0];
        assert(pitches@ =~= seq![self.stride, 0u32, 0u32, 0u32]);
        pitches
    }

    /// The memory handle of each memory plane; there is one plane.
    pub fn handles(&self) -> (handles: [Option<u32>; 4])
        ensures
            handles@ == seq![Some(self.gem), None::<u32>, None::<u32>, None::<u32>],
    {
        let handles = [Some(self.gem), None, None, None];
        assert(handles@ =~= seq![Some(self.gem), None::<u32>, None::<u32>, None::<u32>]);
        handles
    }

    /// Where each memory plane begins; there is one plane.
    pub fn offsets(&self) -> (offsets: [u32; 4])
        ensures
            offsets@ == seq![self.offset, 0u32, 0u32, 0u32],
    {
        let offsets = [self.offset, 0, 0, 0];
        assert(offsets@ =~= seq![self.offset, 0u32, 0u32, 0u32]);
        offsets
    }
}

/// Whether a framebuffer with the given fence may be shown on planes of which
/// all, or not all, can wait for a fence.
///
/// A fence says that its buffer is not finished; where a plane cannot wait for
/// it, showing the buffer would show a half-drawn frame.
pub fn scanout_acquire_fence_supported(has_acquire_fence: bool, all_planes_support: bool) -> (ok:
    bool)
    ensures
        ok == (has_acquire_fence ==> all_planes_support),
{
    !has_acquire_fence || all_planes_support
}

/// One cached framebuffer.
#[derive(Debug, Clone, Copy, PartialEq, Eq, Structural)]
pub struct CachedCompositeFb {
    pub key: CompositeFbKey,
    pub framebuffer: u32,
    pub gem: u32,
    /// How many scanouts refer to the entry.
    pub users: u32,
    /// Whether a frame may still be shown through the entry.
    pub reusable: bool,
}

/// Whether a cached framebuffer may go.
pub open spec fn may_go(entry: CachedCompositeFb) -> bool {
    !entry.reusable && entry.users == 0
}

/// Whether a cached framebuffer may go: it is not to be used again, and nothing
/// refers to it.
pub fn composite_fb_reapable(reusable: bool, users: u32) -> (reapable: bool)
    ensures
        reapable == (!reusable && users == 0),
{
    !reusable && users == 0
}

/// Whether an existing key names the slot of a candidate, in the same epoch,
/// but other memory.
pub open spec fn slot_conflict(existing: CompositeFbKey, candidate: CompositeFbKey) -> bool {
    existing.epoch == candidate.epoch && existing.slot == candidate.slot && existing != candidate
}

/// Whether an existing key names the slot of a candidate, in the same epoch,
/// but other memory.
pub fn composite_fb_slot_conflicts(existing: CompositeFbKey, candidate: CompositeFbKey) -> (conflict:
    bool)
    ensures
        conflict == slot_conflict(existing, candidate),
{
    existing.epoch == candidate.epoch && existing.slot == candidate.slot && existing != candidate
}

/// The framebuffers of render targets, kept while frames may be shown through
/// them or still are.
#[derive(Debug)]
pub struct CompositeFbCache {
    pub entries: Vec<CachedCompositeFb>,
    /// The generation of the live render surface.
    pub epoch: u64,
}

/// No key occurs twice.
pub open spec fn distinct_keys(entries: Seq<CachedCompositeFb>) -> bool {
    forall|i: int, j: int|
        #![trigger entries[i], entries[j]]
        0 <= i < j < entries.len() ==> entries[i].key != entries[j].key
}

/// The entries that stay when the ones that may go are gone.
pub open spec fn kept(entries: Seq<CachedCompositeFb>) -> Seq<CachedCompositeFb> {
    entries.filter(|e: CachedCompositeFb| !may_go(e))
}

/// What is given back when the entries that may go are gone.
pub open spec fn reaped(entries: Seq<CachedCompositeFb>) -> Seq<Resource> {
    resources(entries.filter(|e: CachedCompositeFb| may_go(e)))
}

/// The framebuffers and handles of entries.
pub open spec fn resources(entries: Seq<CachedCompositeFb>) -> Seq<Resource> {
    entries.map_values(
        |e: CachedCompositeFb| Resource { framebuffer: e.framebuffer, gem: e.gem },
    )
}

/// The entries with every conflict with `key` marked as not to be used again.
pub open spec fn conflicts_retired(
    entries: Seq<CachedCompositeFb>,
    key: CompositeFbKey,
) -> Seq<CachedCompositeFb> {
    entries.map_values(
        |e: CachedCompositeFb|
            if slot_conflict(e.key, key) {
                CachedCompositeFb { reusable: false, ..e }
            } else {
                e
            },
    )
}

/// The entries, none of them to be used again.
pub open spec fn all_retired(entries: Seq<CachedCompositeFb>) -> Seq<CachedCompositeFb> {
    entries.map_values(|e: CachedCompositeFb| CachedCompositeFb { reusable: false, ..e })
}

/// The entries with the one under `key` referred to once more, and to be used.
pub open spec fn referred(
    entries: Seq<CachedCompositeFb>,
    key: CompositeFbKey,
) -> Seq<CachedCompositeFb> {
    entries.map_values(
        |e: CachedCompositeFb|
            if e.key == key {
                CachedCompositeFb { reusable: true, users: (e.users + 1) as u32, ..e }
            } else {
                e
            },
    )
}

/// The entries with one reference to the one under `key` dropped.
pub open spec fn dropped(
    entries: Seq<CachedCompositeFb>,
    key: CompositeFbKey,
) -> Seq<CachedCompositeFb> {
    entries.map_values(
        |e: CachedCompositeFb|
            if e.key == key && e.users > 0 {
                CachedCompositeFb { users: (e.users - 1) as u32, ..e }
            } else {
                e
            },
    )
}

/// The generation after a generation. They begin anew after the last.
pub open spec fn next_epoch(epoch: u64) -> u64 {
    if epoch == u64::MAX {
        0
    } else {
        (epoch + 1) as u64
    }
}

/// Whether there is an entry under `key`.
pub open spec fn has_entry(entries: Seq<CachedCompositeFb>, key: CompositeFbKey) -> bool {
    exists|i: int| 0 <= i < entries.len() && (#[trigger] entries[i]).key == key
}

/// How many references the entry under `key` counts.
pub open spec fn users_of(entries: Seq<CachedCompositeFb>, key: CompositeFbKey) -> int
    decreases entries.len(),
{
    if entries.len() == 0 {
        0
    } else if entries.last().key == key {
        entries.last().users as int
    } else {
        users_of(entries.drop_last(), key)
    }
}

/// The answer to a search for a render target's framebuffer.
#[derive(Debug, Clone, Copy, PartialEq, Eq, Structural)]
pub enum CacheLookup {
    /// The framebuffer is there, and is now referred to once more.
    Hit(Resource),
    /// The framebuffer has to be imported.
    Miss,
}

impl CompositeFbCache {
    /// An empty cache.
    pub fn new() -> (cache: CompositeFbCache)
        ensures
            cache.entries@.len() == 0,
            cache.epoch == 0,
    {
        CompositeFbCache { entries: Vec::new(), epoch: 0 }
    }

    /// Drop the entries that may go and hand their resources back.
    pub fn reap(&mut self) -> (released: Vec<Resource>)
        ensures
            final(self).entries@ == kept(old(self).entries@),
            final(self).epoch == old(self).epoch,
            released@ == reaped(old(self).entries@),
    {
        let mut released: Vec<Resource> = Vec::new();
        let mut remaining: Vec<CachedCompositeFb> = Vec::new();
        let ghost all = self.entries@;
        let ghost goes = |e: CachedCompositeFb| may_go(e);
        let ghost stays = |e: CachedCompositeFb| !may_go(e);
        let mut index: usize = 0;
        proof {
            reveal(Seq::filter);
            assert(resources(all.take(0).filter(goes)) =~= released@);
            assert(all.take(0).filter(stays) =~= remaining@);
        }
        while index < self.entries.len()
            invariant
                index <= self.entries.len(),
                self.entries@ == all,
                all == old(self).entries@,
                self.epoch == old(self).epoch,
                goes == (|e: CachedCompositeFb| may_go(e)),
                stays == (|e: CachedCompositeFb| !may_go(e)),
                released@ == resources(all.take(index as int).filter(goes)),
                remaining@ == all.take(index as int).filter(stays),
            decreases self.entries.len() - index,
        {
            let entry: CachedCompositeFb = self.entries[index];
            proof {
                assert(all.take(index + 1).drop_last() =~= all.take(index as int));
                reveal(Seq::filter);
            }
            if composite_fb_reapable(entry.reusable, entry.users) {
                released.push(Resource { framebuffer: entry.framebuffer, gem: entry.gem });
                assert(released@ =~= resources(all.take(index + 1).filter(goes)));
            } else {
                remaining.push(entry);
            }
            index += 1;
        }
        assert(all.take(all.len() as int) =~= all);
        self.entries = remaining;
        released
    }

    /// Look a render target up. Former entries of its slot are retired first,
    /// and what may go is handed back.
    pub fn begin_import(&mut self, key: CompositeFbKey) -> (answer: (CacheLookup, Vec<Resource>))
        requires
            distinct_keys(old(self).entries@),
            users_of(old(self).entries@, key) < u32::MAX,
        ensures
            final(self).epoch == old(self).epoch,
            answer.1@ == reaped(conflicts_retired(old(self).entries@, key)),
            ({
                let live = kept(conflicts_retired(old(self).entries@, key));
                if has_entry(live, key) {
                    &&& final(self).entries@ == referred(live, key)
                    &&& exists|i: int|
                        0 <= i < live.len() && (#[trigger] live[i]).key == key && answer.0
                            == CacheLookup::Hit(
                            Resource { framebuffer: live[i].framebuffer, gem: live[i].gem },
                        )
                } else {
                    final(self).entries@ == live && answer.0 == CacheLookup::Miss
                }
            }),
    {
        let ghost before = self.entries@;
        let mut index: usize = 0;
        while index < self.entries.len()
            invariant
                index <= self.entries.len(),
                self.entries.len() == before.len(),
                self.epoch == old(self).epoch,
                forall|i: int|
                    0 <= i < index ==> self.entries@[i] == #[trigger] conflicts_retired(
                        before,
                        key,
                    )[i],
                forall|i: int| index <= i < before.len() ==> self.entries@[i] == before[i],
            decreases self.entries.len() - index,
        {
            let entry: CachedCompositeFb = self.entries[index];
            if composite_fb_slot_conflicts(entry.key, key) {
                self.entries.set(index, CachedCompositeFb { reusable: false, ..entry });
            }
            index += 1;
        }
        assert(self.entries@ =~= conflicts_retired(before, key));
        let released = self.reap();
        let ghost live = self.entries@;
        proof {
            lemma_retired(before, key, key);
            lemma_kept(conflicts_retired(before, key), key);
        }
        let mut at: usize = 0;
        while at < self.entries.len()
            invariant
                at <= self.entries.len(),
                self.entries@ == live,
                self.epoch == old(self).epoch,
                live == kept(conflicts_retired(before, key)),
                before == old(self).entries@,
                distinct_keys(live),
                users_of(live, key) <= users_of(before, key),
                users_of(before, key) < u32::MAX,
                released@ == reaped(conflicts_retired(before, key)),
                forall|i: int| 0 <= i < at ==> (#[trigger] live[i]).key != key,
            decreases self.entries.len() - at,
        {
            let entry: CachedCompositeFb = self.entries[at];
            if entry.key == key {
                proof {
                    lemma_users_at(live, key, at as int);
                }
                self.entries.set(
                    at,
                    CachedCompositeFb { reusable: true, users: entry.users + 1, ..entry },
                );
                assert(live[at as int].key == key);
                assert(self.entries@ =~= referred(live, key)) by {
                    assert forall|i: int| 0 <= i < live.len() implies self.entries@[i]
                        == #[trigger] referred(live, key)[i] by {
                        if i != at {
                            let a = live[i];
                            let b = live[at as int];
                        }
                    }
                }
                return (
                    CacheLookup::Hit(Resource { framebuffer: entry.framebuffer, gem: entry.gem }),
                    released,
                );
            }
            at += 1;
        }
        (CacheLookup::Miss, released)
    }

    /// Remember a framebuffer that was just imported, referred to once.
    pub fn complete_import(&mut self, key: CompositeFbKey, resource: Resource)
        requires
            distinct_keys(old(self).entries@),
            !has_entry(old(self).entries@, key),
        ensures
            final(self).entries@ == old(self).entries@.push(
                CachedCompositeFb {
                    key,
                    framebuffer: resource.framebuffer,
                    gem: resource.gem,
                    users: 1,
                    reusable: true,
                },
            ),
            final(self).epoch == old(self).epoch,
            distinct_keys(final(self).entries@),
    {
        self.entries.push(
            CachedCompositeFb {
                key,
                framebuffer: resource.framebuffer,
                gem: resource.gem,
                users: 1,
                reusable: true,
            },
        );
    }

    /// Drop one reference to the framebuffer under `key`, and hand back what
    /// may go.
    pub fn release(&mut self, key: CompositeFbKey) -> (released: Vec<Resource>)
        ensures
            final(self).entries@ == kept(dropped(old(self).entries@, key)),
            final(self).epoch == old(self).epoch,
            released@ == reaped(dropped(old(self).entries@, key)),
    {
        let ghost before = self.entries@;
        let mut index: usize = 0;
        while index < self.entries.len()
            invariant
                index <= self.entries.len(),
                self.entries.len() == before.len(),
                self.epoch == old(self).epoch,
                forall|i: int|
                    0 <= i < index ==> self.entries@[i] == #[trigger] dropped(before, key)[i],
                forall|i: int| index <= i < before.len() ==> self.entries@[i] == before[i],
            decreases self.entries.len() - index,
        {
            let entry: CachedCompositeFb = self.entries[index];
            if entry.key == key && entry.users > 0 {
                self.entries.set(index, CachedCompositeFb { users: entry.users - 1, ..entry });
            }
            index += 1;
        }
        assert(self.entries@ =~= dropped(before, key));
        self.reap()
    }

    /// Begin a new surface generation: no entry is used again, and what may go
    /// is handed back.
    pub fn invalidate(&mut self) -> (released: Vec<Resource>)
        ensures
            final(self).entries@ == kept(all_retired(old(self).entries@)),
            final(self).epoch == next_epoch(old(self).epoch),
            released@ == reaped(all_retired(old(self).entries@)),
    {
        let ghost before = self.entries@;
        self.advance_epoch();
        let ghost epoch = self.epoch;
        let mut index: usize = 0;
        while index < self.entries.len()
            invariant
                index <= self.entries.len(),
                self.entries.len() == before.len(),
                self.epoch == epoch,
                forall|i: int|
                    0 <= i < index ==> self.entries@[i] == #[trigger] all_retired(before)[i],
                forall|i: int| index <= i < before.len() ==> self.entries@[i] == before[i],
            decreases self.entries.len() - index,
        {
            let entry: CachedCompositeFb = self.entries[index];
            self.entries.set(index, CachedCompositeFb { reusable: false, ..entry });
            index += 1;
        }
        assert(self.entries@ =~= all_retired(before));
        self.reap()
    }

    /// Begin a new surface generation, leaving the entries alone.
    fn advance_epoch(&mut self)
        ensures
            final(self).entries@ == old(self).entries@,
            final(self).epoch == next_epoch(old(self).epoch),
    {
        self.epoch = if self.epoch == u64::MAX {
            0
        } else {
            self.epoch + 1
        };
    }

    /// Forget every entry without handing anything back: the kernel freed it
    /// all when it took the card away.
    pub fn forget(&mut self)
        ensures
            final(self).entries@.len() == 0,
            final(self).epoch == next_epoch(old(self).epoch),
    {
        self.entries = Vec::new();
        self.advance_epoch();
    }

    /// Empty the cache and hand every resource back, each once.
    pub fn drain(&mut self) -> (released: Vec<Resource>)
        ensures
            final(self).entries@.len() == 0,
            final(self).epoch == old(self).epoch,
            released@ == resources(old(self).entries@),
    {
        let mut released: Vec<Resource> = Vec::new();
        let mut index: usize = 0;
        while index < self.entries.len()
            invariant
                index <= self.entries.len(),
                self.entries@ == old(self).entries@,
                self.epoch == old(self).epoch,
                released@ == resources(self.entries@.take(index as int)),
            decreases self.entries.len() - index,
        {
            let entry: CachedCompositeFb = self.entries[index];
            released.push(Resource { framebuffer: entry.framebuffer, gem: entry.gem });
            assert(released@ =~= resources(self.entries@.take(index + 1)));
            index += 1;
        }
        assert(self.entries@.take(self.entries.len() as int) =~= self.entries@);
        self.entries = Vec::new();
        released
    }
}

/// Retiring conflicts changes no key and no reference count.
pub proof fn lemma_retired(
    entries: Seq<CachedCompositeFb>,
    key: CompositeFbKey,
    other: CompositeFbKey,
)
    requires
        distinct_keys(entries),
    ensures
        distinct_keys(conflicts_retired(entries, key)),
        users_of(conflicts_retired(entries, key), other) == users_of(entries, other),
    decreases entries.len(),
{
    let after = conflicts_retired(entries, key);
    assert forall|i: int, j: int|
        #![trigger after[i], after[j]]
        0 <= i < j < after.len() implies after[i].key != after[j].key by {
        let a = entries[i];
        let b = entries[j];
    }
    if entries.len() > 0 {
        lemma_retired(entries.drop_last(), key, other);
        assert(after.drop_last() =~= conflicts_retired(entries.drop_last(), key));
    }
}

/// Dropping what may go keeps keys distinct and adds no reference.
pub proof fn lemma_kept(entries: Seq<CachedCompositeFb>, key: CompositeFbKey)
    requires
        distinct_keys(entries),
    ensures
        distinct_keys(kept(entries)),
        forall|e: CachedCompositeFb| #[trigger]
            kept(entries).contains(e) <==> entries.contains(e) && !may_go(e),
        users_of(kept(entries), key) == users_of(entries, key),
    decreases entries.len(),
{
    reveal(Seq::filter);
    let stays = |e: CachedCompositeFb| !may_go(e);
    let after = kept(entries);
    if entries.len() > 0 {
        let init = entries.drop_last();
        assert(distinct_keys(init));
        lemma_kept(init, key);
        let last = entries.last();
        let rest = kept(init);
        assert(entries =~= init.push(last));
        crate::seqs::lemma_push_contains(init, last);
        crate::seqs::lemma_push_contains(rest, last);
        if stays(last) {
            assert(after =~= rest.push(last));
            assert(after.drop_last() =~= rest);
            assert forall|i: int, j: int|
                #![trigger after[i], after[j]]
                0 <= i < j < after.len() implies after[i].key != after[j].key by {
                if j == after.len() - 1 {
                    assert(rest.contains(rest[i]));
                    let k = choose|k: int| 0 <= k < init.len() && init[k] == rest[i];
                    assert(entries[k].key != entries[entries.len() - 1].key);
                } else {
                    let a = rest[i];
                    let b = rest[j];
                }
            }
        } else {
            assert(after =~= rest);
            if last.key == key {
                lemma_no_users(init, key);
            }
        }
        assert forall|e: CachedCompositeFb| #[trigger] after.contains(e) <==> entries.contains(e)
            && !may_go(e) by {
            if entries.contains(e) && !may_go(e) && !(e == last) {
                assert(init.contains(e));
                assert(rest.contains(e));
            }
        }
    } else {
        assert(after =~= entries);
    }
}

/// A key without an entry counts no references.
pub proof fn lemma_no_users(entries: Seq<CachedCompositeFb>, key: CompositeFbKey)
    requires
        !has_entry(entries, key),
    ensures
        users_of(entries, key) == 0,
    decreases entries.len(),
{
    if entries.len() > 0 {
        assert(entries[entries.len() - 1].key != key);
        assert forall|i: int| 0 <= i < entries.drop_last().len() implies (
        #[trigger] entries.drop_last()[i]).key != key by {
            assert(entries[i].key != key);
        }
        lemma_no_users(entries.drop_last(), key);
    }
}

/// The reference count of a key is that of its entry.
pub proof fn lemma_users_at(entries: Seq<CachedCompositeFb>, key: CompositeFbKey, index: int)
    requires
        distinct_keys(entries),
        0 <= index < entries.len(),
        entries[index].key == key,
    ensures
        users_of(entries, key) == entries[index].users,
    decreases entries.len(),
{
    if index < entries.len() - 1 {
        assert(entries[index].key != entries[entries.len() - 1].key);
        assert(distinct_keys(entries.drop_last()));
        lemma_users_at(entries.drop_last(), key, index);
    }
}

/// What is handed back of the cache is what is not to be used again and nothing refers
/// to; everything else stays.
pub proof fn used_framebuffers_stay(
    cache: &mut CompositeFbCache,
    released: Vec<Resource>,
    entry: CachedCompositeFb,
)
    requires
        call_ensures(CompositeFbCache::reap, (cache,), released),
        cache.entries@.contains(entry),
    ensures
        entry.reusable || entry.users > 0 ==> final(cache).entries@.contains(entry),
        !entry.reusable && entry.users == 0 ==> released@.contains(
            Resource { framebuffer: entry.framebuffer, gem: entry.gem },
        ) && !final(cache).entries@.contains(entry),
        forall|r: Resource| #[trigger]
            released@.contains(r) ==> exists|i: int|
                #![trigger old(cache).entries@[i]]
                0 <= i < old(cache).entries@.len() && !old(cache).entries@[i].reusable
                    && old(cache).entries@[i].users == 0 && old(cache).entries@[i].framebuffer
                    == r.framebuffer && old(cache).entries@[i].gem == r.gem,
{
    let all = cache.entries@;
    let goes = |e: CachedCompositeFb| may_go(e);
    let stays = |e: CachedCompositeFb| !may_go(e);
    let at = all.index_of(entry);
    if may_go(entry) {
        all.lemma_filter_contains(goes, at);
        let gone = all.filter(goes);
        let k = gone.index_of(entry);
        assert(resources(gone)[k] == (Resource {
            framebuffer: entry.framebuffer,
            gem: entry.gem,
        }));
        if final(cache).entries@.contains(entry) {
            let k = all.filter(stays).index_of(entry);
            all.lemma_filter_pred(stays, k);
        }
    } else {
        all.lemma_filter_contains(stays, at);
    }
    assert forall|r: Resource| #[trigger] released@.contains(r) implies exists|i: int|
        #![trigger all[i]]
        0 <= i < all.len() && !all[i].reusable && all[i].users == 0 && all[i].framebuffer
            == r.framebuffer && all[i].gem == r.gem by {
        let gone = all.filter(goes);
        let k = released@.index_of(r);
        assert(resources(gone)[k] == r);
        all.lemma_filter_pred(goes, k);
        assert(gone.contains(gone[k]));
        all.lemma_filter_contains_rev(goes, gone[k]);
        let i = all.index_of(gone[k]);
        assert(all[i] == gone[k]);
    }
}

/// Dropping a reference to a framebuffer that is referred to more than once, or may be
/// used again, keeps it, with one reference less; other framebuffers that stay are left
/// alone.
pub proof fn dropped_references_are_counted(
    cache: &mut CompositeFbCache,
    key: CompositeFbKey,
    released: Vec<Resource>,
    index: int,
)
    requires
        call_ensures(CompositeFbCache::release, (cache, key), released),
        0 <= index < cache.entries@.len(),
        cache.entries@[index].users > 0,
    ensures
        ({
            let entry = old(cache).entries@[index];
            let fewer = CachedCompositeFb { users: (entry.users - 1) as u32, ..entry };
            &&& entry.key == key && (entry.users > 1 || entry.reusable)
                ==> final(cache).entries@.contains(fewer)
            &&& entry.key == key && entry.users == 1 && !entry.reusable ==> released@.contains(
                Resource { framebuffer: entry.framebuffer, gem: entry.gem },
            )
            &&& entry.key != key ==> final(cache).entries@.contains(entry)
        }),
        final(cache).epoch == old(cache).epoch,
{
    let all = cache.entries@;
    let after = dropped(all, key);
    let goes = |e: CachedCompositeFb| may_go(e);
    let stays = |e: CachedCompositeFb| !may_go(e);
    let entry = after[index];
    assert(after.contains(entry));
    if may_go(entry) {
        after.lemma_filter_contains(goes, index);
        let gone = after.filter(goes);
        let k = gone.index_of(entry);
        assert(resources(gone)[k] == (Resource {
            framebuffer: entry.framebuffer,
            gem: entry.gem,
        }));
    } else {
        after.lemma_filter_contains(stays, index);
    }
}

/// A framebuffer that is found is one that was kept under exactly the key that was looked
/// for.
pub proof fn found_framebuffers_have_the_key(
    cache: &mut CompositeFbCache,
    key: CompositeFbKey,
    found: Resource,
    released: Vec<Resource>,
)
    requires
        distinct_keys(cache.entries@),
        users_of(cache.entries@, key) < u32::MAX,
        call_ensures(CompositeFbCache::begin_import, (cache, key), (CacheLookup::Hit(found), released)),
    ensures
        exists|i: int|
            #![trigger old(cache).entries@[i]]
            0 <= i < old(cache).entries@.len() && old(cache).entries@[i].key == key
                && old(cache).entries@[i].framebuffer == found.framebuffer
                    && old(cache).entries@[i].gem
                == found.gem,
        final(cache).epoch == old(cache).epoch,
{
    let all = cache.entries@;
    let retired = conflicts_retired(all, key);
    let stays = |e: CachedCompositeFb| !may_go(e);
    let live = kept(retired);
    let i = choose|i: int|
        0 <= i < live.len() && (#[trigger] live[i]).key == key && CacheLookup::Hit(found)
            == CacheLookup::Hit(
            Resource { framebuffer: live[i].framebuffer, gem: live[i].gem },
        );
    assert(live.contains(live[i]));
    retired.lemma_filter_contains_rev(stays, live[i]);
    let k = retired.index_of(live[i]);
    assert(retired[k] == live[i]);
    assert(all[k].key == key);
}

/// A new surface generation differs from the one before, and nothing kept from before is
/// used again.
pub proof fn new_generations_use_nothing_again(
    cache: &mut CompositeFbCache,
    released: Vec<Resource>,
    index: int,
)
    requires
        call_ensures(CompositeFbCache::invalidate, (cache,), released),
        0 <= index < final(cache).entries@.len(),
    ensures
        final(cache).epoch != old(cache).epoch,
        !final(cache).entries@[index].reusable,
        final(cache).entries@[index].users > 0,
{
    let after = all_retired(cache.entries@);
    let stays = |e: CachedCompositeFb| !may_go(e);
    let entry = final(cache).entries@[index];
    after.lemma_filter_pred(stays, index);
    assert(after.filter(stays).contains(entry));
    after.lemma_filter_contains_rev(stays, entry);
    let k = after.index_of(entry);
    assert(after[k] == entry);
}

/// Emptying the cache hands back every framebuffer and handle that it held, in order.
pub proof fn emptied_caches_hand_everything_back(
    cache: &mut CompositeFbCache,
    released: Vec<Resource>,
    index: int,
)
    requires
        call_ensures(CompositeFbCache::drain, (cache,), released),
        0 <= index < cache.entries@.len(),
    ensures
        released@.len() == old(cache).entries@.len(),
        released@[index].framebuffer == old(cache).entries@[index].framebuffer,
        released@[index].gem == old(cache).entries@[index].gem,
        final(cache).entries@.len() == 0,
{
}

/// An entry conflicts with a new render target if it names the same slot of the same
/// generation, with any other difference.
pub proof fn slots_are_taken_over(
    existing: CompositeFbKey,
    candidate: CompositeFbKey,
    conflict: bool,
)
    requires
        call_ensures(composite_fb_slot_conflicts, (existing, candidate), conflict),
    ensures
        conflict ==> existing.epoch == candidate.epoch && existing.slot == candidate.slot,
        existing.epoch == candidate.epoch && existing.slot == candidate.slot && (
        existing.identity.device != candidate.identity.device || existing.identity.inode
            != candidate.identity.inode || existing.width != candidate.width || existing.height
            != candidate.height || existing.stride != candidate.stride || existing.fourcc
            != candidate.fourcc || existing.modifier != candidate.modifier) ==> conflict,
        existing == candidate ==> !conflict,
{
}

/// Client buffers are shown directly, and rendered frames are composited; a fence is
/// shown only where every plane can wait for it.
pub proof fn sources_and_lifetimes_belong_together(
    ownership: ScanoutOwnership,
    frame: PrimaryPlaneFrame,
    fits: bool,
    has_fence: bool,
    all_wait: bool,
    ok: bool,
    needed: bool,
)
    requires
        call_ensures(ScanoutOwnership::matches_frame, (ownership, frame), fits),
        call_ensures(scanout_acquire_fence_supported, (has_fence, all_wait), ok),
        call_ensures(PrimaryPlaneFrame::needs_kms_completion_fence, (frame,), needed),
    ensures
        fits <==> (ownership is TransientClient <==> frame is DirectClient),
        !ok <==> has_fence && !all_wait,
        needed <==> frame is DirectClient,
{
}

/// An imported buffer is described by its own row size, handle and start, in its one
/// memory plane, and by its layout where that is explicit.
pub proof fn imported_buffers_have_one_plane(
    buffer: ImportedBuffer,
    pitches: [u32; 4],
    handles: [Option<u32>; 4],
    offsets: [u32; 4],
    modifier: Option<u64>,
)
    requires
        call_ensures(ImportedBuffer::pitches, (&buffer,), pitches),
        call_ensures(ImportedBuffer::handles, (&buffer,), handles),
        call_ensures(ImportedBuffer::offsets, (&buffer,), offsets),
        call_ensures(ImportedBuffer::modifier, (&buffer,), modifier),
    ensures
        pitches@[0] == buffer.stride && pitches@[1] == 0 && pitches@[2] == 0 && pitches@[3] == 0,
        handles@[0] == Some(buffer.gem) && handles@[1] is None,
        offsets@[0] == buffer.offset && offsets@[1] == 0,
        modifier matches Some(layout) ==> layout == buffer.modifier,
        modifier is None <==> buffer.modifier == 0x00ff_ffff_ffff_ffff,
{
}

} // verus!
