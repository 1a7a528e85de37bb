//! One layer's keys and values, and a cache of several layers.

use vstd::prelude::*;

use crate::bytes;
use crate::bytes::{copy_words, zero_words};
use crate::kv_cache::mirror;
use crate::kv_cache::mirror::{GpuMirror, MirrorLayout, SyncPlan, Upload};
use crate::vulkan_shaders::KvStorage;

verus! {

/// One layer's keys and values: room for `capacity` positions of `kv_dim` values
/// each, of which the first `len` are committed.
#[derive(Debug)]
pub struct LayerCache {
    pub k: Vec<u32>,
    pub v: Vec<u32>,
    pub kv_dim: usize,
    pub capacity: usize,
    pub len: usize,
    pub gpu: Option<GpuMirror>,
}

impl LayerCache {
    /// There is room for every position, no more are committed than there is room
    /// for, and no more are uploaded than are committed.
    pub open spec fn wf(&self) -> bool {
        &&& self.k@.len() == self.capacity * self.kv_dim
        &&& self.v@.len() == self.capacity * self.kv_dim
        &&& self.len <= self.capacity
        &&& self.gpu is Some ==> {
            &&& self.gpu->0.synced_len <= self.len
            &&& self.gpu->0.holds((self.capacity * self.kv_dim) as nat)
        }
    }

    /// Whether there is room for every position, no more are committed than there is
    /// room for, and no more are uploaded than are committed.
    pub fn is_sound(&self) -> (r: bool)
        ensures
            r == self.wf(),
    {
        let keys: usize = self.k.len();
        let cells: usize = match self.capacity.checked_mul(self.kv_dim) {
            Some(cells) => cells,
            None => {
                return false;
            },
        };
        if keys != cells || self.v.len() != cells || self.len > self.capacity {
            return false;
        }
        match &self.gpu {
            None => true,
            Some(mirror) => mirror.synced_len <= self.len && mirror.has_room(cells),
        }
    }

    /// The committed keys.
    pub open spec fn keys(&self) -> Seq<u32> {
        self.k@.take(self.len * self.kv_dim)
    }

    /// The committed values.
    pub open spec fn values(&self) -> Seq<u32> {
        self.v@.take(self.len * self.kv_dim)
    }

    /// The committed positions lie within the room.
    pub proof fn committed_in_range(&self, pos: int)
        requires
            self.wf(),
            0 <= pos <= self.capacity,
        ensures
            0 <= pos * self.kv_dim <= self.capacity * self.kv_dim,
            0 <= self.len * self.kv_dim <= self.capacity * self.kv_dim,
            (pos + 1) * self.kv_dim == pos * self.kv_dim + self.kv_dim,
            pos < self.capacity ==> pos * self.kv_dim + self.kv_dim <= self.capacity * self.kv_dim,
    {
        let d = self.kv_dim as int;
        let c = self.capacity as int;
        let n = self.len as int;
        assert(0 <= pos * d <= c * d && 0 <= n * d <= c * d && (pos + 1) * d == pos * d + d)
            by (nonlinear_arith)
            requires
                0 <= pos <= c,
                0 <= n <= c,
                d >= 0,
        ;
        if pos < c {
            assert((pos + 1) * d <= c * d) by (nonlinear_arith)
                requires
                    pos + 1 <= c,
                    d >= 0,
            ;
        }
    }

    /// An empty layer.
    pub fn new(capacity: usize, kv_dim: usize) -> (r: Self)
        requires
            capacity * kv_dim <= usize::MAX,
        ensures
            r.wf(),
            r.capacity == capacity,
            r.kv_dim == kv_dim,
            r.len == 0,
            r.gpu is None,
            r.k@ == Seq::new((capacity * kv_dim) as nat, |i: int| 0u32),
            r.v@ == Seq::new((capacity * kv_dim) as nat, |i: int| 0u32),
    {
        LayerCache {
            k: zero_words(capacity * kv_dim),
            v: zero_words(capacity * kv_dim),
            kv_dim,
            capacity,
            len: 0,
            gpu: None,
        }
    }

    /// A layer with room for exactly the given positions.
    pub fn from_parts(kv_dim: usize, len: usize, k: Vec<u32>, v: Vec<u32>) -> (r: Self)
        requires
            k@.len() == len * kv_dim,
            v@.len() == len * kv_dim,
        ensures
            r.wf(),
            r.kv_dim == kv_dim,
            r.capacity == len,
            r.len == len,
            r.gpu is None,
            r.k == k,
            r.v == v,
    {
        LayerCache { k, v, kv_dim, capacity: len, len, gpu: None }
    }

    /// A copy without a mirror on the device.
    pub fn duplicate(&self) -> (r: Self)
        requires
            self.wf(),
        ensures
            r.wf(),
            r.k@ == self.k@,
            r.v@ == self.v@,
            r.kv_dim == self.kv_dim,
            r.capacity == self.capacity,
            r.len == self.len,
            r.gpu is None,
    {
        LayerCache {
            k: copy_words(&self.k),
            v: copy_words(&self.v),
            kv_dim: self.kv_dim,
            capacity: self.capacity,
            len: self.len,
            gpu: None,
        }
    }

    /// The number of positions that there is room for.
    pub fn capacity(&self) -> (r: usize)
        ensures
            r == self.capacity,
    {
        self.capacity
    }

    /// Rolls back to the first `new_len` positions; nothing happens where there are
    /// no more than that. What stood after them stays in place until it is
    /// overwritten, and counts as not uploaded.
    pub fn truncate(&mut self, new_len: usize)
        requires
            old(self).wf(),
        ensures
            final(self).wf(),
            final(self).k == old(self).k,
            final(self).v == old(self).v,
            final(self).kv_dim == old(self).kv_dim,
            final(self).capacity == old(self).capacity,
            final(self).len == (if new_len < old(self).len {
                new_len
            } else {
                old(self).len
            }),
            final(self).gpu == rolled_mirror(
                old(self).gpu,
                old(self).len as nat,
                new_len,
            ),
    {
        if new_len >= self.len {
            return;
        }
        self.len = new_len;
        if let Some(g) = self.gpu {
            if new_len < g.synced_len {
                self.gpu = Some(
                    GpuMirror {
                        layout: g.layout,
                        kv_storage: g.kv_storage,
                        synced_len: new_len,
                    },
                );
            }
        }
    }

    /// Commits one more position, whose key and value are given.
    pub fn push(&mut self, k: &[u32], v: &[u32])
        requires
            old(self).wf(),
            old(self).len < old(self).capacity,
            k@.len() == old(self).kv_dim,
            v@.len() == old(self).kv_dim,
        ensures
            final(self).wf(),
            final(self).k@ == bytes::spliced(
                old(self).k@,
                old(self).len * old(self).kv_dim,
                k@,
            ),
            final(self).v@ == bytes::spliced(
                old(self).v@,
                old(self).len * old(self).kv_dim,
                v@,
            ),
            final(self).len == old(self).len + 1,
            final(self).keys() == old(self).keys() + k@,
            final(self).values() == old(self).values() + v@,
            final(self).kv_dim == old(self).kv_dim,
            final(self).capacity == old(self).capacity,
            final(self).gpu == old(self).gpu,
    {
        let total: usize = self.k.len();
        proof {
            self.committed_in_range(self.len as int);
        }
        let start: usize = self.len * self.kv_dim;
        bytes::splice(&mut self.k, start, k);
        bytes::splice(&mut self.v, start, v);
        self.len += 1;
        assert(self.keys() =~= old(self).keys() + k@);
        assert(self.values() =~= old(self).values() + v@);
    }

    /// Commits one more position whose key and value stand on the device alone: what
    /// is held here at that position stays as it is, and counts as uploaded.
    pub fn advance_gpu_only(&mut self)
        requires
            old(self).wf(),
            old(self).len < old(self).capacity,
        ensures
            final(self).wf(),
            final(self).k == old(self).k,
            final(self).v == old(self).v,
            final(self).kv_dim == old(self).kv_dim,
            final(self).capacity == old(self).capacity,
            final(self).len == old(self).len + 1,
            final(self).gpu == (match old(self).gpu {
                Some(g) => Some(GpuMirror { synced_len: (old(self).len + 1) as usize, ..g }),
                None => None,
            }),
    {
        self.len += 1;
        if let Some(g) = self.gpu {
            self.gpu = Some(
                GpuMirror { layout: g.layout, kv_storage: g.kv_storage, synced_len: self.len },
            );
        }
    }

    /// The key of a head at a position.
    pub fn key_at(&self, pos: usize, kv_head: usize, head_dim: usize) -> (r: &[u32])
        requires
            self.wf(),
            pos < self.capacity,
            (kv_head + 1) * head_dim <= self.kv_dim,
        ensures
            r@ == self.k@.subrange(
                pos * self.kv_dim + kv_head * head_dim,
                pos * self.kv_dim + (kv_head + 1) * head_dim,
            ),
    {
        let total: usize = self.k.len();
        proof {
            self.committed_in_range(pos as int);
            head_in_range(kv_head as int, head_dim as int);
        }
        let row: usize = pos * self.kv_dim;
        let head: usize = kv_head * head_dim;
        vstd::slice::slice_subrange(self.k.as_slice(), row + head, row + head + head_dim)
    }

    /// The value of a head at a position.
    pub fn value_at(&self, pos: usize, kv_head: usize, head_dim: usize) -> (r: &[u32])
        requires
            self.wf(),
            pos < self.capacity,
            (kv_head + 1) * head_dim <= self.kv_dim,
        ensures
            r@ == self.v@.subrange(
                pos * self.kv_dim + kv_head * head_dim,
                pos * self.kv_dim + (kv_head + 1) * head_dim,
            ),
    {
        let total: usize = self.v.len();
        proof {
            self.committed_in_range(pos as int);
            head_in_range(kv_head as int, head_dim as int);
        }
        let row: usize = pos * self.kv_dim;
        let head: usize = kv_head * head_dim;
        vstd::slice::slice_subrange(self.v.as_slice(), row + head, row + head + head_dim)
    }

    /// Takes over the first `len` positions of a layer that has that many; nothing
    /// happens where it has none at all. The mirror on the device is given up.
    pub fn copy_prefix_from(&mut self, src: &LayerCache, len: usize)
        requires
            old(self).wf(),
            src.wf(),
            old(self).kv_dim == src.kv_dim,
            src.len == 0 || (len <= old(self).capacity && len <= src.len),
        ensures
            prefix_copied(*old(self), *src, len as nat, *final(self)),
    {
        if src.len == 0 {
            return;
        }
        let total: usize = self.k.len();
        let src_total: usize = src.k.len();
        proof {
            self.committed_in_range(len as int);
            src.committed_in_range(len as int);
            let d = src.kv_dim as int;
            let n = src.len as int;
            assert(len * d <= n * d) by (nonlinear_arith)
                requires
                    len <= n,
                    d >= 0,
            ;
        }
        let n: usize = len * self.kv_dim;
        bytes::splice(
            &mut self.k,
            0,
            vstd::slice::slice_subrange(src.k.as_slice(), 0, n),
        );
        bytes::splice(
            &mut self.v,
            0,
            vstd::slice::slice_subrange(src.v.as_slice(), 0, n),
        );
        self.len = len;
        self.gpu = None;
        assert(src.k@.subrange(0, n as int) =~= src.k@.take(n as int));
        assert(src.v@.subrange(0, n as int) =~= src.v@.take(n as int));
        assert(self.keys() =~= src.keys().take(n as int));
        assert(self.values() =~= src.values().take(n as int));
    }
}

/// The mirror of a layer of `len` positions after it was rolled back to `new_len`:
/// what was uploaded after them counts as not uploaded.
pub open spec fn rolled_mirror(gpu: Option<GpuMirror>, len: nat, new_len: usize) -> Option<
    GpuMirror,
> {
    match gpu {
        Some(g) => Some(
            GpuMirror {
                synced_len: if new_len < len && new_len < g.synced_len {
                    new_len
                } else {
                    g.synced_len
                },
                ..g
            },
        ),
        None => None,
    }
}

/// A layer after it has taken over the first `len` positions of another; as it was
/// where the other has none at all.
pub open spec fn prefix_copied(
    before: LayerCache,
    src: LayerCache,
    len: nat,
    after: LayerCache,
) -> bool {
    &&& after.wf()
    &&& src.len == 0 ==> after == before
    &&& src.len > 0 ==> {
        &&& after.len == len
        &&& after.k@ == bytes::spliced(before.k@, 0, src.k@.take((len * src.kv_dim) as int))
        &&& after.v@ == bytes::spliced(before.v@, 0, src.v@.take((len * src.kv_dim) as int))
        &&& after.keys() == src.keys().take((len * src.kv_dim) as int)
        &&& after.values() == src.values().take((len * src.kv_dim) as int)
        &&& after.kv_dim == before.kv_dim
        &&& after.capacity == before.capacity
        &&& after.gpu is None
    }
}

/// The part of a run of values that a plan uploads, and where: everything that is
/// committed and not yet uploaded.
pub open spec fn due_upload(
    mirror: GpuMirror,
    kv_dim: nat,
    synced: nat,
    len: nat,
) -> Option<(nat, nat, nat, nat)> {
    if synced < len {
        let at = mirror::storage_bytes(mirror.kv_storage, synced * kv_dim);
        Some(
            (
                synced * kv_dim,
                len * kv_dim,
                mirror.layout.k_off as nat + at,
                mirror.layout.v_off as nat + at,
            ),
        )
    } else {
        None
    }
}

impl LayerCache {
    /// Brings the mirror on the device up to date: makes one where there is none,
    /// and says which values have to be uploaded and where to. All committed
    /// positions count as uploaded afterwards.
    pub fn sync_gpu(&mut self, device_align: u32, n_head: usize, kv_storage: KvStorage) -> (plan:
        SyncPlan)
        requires
            old(self).wf(),
            old(self).gpu is None ==> {
                &&& old(self).capacity * old(self).kv_dim * 4 <= usize::MAX
                &&& old(self).capacity * n_head * 4 + 4 <= usize::MAX
                &&& kv_storage == KvStorage::Q8_0 ==> (old(self).capacity * old(self).kv_dim) % 32
                    == 0
                &&& 2 * (old(self).capacity * old(self).kv_dim * 4) + u32::MAX + 8 <= u64::MAX
            },
        ensures
            final(self).wf(),
            final(self).k == old(self).k,
            final(self).v == old(self).v,
            final(self).kv_dim == old(self).kv_dim,
            final(self).capacity == old(self).capacity,
            final(self).len == old(self).len,
            final(self).gpu == Some(plan.mirror),
            plan.mirror.synced_len == old(self).len,
            plan.create == (old(self).gpu is None),
            match old(self).gpu {
                Some(g) => plan.mirror.layout == g.layout && plan.mirror.kv_storage
                    == g.kv_storage,
                None => plan.mirror.kv_storage == kv_storage && mirror::is_layout(
                    plan.mirror.layout,
                    old(self).capacity as nat,
                    old(self).kv_dim as nat,
                    n_head as nat,
                    kv_storage,
                    device_align,
                ),
            },
            ({
                let synced = match old(self).gpu {
                    Some(g) => g.synced_len as nat,
                    None => 0,
                };
                let due = due_upload(
                    plan.mirror,
                    old(self).kv_dim as nat,
                    synced,
                    old(self).len as nat,
                );
                match plan.upload {
                    Some(u) => due == Some(
                        (u.start as nat, u.end as nat, u.k_at as nat, u.v_at as nat),
                    ),
                    None => due is None,
                }
            }),
    {
        let total: usize = self.k.len();
        let create = self.gpu.is_none();
        let mirror = match self.gpu {
            Some(g) => g,
            None => {
                let layout = MirrorLayout::new(
                    self.capacity,
                    self.kv_dim,
                    n_head,
                    kv_storage,
                    device_align,
                );
                proof {
                    mirror::regions_are_apart(
                        layout,
                        self.capacity as nat,
                        self.kv_dim as nat,
                        n_head as nat,
                        kv_storage,
                        device_align,
                    );
                }
                GpuMirror { layout, kv_storage, synced_len: 0 }
            },
        };
        let ghost cells = (self.capacity * self.kv_dim) as nat;
        assert(mirror.holds(cells));
        proof {
            self.committed_in_range(mirror.synced_len as int);
        }
        let upload = if mirror.synced_len < self.len {
            let start: usize = mirror.synced_len * self.kv_dim;
            let end: usize = self.len * self.kv_dim;
            proof {
                mirror::storage_grows(mirror.kv_storage, start as nat, cells);
            }
            let local: u64 = match mirror.kv_storage {
                KvStorage::F32 => start as u64 * 4,
                KvStorage::F16 => start as u64 * 2,
                KvStorage::Q8_0 => start as u64 / 32 * 36,
            };
            Some(
                Upload {
                    start,
                    end,
                    k_at: mirror.layout.k_off + local,
                    v_at: mirror.layout.v_off + local,
                },
            )
        } else {
            None
        };
        let synced = GpuMirror {
            layout: mirror.layout,
            kv_storage: mirror.kv_storage,
            synced_len: self.len,
        };
        self.gpu = Some(synced);
        SyncPlan { create, mirror: synced, upload }
    }

    /// What a plan uploads lies within the regions of the mirror; where values are
    /// stored in blocks, provided that a position is a whole number of blocks.
    pub proof fn uploads_stay_in_their_regions(&self, synced: nat)
        requires
            self.wf(),
            self.gpu is Some,
            synced <= self.len,
            self.gpu->0.kv_storage == KvStorage::Q8_0 ==> self.kv_dim % 32 == 0,
        ensures
            ({
                let g = self.gpu->0;
                match due_upload(g, self.kv_dim as nat, synced, self.len as nat) {
                    Some((start, end, k_at, v_at)) => {
                        let bytes = mirror::storage_bytes(g.kv_storage, (end - start) as nat);
                        &&& g.layout.k_off <= k_at
                        &&& k_at + bytes <= g.layout.k_off + g.layout.k_size
                        &&& g.layout.v_off <= v_at
                        &&& v_at + bytes <= g.layout.v_off + g.layout.v_size
                    },
                    None => true,
                }
            }),
    {
        if synced < self.len {
            let g = self.gpu->0;
            let d = self.kv_dim as int;
            let n = self.len as int;
            let cells = self.capacity * self.kv_dim;
            self.committed_in_range(synced as int);
            assert(synced * d <= n * d) by (nonlinear_arith)
                requires
                    synced <= n,
                    d >= 0,
            ;
            mirror::storage_grows(g.kv_storage, (n * d) as nat, cells as nat);
            if g.kv_storage == KvStorage::Q8_0 {
                let q = d / 32;
                assert(d == 32 * q);
                assert(synced * d == 32 * (synced * q) && n * d == 32 * (n * q)) by (
                nonlinear_arith)
                    requires
                        d == 32 * q,
                ;
            }
        }
    }
}

/// After a push, the new position holds what was pushed, and every earlier one
/// what it held before.
pub proof fn pushed_rows_read_back(cells: Seq<u32>, kv_dim: nat, len: nat, row: Seq<u32>, pos: nat)
    requires
        row.len() == kv_dim,
        (len + 1) * kv_dim <= cells.len(),
        pos < len,
    ensures
        bytes::spliced(cells, (len * kv_dim) as int, row).subrange(
            (len * kv_dim) as int,
            ((len + 1) * kv_dim) as int,
        ) == row,
        bytes::spliced(cells, (len * kv_dim) as int, row).subrange(
            (pos * kv_dim) as int,
            ((pos + 1) * kv_dim) as int,
        ) == cells.subrange((pos * kv_dim) as int, ((pos + 1) * kv_dim) as int),
{
    let after = bytes::spliced(cells, (len * kv_dim) as int, row);
    assert(0 <= pos * kv_dim <= (pos + 1) * kv_dim <= len * kv_dim && (len + 1) * kv_dim == len
        * kv_dim + kv_dim) by (nonlinear_arith)
        requires
            pos < len,
    ;
    assert(after.subrange((len * kv_dim) as int, ((len + 1) * kv_dim) as int) =~= row);
    assert(after.subrange((pos * kv_dim) as int, ((pos + 1) * kv_dim) as int) =~= cells.subrange(
        (pos * kv_dim) as int,
        ((pos + 1) * kv_dim) as int,
    ));
}

/// A head's values lie within a row.
proof fn head_in_range(kv_head: int, head_dim: int)
    requires
        0 <= kv_head,
        0 <= head_dim,
    ensures
        0 <= kv_head * head_dim,
        (kv_head + 1) * head_dim == kv_head * head_dim + head_dim,
{
    assert(0 <= kv_head * head_dim && (kv_head + 1) * head_dim == kv_head * head_dim + head_dim)
        by (nonlinear_arith)
        requires
            0 <= kv_head,
            0 <= head_dim,
    ;
}

/// What is due is every position that is committed and not uploaded. It goes, in either
/// region, to where the values before it end.
pub proof fn what_is_not_uploaded_is_due(mirror: GpuMirror, kv_dim: nat, synced: nat, len: nat)
    ensures
        due_upload(mirror, kv_dim, synced, len) is Some <==> synced < len,
        match due_upload(mirror, kv_dim, synced, len) {
            Some((start, end, k_at, v_at)) => {
                let before = k_at - mirror.layout.k_off;
                &&& start == synced * kv_dim
                &&& end == len * kv_dim
                &&& v_at - mirror.layout.v_off == before
                &&& mirror.kv_storage == KvStorage::F32 ==> before == 4 * start
                &&& mirror.kv_storage == KvStorage::F16 ==> before == 2 * start
                &&& mirror.kv_storage == KvStorage::Q8_0 && start % 32 == 0 ==> 8 * before == 9
                    * start
            },
            None => true,
        },
{
}

} // verus!
