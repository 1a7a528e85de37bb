//! Where a layer's keys and values stand on the device, and what has to be
//! uploaded there.

use vstd::prelude::*;

use crate::vulkan_shaders::KvStorage;

verus! {

/// The parts of the device buffers of one layer: the keys and the values are two
/// regions of one buffer; the attention scratch is a buffer of its own.
#[derive(Clone, Copy, PartialEq, Eq, Debug, Structural)]
pub struct MirrorLayout {
    pub k_off: u64,
    pub k_size: u64,
    pub v_off: u64,
    pub v_size: u64,
    pub buffer_size: u64,
    pub probs_size: u64,
}

/// A layer's mirror on the device: its layout, how it stores values, and how many
/// positions have been uploaded.
#[derive(Clone, Copy, PartialEq, Eq, Debug, Structural)]
pub struct GpuMirror {
    pub layout: MirrorLayout,
    pub kv_storage: KvStorage,
    pub synced_len: usize,
}

/// A range of values to upload, and where its bytes go.
#[derive(Clone, Copy, PartialEq, Eq, Debug, Structural)]
pub struct Upload {
    pub start: usize,
    pub end: usize,
    pub k_at: u64,
    pub v_at: u64,
}

/// What a caller has to do on the device: make the buffers if they are new, then
/// upload the range, if there is one.
#[derive(Clone, Copy, PartialEq, Eq, Debug, Structural)]
pub struct SyncPlan {
    pub create: bool,
    pub mirror: GpuMirror,
    pub upload: Option<Upload>,
}

/// The number of bytes that `n` values take.
pub open spec fn storage_bytes(kv_storage: KvStorage, n: nat) -> nat {
    match kv_storage {
        KvStorage::F32 => n * 4,
        KvStorage::F16 => n * 2,
        KvStorage::Q8_0 => n / 32 * 36,
    }
}

/// More values take no fewer bytes.
pub proof fn storage_grows(kv_storage: KvStorage, a: nat, b: nat)
    requires
        a <= b,
    ensures
        storage_bytes(kv_storage, a) <= storage_bytes(kv_storage, b),
{
}

impl GpuMirror {
    /// Both regions have room for `cells` values, one after the other in the buffer.
    pub open spec fn holds(&self, cells: nat) -> bool {
        &&& storage_bytes(self.kv_storage, cells) <= self.layout.k_size
        &&& storage_bytes(self.kv_storage, cells) <= self.layout.v_size
        &&& self.layout.k_off + self.layout.k_size <= self.layout.v_off
        &&& self.layout.v_off + self.layout.v_size == self.layout.buffer_size
    }

    /// Whether both regions have room for `cells` values, one after the other in the
    /// buffer.
    pub fn has_room(&self, cells: usize) -> (r: bool)
        ensures
            r == self.holds(cells as nat),
    {
        let size: u128 = match self.kv_storage {
            KvStorage::F32 => cells as u128 * 4,
            KvStorage::F16 => cells as u128 * 2,
            KvStorage::Q8_0 => cells as u128 / 32 * 36,
        };
        size <= self.layout.k_size as u128 && size <= self.layout.v_size as u128
            && self.layout.k_off as u128 + self.layout.k_size as u128 <= self.layout.v_off as u128
            && self.layout.v_off as u128 + self.layout.v_size as u128
            == self.layout.buffer_size as u128
    }
}

/// The smallest multiple of `align` that is at least `n`.
pub open spec fn aligned_up(n: nat, align: nat) -> nat
    recommends
        align > 0,
{
    if n % align == 0 {
        n
    } else {
        (n + align - n % align) as nat
    }
}

/// The size of a region of `n` values: at least one byte.
pub open spec fn region_size(kv_storage: KvStorage, n: nat) -> nat {
    if storage_bytes(kv_storage, n) == 0 {
        1
    } else {
        storage_bytes(kv_storage, n)
    }
}

/// The alignment of a region's start: the device's, and at least four.
pub open spec fn region_align(device_align: u32) -> nat {
    if device_align < 4 {
        4
    } else {
        device_align as nat
    }
}

/// The layout for a cache of `capacity` positions of `kv_dim` values, with a
/// scratch for `n_head` heads.
pub open spec fn layout_spec(
    capacity: nat,
    kv_dim: nat,
    n_head: nat,
    kv_storage: KvStorage,
    device_align: u32,
) -> (nat, nat, nat, nat) {
    let size = region_size(kv_storage, capacity * kv_dim);
    let v_off = aligned_up(size, region_align(device_align));
    (
        size,
        v_off,
        v_off + size,
        (if capacity * n_head == 0 {
            1
        } else {
            capacity * n_head
        }) * 4,
    )
}

/// The layout is as it should be for a cache of that shape.
pub open spec fn is_layout(
    layout: MirrorLayout,
    capacity: nat,
    kv_dim: nat,
    n_head: nat,
    kv_storage: KvStorage,
    device_align: u32,
) -> bool {
    let (size, v_off, total, probs) = layout_spec(
        capacity,
        kv_dim,
        n_head,
        kv_storage,
        device_align,
    );
    &&& layout.k_off == 0
    &&& layout.k_size == size
    &&& layout.v_off == v_off
    &&& layout.v_size == size
    &&& layout.buffer_size == total
    &&& layout.probs_size == probs
}

/// Aligning up gives a multiple, less than one step above.
pub proof fn aligned_up_is_next(n: nat, align: nat)
    requires
        align > 0,
    ensures
        aligned_up(n, align) % align == 0,
        n <= aligned_up(n, align) < n + align,
{
    let q = n / align;
    let r = n % align;
    assert(n == q * align + r && 0 <= r < align) by (nonlinear_arith)
        requires
            q == n / align,
            r == n % align,
            align > 0,
    ;
    if r != 0 {
        assert(aligned_up(n, align) == (q + 1) * align) by (nonlinear_arith)
            requires
                n == q * align + r,
                aligned_up(n, align) == n + align - r,
        ;
        assert(((q + 1) * align) % align == 0) by (nonlinear_arith)
            requires
                align > 0,
        ;
    }
}

/// The regions of a layout do not overlap, the second starts at an aligned
/// offset, and both lie in the buffer.
pub proof fn regions_are_apart(
    layout: MirrorLayout,
    capacity: nat,
    kv_dim: nat,
    n_head: nat,
    kv_storage: KvStorage,
    device_align: u32,
)
    requires
        is_layout(layout, capacity, kv_dim, n_head, kv_storage, device_align),
    ensures
        layout.k_off + layout.k_size <= layout.v_off,
        layout.v_off as nat % region_align(device_align) == 0,
        layout.v_off + layout.v_size == layout.buffer_size,
{
    aligned_up_is_next(
        region_size(kv_storage, capacity * kv_dim),
        region_align(device_align),
    );
}

impl MirrorLayout {
    /// The layout for a cache of that shape.
    pub fn new(
        capacity: usize,
        kv_dim: usize,
        n_head: usize,
        kv_storage: KvStorage,
        device_align: u32,
    ) -> (r: Self)
        requires
            capacity * kv_dim * 4 <= usize::MAX,
            capacity * n_head * 4 + 4 <= usize::MAX,
            kv_storage == KvStorage::Q8_0 ==> (capacity * kv_dim) % 32 == 0,
            2 * (capacity * kv_dim * 4) + u32::MAX + 8 <= u64::MAX,
        ensures
            is_layout(
                r,
                capacity as nat,
                kv_dim as nat,
                n_head as nat,
                kv_storage,
                device_align,
            ),
    {
        assert(0 <= capacity * kv_dim && 0 <= capacity * n_head) by (nonlinear_arith)
            requires
                capacity >= 0,
                kv_dim >= 0,
                n_head >= 0,
        ;
        let n: usize = capacity * kv_dim;
        let bytes: usize = match kv_storage {
            KvStorage::F32 => n * 4,
            KvStorage::F16 => n * 2,
            KvStorage::Q8_0 => n / 32 * 36,
        };
        let size: u64 = if bytes == 0 {
            1
        } else {
            bytes as u64
        };
        let align: u64 = if device_align < 4 {
            4
        } else {
            device_align as u64
        };
        proof {
            aligned_up_is_next(size as nat, align as nat);
        }
        let rest: u64 = size % align;
        let v_off: u64 = if rest == 0 {
            size
        } else {
            size + (align - rest)
        };
        let cells: usize = capacity * n_head;
        let probs: usize = if cells == 0 {
            4
        } else {
            cells * 4
        };
        MirrorLayout {
            k_off: 0,
            k_size: size,
            v_off,
            v_size: size,
            buffer_size: v_off + size,
            probs_size: probs as u64,
        }
    }
}

/// A value takes four bytes, or two, or thirty-six for a block of thirty-two.
pub proof fn values_take_their_bytes(n: nat)
    ensures
        storage_bytes(KvStorage::F32, n) == 4 * n,
        storage_bytes(KvStorage::F16, n) == 2 * n,
        storage_bytes(KvStorage::Q8_0, 32 * n) == 36 * n,
{
    assert((32 * n) / 32 == n);
}

/// A layout starts with the keys and has the values behind them, with room for all values
/// of either and for at least a byte, at the first offset that the device's alignment and
/// one of four bytes allow. The scratch has four bytes for each head at each position, and
/// four where there is none.
pub proof fn layouts_are_as_tight_as_alignment_allows(
    layout: MirrorLayout,
    capacity: nat,
    kv_dim: nat,
    n_head: nat,
    kv_storage: KvStorage,
    device_align: u32,
    align: nat,
)
    requires
        is_layout(layout, capacity, kv_dim, n_head, kv_storage, device_align),
        align == device_align || (align == 4 && device_align < 4),
        align >= 4,
    ensures
        layout.k_off == 0,
        layout.k_size == layout.v_size,
        capacity * kv_dim == 0 ==> layout.k_size == 1,
        capacity * kv_dim > 0 && kv_storage == KvStorage::F32 ==> layout.k_size == 4 * (capacity
            * kv_dim),
        capacity * kv_dim > 0 && kv_storage == KvStorage::F16 ==> layout.k_size == 2 * (capacity
            * kv_dim),
        capacity * kv_dim > 0 && kv_storage == KvStorage::Q8_0 && (capacity * kv_dim) % 32 == 0
            ==> 8 * layout.k_size == 9 * (capacity * kv_dim),
        layout.v_off as nat % align == 0,
        layout.k_size <= layout.v_off < layout.k_size + align,
        layout.buffer_size == layout.v_off + layout.v_size,
        capacity * n_head > 0 ==> layout.probs_size == 4 * (capacity * n_head),
        capacity * n_head == 0 ==> layout.probs_size == 4,
{
    aligned_up_is_next(region_size(kv_storage, capacity * kv_dim), align);
}

} // verus!
