//! A cache of several layers.

use vstd::prelude::*;

use crate::bytes;
use crate::bytes::{low32, push_words};
use crate::kv_cache::layer;
use crate::kv_cache::layer::LayerCache;
use crate::kv_cache::recurrent;
use crate::kv_cache::recurrent::RecurrentLayerState;

verus! {

/// The attention layers' keys and values, and the recurrent layers' states.
#[derive(Debug)]
pub struct KvCache {
    pub layers: Vec<LayerCache>,
    pub recurrent: Vec<RecurrentLayerState>,
}

/// A layer without any position, all zeros.
pub open spec fn is_fresh_layer(l: LayerCache, capacity: nat, kv_dim: nat) -> bool {
    &&& l.wf()
    &&& l.capacity == capacity
    &&& l.kv_dim == kv_dim
    &&& l.len == 0
    &&& l.gpu is None
    &&& l.k@ == Seq::new(capacity * kv_dim, |i: int| 0u32)
    &&& l.v@ == Seq::new(capacity * kv_dim, |i: int| 0u32)
}

/// A recurrent state of zeros.
pub open spec fn is_fresh_state(r: RecurrentLayerState, shape: (usize, usize, usize, usize)) -> bool {
    let (conv_channels, d_conv, num_heads, head_dim) = shape;
    &&& r.wf()
    &&& r.conv_channels == conv_channels
    &&& r.d_conv == d_conv
    &&& r.head_dim == head_dim
    &&& r.conv_history@ == Seq::new(
        (conv_channels * recurrent::window(d_conv as nat)) as nat,
        |i: int| 0u32,
    )
    &&& r.delta_state@ == Seq::new((num_heads * head_dim * head_dim) as nat, |i: int| 0u32)
}

/// The sizes of a recurrent state can be computed.
pub open spec fn shape_fits(shape: (usize, usize, usize, usize)) -> bool {
    let (conv_channels, d_conv, num_heads, head_dim) = shape;
    &&& conv_channels * recurrent::window(d_conv as nat) <= usize::MAX
    &&& num_heads * head_dim <= usize::MAX
    &&& num_heads * head_dim * head_dim <= usize::MAX
    &&& head_dim * head_dim <= usize::MAX
}

/// The largest number of committed positions among the first `n` layers.
pub open spec fn longest(layers: Seq<LayerCache>, n: nat) -> nat
    decreases n,
{
    if n == 0 {
        0
    } else {
        let before = longest(layers, (n - 1) as nat);
        if layers[n - 1].len > before {
            layers[n - 1].len as nat
        } else {
            before
        }
    }
}

/// The words that describe the structure of a cache: the number of its layers and
/// the row length of each, then the number of recurrent layers and the four
/// dimensions of each.
pub open spec fn structure_words(cache: KvCache) -> Seq<u32> {
    seq![cache.layers@.len() as u32] + dim_words(cache.layers@) + seq![
        cache.recurrent@.len() as u32,
    ] + shape_words(cache.recurrent@)
}

/// The row lengths of a list of layers.
pub open spec fn dim_words(layers: Seq<LayerCache>) -> Seq<u32> {
    layers.map_values(|l: LayerCache| l.kv_dim as u32)
}

/// The dimensions of a recurrent layer.
pub open spec fn state_words(r: RecurrentLayerState) -> Seq<u32> {
    seq![r.conv_channels as u32, r.d_conv as u32, r.heads() as u32, r.head_dim as u32]
}

/// The dimensions of a list of recurrent layers.
pub open spec fn shape_words(states: Seq<RecurrentLayerState>) -> Seq<u32>
    decreases states.len(),
{
    if states.len() == 0 {
        Seq::empty()
    } else {
        shape_words(states.drop_last()) + state_words(states.last())
    }
}

impl KvCache {
    /// Every layer and every state is well formed.
    pub open spec fn wf(&self) -> bool {
        &&& forall|i: int| 0 <= i < self.layers@.len() ==> (#[trigger] self.layers@[i]).wf()
        &&& forall|i: int| 0 <= i < self.recurrent@.len() ==> (#[trigger] self.recurrent@[i]).wf()
    }

    /// Whether every layer and every state is well formed.
    pub fn is_sound(&self) -> (r: bool)
        ensures
            r == self.wf(),
    {
        let mut i: usize = 0;
        while i < self.layers.len()
            invariant
                i <= self.layers@.len(),
                forall|j: int| 0 <= j < i ==> (#[trigger] self.layers@[j]).wf(),
            decreases self.layers@.len() - i,
        {
            if !self.layers[i].is_sound() {
                assert(!self.layers@[i as int].wf());
                return false;
            }
            i += 1;
        }
        let mut i: usize = 0;
        while i < self.recurrent.len()
            invariant
                i <= self.recurrent@.len(),
                forall|j: int| 0 <= j < i ==> (#[trigger] self.recurrent@[j]).wf(),
            decreases self.recurrent@.len() - i,
        {
            if !self.recurrent[i].is_sound() {
                assert(!self.recurrent@[i as int].wf());
                return false;
            }
            i += 1;
        }
        true
    }

    /// A cache of `n_layer` empty layers of the same row length.
    pub fn new(n_layer: usize, capacity: usize, kv_dim: usize) -> (r: Self)
        requires
            capacity * kv_dim <= usize::MAX,
        ensures
            r.wf(),
            r.layers@.len() == n_layer,
            forall|i: int|
                0 <= i < n_layer ==> is_fresh_layer(
                    #[trigger] r.layers@[i],
                    capacity as nat,
                    kv_dim as nat,
                ),
            r.recurrent@.len() == 0,
    {
        let mut layers: Vec<LayerCache> = Vec::new();
        let mut i: usize = 0;
        while i < n_layer
            invariant
                i <= n_layer,
                capacity * kv_dim <= usize::MAX,
                layers@.len() == i,
                forall|j: int|
                    0 <= j < i ==> is_fresh_layer(
                        #[trigger] layers@[j],
                        capacity as nat,
                        kv_dim as nat,
                    ),
            decreases n_layer - i,
        {
            layers.push(LayerCache::new(capacity, kv_dim));
            i += 1;
        }
        KvCache { layers, recurrent: Vec::new() }
    }

    /// A cache of empty layers with a row length each.
    pub fn new_with_dims(capacity: usize, kv_dims: &[usize]) -> (r: Self)
        requires
            forall|i: int|
                0 <= i < kv_dims@.len() ==> capacity * (#[trigger] kv_dims@[i]) <= usize::MAX,
        ensures
            r.wf(),
            r.layers@.len() == kv_dims@.len(),
            forall|i: int|
                0 <= i < kv_dims@.len() ==> is_fresh_layer(
                    #[trigger] r.layers@[i],
                    capacity as nat,
                    kv_dims@[i] as nat,
                ),
            r.recurrent@.len() == 0,
    {
        let mut layers: Vec<LayerCache> = Vec::new();
        let mut i: usize = 0;
        while i < kv_dims.len()
            invariant
                i <= kv_dims@.len(),
                forall|j: int|
                    0 <= j < kv_dims@.len() ==> capacity * (#[trigger] kv_dims@[j]) <= usize::MAX,
                layers@.len() == i,
                forall|j: int|
                    0 <= j < i ==> is_fresh_layer(
                        #[trigger] layers@[j],
                        capacity as nat,
                        kv_dims@[j] as nat,
                    ),
            decreases kv_dims@.len() - i,
        {
            layers.push(LayerCache::new(capacity, kv_dims[i]));
            i += 1;
        }
        KvCache { layers, recurrent: Vec::new() }
    }

    /// A cache of empty layers, and of recurrent states of zeros.
    pub fn new_mixed(
        capacity: usize,
        kv_dims: &[usize],
        recurrent_specs: &[(usize, usize, usize, usize)],
    ) -> (r: Self)
        requires
            forall|i: int|
                0 <= i < kv_dims@.len() ==> capacity * (#[trigger] kv_dims@[i]) <= usize::MAX,
            forall|i: int|
                0 <= i < recurrent_specs@.len() ==> shape_fits(#[trigger] recurrent_specs@[i]),
        ensures
            r.wf(),
            r.layers@.len() == kv_dims@.len(),
            forall|i: int|
                0 <= i < kv_dims@.len() ==> is_fresh_layer(
                    #[trigger] r.layers@[i],
                    capacity as nat,
                    kv_dims@[i] as nat,
                ),
            r.recurrent@.len() == recurrent_specs@.len(),
            forall|i: int|
                0 <= i < recurrent_specs@.len() ==> is_fresh_state(
                    #[trigger] r.recurrent@[i],
                    recurrent_specs@[i],
                ),
    {
        let cache = KvCache::new_with_dims(capacity, kv_dims);
        let mut states: Vec<RecurrentLayerState> = Vec::new();
        let mut i: usize = 0;
        while i < recurrent_specs.len()
            invariant
                i <= recurrent_specs@.len(),
                forall|j: int|
                    0 <= j < recurrent_specs@.len() ==> shape_fits(#[trigger] recurrent_specs@[j]),
                states@.len() == i,
                forall|j: int|
                    0 <= j < i ==> is_fresh_state(#[trigger] states@[j], recurrent_specs@[j]),
            decreases recurrent_specs@.len() - i,
        {
            let (conv_channels, d_conv, num_heads, head_dim) = recurrent_specs[i];
            assert(shape_fits(recurrent_specs@[i as int]));
            states.push(RecurrentLayerState::new(conv_channels, d_conv, num_heads, head_dim));
            i += 1;
        }
        KvCache { layers: cache.layers, recurrent: states }
    }

    /// Whether the first `len` positions of another cache can be taken over.
    pub fn can_take_prefix(&self, src: &KvCache, len: usize) -> (r: bool)
        ensures
            r == can_take(*self, *src, len as nat),
    {
        let mut i: usize = 0;
        while i < self.layers.len() && i < src.layers.len()
            invariant
                i <= self.layers@.len(),
                i <= src.layers@.len(),
                forall|j: int|
                    #![trigger src.layers@[j]]
                    0 <= j < i ==> {
                        &&& self.layers@[j].kv_dim == src.layers@[j].kv_dim
                        &&& src.layers@[j].len == 0 || (len <= self.layers@[j].capacity && len
                            <= src.layers@[j].len)
                    },
            decreases self.layers@.len() - i,
        {
            let from = &src.layers[i];
            let to = &self.layers[i];
            if from.kv_dim != to.kv_dim || (from.len != 0 && (len > to.capacity || len
                > from.len)) {
                assert(src.layers@[i as int] == *from);
                return false;
            }
            i += 1;
        }
        let mut i: usize = 0;
        while i < self.recurrent.len() && i < src.recurrent.len()
            invariant
                i <= self.recurrent@.len(),
                i <= src.recurrent@.len(),
                forall|j: int|
                    #![trigger src.layers@[j]]
                    0 <= j < self.layers@.len() && j < src.layers@.len() ==> {
                        &&& self.layers@[j].kv_dim == src.layers@[j].kv_dim
                        &&& src.layers@[j].len == 0 || (len <= self.layers@[j].capacity && len
                            <= src.layers@[j].len)
                    },
                forall|j: int|
                    #![trigger src.recurrent@[j]]
                    0 <= j < i ==> same_shape(self.recurrent@[j], src.recurrent@[j]),
            decreases self.recurrent@.len() - i,
        {
            let from = &src.recurrent[i];
            let to = &self.recurrent[i];
            if from.conv_channels != to.conv_channels || from.d_conv != to.d_conv || from.head_dim
                != to.head_dim || from.conv_history.len() != to.conv_history.len()
                || from.delta_state.len() != to.delta_state.len() {
                assert(src.recurrent@[i as int] == *from);
                return false;
            }
            i += 1;
        }
        true
    }

    /// Takes over the first `len` positions of each layer of another cache, and the
    /// whole state of its recurrent layers.
    pub fn copy_prefix_from(&mut self, src: &KvCache, len: usize)
        requires
            old(self).wf(),
            src.wf(),
            can_take(*old(self), *src, len as nat),
        ensures
            final(self).wf(),
            prefix_taken(*old(self), *src, len as nat, *final(self)),
    {
        let ghost start = *self;
        let mut i: usize = 0;
        while i < self.layers.len() && i < src.layers.len()
            invariant
                i <= self.layers@.len(),
                i <= src.layers@.len(),
                start.wf(),
                src.wf(),
                self.layers@.len() == start.layers@.len(),
                self.recurrent == start.recurrent,
                forall|j: int|
                    #![trigger src.layers@[j]]
                    0 <= j < start.layers@.len() && j < src.layers@.len() ==> {
                        &&& start.layers@[j].kv_dim == src.layers@[j].kv_dim
                        &&& src.layers@[j].len == 0 || (len <= start.layers@[j].capacity && len
                            <= src.layers@[j].len)
                    },
                forall|j: int|
                    #![trigger self.layers@[j]]
                    0 <= j < i ==> layer::prefix_copied(
                        start.layers@[j],
                        src.layers@[j],
                        len as nat,
                        self.layers@[j],
                    ),
                forall|j: int|
                    #![trigger self.layers@[j]]
                    i <= j < self.layers@.len() ==> self.layers@[j] == start.layers@[j],
            decreases self.layers@.len() - i,
        {
            assert(self.layers@[i as int] == start.layers@[i as int]);
            assert(src.layers@[i as int].wf());
            self.layers[i].copy_prefix_from(&src.layers[i], len);
            i += 1;
        }
        let ghost copied = self.layers@;
        let mut i: usize = 0;
        while i < self.recurrent.len() && i < src.recurrent.len()
            invariant
                i <= self.recurrent@.len(),
                i <= src.recurrent@.len(),
                start.wf(),
                src.wf(),
                self.layers@ == copied,
                self.recurrent@.len() == start.recurrent@.len(),
                forall|j: int|
                    #![trigger src.recurrent@[j]]
                    0 <= j < start.recurrent@.len() && j < src.recurrent@.len() ==> same_shape(
                        start.recurrent@[j],
                        src.recurrent@[j],
                    ),
                forall|j: int|
                    #![trigger self.recurrent@[j]]
                    0 <= j < i ==> same_state(self.recurrent@[j], src.recurrent@[j]),
                forall|j: int|
                    #![trigger self.recurrent@[j]]
                    i <= j < self.recurrent@.len() ==> self.recurrent@[j] == start.recurrent@[j],
            decreases self.recurrent@.len() - i,
        {
            assert(self.recurrent@[i as int] == start.recurrent@[i as int]);
            assert(src.recurrent@[i as int].wf());
            self.recurrent[i].copy_from(&src.recurrent[i]);
            i += 1;
        }
        assert forall|j: int| 0 <= j < self.recurrent@.len() implies (
        #[trigger] self.recurrent@[j]).wf() by {
            if j < src.recurrent@.len() {
                assert(src.recurrent@[j].wf());
            } else {
                assert(start.recurrent@[j].wf());
            }
        }
        assert forall|j: int| 0 <= j < self.layers@.len() implies (#[trigger] self.layers@[j]).wf() by {
            assert(start.layers@[j].wf());
        }
    }

    /// Rolls every layer back to its first `new_len` positions. There is no rolling
    /// back of recurrent states.
    pub fn truncate(&mut self, new_len: usize)
        requires
            old(self).wf(),
            old(self).recurrent@.len() == 0,
        ensures
            final(self).wf(),
            final(self).recurrent == old(self).recurrent,
            final(self).layers@.len() == old(self).layers@.len(),
            forall|i: int|
                #![trigger final(self).layers@[i]]
                0 <= i < old(self).layers@.len() ==> rolled_back(
                    old(self).layers@[i],
                    new_len,
                    final(self).layers@[i],
                ),
    {
        let ghost start = *self;
        let mut i: usize = 0;
        while i < self.layers.len()
            invariant
                i <= self.layers@.len(),
                start.wf(),
                self.recurrent == start.recurrent,
                self.layers@.len() == start.layers@.len(),
                forall|j: int|
                    #![trigger self.layers@[j]]
                    0 <= j < i ==> self.layers@[j].wf() && rolled_back(
                        start.layers@[j],
                        new_len,
                        self.layers@[j],
                    ),
                forall|j: int|
                    #![trigger self.layers@[j]]
                    i <= j < self.layers@.len() ==> self.layers@[j] == start.layers@[j],
            decreases self.layers@.len() - i,
        {
            assert(self.layers@[i as int] == start.layers@[i as int]);
            self.layers[i].truncate(new_len);
            i += 1;
        }
    }

    /// The number of committed positions: that of the layer with the most.
    pub fn committed_len(&self) -> (r: usize)
        ensures
            r == longest(self.layers@, self.layers@.len()),
    {
        let mut best: usize = 0;
        let mut i: usize = 0;
        while i < self.layers.len()
            invariant
                i <= self.layers@.len(),
                best == longest(self.layers@, i as nat),
            decreases self.layers@.len() - i,
        {
            if self.layers[i].len > best {
                best = self.layers[i].len;
            }
            i += 1;
        }
        best
    }

    /// A copy without mirrors on the device.
    pub fn duplicate(&self) -> (r: Self)
        requires
            self.wf(),
        ensures
            r.wf(),
            r.layers@.len() == self.layers@.len(),
            forall|i: int|
                #![trigger r.layers@[i]]
                0 <= i < self.layers@.len() ==> is_duplicate(self.layers@[i], r.layers@[i]),
            forall|i: int|
                #![trigger r.layers@[i]]
                0 <= i < self.layers@.len() ==> r.layers@[i].keys() == self.layers@[i].keys()
                    && r.layers@[i].values() == self.layers@[i].values() && r.layers@[i].len
                    == self.layers@[i].len && r.layers@[i].capacity == self.layers@[i].capacity
                    && r.layers@[i].gpu is None,
            forall|i: int|
                #![trigger r.recurrent@[i]]
                0 <= i < self.recurrent@.len() ==> r.recurrent@[i].conv_history@
                    == self.recurrent@[i].conv_history@ && r.recurrent@[i].delta_state@
                    == self.recurrent@[i].delta_state@,
            r.recurrent@.len() == self.recurrent@.len(),
            forall|i: int|
                #![trigger r.recurrent@[i]]
                0 <= i < self.recurrent@.len() ==> same_state(r.recurrent@[i], self.recurrent@[i]),
    {
        let mut layers: Vec<LayerCache> = Vec::new();
        let mut i: usize = 0;
        while i < self.layers.len()
            invariant
                i <= self.layers@.len(),
                self.wf(),
                layers@.len() == i,
                forall|j: int|
                    #![trigger layers@[j]]
                    0 <= j < i ==> layers@[j].wf() && is_duplicate(self.layers@[j], layers@[j]),
            decreases self.layers@.len() - i,
        {
            assert(self.layers@[i as int].wf());
            layers.push(self.layers[i].duplicate());
            i += 1;
        }
        let mut states: Vec<RecurrentLayerState> = Vec::new();
        let mut i: usize = 0;
        while i < self.recurrent.len()
            invariant
                i <= self.recurrent@.len(),
                self.wf(),
                states@.len() == i,
                forall|j: int|
                    #![trigger states@[j]]
                    0 <= j < i ==> states@[j].wf() && same_state(
                        states@[j],
                        self.recurrent@[j],
                    ),
            decreases self.recurrent@.len() - i,
        {
            assert(self.recurrent@[i as int].wf());
            states.push(self.recurrent[i].duplicate());
            i += 1;
        }
        KvCache { layers, recurrent: states }
    }

    /// The structure of the cache as bytes, without anything that depends on its
    /// positions or its room.
    pub fn structure_tag(&self) -> (r: Vec<u8>)
        requires
            self.wf(),
        ensures
            r@ == bytes::words_bytes(structure_words(*self)),
    {
        let mut words: Vec<u32> = Vec::new();
        words.push(low32(self.layers.len()));
        let ghost lead = words@;
        let mut i: usize = 0;
        assert(lead + dim_words(self.layers@.take(0)) =~= lead);
        while i < self.layers.len()
            invariant
                i <= self.layers@.len(),
                words@ == lead + dim_words(self.layers@.take(i as int)),
            decreases self.layers@.len() - i,
        {
            words.push(low32(self.layers[i].kv_dim));
            i += 1;
            assert(words@ =~= lead + dim_words(self.layers@.take(i as int)));
        }
        assert(self.layers@.take(self.layers@.len() as int) =~= self.layers@);
        words.push(low32(self.recurrent.len()));
        let ghost lead = words@;
        let mut i: usize = 0;
        assert(lead + shape_words(self.recurrent@.take(0)) =~= lead);
        while i < self.recurrent.len()
            invariant
                i <= self.recurrent@.len(),
                self.wf(),
                words@ == lead + shape_words(self.recurrent@.take(i as int)),
            decreases self.recurrent@.len() - i,
        {
            let r = &self.recurrent[i];
            assert(self.recurrent@[i as int].wf());
            words.push(low32(r.conv_channels));
            words.push(low32(r.d_conv));
            words.push(low32(r.num_heads()));
            words.push(low32(r.head_dim));
            i += 1;
            assert(self.recurrent@.take(i as int).drop_last() =~= self.recurrent@.take(i - 1));
            assert(words@ =~= lead + shape_words(self.recurrent@.take(i as int)));
        }
        assert(self.recurrent@.take(self.recurrent@.len() as int) =~= self.recurrent@);
        assert(words@ =~= structure_words(*self));
        let mut out: Vec<u8> = Vec::new();
        push_words(&mut out, &words, 0, words.len());
        assert(words@.subrange(0, words@.len() as int) =~= words@);
        assert(out@ =~= bytes::words_bytes(words@));
        out
    }
}

/// Whether a cache can take over the first `len` positions of another: the layers
/// have rows of the same length and the recurrent states the same shape, and each
/// layer of the other that has any position has `len` of them, for which there is
/// room.
pub open spec fn can_take(dst: KvCache, src: KvCache, len: nat) -> bool {
    &&& forall|i: int|
        #![trigger src.layers@[i]]
        0 <= i < dst.layers@.len() && i < src.layers@.len() ==> {
            &&& dst.layers@[i].kv_dim == src.layers@[i].kv_dim
            &&& src.layers@[i].len == 0 || (len <= dst.layers@[i].capacity && len
                <= src.layers@[i].len)
        }
    &&& forall|i: int|
        #![trigger src.recurrent@[i]]
        0 <= i < dst.recurrent@.len() && i < src.recurrent@.len() ==> same_shape(
            dst.recurrent@[i],
            src.recurrent@[i],
        )
}

/// A cache after it has taken over the first `len` positions of another, and the
/// whole state of its recurrent layers.
pub open spec fn prefix_taken(before: KvCache, src: KvCache, len: nat, after: KvCache) -> bool {
    &&& after.layers@.len() == before.layers@.len()
    &&& forall|i: int|
        #![trigger after.layers@[i]]
        0 <= i < before.layers@.len() ==> (if i < src.layers@.len() {
            layer::prefix_copied(before.layers@[i], src.layers@[i], len, after.layers@[i])
        } else {
            after.layers@[i] == before.layers@[i]
        })
    &&& after.recurrent@.len() == before.recurrent@.len()
    &&& forall|i: int|
        #![trigger after.recurrent@[i]]
        0 <= i < before.recurrent@.len() ==> (if i < src.recurrent@.len() {
            same_state(after.recurrent@[i], src.recurrent@[i])
        } else {
            after.recurrent@[i] == before.recurrent@[i]
        })
}

/// Two recurrent states of the same shape.
pub open spec fn same_shape(a: RecurrentLayerState, b: RecurrentLayerState) -> bool {
    &&& a.conv_channels == b.conv_channels
    &&& a.d_conv == b.d_conv
    &&& a.head_dim == b.head_dim
    &&& a.conv_history@.len() == b.conv_history@.len()
    &&& a.delta_state@.len() == b.delta_state@.len()
}

/// Two recurrent states with the same contents.
pub open spec fn same_state(a: RecurrentLayerState, b: RecurrentLayerState) -> bool {
    &&& a.conv_channels == b.conv_channels
    &&& a.d_conv == b.d_conv
    &&& a.head_dim == b.head_dim
    &&& a.conv_history@ == b.conv_history@
    &&& a.delta_state@ == b.delta_state@
}

/// A layer after it was rolled back to at most `new_len` positions.
pub open spec fn rolled_back(before: LayerCache, new_len: usize, after: LayerCache) -> bool {
    &&& after.k == before.k
    &&& after.v == before.v
    &&& after.kv_dim == before.kv_dim
    &&& after.capacity == before.capacity
    &&& after.len == (if new_len < before.len {
        new_len
    } else {
        before.len
    })
    &&& after.gpu == layer::rolled_mirror(before.gpu, before.len as nat, new_len)
}

/// A copy of a layer without a mirror.
pub open spec fn is_duplicate(l: LayerCache, copy: LayerCache) -> bool {
    &&& copy.k@ == l.k@
    &&& copy.v@ == l.v@
    &&& copy.kv_dim == l.kv_dim
    &&& copy.capacity == l.capacity
    &&& copy.len == l.len
    &&& copy.gpu is None
}

/// The number of words that describe a list of recurrent layers.
proof fn shape_words_len(states: Seq<RecurrentLayerState>)
    ensures
        shape_words(states).len() == 4 * states.len(),
    decreases states.len(),
{
    if states.len() > 0 {
        shape_words_len(states.drop_last());
    }
}

/// The words of each recurrent layer stand at its place.
proof fn shape_words_at(states: Seq<RecurrentLayerState>, i: int)
    requires
        0 <= i < states.len(),
    ensures
        shape_words(states).subrange(4 * i, 4 * i + 4) == state_words(states[i]),
    decreases states.len(),
{
    shape_words_len(states);
    shape_words_len(states.drop_last());
    let rest = shape_words(states.drop_last());
    if i == states.len() - 1 {
        assert(shape_words(states).subrange(4 * i, 4 * i + 4) =~= state_words(states[i]));
    } else {
        shape_words_at(states.drop_last(), i);
        assert(shape_words(states).subrange(4 * i, 4 * i + 4) =~= rest.subrange(4 * i, 4 * i + 4));
    }
}

/// The dimensions of a cache fit in 32 bits.
pub open spec fn small_dims(cache: KvCache) -> bool {
    &&& cache.layers@.len() <= u32::MAX
    &&& cache.recurrent@.len() <= u32::MAX
    &&& forall|i: int|
        0 <= i < cache.layers@.len() ==> (#[trigger] cache.layers@[i]).kv_dim <= u32::MAX
    &&& forall|i: int|
        0 <= i < cache.recurrent@.len() ==> {
            let r = #[trigger] cache.recurrent@[i];
            &&& r.conv_channels <= u32::MAX
            &&& r.d_conv <= u32::MAX
            &&& r.heads() <= u32::MAX
            &&& r.head_dim <= u32::MAX
        }
}

/// Whether two caches have the same structure: as many layers of the same row lengths,
/// and as many recurrent layers of the same dimensions.
pub open spec fn same_structure(a: KvCache, b: KvCache) -> bool {
    &&& a.layers@.len() == b.layers@.len()
    &&& forall|i: int|
        #![trigger a.layers@[i]]
        0 <= i < a.layers@.len() ==> a.layers@[i].kv_dim == b.layers@[i].kv_dim
    &&& a.recurrent@.len() == b.recurrent@.len()
    &&& forall|i: int|
        #![trigger a.recurrent@[i]]
        0 <= i < a.recurrent@.len() ==> {
            let (r, s) = (a.recurrent@[i], b.recurrent@[i]);
            &&& r.conv_channels == s.conv_channels
            &&& r.d_conv == s.d_conv
            &&& r.heads() == s.heads()
            &&& r.head_dim == s.head_dim
        }
}

/// Caches have the same structure tag exactly where they have the same structure.
pub proof fn structure_tag_determines_structure(a: KvCache, b: KvCache)
    requires
        small_dims(a),
        small_dims(b),
    ensures
        bytes::words_bytes(structure_words(a)) == bytes::words_bytes(structure_words(b))
            <==> same_structure(a, b),
{
    if bytes::words_bytes(structure_words(a)) == bytes::words_bytes(structure_words(b)) {
        tag_gives_structure(a, b);
    }
    if same_structure(a, b) {
        structure_gives_tag(a, b);
    }
}

/// Recurrent layers of the same dimensions are described by the same words.
proof fn same_shape_words(a: Seq<RecurrentLayerState>, b: Seq<RecurrentLayerState>)
    requires
        a.len() == b.len(),
        forall|i: int|
            0 <= i < a.len() ==> state_words(#[trigger] a[i]) == state_words(b[i]),
    ensures
        shape_words(a) == shape_words(b),
    decreases a.len(),
{
    if a.len() > 0 {
        assert(state_words(a.last()) == state_words(b.last()));
        assert forall|i: int| 0 <= i < a.drop_last().len() implies state_words(
            #[trigger] a.drop_last()[i],
        ) == state_words(b.drop_last()[i]) by {
            assert(a.drop_last()[i] == a[i]);
        }
        same_shape_words(a.drop_last(), b.drop_last());
    }
}

/// Caches of the same structure have the same tag.
proof fn structure_gives_tag(a: KvCache, b: KvCache)
    requires
        same_structure(a, b),
    ensures
        structure_words(a) == structure_words(b),
{
    assert forall|i: int| 0 <= i < a.recurrent@.len() implies state_words(
        #[trigger] a.recurrent@[i],
    ) == state_words(b.recurrent@[i]) by {}
    same_shape_words(a.recurrent@, b.recurrent@);
    assert(dim_words(a.layers@) =~= dim_words(b.layers@));
}

/// Caches of the same tag have the same structure.
proof fn tag_gives_structure(a: KvCache, b: KvCache)
    requires
        small_dims(a),
        small_dims(b),
        bytes::words_bytes(structure_words(a)) == bytes::words_bytes(structure_words(b)),
    ensures
        same_structure(a, b),
{
    let x = structure_words(a);
    let y = structure_words(b);
    bytes::words_are_determined(x, y);
    assert(x[0] == a.layers@.len() as u32 && y[0] == b.layers@.len() as u32);
    let n = a.layers@.len() as int;
    assert forall|i: int| #![trigger a.layers@[i]] 0 <= i < n implies a.layers@[i].kv_dim
        == b.layers@[i].kv_dim by {
        assert(x[1 + i] == a.layers@[i].kv_dim as u32);
        assert(y[1 + i] == b.layers@[i].kv_dim as u32);
    }
    assert(x[1 + n] == a.recurrent@.len() as u32 && y[1 + n] == b.recurrent@.len() as u32);
    shape_words_len(a.recurrent@);
    shape_words_len(b.recurrent@);
    assert(x.skip(2 + n) =~= shape_words(a.recurrent@));
    assert(y.skip(2 + n) =~= shape_words(b.recurrent@));
    assert forall|i: int|
        #![trigger a.recurrent@[i]]
        0 <= i < a.recurrent@.len() implies {
        let (r, s) = (a.recurrent@[i], b.recurrent@[i]);
        &&& r.conv_channels == s.conv_channels
        &&& r.d_conv == s.d_conv
        &&& r.heads() == s.heads()
        &&& r.head_dim == s.head_dim
    } by {
        shape_words_at(a.recurrent@, i);
        shape_words_at(b.recurrent@, i);
        let p = state_words(a.recurrent@[i]);
        let q = state_words(b.recurrent@[i]);
        assert(p == q);
        assert(p[0] == q[0] && p[1] == q[1] && p[2] == q[2] && p[3] == q[3]);
        assert(b.recurrent@[i].conv_channels <= u32::MAX);
    }
}

/// The longest of some layers has as many positions as any of them, and is one of them.
pub proof fn the_longest_layer_counts(layers: Seq<LayerCache>, n: nat)
    requires
        n <= layers.len(),
    ensures
        forall|i: int| 0 <= i < n ==> (#[trigger] layers[i]).len <= longest(layers, n),
        n == 0 ==> longest(layers, n) == 0,
        n > 0 ==> exists|i: int| 0 <= i < n && (#[trigger] layers[i]).len == longest(layers, n),
    decreases n,
{
    if n > 0 {
        let m = (n - 1) as nat;
        the_longest_layer_counts(layers, m);
        if layers[n - 1].len > longest(layers, m) || m == 0 {
            assert(layers[n - 1].len == longest(layers, n));
        } else {
            let i = choose|i: int| 0 <= i < m && (#[trigger] layers[i]).len == longest(layers, m);
            assert(layers[i].len == longest(layers, n));
        }
    }
}

/// A new layer has no position, and room for all of them, in zeros; a new recurrent state
/// has a window for each channel, one shorter than the convolution, and a square matrix for
/// each head, in zeros too.
pub proof fn new_parts_are_zeros(
    l: LayerCache,
    capacity: nat,
    kv_dim: nat,
    r: RecurrentLayerState,
    shape: (usize, usize, usize, usize),
    i: int,
)
    ensures
        is_fresh_layer(l, capacity, kv_dim) ==> {
            &&& l.capacity == capacity
            &&& l.kv_dim == kv_dim
            &&& l.len == 0
            &&& l.gpu is None
            &&& l.k@.len() == capacity * kv_dim
            &&& l.v@.len() == capacity * kv_dim
            &&& 0 <= i < capacity * kv_dim ==> l.k@[i] == 0 && l.v@[i] == 0
        },
        is_fresh_state(r, shape) ==> {
            &&& r.conv_channels == shape.0
            &&& r.d_conv == shape.1
            &&& r.head_dim == shape.3
            &&& shape.1 > 0 ==> r.conv_history@.len() == shape.0 * (shape.1 - 1)
            &&& r.delta_state@.len() == shape.2 * shape.3 * shape.3
            &&& 0 <= i < r.conv_history@.len() ==> r.conv_history@[i] == 0
            &&& 0 <= i < r.delta_state@.len() ==> r.delta_state@[i] == 0
        },
{
}

/// A cache can take positions over from another exactly where their layers have rows of one
/// length, their recurrent states are of one shape, and each layer that holds any position
/// holds that many and finds room for them.
pub proof fn caches_of_one_shape_can_take(dst: KvCache, src: KvCache, len: nat)
    ensures
        can_take(dst, src, len) <==> {
            &&& forall|i: int|
                #![trigger src.layers@[i]]
                0 <= i < dst.layers@.len() && i < src.layers@.len() ==> {
                    let (to, from) = (dst.layers@[i], src.layers@[i]);
                    &&& to.kv_dim == from.kv_dim
                    &&& from.len > 0 ==> len <= from.len && len <= to.capacity
                }
            &&& forall|i: int|
                #![trigger src.recurrent@[i]]
                0 <= i < dst.recurrent@.len() && i < src.recurrent@.len() ==> {
                    let (to, from) = (dst.recurrent@[i], src.recurrent@[i]);
                    &&& to.conv_channels == from.conv_channels
                    &&& to.d_conv == from.d_conv
                    &&& to.head_dim == from.head_dim
                    &&& to.conv_history@.len() == from.conv_history@.len()
                    &&& to.delta_state@.len() == from.delta_state@.len()
                }
        },
{
}

/// What is taken over is the beginning of each layer that holds anything, and the whole of
/// each recurrent state; everything else stays as it was, but for the mirrors on the device,
/// which are given up.
pub proof fn only_beginnings_are_taken_over(
    before: KvCache,
    src: KvCache,
    len: nat,
    after: KvCache,
    i: int,
    j: int,
)
    requires
        before.wf(),
        src.wf(),
        can_take(before, src, len),
        prefix_taken(before, src, len, after),
        0 <= j,
    ensures
        after.layers@.len() == before.layers@.len(),
        0 <= i < before.layers@.len() ==> {
            let (x, y) = (before.layers@[i], after.layers@[i]);
            if i < src.layers@.len() && src.layers@[i].len > 0 {
                let from = src.layers@[i];
                let taken = len * from.kv_dim;
                &&& y.len == len
                &&& y.gpu is None
                &&& y.kv_dim == x.kv_dim
                &&& y.capacity == x.capacity
                &&& j < taken ==> y.k@[j] == from.k@[j] && y.v@[j] == from.v@[j]
                &&& taken <= j < x.k@.len() ==> y.k@[j] == x.k@[j] && y.v@[j] == x.v@[j]
            } else {
                y == x
            }
        },
        after.recurrent@.len() == before.recurrent@.len(),
        0 <= i < before.recurrent@.len() ==> {
            let (x, y) = (before.recurrent@[i], after.recurrent@[i]);
            if i < src.recurrent@.len() {
                &&& y.conv_history@ == src.recurrent@[i].conv_history@
                &&& y.delta_state@ == src.recurrent@[i].delta_state@
                &&& y.conv_channels == x.conv_channels
                &&& y.d_conv == x.d_conv
                &&& y.head_dim == x.head_dim
            } else {
                y == x
            }
        },
{
    if 0 <= i < before.layers@.len() && i < src.layers@.len() && src.layers@[i].len > 0 {
        let (x, from) = (before.layers@[i], src.layers@[i]);
        assert(x.wf() && from.wf());
        assert(len * from.kv_dim <= from.capacity * from.kv_dim && len * from.kv_dim <= x.capacity
            * from.kv_dim && 0 <= len * from.kv_dim) by (nonlinear_arith)
            requires
                len <= from.len <= from.capacity,
                len <= x.capacity,
                from.kv_dim >= 0,
        ;
        assert(layer::prefix_copied(x, from, len, after.layers@[i]));
    }
    if 0 <= i < before.recurrent@.len() && i < src.recurrent@.len() {
        assert(same_shape(before.recurrent@[i], src.recurrent@[i]));
    }
}

/// A layer that is rolled back holds the first of its positions, no more than it did, and
/// the mirror on the device counts no position that is gone.
pub proof fn rolling_back_keeps_the_first_positions(
    before: LayerCache,
    new_len: usize,
    after: LayerCache,
    pos: int,
)
    requires
        before.wf(),
        rolled_back(before, new_len, after),
        0 <= pos < after.len,
    ensures
        after.len <= new_len,
        after.len == before.len || after.len == new_len,
        after.len <= before.len,
        after.k@.subrange(pos * before.kv_dim, (pos + 1) * before.kv_dim) == before.k@.subrange(
            pos * before.kv_dim,
            (pos + 1) * before.kv_dim,
        ),
        after.v@.subrange(pos * before.kv_dim, (pos + 1) * before.kv_dim) == before.v@.subrange(
            pos * before.kv_dim,
            (pos + 1) * before.kv_dim,
        ),
        after.capacity == before.capacity,
        after.gpu is Some <==> before.gpu is Some,
        after.gpu is Some ==> {
            let (old_mirror, new_mirror) = (before.gpu->0, after.gpu->0);
            &&& new_mirror.layout == old_mirror.layout
            &&& new_mirror.kv_storage == old_mirror.kv_storage
            &&& new_mirror.synced_len <= after.len
            &&& new_mirror.synced_len <= old_mirror.synced_len
            &&& new_mirror.synced_len == old_mirror.synced_len || new_mirror.synced_len
                == after.len
        },
{
}

/// The words that tell of a structure: the number of layers and their row lengths, then the
/// number of recurrent layers and of each its channels, the length of its convolution, its
/// heads and their dimension.
pub proof fn structure_words_list_the_dimensions(cache: KvCache, i: int, j: int)
    requires
        0 <= i < cache.layers@.len(),
        0 <= j < cache.recurrent@.len(),
    ensures
        ({
            let words = structure_words(cache);
            let n = cache.layers@.len() as int;
            let r = cache.recurrent@[j];
            &&& words.len() == 2 + n + 4 * cache.recurrent@.len()
            &&& words[0] == n as u32
            &&& words[1 + i] == cache.layers@[i].kv_dim as u32
            &&& words[1 + n] == cache.recurrent@.len() as u32
            &&& words[2 + n + 4 * j] == r.conv_channels as u32
            &&& words[2 + n + 4 * j + 1] == r.d_conv as u32
            &&& words[2 + n + 4 * j + 2] == r.heads() as u32
            &&& words[2 + n + 4 * j + 3] == r.head_dim as u32
        }),
{
    let n = cache.layers@.len() as int;
    let states = cache.recurrent@;
    shape_words_len(states);
    shape_words_at(states, j);
    let at = shape_words(states).subrange(4 * j, 4 * j + 4);
    assert(structure_words(cache).skip(2 + n) =~= shape_words(states));
    assert forall|k: int| 0 <= k < 4 implies structure_words(cache)[2 + n + 4 * j + k]
        == #[trigger] state_words(states[j])[k] by {
        assert(structure_words(cache)[2 + n + 4 * j + k] == structure_words(cache).skip(2 + n)[4 * j
            + k]);
        assert(at[k] == shape_words(states)[4 * j + k]);
    }
    let words = state_words(states[j]);
    assert(words[0] == states[j].conv_channels as u32 && words[1] == states[j].d_conv as u32
        && words[2] == states[j].heads() as u32 && words[3] == states[j].head_dim as u32);
}

} // verus!
