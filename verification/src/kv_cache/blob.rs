//! A cache as a run of bytes: a mark, then little-endian words. Only committed
//! positions are written.

use vstd::prelude::*;

use crate::bytes;
use crate::bytes::{low32, push_u32, push_words, read_u32, read_words};
use crate::kv_cache::cache::KvCache;
use crate::kv_cache::layer::LayerCache;
use crate::kv_cache::recurrent;
use crate::kv_cache::recurrent::RecurrentLayerState;

verus! {

/// The bytes that every blob starts with.
pub open spec fn magic() -> Seq<u8> {
    seq![0x4fu8, 0x52, 0x47, 0x55, 0x4b, 0x56, 0x43, 0x31]
}

/// Why some bytes are no blob.
#[derive(Debug, Clone, Copy, PartialEq, Eq, Structural)]
pub enum KvBlobError {
    /// The bytes end too early.
    UnexpectedEnd,
    /// The mark is another.
    BadMagic,
    /// The dimensions of a layer are too large.
    DimensionsOverflow,
    /// The number of bytes of a run of values is too large.
    CountOverflow,
    /// More bytes follow.
    TrailingBytes,
}

impl KvBlobError {
    /// The message of the error.
    pub open spec fn text(self) -> Seq<char> {
        match self {
            KvBlobError::UnexpectedEnd => "unexpected end of KV-cache blob"@,
            KvBlobError::BadMagic => "not an orangu KV-cache blob (bad magic)"@,
            KvBlobError::DimensionsOverflow => "KV layer dimensions overflow"@,
            KvBlobError::CountOverflow => "KV-cache float count overflows"@,
            KvBlobError::TrailingBytes => "trailing bytes after KV-cache blob"@,
        }
    }

    /// The message of the error.
    pub fn message(self) -> (r: &'static str)
        ensures
            r@ == self.text(),
    {
        match self {
            KvBlobError::UnexpectedEnd => "unexpected end of KV-cache blob",
            KvBlobError::BadMagic => "not an orangu KV-cache blob (bad magic)",
            KvBlobError::DimensionsOverflow => "KV layer dimensions overflow",
            KvBlobError::CountOverflow => "KV-cache float count overflows",
            KvBlobError::TrailingBytes => "trailing bytes after KV-cache blob",
        }
    }
}

/// What a blob holds of a layer: its committed keys and values.
#[verifier::ext_equal]
pub struct LayerData {
    pub kv_dim: nat,
    pub len: nat,
    pub k: Seq<u32>,
    pub v: Seq<u32>,
}

/// What a blob holds of a recurrent layer.
#[verifier::ext_equal]
pub struct StateData {
    pub conv_channels: nat,
    pub d_conv: nat,
    pub head_dim: nat,
    pub conv: Seq<u32>,
    pub delta: Seq<u32>,
}

/// What a blob holds.
#[verifier::ext_equal]
pub struct CacheData {
    pub layers: Seq<LayerData>,
    pub states: Seq<StateData>,
}

/// The committed part of a layer.
pub open spec fn layer_data(l: LayerCache) -> LayerData {
    LayerData { kv_dim: l.kv_dim as nat, len: l.len as nat, k: l.keys(), v: l.values() }
}

/// The contents of a recurrent layer.
pub open spec fn state_data(r: RecurrentLayerState) -> StateData {
    StateData {
        conv_channels: r.conv_channels as nat,
        d_conv: r.d_conv as nat,
        head_dim: r.head_dim as nat,
        conv: r.conv_history@,
        delta: r.delta_state@,
    }
}

/// The committed part of a cache.
pub open spec fn cache_data(c: KvCache) -> CacheData {
    CacheData {
        layers: c.layers@.map_values(|l: LayerCache| layer_data(l)),
        states: c.recurrent@.map_values(|r: RecurrentLayerState| state_data(r)),
    }
}

/// The words of a layer.
pub open spec fn layer_words(d: LayerData) -> Seq<u32> {
    seq![d.kv_dim as u32, d.len as u32] + d.k + d.v
}

/// The words of a recurrent layer.
pub open spec fn state_words(d: StateData) -> Seq<u32> {
    seq![
        d.conv_channels as u32,
        d.d_conv as u32,
        recurrent::heads_in(d.delta.len(), d.head_dim) as u32,
        d.head_dim as u32,
    ] + d.conv + d.delta
}

/// The words of a list of layers.
pub open spec fn layers_words(ds: Seq<LayerData>) -> Seq<u32>
    decreases ds.len(),
{
    if ds.len() == 0 {
        Seq::empty()
    } else {
        layers_words(ds.drop_last()) + layer_words(ds.last())
    }
}

/// The words of a list of recurrent layers.
pub open spec fn states_words(ds: Seq<StateData>) -> Seq<u32>
    decreases ds.len(),
{
    if ds.len() == 0 {
        Seq::empty()
    } else {
        states_words(ds.drop_last()) + state_words(ds.last())
    }
}

/// The words of a cache.
pub open spec fn cache_words(d: CacheData) -> Seq<u32> {
    seq![d.layers.len() as u32] + layers_words(d.layers) + seq![d.states.len() as u32]
        + states_words(d.states)
}

/// The blob of a cache.
pub open spec fn blob(d: CacheData) -> Seq<u8> {
    magic() + bytes::words_bytes(cache_words(d))
}

/// The word at `pos`.
pub open spec fn read_word(b: Seq<u8>, pos: int) -> Result<(u32, int), KvBlobError> {
    if pos + 4 <= b.len() {
        Ok((bytes::word_at(b, pos), pos + 4))
    } else {
        Err(KvBlobError::UnexpectedEnd)
    }
}

/// The `count` words at `pos`.
pub open spec fn read_run(b: Seq<u8>, pos: int, count: nat) -> Result<
    (Seq<u32>, int),
    KvBlobError,
> {
    if count * 4 > usize::MAX {
        Err(KvBlobError::CountOverflow)
    } else if pos + count * 4 <= b.len() {
        Ok((bytes::words_at(b, pos, count), pos + count * 4))
    } else {
        Err(KvBlobError::UnexpectedEnd)
    }
}

/// The layer at `pos`.
pub open spec fn read_layer(b: Seq<u8>, pos: int) -> Result<(LayerData, int), KvBlobError> {
    match read_word(b, pos) {
        Err(e) => Err(e),
        Ok((kv_dim, p1)) => match read_word(b, p1) {
            Err(e) => Err(e),
            Ok((len, p2)) => {
                let n = len as nat * kv_dim as nat;
                if n > usize::MAX {
                    Err(KvBlobError::DimensionsOverflow)
                } else {
                    match read_run(b, p2, n) {
                        Err(e) => Err(e),
                        Ok((k, p3)) => match read_run(b, p3, n) {
                            Err(e) => Err(e),
                            Ok((v, p4)) => Ok(
                                (
                                    LayerData { kv_dim: kv_dim as nat, len: len as nat, k, v },
                                    p4,
                                ),
                            ),
                        },
                    }
                }
            },
        },
    }
}

/// The recurrent layer at `pos`.
pub open spec fn read_state(b: Seq<u8>, pos: int) -> Result<(StateData, int), KvBlobError> {
    if pos + 16 > b.len() {
        Err(KvBlobError::UnexpectedEnd)
    } else {
        let conv_channels = bytes::word_at(b, pos) as nat;
        let d_conv = bytes::word_at(b, pos + 4) as nat;
        let num_heads = bytes::word_at(b, pos + 8) as nat;
        let head_dim = bytes::word_at(b, pos + 12) as nat;
        let conv_len = conv_channels * recurrent::window(d_conv);
        let delta_len = num_heads * (head_dim * head_dim);
        if conv_len > usize::MAX {
            Err(KvBlobError::DimensionsOverflow)
        } else {
            match read_run(b, pos + 16, conv_len) {
                Err(e) => Err(e),
                Ok((conv, p1)) => if head_dim * head_dim > usize::MAX || delta_len > usize::MAX {
                    Err(KvBlobError::DimensionsOverflow)
                } else {
                    match read_run(b, p1, delta_len) {
                        Err(e) => Err(e),
                        Ok((delta, p2)) => Ok(
                            (StateData { conv_channels, d_conv, head_dim, conv, delta }, p2),
                        ),
                    }
                },
            }
        }
    }
}

/// The `n` layers from `pos` on.
pub open spec fn read_layers(b: Seq<u8>, pos: int, n: nat) -> Result<
    (Seq<LayerData>, int),
    KvBlobError,
>
    decreases n,
{
    if n == 0 {
        Ok((Seq::empty(), pos))
    } else {
        match read_layers(b, pos, (n - 1) as nat) {
            Err(e) => Err(e),
            Ok((done, p)) => match read_layer(b, p) {
                Err(e) => Err(e),
                Ok((d, q)) => Ok((done.push(d), q)),
            },
        }
    }
}

/// The `n` recurrent layers from `pos` on.
pub open spec fn read_states(b: Seq<u8>, pos: int, n: nat) -> Result<
    (Seq<StateData>, int),
    KvBlobError,
>
    decreases n,
{
    if n == 0 {
        Ok((Seq::empty(), pos))
    } else {
        match read_states(b, pos, (n - 1) as nat) {
            Err(e) => Err(e),
            Ok((done, p)) => match read_state(b, p) {
                Err(e) => Err(e),
                Ok((d, q)) => Ok((done.push(d), q)),
            },
        }
    }
}

/// What some bytes hold up to where the reading ends.
pub open spec fn read_cache(b: Seq<u8>) -> Result<(CacheData, int), KvBlobError> {
    if b.len() < 8 {
        Err(KvBlobError::UnexpectedEnd)
    } else if b.take(8) != magic() {
        Err(KvBlobError::BadMagic)
    } else {
        match read_word(b, 8) {
            Err(e) => Err(e),
            Ok((n, p)) => match read_layers(b, p, n as nat) {
                Err(e) => Err(e),
                Ok((layers, q)) => match read_word(b, q) {
                    Err(e) => Err(e),
                    Ok((m, r)) => match read_states(b, r, m as nat) {
                        Err(e) => Err(e),
                        Ok((states, end)) => Ok((CacheData { layers, states }, end)),
                    },
                },
            },
        }
    }
}

/// What some bytes hold, if they are a blob and nothing more.
pub open spec fn parsed(b: Seq<u8>) -> Result<CacheData, KvBlobError> {
    match read_cache(b) {
        Err(e) => Err(e),
        Ok((d, end)) => if end < b.len() {
            Err(KvBlobError::TrailingBytes)
        } else {
            Ok(d)
        },
    }
}

/// Reading more layers fails as reading fewer did.
proof fn layers_error_stays(b: Seq<u8>, pos: int, i: nat, n: nat)
    requires
        i <= n,
        read_layers(b, pos, i) is Err,
    ensures
        read_layers(b, pos, n) == read_layers(b, pos, i),
    decreases n,
{
    if i < n {
        layers_error_stays(b, pos, i, (n - 1) as nat);
    }
}

/// Reading more recurrent layers fails as reading fewer did.
proof fn states_error_stays(b: Seq<u8>, pos: int, i: nat, n: nat)
    requires
        i <= n,
        read_states(b, pos, i) is Err,
    ensures
        read_states(b, pos, n) == read_states(b, pos, i),
    decreases n,
{
    if i < n {
        states_error_stays(b, pos, i, (n - 1) as nat);
    }
}

/// A place in a run of bytes from which words are read in order.
pub struct ByteReader<'a> {
    bytes: &'a [u8],
    pos: usize,
}

impl<'a> ByteReader<'a> {
    /// The bytes.
    pub closed spec fn all(&self) -> Seq<u8> {
        self.bytes@
    }

    /// The place.
    pub closed spec fn at(&self) -> int {
        self.pos as int
    }

    /// The place is in the bytes or at their end.
    pub closed spec fn wf(&self) -> bool {
        self.pos <= self.bytes@.len()
    }

    pub fn new(bytes: &'a [u8]) -> (r: Self)
        ensures
            r.wf(),
            r.all() == bytes@,
            r.at() == 0,
    {
        ByteReader { bytes, pos: 0 }
    }

    /// Whether everything has been read.
    pub fn is_empty(&self) -> (r: bool)
        requires
            self.wf(),
        ensures
            r == (self.at() >= self.all().len()),
    {
        self.pos >= self.bytes.len()
    }

    /// The next `n` bytes.
    pub fn take(&mut self, n: usize) -> (r: Result<&'a [u8], KvBlobError>)
        requires
            old(self).wf(),
        ensures
            final(self).wf(),
            final(self).all() == old(self).all(),
            match r {
                Ok(s) => old(self).at() + n <= old(self).all().len() && s@ == old(
                    self,
                ).all().subrange(old(self).at(), old(self).at() + n) && final(self).at() == old(
                    self,
                ).at() + n,
                Err(e) => old(self).at() + n > old(self).all().len() && e
                    == KvBlobError::UnexpectedEnd && final(self).at() == old(self).at(),
            },
    {
        if n > self.bytes.len() - self.pos {
            return Err(KvBlobError::UnexpectedEnd);
        }
        let end: usize = self.pos + n;
        let s = vstd::slice::slice_subrange(self.bytes, self.pos, end);
        self.pos = end;
        Ok(s)
    }

    /// The next word.
    pub fn u32(&mut self) -> (r: Result<u32, KvBlobError>)
        requires
            old(self).wf(),
        ensures
            final(self).wf(),
            final(self).all() == old(self).all(),
            match r {
                Ok(x) => read_word(old(self).all(), old(self).at()) == Ok::<
                    (u32, int),
                    KvBlobError,
                >((x, final(self).at())),
                Err(e) => read_word(old(self).all(), old(self).at()) == Err::<
                    (u32, int),
                    KvBlobError,
                >(e),
            },
    {
        let s = match self.take(4) {
            Ok(s) => s,
            Err(e) => {
                return Err(e);
            },
        };
        let ghost b = self.all();
        let ghost at = old(self).at();
        assert(s@[0] == b[at] && s@[1] == b[at + 1] && s@[2] == b[at + 2] && s@[3] == b[at + 3]);
        Ok(read_u32(s, 0))
    }

    /// The next `count` words.
    pub fn f32s(&mut self, count: usize) -> (r: Result<Vec<u32>, KvBlobError>)
        requires
            old(self).wf(),
        ensures
            final(self).wf(),
            final(self).all() == old(self).all(),
            match r {
                Ok(w) => read_run(old(self).all(), old(self).at(), count as nat) == Ok::<
                    (Seq<u32>, int),
                    KvBlobError,
                >((w@, final(self).at())),
                Err(e) => read_run(old(self).all(), old(self).at(), count as nat) == Err::<
                    (Seq<u32>, int),
                    KvBlobError,
                >(e),
            },
    {
        let n: usize = match count.checked_mul(4) {
            Some(n) => n,
            None => {
                return Err(KvBlobError::CountOverflow);
            },
        };
        let s = match self.take(n) {
            Ok(s) => s,
            Err(e) => {
                return Err(e);
            },
        };
        let ghost b = self.all();
        let ghost at = old(self).at();
        let words = read_words(s, 0, count);
        assert forall|i: int| 0 <= i < count implies #[trigger] words@[i] == bytes::word_at(
            b,
            at + 4 * i,
        ) by {
            assert(s@[4 * i] == b[at + 4 * i]);
            assert(s@[4 * i + 1] == b[at + 4 * i + 1]);
            assert(s@[4 * i + 2] == b[at + 4 * i + 2]);
            assert(s@[4 * i + 3] == b[at + 4 * i + 3]);
        }
        assert(words@ =~= bytes::words_at(b, at, count as nat));
        Ok(words)
    }
}

/// The product of two numbers, if it can be computed.
fn product(a: usize, b: usize) -> (r: Option<usize>)
    ensures
        r is Some <==> a * b <= usize::MAX,
        r is Some ==> r->0 == a * b,
{
    a.checked_mul(b)
}

/// The next layer.
fn read_one_layer(cur: &mut ByteReader) -> (r: Result<LayerCache, KvBlobError>)
    requires
        old(cur).wf(),
    ensures
        final(cur).wf(),
        final(cur).all() == old(cur).all(),
        match r {
            Ok(l) => l.wf() && l.capacity == l.len && l.gpu is None && read_layer(
                old(cur).all(),
                old(cur).at(),
            ) == Ok::<(LayerData, int), KvBlobError>((layer_data(l), final(cur).at())),
            Err(e) => read_layer(old(cur).all(), old(cur).at()) == Err::<
                (LayerData, int),
                KvBlobError,
            >(e),
        },
{
    let kv_dim: usize = match cur.u32() {
        Ok(x) => x as usize,
        Err(e) => {
            return Err(e);
        },
    };
    let len: usize = match cur.u32() {
        Ok(x) => x as usize,
        Err(e) => {
            return Err(e);
        },
    };
    let n: usize = match product(len, kv_dim) {
        Some(n) => n,
        None => {
            return Err(KvBlobError::DimensionsOverflow);
        },
    };
    let k = match cur.f32s(n) {
        Ok(k) => k,
        Err(e) => {
            return Err(e);
        },
    };
    let v = match cur.f32s(n) {
        Ok(v) => v,
        Err(e) => {
            return Err(e);
        },
    };
    let l = LayerCache::from_parts(kv_dim, len, k, v);
    assert(l.keys() =~= k@);
    assert(l.values() =~= v@);
    Ok(l)
}

/// The next recurrent layer.
fn read_one_state(cur: &mut ByteReader) -> (r: Result<RecurrentLayerState, KvBlobError>)
    requires
        old(cur).wf(),
    ensures
        final(cur).wf(),
        final(cur).all() == old(cur).all(),
        match r {
            Ok(s) => s.wf() && read_state(old(cur).all(), old(cur).at()) == Ok::<
                (StateData, int),
                KvBlobError,
            >((state_data(s), final(cur).at())),
            Err(e) => read_state(old(cur).all(), old(cur).at()) == Err::<
                (StateData, int),
                KvBlobError,
            >(e),
        },
{
    let conv_channels: usize = match cur.u32() {
        Ok(x) => x as usize,
        Err(e) => {
            return Err(e);
        },
    };
    let d_conv: usize = match cur.u32() {
        Ok(x) => x as usize,
        Err(e) => {
            return Err(e);
        },
    };
    let num_heads: usize = match cur.u32() {
        Ok(x) => x as usize,
        Err(e) => {
            return Err(e);
        },
    };
    let head_dim: usize = match cur.u32() {
        Ok(x) => x as usize,
        Err(e) => {
            return Err(e);
        },
    };
    let hist_w: usize = if d_conv == 0 {
        0
    } else {
        d_conv - 1
    };
    let conv_len: usize = match product(conv_channels, hist_w) {
        Some(n) => n,
        None => {
            return Err(KvBlobError::DimensionsOverflow);
        },
    };
    let conv_history = match cur.f32s(conv_len) {
        Ok(w) => w,
        Err(e) => {
            return Err(e);
        },
    };
    let square: usize = match product(head_dim, head_dim) {
        Some(n) => n,
        None => {
            return Err(KvBlobError::DimensionsOverflow);
        },
    };
    let delta_len: usize = match product(num_heads, square) {
        Some(n) => n,
        None => {
            return Err(KvBlobError::DimensionsOverflow);
        },
    };
    let delta_state = match cur.f32s(delta_len) {
        Ok(w) => w,
        Err(e) => {
            return Err(e);
        },
    };
    proof {
        recurrent::matrices_make_heads(num_heads as nat, head_dim as nat);
    }
    Ok(
        RecurrentLayerState::from_parts(
            conv_channels,
            d_conv,
            head_dim,
            conv_history,
            delta_state,
        ),
    )
}

/// Whether some bytes are the mark.
fn is_magic(b: &[u8]) -> (r: bool)
    requires
        b@.len() == 8,
    ensures
        r == (b@ == magic()),
{
    let r = b[0] == 0x4f && b[1] == 0x52 && b[2] == 0x47 && b[3] == 0x55 && b[4] == 0x4b && b[5]
        == 0x56 && b[6] == 0x43 && b[7] == 0x31;
    proof {
        if r {
            assert(b@ =~= magic());
        } else {
            let m = magic();
            assert(b@[0] != m[0] || b@[1] != m[1] || b@[2] != m[2] || b@[3] != m[3] || b@[4] != m[4]
                || b@[5] != m[5] || b@[6] != m[6] || b@[7] != m[7]);
        }
    }
    r
}

impl KvCache {
    /// The cache that some bytes hold. Each layer has room for exactly its positions.
    pub fn from_bytes(b: &[u8]) -> (r: Result<Self, KvBlobError>)
        ensures
            match r {
                Ok(c) => {
                    &&& parsed(b@) == Ok::<CacheData, KvBlobError>(cache_data(c))
                    &&& c.wf()
                    &&& forall|i: int|
                        0 <= i < c.layers@.len() ==> (#[trigger] c.layers@[i]).capacity
                            == c.layers@[i].len && c.layers@[i].gpu is None
                },
                Err(e) => parsed(b@) == Err::<CacheData, KvBlobError>(e),
            },
    {
        let mut cur = ByteReader::new(b);
        let mark = match cur.take(8) {
            Ok(s) => s,
            Err(e) => {
                return Err(e);
            },
        };
        assert(b@.subrange(0, 8) =~= b@.take(8));
        if !is_magic(mark) {
            return Err(KvBlobError::BadMagic);
        }
        let n_layer: u32 = match cur.u32() {
            Ok(x) => x,
            Err(e) => {
                return Err(e);
            },
        };
        let ghost p = cur.at();
        let mut layers: Vec<LayerCache> = Vec::new();
        let mut i: u32 = 0;
        assert(layers@.map_values(|l: LayerCache| layer_data(l)) =~= Seq::<LayerData>::empty());
        while i < n_layer
            invariant
                i <= n_layer,
                cur.wf(),
                cur.all() == b@,
                p == 12,
                read_layers(b@, p, i as nat) == Ok::<(Seq<LayerData>, int), KvBlobError>(
                    (layers@.map_values(|l: LayerCache| layer_data(l)), cur.at()),
                ),
                b@.len() >= 8,
                b@.take(8) == magic(),
                read_word(b@, 8) == Ok::<(u32, int), KvBlobError>((n_layer, p)),
                forall|j: int|
                    0 <= j < layers@.len() ==> (#[trigger] layers@[j]).wf() && layers@[j].capacity
                        == layers@[j].len && layers@[j].gpu is None,
            decreases n_layer - i,
        {
            let ghost before = layers@;
            let l = match read_one_layer(&mut cur) {
                Ok(l) => l,
                Err(e) => {
                    proof {
                        assert(read_layers(b@, p, (i + 1) as nat) is Err);
                        layers_error_stays(b@, p, (i + 1) as nat, n_layer as nat);
                    }
                    return Err(e);
                },
            };
            layers.push(l);
            assert(layers@.map_values(|l: LayerCache| layer_data(l)) =~= before.map_values(
                |l: LayerCache| layer_data(l),
            ).push(layer_data(l)));
            i += 1;
        }
        let ghost q = cur.at();
        let n_rec: u32 = match cur.u32() {
            Ok(x) => x,
            Err(e) => {
                return Err(e);
            },
        };
        let ghost s = cur.at();
        let mut states: Vec<RecurrentLayerState> = Vec::new();
        let mut i: u32 = 0;
        assert(states@.map_values(|r: RecurrentLayerState| state_data(r)) =~= Seq::<
            StateData,
        >::empty());
        while i < n_rec
            invariant
                i <= n_rec,
                cur.wf(),
                cur.all() == b@,
                read_states(b@, s, i as nat) == Ok::<(Seq<StateData>, int), KvBlobError>(
                    (states@.map_values(|r: RecurrentLayerState| state_data(r)), cur.at()),
                ),
                b@.len() >= 8,
                b@.take(8) == magic(),
                read_word(b@, 8) == Ok::<(u32, int), KvBlobError>((n_layer, p)),
                read_layers(b@, p, n_layer as nat) == Ok::<(Seq<LayerData>, int), KvBlobError>(
                    (layers@.map_values(|l: LayerCache| layer_data(l)), q),
                ),
                read_word(b@, q) == Ok::<(u32, int), KvBlobError>((n_rec, s)),
                forall|j: int| 0 <= j < states@.len() ==> (#[trigger] states@[j]).wf(),
            decreases n_rec - i,
        {
            let ghost before = states@;
            let r = match read_one_state(&mut cur) {
                Ok(r) => r,
                Err(e) => {
                    proof {
                        assert(read_states(b@, s, (i + 1) as nat) is Err);
                        states_error_stays(b@, s, (i + 1) as nat, n_rec as nat);
                    }
                    return Err(e);
                },
            };
            states.push(r);
            assert(states@.map_values(|r: RecurrentLayerState| state_data(r))
                =~= before.map_values(|r: RecurrentLayerState| state_data(r)).push(
                state_data(r),
            ));
            i += 1;
        }
        if !cur.is_empty() {
            return Err(KvBlobError::TrailingBytes);
        }
        Ok(KvCache { layers, recurrent: states })
    }
}

/// More words add their bytes after the mark.
proof fn blob_grows(words: Seq<u32>, more: Seq<u32>)
    ensures
        magic() + bytes::words_bytes(words) + bytes::words_bytes(more) == magic()
            + bytes::words_bytes(words + more),
{
    bytes::words_concatenate(words, more);
    assert(magic() + bytes::words_bytes(words) + bytes::words_bytes(more) =~= magic()
        + bytes::words_bytes(words + more));
}

/// The bytes of one word.
proof fn one_word(x: u32)
    ensures
        bytes::words_bytes(seq![x]) == bytes::le32(x),
{
    bytes::words_grow(Seq::empty(), x);
    assert(Seq::<u32>::empty().push(x) =~= seq![x]);
    assert(bytes::words_bytes(Seq::empty()) =~= Seq::<u8>::empty());
    assert(bytes::words_bytes(seq![x]) =~= bytes::le32(x));
}

/// Appends one word.
fn append_word(out: &mut Vec<u8>, Ghost(words): Ghost<Seq<u32>>, x: u32)
    requires
        old(out)@ == magic() + bytes::words_bytes(words),
    ensures
        final(out)@ == magic() + bytes::words_bytes(words + seq![x]),
{
    push_u32(out, x);
    proof {
        blob_grows(words, seq![x]);
        one_word(x);
    }
}

/// Appends the first `n` of some words.
fn append_words(out: &mut Vec<u8>, Ghost(words): Ghost<Seq<u32>>, w: &Vec<u32>, n: usize)
    requires
        old(out)@ == magic() + bytes::words_bytes(words),
        n <= w@.len(),
    ensures
        final(out)@ == magic() + bytes::words_bytes(words + w@.take(n as int)),
{
    push_words(out, w, 0, n);
    proof {
        assert(w@.subrange(0, n as int) =~= w@.take(n as int));
        blob_grows(words, w@.take(n as int));
    }
}

impl KvCache {
    /// The cache as bytes.
    pub fn to_bytes(&self) -> (r: Vec<u8>)
        requires
            self.wf(),
        ensures
            r@ == blob(cache_data(*self)),
            has_small_numbers(cache_data(*self)) ==> parsed(r@) == Ok::<CacheData, KvBlobError>(
                cache_data(*self),
            ),
    {
        let ghost d = cache_data(*self);
        let mut out: Vec<u8> = vec![0x4f, 0x52, 0x47, 0x55, 0x4b, 0x56, 0x43, 0x31];
        let ghost mut words: Seq<u32> = Seq::empty();
        assert(out@ =~= magic() + bytes::words_bytes(words));
        append_word(&mut out, Ghost(words), low32(self.layers.len()));
        proof {
            words = words + seq![d.layers.len() as u32];
        }
        let ghost lead = words;
        let mut i: usize = 0;
        assert(lead + layers_words(d.layers.take(0)) =~= lead);
        while i < self.layers.len()
            invariant
                i <= self.layers@.len(),
                self.wf(),
                d == cache_data(*self),
                words == lead + layers_words(d.layers.take(i as int)),
                out@ == magic() + bytes::words_bytes(words),
            decreases self.layers@.len() - i,
        {
            let l = &self.layers[i];
            assert(self.layers@[i as int].wf());
            let total: usize = l.k.len();
            proof {
                l.committed_in_range(l.len as int);
            }
            let n: usize = l.len * l.kv_dim;
            let ghost x = words + seq![l.kv_dim as u32];
            let ghost y = x + seq![l.len as u32];
            let ghost z = y + l.k@.take(n as int);
            append_word(&mut out, Ghost(words), low32(l.kv_dim));
            append_word(&mut out, Ghost(x), low32(l.len));
            append_words(&mut out, Ghost(y), &l.k, n);
            append_words(&mut out, Ghost(z), &l.v, n);
            proof {
                let one = d.layers[i as int];
                assert(one == layer_data(*l));
                assert(d.layers.take(i + 1).drop_last() =~= d.layers.take(i as int));
                assert(z + l.v@.take(n as int) =~= lead + (layers_words(d.layers.take(i as int))
                    + layer_words(one)));
                words = lead + layers_words(d.layers.take(i + 1));
            }
            i += 1;
        }
        assert(d.layers.take(d.layers.len() as int) =~= d.layers);
        append_word(&mut out, Ghost(words), low32(self.recurrent.len()));
        proof {
            words = words + seq![d.states.len() as u32];
        }
        let ghost lead = words;
        let mut i: usize = 0;
        assert(lead + states_words(d.states.take(0)) =~= lead);
        while i < self.recurrent.len()
            invariant
                i <= self.recurrent@.len(),
                self.wf(),
                d == cache_data(*self),
                words == lead + states_words(d.states.take(i as int)),
                out@ == magic() + bytes::words_bytes(words),
            decreases self.recurrent@.len() - i,
        {
            let r = &self.recurrent[i];
            assert(self.recurrent@[i as int].wf());
            let ghost w1 = words + seq![r.conv_channels as u32];
            let ghost w2 = w1 + seq![r.d_conv as u32];
            let ghost w3 = w2 + seq![r.heads() as u32];
            let ghost w4 = w3 + seq![r.head_dim as u32];
            append_word(&mut out, Ghost(words), low32(r.conv_channels));
            append_word(&mut out, Ghost(w1), low32(r.d_conv));
            append_word(&mut out, Ghost(w2), low32(r.num_heads()));
            append_word(&mut out, Ghost(w3), low32(r.head_dim));
            append_words(&mut out, Ghost(w4), &r.conv_history, r.conv_history.len());
            let ghost w5 = w4 + r.conv_history@;
            assert(r.conv_history@.take(r.conv_history@.len() as int) =~= r.conv_history@);
            append_words(&mut out, Ghost(w5), &r.delta_state, r.delta_state.len());
            assert(r.delta_state@.take(r.delta_state@.len() as int) =~= r.delta_state@);
            proof {
                let one = d.states[i as int];
                assert(one == state_data(*r));
                assert(d.states.take(i + 1).drop_last() =~= d.states.take(i as int));
                assert(w5 + r.delta_state@ =~= lead + (states_words(d.states.take(i as int))
                    + state_words(one)));
                words = lead + states_words(d.states.take(i + 1));
            }
            i += 1;
        }
        assert(d.states.take(d.states.len() as int) =~= d.states);
        assert(words =~= cache_words(d));
        let total: usize = out.len();
        proof {
            if has_small_numbers(d) {
                assert(blob(d).len() == total);
                cache_reads_back(*self);
            }
        }
        out
    }
}

/// A layer whose numbers fit where a blob keeps them.
pub open spec fn layer_fits(d: LayerData) -> bool {
    &&& d.kv_dim <= u32::MAX
    &&& d.len <= u32::MAX
    &&& d.k.len() == d.len * d.kv_dim
    &&& d.v.len() == d.len * d.kv_dim
    &&& d.len * d.kv_dim * 4 <= usize::MAX
}

/// A recurrent layer whose numbers fit where a blob keeps them.
pub open spec fn state_fits(d: StateData) -> bool {
    let heads = recurrent::heads_in(d.delta.len(), d.head_dim);
    &&& d.conv_channels <= u32::MAX
    &&& d.d_conv <= u32::MAX
    &&& d.head_dim <= u32::MAX
    &&& heads <= u32::MAX
    &&& d.conv.len() == d.conv_channels * recurrent::window(d.d_conv)
    &&& d.delta.len() == heads * (d.head_dim * d.head_dim)
    &&& d.head_dim * d.head_dim <= usize::MAX
    &&& d.conv.len() * 4 <= usize::MAX
    &&& d.delta.len() * 4 <= usize::MAX
}

/// A cache whose numbers fit where a blob keeps them.
pub open spec fn cache_fits(d: CacheData) -> bool {
    &&& d.layers.len() <= u32::MAX
    &&& d.states.len() <= u32::MAX
    &&& forall|i: int| 0 <= i < d.layers.len() ==> layer_fits(#[trigger] d.layers[i])
    &&& forall|i: int| 0 <= i < d.states.len() ==> state_fits(#[trigger] d.states[i])
}

/// The words from `i` on stand in some bytes from `8 + 4 * i` on.
spec fn stands(b: Seq<u8>, words: Seq<u32>) -> bool {
    &&& b.len() >= 8 + 4 * words.len()
    &&& forall|i: int| 0 <= i < words.len() ==> #[trigger] words[i] == bytes::word_at(b, 8 + 4 * i)
}

/// A run of words reads back from where it stands.
proof fn run_stands(b: Seq<u8>, words: Seq<u32>, i: int, run: Seq<u32>)
    requires
        stands(b, words),
        0 <= i,
        i + run.len() <= words.len(),
        words.subrange(i, i + run.len()) == run,
        run.len() * 4 <= usize::MAX,
    ensures
        read_run(b, 8 + 4 * i, run.len()) == Ok::<(Seq<u32>, int), KvBlobError>(
            (run, 8 + 4 * (i + run.len())),
        ),
{
    assert forall|j: int| 0 <= j < run.len() implies run[j] == bytes::word_at(
        b,
        8 + 4 * i + 4 * j,
    ) by {
        assert(words.subrange(i, i + run.len())[j] == words[i + j]);
        assert(8 + 4 * (i + j) == 8 + 4 * i + 4 * j);
    }
    assert(bytes::words_at(b, 8 + 4 * i, run.len()) =~= run);
}

/// A layer reads back from where its words stand.
proof fn layer_stands(b: Seq<u8>, words: Seq<u32>, i: int, d: LayerData)
    requires
        stands(b, words),
        0 <= i,
        layer_fits(d),
        i + layer_words(d).len() <= words.len(),
        words.subrange(i, i + layer_words(d).len()) == layer_words(d),
    ensures
        read_layer(b, 8 + 4 * i) == Ok::<(LayerData, int), KvBlobError>(
            (d, 8 + 4 * (i + layer_words(d).len())),
        ),
{
    let w = layer_words(d);
    let at = words.subrange(i, i + w.len());
    let n = d.len * d.kv_dim;
    assert(words[i] == at[0] && words[i + 1] == at[1]);
    assert(words.subrange(i + 2, i + 2 + n) =~= d.k) by {
        assert forall|j: int| 0 <= j < n implies words[i + 2 + j] == d.k[j] by {
            assert(at[2 + j] == w[2 + j]);
        }
    }
    assert(words.subrange(i + 2 + n, i + 2 + n + n) =~= d.v) by {
        assert forall|j: int| 0 <= j < n implies words[i + 2 + n + j] == d.v[j] by {
            assert(at[2 + n + j] == w[2 + n + j]);
        }
    }
    run_stands(b, words, i + 2, d.k);
    run_stands(b, words, i + 2 + n, d.v);
}

/// A recurrent layer reads back from where its words stand.
proof fn state_stands(b: Seq<u8>, words: Seq<u32>, i: int, d: StateData)
    requires
        stands(b, words),
        0 <= i,
        state_fits(d),
        i + state_words(d).len() <= words.len(),
        words.subrange(i, i + state_words(d).len()) == state_words(d),
    ensures
        read_state(b, 8 + 4 * i) == Ok::<(StateData, int), KvBlobError>(
            (d, 8 + 4 * (i + state_words(d).len())),
        ),
{
    let w = state_words(d);
    let at = words.subrange(i, i + w.len());
    let n = d.conv.len();
    let m = d.delta.len();
    assert(words[i] == at[0] && words[i + 1] == at[1] && words[i + 2] == at[2] && words[i + 3]
        == at[3]);
    assert(words.subrange(i + 4, i + 4 + n) =~= d.conv) by {
        assert forall|j: int| 0 <= j < n implies words[i + 4 + j] == d.conv[j] by {
            assert(at[4 + j] == w[4 + j]);
        }
    }
    assert(words.subrange(i + 4 + n, i + 4 + n + m) =~= d.delta) by {
        assert forall|j: int| 0 <= j < m implies words[i + 4 + n + j] == d.delta[j] by {
            assert(at[4 + n + j] == w[4 + n + j]);
        }
    }
    run_stands(b, words, i + 4, d.conv);
    run_stands(b, words, i + 4 + n, d.delta);
}

/// The words of the first layers stand first.
proof fn layers_words_prefix(ds: Seq<LayerData>, n: int)
    requires
        0 <= n <= ds.len(),
    ensures
        layers_words(ds.take(n)).len() <= layers_words(ds).len(),
        layers_words(ds).take(layers_words(ds.take(n)).len() as int) == layers_words(ds.take(n)),
    decreases ds.len(),
{
    if n == ds.len() {
        assert(ds.take(n) =~= ds);
        assert(layers_words(ds).take(layers_words(ds).len() as int) =~= layers_words(ds));
    } else {
        layers_words_prefix(ds.drop_last(), n);
        assert(ds.drop_last().take(n) =~= ds.take(n));
        let k = layers_words(ds.take(n)).len() as int;
        assert(layers_words(ds).take(k) =~= layers_words(ds.drop_last()).take(k));
    }
}

/// The words of the first recurrent layers stand first.
proof fn states_words_prefix(ds: Seq<StateData>, n: int)
    requires
        0 <= n <= ds.len(),
    ensures
        states_words(ds.take(n)).len() <= states_words(ds).len(),
        states_words(ds).take(states_words(ds.take(n)).len() as int) == states_words(ds.take(n)),
    decreases ds.len(),
{
    if n == ds.len() {
        assert(ds.take(n) =~= ds);
        assert(states_words(ds).take(states_words(ds).len() as int) =~= states_words(ds));
    } else {
        states_words_prefix(ds.drop_last(), n);
        assert(ds.drop_last().take(n) =~= ds.take(n));
        let k = states_words(ds.take(n)).len() as int;
        assert(states_words(ds).take(k) =~= states_words(ds.drop_last()).take(k));
    }
}

/// Layers read back from where their words stand.
proof fn layers_stand(b: Seq<u8>, words: Seq<u32>, i: int, ds: Seq<LayerData>, n: nat)
    requires
        stands(b, words),
        0 <= i,
        n <= ds.len(),
        forall|k: int| 0 <= k < ds.len() ==> layer_fits(#[trigger] ds[k]),
        i + layers_words(ds).len() <= words.len(),
        words.subrange(i, i + layers_words(ds).len()) == layers_words(ds),
    ensures
        read_layers(b, 8 + 4 * i, n) == Ok::<(Seq<LayerData>, int), KvBlobError>(
            (ds.take(n as int), 8 + 4 * (i + layers_words(ds.take(n as int)).len())),
        ),
    decreases n,
{
    if n == 0 {
        assert(ds.take(0) =~= Seq::<LayerData>::empty());
    } else {
        layers_stand(b, words, i, ds, (n - 1) as nat);
        let done = ds.take(n - 1);
        let upto = ds.take(n as int);
        let d = ds[n - 1];
        assert(upto.drop_last() =~= done);
        layers_words_prefix(ds, n as int);
        let all = layers_words(ds);
        let p = layers_words(done).len() as int;
        let w = layer_words(d);
        assert(layers_words(upto) == layers_words(done) + w);
        assert(words.subrange(i + p, i + p + w.len()) =~= w) by {
            assert forall|j: int| 0 <= j < w.len() implies words[i + p + j] == w[j] by {
                assert(all.take(layers_words(upto).len() as int)[p + j] == all[p + j]);
                assert(words.subrange(i, i + all.len())[p + j] == words[i + p + j]);
            }
        }
        layer_stands(b, words, i + p, d);
        assert(done.push(d) =~= upto);
    }
}

/// Recurrent layers read back from where their words stand.
proof fn states_stand(b: Seq<u8>, words: Seq<u32>, i: int, ds: Seq<StateData>, n: nat)
    requires
        stands(b, words),
        0 <= i,
        n <= ds.len(),
        forall|k: int| 0 <= k < ds.len() ==> state_fits(#[trigger] ds[k]),
        i + states_words(ds).len() <= words.len(),
        words.subrange(i, i + states_words(ds).len()) == states_words(ds),
    ensures
        read_states(b, 8 + 4 * i, n) == Ok::<(Seq<StateData>, int), KvBlobError>(
            (ds.take(n as int), 8 + 4 * (i + states_words(ds.take(n as int)).len())),
        ),
    decreases n,
{
    if n == 0 {
        assert(ds.take(0) =~= Seq::<StateData>::empty());
    } else {
        states_stand(b, words, i, ds, (n - 1) as nat);
        let done = ds.take(n - 1);
        let upto = ds.take(n as int);
        let d = ds[n - 1];
        assert(upto.drop_last() =~= done);
        states_words_prefix(ds, n as int);
        let all = states_words(ds);
        let p = states_words(done).len() as int;
        let w = state_words(d);
        assert(states_words(upto) == states_words(done) + w);
        assert(words.subrange(i + p, i + p + w.len()) =~= w) by {
            assert forall|j: int| 0 <= j < w.len() implies words[i + p + j] == w[j] by {
                assert(all.take(states_words(upto).len() as int)[p + j] == all[p + j]);
                assert(words.subrange(i, i + all.len())[p + j] == words[i + p + j]);
            }
        }
        state_stands(b, words, i + p, d);
        assert(done.push(d) =~= upto);
    }
}

/// The words of a cache stand in its blob, after the mark.
proof fn words_stand_in_blob(d: CacheData)
    ensures
        blob(d).len() == 8 + 4 * cache_words(d).len(),
        blob(d).take(8) == magic(),
        stands(blob(d), cache_words(d)),
{
    let b = blob(d);
    let words = cache_words(d);
    assert(b.take(8) =~= magic());
    assert(b.subrange(8, 8int + 4 * words.len()) =~= bytes::words_bytes(words));
    bytes::words_read_back(words, b, 8);
}

/// The parts of a cache's words.
proof fn parts_of_cache_words(d: CacheData)
    ensures
        ({
            let words = cache_words(d);
            let n = layers_words(d.layers).len() as int;
            let m = states_words(d.states).len() as int;
            &&& words.len() == 2 + n + m
            &&& words[0] == d.layers.len() as u32
            &&& words.subrange(1, 1 + n) == layers_words(d.layers)
            &&& words[1 + n] == d.states.len() as u32
            &&& words.subrange(2 + n, 2 + n + m) == states_words(d.states)
        }),
{
    let words = cache_words(d);
    let n = layers_words(d.layers).len() as int;
    let m = states_words(d.states).len() as int;
    assert(words.subrange(1, 1 + n) =~= layers_words(d.layers));
    assert(words.subrange(2 + n, 2 + n + m) =~= states_words(d.states));
}

/// The first word of what stands reads back, wherever it stands.
proof fn word_stands(b: Seq<u8>, words: Seq<u32>, i: int)
    requires
        stands(b, words),
        0 <= i < words.len(),
    ensures
        read_word(b, 8 + 4 * i) == Ok::<(u32, int), KvBlobError>((words[i], 8 + 4 * (i + 1))),
{
}

/// Reading a blob gives back what was written.
#[verifier::spinoff_prover]
pub proof fn blob_reads_back(d: CacheData)
    requires
        cache_fits(d),
    ensures
        parsed(blob(d)) == Ok::<CacheData, KvBlobError>(d),
{
    let b = blob(d);
    let words = cache_words(d);
    let n = layers_words(d.layers).len() as int;
    words_stand_in_blob(d);
    parts_of_cache_words(d);
    word_stands(b, words, 0);
    layers_stand(b, words, 1, d.layers, d.layers.len());
    assert(d.layers.take(d.layers.len() as int) =~= d.layers);
    word_stands(b, words, 1 + n);
    states_stand(b, words, 2 + n, d.states, d.states.len());
    assert(d.states.take(d.states.len() as int) =~= d.states);
    assert(read_layers(b, 12, d.layers.len()) == Ok::<(Seq<LayerData>, int), KvBlobError>(
        (d.layers, 8 + 4 * (1 + n)),
    ));
    assert(read_cache(b) == Ok::<(CacheData, int), KvBlobError>((d, b.len() as int)));
}

/// Whether the numbers of a cache are such as a blob keeps in 32 bits each.
pub open spec fn has_small_numbers(d: CacheData) -> bool {
    &&& d.layers.len() <= u32::MAX
    &&& d.states.len() <= u32::MAX
    &&& forall|i: int|
        0 <= i < d.layers.len() ==> (#[trigger] d.layers[i]).kv_dim <= u32::MAX && d.layers[i].len
            <= u32::MAX
    &&& forall|i: int|
        0 <= i < d.states.len() ==> {
            &&& (#[trigger] d.states[i]).conv_channels <= u32::MAX
            &&& d.states[i].d_conv <= u32::MAX
            &&& d.states[i].head_dim <= u32::MAX
            &&& recurrent::heads_in(d.states[i].delta.len(), d.states[i].head_dim) <= u32::MAX
        }
}

/// A layer has no more words than all layers.
proof fn layer_is_shorter(ds: Seq<LayerData>, i: int)
    requires
        0 <= i < ds.len(),
    ensures
        layer_words(ds[i]).len() <= layers_words(ds).len(),
{
    layers_words_prefix(ds, i + 1);
    assert(ds.take(i + 1).drop_last() =~= ds.take(i));
    assert(ds.take(i + 1).last() == ds[i]);
}

/// A recurrent layer has no more words than all recurrent layers.
proof fn state_is_shorter(ds: Seq<StateData>, i: int)
    requires
        0 <= i < ds.len(),
    ensures
        state_words(ds[i]).len() <= states_words(ds).len(),
{
    states_words_prefix(ds, i + 1);
    assert(ds.take(i + 1).drop_last() =~= ds.take(i));
    assert(ds.take(i + 1).last() == ds[i]);
}

/// A sound layer with small numbers fits where its words can be held.
proof fn sound_layer_fits(l: LayerCache)
    requires
        l.wf(),
        l.kv_dim <= u32::MAX,
        l.len <= u32::MAX,
        4 * layer_words(layer_data(l)).len() <= usize::MAX,
    ensures
        layer_fits(layer_data(l)),
{
    let n = l.len * l.kv_dim;
    assert(0 <= n <= l.capacity * l.kv_dim) by (nonlinear_arith)
        requires
            n == l.len * l.kv_dim,
            0 <= l.len <= l.capacity,
            l.kv_dim >= 0,
    ;
    assert(layer_words(layer_data(l)).len() == 2 + n + n);
}

/// A sound recurrent layer with small numbers fits where its words can be held.
proof fn sound_state_fits(r: RecurrentLayerState)
    requires
        r.wf(),
        r.conv_channels <= u32::MAX,
        r.d_conv <= u32::MAX,
        r.head_dim <= u32::MAX,
        r.heads() <= u32::MAX,
        4 * state_words(state_data(r)).len() <= usize::MAX,
    ensures
        state_fits(state_data(r)),
{
    assert(state_words(state_data(r)).len() == 4 + r.conv_history@.len() + r.delta_state@.len());
}

/// Every sound cache reads back from its blob: whatever it holds, provided that its
/// numbers have 32 bits and that its blob can be held in memory.
pub proof fn cache_reads_back(c: KvCache)
    requires
        c.wf(),
        has_small_numbers(cache_data(c)),
        blob(cache_data(c)).len() <= usize::MAX,
    ensures
        parsed(blob(cache_data(c))) == Ok::<CacheData, KvBlobError>(cache_data(c)),
{
    let d = cache_data(c);
    words_stand_in_blob(d);
    parts_of_cache_words(d);
    assert forall|i: int| 0 <= i < d.layers.len() implies layer_fits(#[trigger] d.layers[i]) by {
        assert(c.layers@[i].wf());
        layer_is_shorter(d.layers, i);
        sound_layer_fits(c.layers@[i]);
    }
    assert forall|i: int| 0 <= i < d.states.len() implies state_fits(#[trigger] d.states[i]) by {
        assert(c.recurrent@[i].wf());
        state_is_shorter(d.states, i);
        sound_state_fits(c.recurrent@[i]);
    }
    blob_reads_back(d);
}

/// A word that reads from the first bytes of some bytes reads the same from all of
/// them.
proof fn word_from_prefix(b: Seq<u8>, n: int, pos: int)
    requires
        0 <= n <= b.len(),
        0 <= pos,
    ensures
        match read_word(b.take(n), pos) {
            Ok((x, p)) => p <= n && read_word(b, pos) == Ok::<(u32, int), KvBlobError>((x, p)),
            Err(_) => true,
        },
{
    if pos + 4 <= n {
        let c = b.take(n);
        assert(c[pos] == b[pos] && c[pos + 1] == b[pos + 1] && c[pos + 2] == b[pos + 2] && c[pos
            + 3] == b[pos + 3]);
    }
}

/// A run that reads from the first bytes of some bytes reads the same from all of
/// them.
proof fn run_from_prefix(b: Seq<u8>, n: int, pos: int, count: nat)
    requires
        0 <= n <= b.len(),
        0 <= pos,
    ensures
        match read_run(b.take(n), pos, count) {
            Ok((x, p)) => pos <= p <= n && read_run(b, pos, count) == Ok::<
                (Seq<u32>, int),
                KvBlobError,
            >((x, p)),
            Err(_) => true,
        },
{
    if pos + count * 4 <= n {
        let c = b.take(n);
        assert forall|i: int| 0 <= i < count implies bytes::words_at(c, pos, count)[i]
            == bytes::words_at(b, pos, count)[i] by {
            let at = pos + 4 * i;
            assert(c[at] == b[at] && c[at + 1] == b[at + 1] && c[at + 2] == b[at + 2] && c[at + 3]
                == b[at + 3]);
        }
        assert(bytes::words_at(c, pos, count) =~= bytes::words_at(b, pos, count));
    }
}

/// A layer that reads from the first bytes of some bytes reads the same from all
/// of them.
proof fn layer_from_prefix(b: Seq<u8>, n: int, pos: int)
    requires
        0 <= n <= b.len(),
        0 <= pos,
    ensures
        match read_layer(b.take(n), pos) {
            Ok((d, p)) => pos <= p <= n && read_layer(b, pos) == Ok::<
                (LayerData, int),
                KvBlobError,
            >((d, p)),
            Err(_) => true,
        },
{
    let c = b.take(n);
    if read_layer(c, pos) is Ok {
        word_from_prefix(b, n, pos);
        word_from_prefix(b, n, pos + 4);
        let kv_dim = bytes::word_at(c, pos) as nat;
        let len = bytes::word_at(c, pos + 4) as nat;
        let k = len * kv_dim;
        run_from_prefix(b, n, pos + 8, k);
        run_from_prefix(b, n, pos + 8 + k * 4, k);
    }
}

/// A recurrent layer that reads from the first bytes of some bytes reads the same
/// from all of them.
proof fn state_from_prefix(b: Seq<u8>, n: int, pos: int)
    requires
        0 <= n <= b.len(),
        0 <= pos,
    ensures
        match read_state(b.take(n), pos) {
            Ok((d, p)) => pos <= p <= n && read_state(b, pos) == Ok::<
                (StateData, int),
                KvBlobError,
            >((d, p)),
            Err(_) => true,
        },
{
    let c = b.take(n);
    if read_state(c, pos) is Ok {
        word_from_prefix(b, n, pos);
        word_from_prefix(b, n, pos + 4);
        word_from_prefix(b, n, pos + 8);
        word_from_prefix(b, n, pos + 12);
        let conv_channels = bytes::word_at(c, pos) as nat;
        let d_conv = bytes::word_at(c, pos + 4) as nat;
        let num_heads = bytes::word_at(c, pos + 8) as nat;
        let head_dim = bytes::word_at(c, pos + 12) as nat;
        let conv_len = conv_channels * recurrent::window(d_conv);
        let delta_len = num_heads * (head_dim * head_dim);
        run_from_prefix(b, n, pos + 16, conv_len);
        run_from_prefix(b, n, pos + 16 + conv_len * 4, delta_len);
    }
}

/// Layers that read from the first bytes of some bytes read the same from all of
/// them.
proof fn layers_from_prefix(b: Seq<u8>, n: int, pos: int, count: nat)
    requires
        0 <= n <= b.len(),
        0 <= pos,
    ensures
        match read_layers(b.take(n), pos, count) {
            Ok((ds, p)) => pos <= p && (count > 0 ==> p <= n) && read_layers(b, pos, count)
                == Ok::<(Seq<LayerData>, int), KvBlobError>((ds, p)),
            Err(_) => true,
        },
    decreases count,
{
    if count > 0 {
        layers_from_prefix(b, n, pos, (count - 1) as nat);
        if let Ok((_, p)) = read_layers(b.take(n), pos, (count - 1) as nat) {
            layer_from_prefix(b, n, p);
        }
    }
}

/// Recurrent layers that read from the first bytes of some bytes read the same
/// from all of them.
proof fn states_from_prefix(b: Seq<u8>, n: int, pos: int, count: nat)
    requires
        0 <= n <= b.len(),
        0 <= pos,
    ensures
        match read_states(b.take(n), pos, count) {
            Ok((ds, p)) => pos <= p && (count > 0 ==> p <= n) && read_states(b, pos, count)
                == Ok::<(Seq<StateData>, int), KvBlobError>((ds, p)),
            Err(_) => true,
        },
    decreases count,
{
    if count > 0 {
        states_from_prefix(b, n, pos, (count - 1) as nat);
        if let Ok((_, p)) = read_states(b.take(n), pos, (count - 1) as nat) {
            state_from_prefix(b, n, p);
        }
    }
}

/// What reads from the first bytes of some bytes reads the same from all of them.
proof fn cache_from_prefix(b: Seq<u8>, n: int)
    requires
        0 <= n <= b.len(),
    ensures
        match read_cache(b.take(n)) {
            Ok((d, p)) => p <= n && read_cache(b) == Ok::<(CacheData, int), KvBlobError>((d, p)),
            Err(_) => true,
        },
{
    let c = b.take(n);
    if read_cache(c) is Ok {
        assert(c.take(8) =~= b.take(8));
        word_from_prefix(b, n, 8);
        let count = bytes::word_at(c, 8) as nat;
        layers_from_prefix(b, n, 12, count);
        let q = read_layers(c, 12, count)->Ok_0.1;
        word_from_prefix(b, n, q);
        let more = bytes::word_at(c, q) as nat;
        states_from_prefix(b, n, q + 4, more);
    }
}

/// A blob that is cut short, wherever it is cut, is refused.
pub proof fn cut_blob_is_refused(b: Seq<u8>, n: int)
    requires
        parsed(b) is Ok,
        0 <= n < b.len(),
    ensures
        parsed(b.take(n)) is Err,
{
    cache_from_prefix(b, n);
}

/// A blob that more bytes follow is refused for them.
pub proof fn longer_blob_is_refused(b: Seq<u8>, more: Seq<u8>)
    requires
        parsed(b) is Ok,
        more.len() > 0,
    ensures
        parsed(b + more) == Err::<CacheData, KvBlobError>(KvBlobError::TrailingBytes),
{
    assert((b + more).take(b.len() as int) =~= b);
    cache_from_prefix(b + more, b.len() as int);
}

/// A blob is a mark of eight letters and then words, the lowest byte of each first: the
/// number of layers, of each its row length, its number of positions, its keys and its
/// values, then the number of recurrent layers, of each its channels, the length of its
/// convolution, its heads and their dimension, its windows and its matrices.
pub proof fn blobs_lie_in_order(
    layers: Seq<LayerData>,
    layer: LayerData,
    states: Seq<StateData>,
    state: StateData,
)
    ensures
        blob(CacheData { layers, states }) == seq![
            'O' as u8,
            'R' as u8,
            'G' as u8,
            'U' as u8,
            'K' as u8,
            'V' as u8,
            'C' as u8,
            '1' as u8,
        ] + bytes::words_bytes(
            seq![layers.len() as u32] + layers_words(layers) + seq![states.len() as u32]
                + states_words(states),
        ),
        layers_words(Seq::empty()) == Seq::<u32>::empty(),
        layers_words(layers.push(layer)) == layers_words(layers) + (seq![
            layer.kv_dim as u32,
            layer.len as u32,
        ] + layer.k + layer.v),
        states_words(Seq::empty()) == Seq::<u32>::empty(),
        states_words(states.push(state)) == states_words(states) + (seq![
            state.conv_channels as u32,
            state.d_conv as u32,
            recurrent::heads_in(state.delta.len(), state.head_dim) as u32,
            state.head_dim as u32,
        ] + state.conv + state.delta),
{
    assert(layers.push(layer).drop_last() =~= layers);
    assert(states.push(state).drop_last() =~= states);
}

/// What is wrong with some bytes is the first thing that is: that there is no whole mark, that
/// it is another, that no number of layers follows, and of the first layer that its two
/// numbers are not there, that its size cannot be counted, nor that in bytes, or that its
/// values are not all there.
pub proof fn the_first_fault_is_told(b: Seq<u8>, n: nat)
    requires
        b.len() >= 20 ==> n == bytes::word_at(b, 12) as nat * bytes::word_at(b, 16) as nat,
    ensures
        b.len() < 8 ==> parsed(b) == Err::<CacheData, KvBlobError>(KvBlobError::UnexpectedEnd),
        b.len() >= 8 && b.take(8) != magic() ==> parsed(b) == Err::<CacheData, KvBlobError>(
            KvBlobError::BadMagic,
        ),
        b.len() >= 8 && b.take(8) == magic() ==> {
            &&& b.len() < 12 ==> parsed(b) == Err::<CacheData, KvBlobError>(
                KvBlobError::UnexpectedEnd,
            )
            &&& 12 <= b.len() < 20 && bytes::word_at(b, 8) > 0 ==> parsed(b) == Err::<
                CacheData,
                KvBlobError,
            >(KvBlobError::UnexpectedEnd)
            &&& b.len() >= 20 && bytes::word_at(b, 8) > 0 ==> {
                &&& n > usize::MAX ==> parsed(b) == Err::<CacheData, KvBlobError>(
                    KvBlobError::DimensionsOverflow,
                )
                &&& n <= usize::MAX && 4 * n > usize::MAX ==> parsed(b) == Err::<
                    CacheData,
                    KvBlobError,
                >(KvBlobError::CountOverflow)
                &&& 4 * n <= usize::MAX && 20 + 8 * n > b.len() ==> parsed(b) == Err::<
                    CacheData,
                    KvBlobError,
                >(KvBlobError::UnexpectedEnd)
            }
        },
{
    if b.len() >= 12 && b.take(8) == magic() && bytes::word_at(b, 8) > 0 {
        let m = bytes::word_at(b, 8) as nat;
        reveal_with_fuel(read_layers, 2);
        if b.len() >= 20 {
            let (x, y) = (bytes::word_at(b, 12) as nat, bytes::word_at(b, 16) as nat);
            assert(y * x == x * y) by (nonlinear_arith);
            assert(n * 4 == 4 * n);
        }
        if read_layers(b, 12, 1) is Err {
            layers_error_stays(b, 12, 1, m);
        }
    }
}

} // verus!
