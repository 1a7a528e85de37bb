//! The state that a recurrent layer carries from token to token.

use vstd::prelude::*;

use crate::bytes;
use crate::bytes::{copy_words, zero_words};

verus! {

/// A recurrent layer's state: for each channel the window of its last inputs, the
/// oldest first, and for each head a square matrix.
#[derive(Debug)]
pub struct RecurrentLayerState {
    pub conv_history: Vec<u32>,
    pub conv_channels: usize,
    pub d_conv: usize,
    pub delta_state: Vec<u32>,
    pub head_dim: usize,
}

/// The length of a channel's window.
pub open spec fn window(d_conv: nat) -> nat {
    if d_conv == 0 {
        0
    } else {
        (d_conv - 1) as nat
    }
}

/// The number of heads whose matrices make up a state of `cells` values.
pub open spec fn heads_in(cells: nat, head_dim: nat) -> nat {
    if head_dim == 0 {
        0
    } else {
        cells / (head_dim * head_dim)
    }
}

/// As many values as the matrices of some heads have make up those heads.
pub proof fn matrices_make_heads(heads: nat, head_dim: nat)
    ensures
        heads_in(heads * (head_dim * head_dim), head_dim) * (head_dim * head_dim) == heads * (
        head_dim * head_dim),
        head_dim > 0 ==> heads_in(heads * (head_dim * head_dim), head_dim) == heads,
{
    let cells = head_dim * head_dim;
    if head_dim == 0 {
        assert(heads * cells == 0) by (nonlinear_arith)
            requires
                cells == head_dim * head_dim,
                head_dim == 0,
        ;
    } else {
        assert(cells > 0) by (nonlinear_arith)
            requires
                cells == head_dim * head_dim,
                head_dim > 0,
        ;
        vstd::arithmetic::div_mod::lemma_div_multiples_vanish(heads as int, cells as int);
        assert(cells * heads == heads * cells) by (nonlinear_arith);
    }
}

/// A channel's window after one more input: the oldest value is gone.
pub open spec fn slid(history: Seq<u32>, hist_w: nat, input: Seq<u32>) -> Seq<u32> {
    Seq::new(
        history.len(),
        |i: int|
            if hist_w == 0 || i >= input.len() * hist_w {
                history[i]
            } else if i % (hist_w as int) == hist_w - 1 {
                input[i / (hist_w as int)]
            } else {
                history[i + 1]
            },
    )
}

/// What a step of the convolution adds up for a channel, in that order: each value
/// with its weight, first those of the window from the oldest on, last the input.
pub open spec fn taps(
    history: Seq<u32>,
    d_conv: nat,
    input: Seq<u32>,
    kernel: Seq<u32>,
    channel: int,
) -> Seq<(u32, u32)> {
    Seq::new(
        d_conv,
        |t: int|
            (
                if t < window(d_conv) {
                    history[channel * window(d_conv) + t]
                } else {
                    input[channel]
                },
                kernel[channel * d_conv + t],
            ),
    )
}

impl RecurrentLayerState {
    /// The history holds a window for each channel, the size of a head's matrix can be
    /// computed, and there is a matrix for each head and nothing more.
    pub open spec fn wf(&self) -> bool {
        &&& self.conv_history@.len() == self.conv_channels * window(self.d_conv as nat)
        &&& self.head_dim * self.head_dim <= usize::MAX
        &&& self.delta_state@.len() == self.heads() * (self.head_dim * self.head_dim)
    }

    /// The number of heads.
    pub open spec fn heads(&self) -> nat {
        heads_in(self.delta_state@.len(), self.head_dim as nat)
    }

    /// Whether the history holds a window for each channel, the size of a head's matrix
    /// can be computed, and there is a matrix for each head and nothing more.
    pub fn is_sound(&self) -> (r: bool)
        ensures
            r == self.wf(),
    {
        let window: usize = if self.d_conv == 0 {
            0
        } else {
            self.d_conv - 1
        };
        let history: usize = self.conv_history.len();
        match self.conv_channels.checked_mul(window) {
            Some(cells) => if history != cells {
                return false;
            },
            None => {
                return false;
            },
        }
        let size: usize = match self.head_dim.checked_mul(self.head_dim) {
            Some(size) => size,
            None => {
                return false;
            },
        };
        let cells: usize = self.delta_state.len();
        if self.head_dim == 0 {
            return cells == 0;
        }
        proof {
            let n = size as int;
            assert(n > 0) by (nonlinear_arith)
                requires
                    n == self.head_dim * self.head_dim,
                    self.head_dim > 0,
            ;
            vstd::arithmetic::div_mod::lemma_fundamental_div_mod(cells as int, n);
            assert(n * (cells as int / n) == (cells as int / n) * n) by (nonlinear_arith);
        }
        cells % size == 0
    }

    /// A state of zeros.
    pub fn new(conv_channels: usize, d_conv: usize, num_heads: usize, head_dim: usize) -> (r: Self)
        requires
            conv_channels * window(d_conv as nat) <= usize::MAX,
            num_heads * head_dim <= usize::MAX,
            num_heads * head_dim * head_dim <= usize::MAX,
            head_dim * head_dim <= usize::MAX,
        ensures
            r.wf(),
            r.conv_channels == conv_channels,
            r.d_conv == d_conv,
            r.head_dim == head_dim,
            r.conv_history@ == Seq::new(
                (conv_channels * window(d_conv as nat)) as nat,
                |i: int| 0u32,
            ),
            r.delta_state@ == Seq::new((num_heads * head_dim * head_dim) as nat, |i: int| 0u32),
    {
        let hist_w: usize = if d_conv == 0 {
            0
        } else {
            d_conv - 1
        };
        proof {
            matrices_make_heads(num_heads as nat, head_dim as nat);
            assert(num_heads * head_dim * head_dim == num_heads * (head_dim * head_dim)) by (
            nonlinear_arith);
        }
        RecurrentLayerState {
            conv_history: zero_words(conv_channels * hist_w),
            conv_channels,
            d_conv,
            delta_state: zero_words(num_heads * head_dim * head_dim),
            head_dim,
        }
    }

    /// The state with the given values.
    pub fn from_parts(
        conv_channels: usize,
        d_conv: usize,
        head_dim: usize,
        conv_history: Vec<u32>,
        delta_state: Vec<u32>,
    ) -> (r: Self)
        ensures
            r.conv_channels == conv_channels,
            r.d_conv == d_conv,
            r.head_dim == head_dim,
            r.conv_history == conv_history,
            r.delta_state == delta_state,
    {
        RecurrentLayerState { conv_history, conv_channels, d_conv, delta_state, head_dim }
    }

    /// The number of heads, which the length of the state implies.
    pub fn num_heads(&self) -> (r: usize)
        requires
            self.head_dim * self.head_dim <= usize::MAX,
        ensures
            r == self.heads(),
    {
        if self.head_dim == 0 {
            return 0;
        }
        assert(self.head_dim * self.head_dim > 0) by (nonlinear_arith)
            requires
                self.head_dim > 0,
        ;
        self.delta_state.len() / (self.head_dim * self.head_dim)
    }

    /// A copy.
    pub fn duplicate(&self) -> (r: Self)
        ensures
            r.conv_history@ == self.conv_history@,
            r.conv_channels == self.conv_channels,
            r.d_conv == self.d_conv,
            r.delta_state@ == self.delta_state@,
            r.head_dim == self.head_dim,
    {
        RecurrentLayerState {
            conv_history: copy_words(&self.conv_history),
            conv_channels: self.conv_channels,
            d_conv: self.d_conv,
            delta_state: copy_words(&self.delta_state),
            head_dim: self.head_dim,
        }
    }

    /// Takes over the values of a state of the same shape.
    pub fn copy_from(&mut self, src: &RecurrentLayerState)
        requires
            old(self).conv_channels == src.conv_channels,
            old(self).d_conv == src.d_conv,
            old(self).head_dim == src.head_dim,
            old(self).conv_history@.len() == src.conv_history@.len(),
            old(self).delta_state@.len() == src.delta_state@.len(),
        ensures
            final(self).conv_history@ == src.conv_history@,
            final(self).delta_state@ == src.delta_state@,
            final(self).conv_channels == old(self).conv_channels,
            final(self).d_conv == old(self).d_conv,
            final(self).head_dim == old(self).head_dim,
    {
        self.conv_history = copy_words(&src.conv_history);
        self.delta_state = copy_words(&src.delta_state);
    }

    /// Slides each channel's window forward by one input.
    fn slide(&mut self, input: &[u32])
        requires
            old(self).wf(),
            input@.len() == old(self).conv_channels,
        ensures
            final(self).wf(),
            final(self).conv_history@ == slid(
                old(self).conv_history@,
                window(old(self).d_conv as nat),
                input@,
            ),
            final(self).conv_channels == old(self).conv_channels,
            final(self).d_conv == old(self).d_conv,
            final(self).delta_state == old(self).delta_state,
            final(self).head_dim == old(self).head_dim,
    {
        let hist_w: usize = if self.d_conv == 0 {
            0
        } else {
            self.d_conv - 1
        };
        let ghost start = self.conv_history@;
        if hist_w == 0 {
            assert(self.conv_history@ =~= slid(start, 0, input@));
            return;
        }
        let total: usize = self.conv_history.len();
        let mut next: Vec<u32> = Vec::new();
        let mut c: usize = 0;
        let mut tap: usize = 0;
        let mut i: usize = 0;
        while i < total
            invariant
                i <= total,
                total == start.len(),
                self.conv_history@ == start,
                hist_w > 0,
                input@.len() == self.conv_channels,
                total == self.conv_channels * hist_w,
                tap < hist_w,
                i == c * hist_w + tap,
                next@.len() == i,
                forall|j: int| 0 <= j < i ==> next@[j] == slid(start, hist_w as nat, input@)[j],
            decreases total - i,
        {
            assert(c < self.conv_channels) by (nonlinear_arith)
                requires
                    i == c * hist_w + tap,
                    i < total,
                    total == self.conv_channels * hist_w,
                    hist_w > 0,
                    tap >= 0,
            ;
            assert(i as int / hist_w as int == c && i as int % hist_w as int == tap) by (
            nonlinear_arith)
                requires
                    i == c * hist_w + tap,
                    0 <= tap < hist_w,
                    hist_w > 0,
            ;
            assert(i + 1 == c * hist_w + (tap + 1) && (c + 1) * hist_w == c * hist_w + hist_w)
                by (nonlinear_arith)
                requires
                    i == c * hist_w + tap,
            ;
            if tap == hist_w - 1 {
                next.push(input[c]);
                c += 1;
                tap = 0;
            } else {
                assert((c + 1) * hist_w <= total) by (nonlinear_arith)
                    requires
                        c + 1 <= self.conv_channels,
                        total == self.conv_channels * hist_w,
                        hist_w >= 0,
                ;
                next.push(self.conv_history[i + 1]);
                tap += 1;
            }
            i += 1;
        }
        self.conv_history = next;
        assert(self.conv_history@ =~= slid(start, hist_w as nat, input@));
    }

    /// What a step of the convolution adds up for a channel.
    fn channel_taps(&self, input: &[u32], kernel: &[u32], c: usize) -> (out: Vec<(u32, u32)>)
        requires
            self.wf(),
            self.d_conv >= 1,
            c < self.conv_channels,
            input@.len() == self.conv_channels,
            kernel@.len() == self.conv_channels * self.d_conv,
        ensures
            out@ == taps(self.conv_history@, self.d_conv as nat, input@, kernel@, c as int),
    {
        let d: usize = self.d_conv;
        let w: usize = d - 1;
        let history_len: usize = self.conv_history.len();
        let kernel_len: usize = kernel.len();
        assert(c * w + w <= history_len && c * d + d <= kernel_len && 0 <= c * w && 0 <= c * d) by (
        nonlinear_arith)
            requires
                0 <= c < self.conv_channels,
                history_len == self.conv_channels * w,
                kernel_len == self.conv_channels * d,
                w >= 0,
                d >= 0,
        ;
        let mut out: Vec<(u32, u32)> = Vec::new();
        let mut t: usize = 0;
        while t < w
            invariant
                t <= w,
                w == window(d as nat),
                d == w + 1,
                c < input@.len(),
                c * w + w <= history_len,
                c * d + d <= kernel_len,
                0 <= c * w,
                0 <= c * d,
                history_len == self.conv_history@.len(),
                kernel_len == kernel@.len(),
                out@ == taps(
                    self.conv_history@,
                    d as nat,
                    input@,
                    kernel@,
                    c as int,
                ).take(t as int),
            decreases w - t,
        {
            out.push((self.conv_history[c * w + t], kernel[c * d + t]));
            t += 1;
            assert(out@ =~= taps(
                self.conv_history@,
                d as nat,
                input@,
                kernel@,
                c as int,
            ).take(t as int));
        }
        out.push((input[c], kernel[c * d + w]));
        assert(out@ =~= taps(self.conv_history@, d as nat, input@, kernel@, c as int));
        out
    }

    /// One step of a causal convolution of each channel: what it adds up, each value
    /// with its weight. Slides the windows forward by the input.
    pub fn conv_step(&mut self, input: &[u32], kernel: &[u32]) -> (out: Vec<Vec<(u32, u32)>>)
        requires
            old(self).wf(),
            old(self).d_conv >= 1,
            input@.len() == old(self).conv_channels,
            kernel@.len() == old(self).conv_channels * old(self).d_conv,
        ensures
            out@.len() == old(self).conv_channels,
            forall|c: int|
                0 <= c < out@.len() ==> (#[trigger] out@[c])@ == taps(
                    old(self).conv_history@,
                    old(self).d_conv as nat,
                    input@,
                    kernel@,
                    c,
                ),
            final(self).wf(),
            final(self).conv_history@ == slid(
                old(self).conv_history@,
                window(old(self).d_conv as nat),
                input@,
            ),
            final(self).conv_channels == old(self).conv_channels,
            final(self).d_conv == old(self).d_conv,
            final(self).delta_state == old(self).delta_state,
            final(self).head_dim == old(self).head_dim,
    {
        let mut out: Vec<Vec<(u32, u32)>> = Vec::new();
        let mut c: usize = 0;
        while c < self.conv_channels
            invariant
                *self == *old(self),
                self.wf(),
                self.d_conv >= 1,
                input@.len() == self.conv_channels,
                kernel@.len() == self.conv_channels * self.d_conv,
                c <= self.conv_channels,
                out@.len() == c,
                forall|j: int|
                    0 <= j < c ==> (#[trigger] out@[j])@ == taps(
                        self.conv_history@,
                        self.d_conv as nat,
                        input@,
                        kernel@,
                        j,
                    ),
            decreases self.conv_channels - c,
        {
            out.push(self.channel_taps(input, kernel, c));
            c += 1;
        }
        self.slide(input);
        out
    }

    /// The matrix of a head.
    pub fn delta_state(&self, head: usize) -> (r: &[u32])
        requires
            head * (self.head_dim * self.head_dim) + self.head_dim * self.head_dim
                <= self.delta_state@.len(),
        ensures
            r@ == self.delta_state@.subrange(
                head * (self.head_dim * self.head_dim),
                head * (self.head_dim * self.head_dim) + self.head_dim * self.head_dim,
            ),
    {
        let total: usize = self.delta_state.len();
        assert(0 <= self.head_dim * self.head_dim && 0 <= head * (self.head_dim * self.head_dim))
            by (nonlinear_arith)
            requires
                self.head_dim >= 0,
                head >= 0,
        ;
        let size: usize = self.head_dim * self.head_dim;
        vstd::slice::slice_subrange(self.delta_state.as_slice(), head * size, head * size + size)
    }

    /// Replaces the matrix of a head.
    pub fn set_delta_state(&mut self, head: usize, matrix: &[u32])
        requires
            matrix@.len() == old(self).head_dim * old(self).head_dim,
            head * (old(self).head_dim * old(self).head_dim) + old(self).head_dim * old(
                self,
            ).head_dim <= old(self).delta_state@.len(),
        ensures
            final(self).delta_state@ == bytes::spliced(
                old(self).delta_state@,
                head * (old(self).head_dim * old(self).head_dim),
                matrix@,
            ),
            final(self).delta_state@.len() == old(self).delta_state@.len(),
            old(self).wf() ==> final(self).wf(),
            final(self).conv_history == old(self).conv_history,
            final(self).conv_channels == old(self).conv_channels,
            final(self).d_conv == old(self).d_conv,
            final(self).head_dim == old(self).head_dim,
    {
        let total: usize = self.delta_state.len();
        assert(0 <= self.head_dim * self.head_dim && 0 <= head * (self.head_dim * self.head_dim))
            by (nonlinear_arith)
            requires
                self.head_dim >= 0,
                head >= 0,
        ;
        let size: usize = self.head_dim * self.head_dim;
        bytes::splice(&mut self.delta_state, head * size, matrix);
    }
}

/// Replacing one head's matrix leaves every other head's as it was.
pub proof fn heads_are_independent(state: Seq<u32>, size: nat, a: nat, b: nat, matrix: Seq<u32>)
    requires
        a != b,
        matrix.len() == size,
        a * size + size <= state.len(),
        b * size + size <= state.len(),
    ensures
        bytes::spliced(state, (a * size) as int, matrix).subrange(
            (a * size) as int,
            (a * size + size) as int,
        ) == matrix,
        bytes::spliced(state, (a * size) as int, matrix).subrange(
            (b * size) as int,
            (b * size + size) as int,
        ) == state.subrange((b * size) as int, (b * size + size) as int),
{
    let after = bytes::spliced(state, (a * size) as int, matrix);
    assert(a * size + size <= b * size || b * size + size <= a * size) by (nonlinear_arith)
        requires
            a != b,
    ;
    assert(0 <= a * size && 0 <= b * size) by (nonlinear_arith);
    assert(after.subrange((a * size) as int, (a * size + size) as int) =~= matrix);
    assert(after.subrange((b * size) as int, (b * size + size) as int) =~= state.subrange(
        (b * size) as int,
        (b * size + size) as int,
    ));
}

/// A window is made of the last inputs: after an input, its newest value is that
/// input, and every other value is the one that came after it before.
pub proof fn windows_hold_the_last_inputs(
    history: Seq<u32>,
    hist_w: nat,
    input: Seq<u32>,
    c: int,
    t: int,
)
    requires
        history.len() == input.len() * hist_w,
        0 <= c < input.len(),
        0 <= t < hist_w,
    ensures
        slid(history, hist_w, input)[c * hist_w + t] == (if t == hist_w - 1 {
            input[c]
        } else {
            history[c * hist_w + t + 1]
        }),
{
    let i = c * hist_w + t;
    assert(0 <= i < input.len() * hist_w) by (nonlinear_arith)
        requires
            0 <= c < input.len(),
            0 <= t < hist_w,
            i == c * hist_w + t,
    ;
    vstd::arithmetic::div_mod::lemma_fundamental_div_mod_converse(i, hist_w as int, c, t);
}

/// A convolution of `d` steps adds up the last inputs of a channel, the newest last, each
/// with the channel's weight for its place. What stood at a place is, after the windows have
/// slid on, at the place before it.
pub proof fn convolutions_move_by_one(
    history: Seq<u32>,
    d: nat,
    input: Seq<u32>,
    next: Seq<u32>,
    kernel: Seq<u32>,
    c: int,
    t: int,
)
    requires
        d > 0,
        history.len() == input.len() * (d - 1),
        next.len() == input.len(),
        0 <= c < input.len(),
        0 <= t < d,
    ensures
        ({
            let now = taps(history, d, input, kernel, c);
            let then = taps(slid(history, window(d), input), d, next, kernel, c);
            &&& now.len() == d
            &&& now[d - 1].0 == input[c]
            &&& now[t].1 == kernel[c * d + t]
            &&& t + 1 < d ==> now[t].0 == history[c * (d - 1) + t]
            &&& t + 1 < d ==> then[t].0 == now[t + 1].0
        }),
{
    if t + 1 < d {
        windows_hold_the_last_inputs(history, window(d), input, c, t);
    }
}

} // verus!
