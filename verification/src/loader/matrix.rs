//! Matrices whose rows stay quantized in the file until they are read.

use vstd::prelude::*;

use crate::quant;
use crate::quant::{dequantize, Element, QuantError};

verus! {

/// What a matrix is: `out_dim` rows of `in_dim` elements, `row_bytes` bytes each,
/// from `start` on.
pub struct MatrixModel {
    pub ggml_type: u32,
    pub start: nat,
    pub row_bytes: nat,
    pub in_dim: nat,
    pub out_dim: nat,
}

impl MatrixModel {
    /// Whether the rows are whole and lie in a file of `file_len` bytes.
    pub open spec fn sound(self, file_len: nat) -> bool {
        &&& quant::byte_size(self.ggml_type, self.in_dim) == Ok::<nat, QuantError>(self.row_bytes)
        &&& self.start + self.row_bytes * self.out_dim <= file_len
        &&& file_len <= usize::MAX
    }

    /// The bytes of a row.
    pub open spec fn row_slice(self, file: Seq<u8>, index: int) -> Seq<u8> {
        file.subrange(
            self.start + index * self.row_bytes,
            self.start + index * self.row_bytes + self.row_bytes,
        )
    }

    /// The elements of a row.
    pub open spec fn row_elements(self, file: Seq<u8>, index: int) -> Seq<Element> {
        Seq::new(
            self.in_dim,
            |j: int| quant::element_at(self.ggml_type, self.row_slice(file, index), j),
        )
    }
}

/// A matrix in a file, read row by row.
#[derive(Debug, Clone, Copy)]
pub struct QuantMatrix {
    ggml_type: u32,
    start: usize,
    row_bytes: usize,
    pub in_dim: usize,
    pub out_dim: usize,
}

impl View for QuantMatrix {
    type V = MatrixModel;

    closed spec fn view(&self) -> MatrixModel {
        MatrixModel {
            ggml_type: self.ggml_type,
            start: self.start as nat,
            row_bytes: self.row_bytes as nat,
            in_dim: self.in_dim as nat,
            out_dim: self.out_dim as nat,
        }
    }
}

/// A row of a sound matrix lies in the file.
proof fn row_is_inside(m: MatrixModel, file_len: nat, index: int)
    requires
        m.sound(file_len),
        0 <= index < m.out_dim,
    ensures
        0 <= index * m.row_bytes,
        m.start + index * m.row_bytes + m.row_bytes <= file_len,
        m.start + m.row_bytes * m.out_dim <= file_len,
{
    assert(0 <= index * m.row_bytes && index * m.row_bytes + m.row_bytes <= m.row_bytes
        * m.out_dim) by (nonlinear_arith)
        requires
            0 <= index < m.out_dim,
            m.row_bytes >= 0,
    ;
}

/// As many bytes as a number of elements takes hold that number of elements.
pub proof fn bytes_hold_their_elements(ggml_type: u32, n: nat)
    requires
        quant::byte_size(ggml_type, n) is Ok,
    ensures
        quant::elements_in(ggml_type, quant::byte_size(ggml_type, n)->Ok_0) == n,
{
    let (block_bytes, block_elems) = quant::layout(ggml_type)->0;
    let q = n / block_elems;
    assert((q * block_bytes) / block_bytes == q && q * block_elems == n) by (nonlinear_arith)
        requires
            n % block_elems == 0,
            q == n / block_elems,
            block_elems > 0,
            block_bytes > 0,
    ;
}

impl QuantMatrix {
    pub(super) fn new(
        ggml_type: u32,
        start: usize,
        row_bytes: usize,
        in_dim: usize,
        out_dim: usize,
    ) -> (r: QuantMatrix)
        ensures
            r@ == (MatrixModel {
                ggml_type,
                start: start as nat,
                row_bytes: row_bytes as nat,
                in_dim: in_dim as nat,
                out_dim: out_dim as nat,
            }),
    {
        QuantMatrix { ggml_type, start, row_bytes, in_dim, out_dim }
    }

    /// The elements of row `index` of the matrix in the file.
    pub fn row(&self, file: &[u8], index: usize) -> (out: Vec<Element>)
        requires
            self@.sound(file@.len()),
            index < self@.out_dim,
        ensures
            out@ == self@.row_elements(file@, index as int),
    {
        proof {
            row_is_inside(self@, file@.len(), index as int);
            bytes_hold_their_elements(self.ggml_type, self.in_dim as nat);
        }
        let offset: usize = self.start + index * self.row_bytes;
        let row = vstd::slice::slice_subrange(file, offset, offset + self.row_bytes);
        assert(row@ =~= self@.row_slice(file@, index as int));
        match dequantize(self.ggml_type, row, self.in_dim) {
            Ok(out) => {
                assert(out@ =~= self@.row_elements(file@, index as int));
                out
            },
            Err(_) => Vec::new(),
        }
    }

    /// The type that the rows are quantized as.
    pub fn ggml_type(&self) -> (r: u32)
        ensures
            r == self@.ggml_type,
    {
        self.ggml_type
    }

    /// The number of bytes in a row.
    pub fn row_bytes(&self) -> (r: usize)
        ensures
            r == self@.row_bytes,
    {
        self.row_bytes
    }

    /// The bytes of all rows, one after another.
    pub fn raw_bytes<'a>(&self, file: &'a [u8]) -> (r: &'a [u8])
        requires
            self@.sound(file@.len()),
        ensures
            r@ == file@.subrange(
                self@.start as int,
                (self@.start + self@.row_bytes * self@.out_dim) as int,
            ),
    {
        proof {
            assert(self@.row_bytes * self@.out_dim >= 0) by (nonlinear_arith);
        }
        vstd::slice::slice_subrange(file, self.start, self.start + self.row_bytes * self.out_dim)
    }

    /// What tells this matrix from all others in the file that is mapped at
    /// `base`: that address, and where the matrix starts.
    pub fn cache_key(&self, base: usize) -> (r: (usize, usize))
        ensures
            r.0 == base,
            r.1 == self@.start,
    {
        (base, self.start)
    }
}

/// What a stack of matrices is: `n_expert` matrices of the same shape, one after
/// another.
pub struct StackModel {
    pub first: MatrixModel,
    pub n_expert: nat,
}

impl StackModel {
    /// The matrix of an expert.
    pub open spec fn expert(self, e: int) -> MatrixModel {
        MatrixModel {
            start: (self.first.start + e * (self.first.row_bytes * self.first.out_dim)) as nat,
            ..self.first
        }
    }

    /// Whether the rows are whole and lie in a file of `file_len` bytes.
    pub open spec fn sound(self, file_len: nat) -> bool {
        let stride = self.first.row_bytes * self.first.out_dim;
        &&& quant::byte_size(self.first.ggml_type, self.first.in_dim) == Ok::<nat, QuantError>(
            self.first.row_bytes,
        )
        &&& self.first.start + stride * self.n_expert <= file_len
        &&& file_len <= usize::MAX
    }
}

/// Each matrix of a sound stack is sound.
pub proof fn experts_are_sound(m: StackModel, file_len: nat, e: int)
    requires
        m.sound(file_len),
        0 <= e < m.n_expert,
    ensures
        m.expert(e).sound(file_len),
        0 <= e * (m.first.row_bytes * m.first.out_dim) <= file_len,
{
    let stride = m.first.row_bytes * m.first.out_dim;
    assert(0 <= e * stride && e * stride + stride <= stride * m.n_expert) by (nonlinear_arith)
        requires
            0 <= e < m.n_expert,
            stride >= 0,
    ;
}

/// A stack of matrices in a file, one for each expert, read row by row.
#[derive(Debug, Clone, Copy)]
pub struct ExpertQuantMatrix {
    ggml_type: u32,
    start: usize,
    row_bytes: usize,
    expert_stride: usize,
    pub in_dim: usize,
    pub out_dim: usize,
    pub n_expert: usize,
}

impl View for ExpertQuantMatrix {
    type V = StackModel;

    closed spec fn view(&self) -> StackModel {
        StackModel {
            first: MatrixModel {
                ggml_type: self.ggml_type,
                start: self.start as nat,
                row_bytes: self.row_bytes as nat,
                in_dim: self.in_dim as nat,
                out_dim: self.out_dim as nat,
            },
            n_expert: self.n_expert as nat,
        }
    }
}

impl ExpertQuantMatrix {
    pub(super) fn new(
        ggml_type: u32,
        start: usize,
        row_bytes: usize,
        expert_stride: usize,
        in_dim: usize,
        out_dim: usize,
        n_expert: usize,
    ) -> (r: ExpertQuantMatrix)
        requires
            expert_stride == row_bytes * out_dim,
        ensures
            r@ == (StackModel {
                first: MatrixModel {
                    ggml_type,
                    start: start as nat,
                    row_bytes: row_bytes as nat,
                    in_dim: in_dim as nat,
                    out_dim: out_dim as nat,
                },
                n_expert: n_expert as nat,
            }),
            forall|file_len: nat| r@.sound(file_len) ==> #[trigger] r.wf(file_len),
    {
        ExpertQuantMatrix {
            ggml_type,
            start,
            row_bytes,
            expert_stride,
            in_dim,
            out_dim,
            n_expert,
        }
    }

    /// Whether the matrices lie as far apart as their rows take, within a file of
    /// `file_len` bytes.
    pub closed spec fn wf(self, file_len: nat) -> bool {
        &&& self@.sound(file_len)
        &&& self.expert_stride == self.row_bytes * self.out_dim
    }

    /// The elements of row `index` of expert `expert`.
    pub fn row(&self, file: &[u8], expert: usize, index: usize) -> (out: Vec<Element>)
        requires
            self.wf(file@.len()),
            expert < self@.n_expert,
            index < self@.first.out_dim,
        ensures
            out@ == self@.expert(expert as int).row_elements(file@, index as int),
    {
        proof {
            experts_are_sound(self@, file@.len(), expert as int);
            row_is_inside(self@.expert(expert as int), file@.len(), index as int);
        }
        let m = QuantMatrix {
            ggml_type: self.ggml_type,
            start: self.start + expert * self.expert_stride,
            row_bytes: self.row_bytes,
            in_dim: self.in_dim,
            out_dim: self.out_dim,
        };
        assert(m@ == self@.expert(expert as int));
        m.row(file, index)
    }
}

/// A block reads the same in a part of the file as in the whole.
proof fn element_in_part(t: u32, b: Seq<u8>, lo: int, hi: int, at: int, k: int)
    requires
        quant::layout(t) is Some,
        0 <= lo <= hi <= b.len(),
        0 <= at,
        at + (quant::layout(t)->0).0 <= hi - lo,
        0 <= k < (quant::layout(t)->0).1,
    ensures
        quant::element(t, b.subrange(lo, hi), at, k) == quant::element(t, b, lo + at, k),
{
    let s = b.subrange(lo, hi);
    let size = (quant::layout(t)->0).0;
    assert(forall|d: int| 0 <= d < size ==> s[#[trigger] (at + d)] == b[lo + at + d]);
}

/// The rows of a matrix are the parts of the tensor: element `j` of row `index` is
/// element `index * in_dim + j` of all bytes of the matrix.
pub proof fn rows_are_the_tensor(m: MatrixModel, file: Seq<u8>, index: int, j: int)
    requires
        m.sound(file.len()),
        0 <= index < m.out_dim,
        0 <= j < m.in_dim,
    ensures
        m.row_elements(file, index)[j] == quant::element_at(
            m.ggml_type,
            file.subrange(m.start as int, (m.start + m.row_bytes * m.out_dim) as int),
            index * m.in_dim + j,
        ),
{
    let (block_bytes, block_elems) = quant::layout(m.ggml_type)->0;
    let q = m.in_dim as int / block_elems as int;
    let e = block_elems as int;
    row_is_inside(m, file.len(), index);
    let block = j / e;
    let k = j % e;
    assert(m.in_dim == q * e && 0 <= block < q && j == block * e + k && 0 <= k < e) by (
    nonlinear_arith)
        requires
            m.in_dim as int % e == 0,
            q == m.in_dim as int / e,
            0 <= j < m.in_dim,
            block == j / e,
            k == j % e,
            e > 0,
    ;
    let i = index * m.in_dim + j;
    assert(i == (index * q + block) * e + k) by (nonlinear_arith)
        requires
            i == index * m.in_dim + j,
            m.in_dim == q * e,
            j == block * e + k,
    ;
    vstd::arithmetic::div_mod::lemma_fundamental_div_mod_converse(i, e, index * q + block, k);
    let width = block_bytes as int;
    assert(m.row_bytes == q * width);
    assert((index * q + block) * width == index * m.row_bytes + block * width && 0 <= block * width
        && block * width + width <= m.row_bytes) by (nonlinear_arith)
        requires
            m.row_bytes == q * width,
            0 <= block < q,
            width >= 0,
    ;
    let lo = m.start as int;
    let hi = (m.start + m.row_bytes * m.out_dim) as int;
    assert(index * m.row_bytes + m.row_bytes <= m.row_bytes * m.out_dim) by (nonlinear_arith)
        requires
            0 <= index < m.out_dim,
            m.row_bytes >= 0,
    ;
    element_in_part(m.ggml_type, file, lo, hi, (index * q + block) * width, k);
    element_in_part(
        m.ggml_type,
        file,
        lo + index * m.row_bytes,
        lo + index * m.row_bytes + m.row_bytes,
        block * width,
        k,
    );
}

} // verus!
