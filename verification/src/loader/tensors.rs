//! The tensors of a model: where each lies in the file, and the rows of those
//! that are matrices.
//!
//! The bytes of the file are handed to each function that reads them.

use vstd::prelude::*;

use super::matrix;
use super::matrix::{ExpertQuantMatrix, MatrixModel, QuantMatrix, StackModel};
use super::{arch_key, read_model_config, resolve_arch_family};
use super::{Config, LoadError, LoadFault, ModelConfig};
use crate::gguf;
use crate::gguf::{GgufFile, GgufTensor, GgufValue};
use crate::quant;
use crate::quant::{dequantize, tensor_byte_size, Element, QuantError};
use crate::text::same_text;

verus! {

/// The product of dimensions.
pub open spec fn product(dims: Seq<u64>) -> nat
    decreases dims.len(),
{
    if dims.len() == 0 {
        1
    } else {
        product(dims.drop_last()) * dims.last() as nat
    }
}

/// Whether a number of elements, and of the bytes that they take, can be counted.
pub open spec fn count_fits(ggml_type: u32, n: nat) -> bool {
    &&& n <= usize::MAX
    &&& quant::byte_size(ggml_type, n) is Ok ==> quant::byte_size(ggml_type, n)->Ok_0
        <= usize::MAX
}

/// Whether the size of a tensor can be counted: the products of its leading
/// dimensions, and the bytes that all its elements take.
pub open spec fn dims_fit(ggml_type: u32, dims: Seq<u64>) -> bool {
    &&& forall|k: int| 0 <= k <= dims.len() ==> product(#[trigger] dims.take(k)) <= u64::MAX
    &&& count_fits(ggml_type, product(dims))
}

/// Whether the sizes and the place of a tensor can be counted.
pub open spec fn tensor_fits(tensor: GgufTensor, data_offset: u64) -> bool {
    let size = quant::byte_size(tensor.ggml_type, product(tensor.dims@));
    &&& dims_fit(tensor.ggml_type, tensor.dims@)
    &&& data_offset <= usize::MAX
    &&& tensor.offset <= usize::MAX
    &&& size is Ok ==> data_offset + tensor.offset + size->Ok_0 <= usize::MAX
}

/// Whether the sizes and places of all tensors can be counted.
pub open spec fn tensors_fit(tensors: Seq<GgufTensor>, data_offset: u64) -> bool {
    forall|i: int| 0 <= i < tensors.len() ==> tensor_fits(#[trigger] tensors[i], data_offset)
}

/// Where a tensor lies.
pub struct Place {
    pub name: Seq<char>,
    pub ggml_type: u32,
    pub dims: Seq<u64>,
    pub start: nat,
    pub len: nat,
}

/// Where a tensor lies in a file of `file_len` bytes.
pub open spec fn place_of(tensor: GgufTensor, data_offset: u64, file_len: nat) -> Result<
    Place,
    LoadFault,
> {
    match quant::byte_size(tensor.ggml_type, product(tensor.dims@)) {
        Err(cause) => Err(LoadFault::Tensor(tensor.name@, cause)),
        Ok(len) => {
            let start = (data_offset + tensor.offset) as nat;
            if start + len > file_len {
                Err(LoadFault::PastEnd(tensor.name@))
            } else {
                Ok(
                    Place {
                        name: tensor.name@,
                        ggml_type: tensor.ggml_type,
                        dims: tensor.dims@,
                        start,
                        len,
                    },
                )
            }
        },
    }
}

/// Where the tensors lie, or what is wrong with the first that lies nowhere.
pub open spec fn places_of(tensors: Seq<GgufTensor>, data_offset: u64, file_len: nat) -> Result<
    Seq<Place>,
    LoadFault,
>
    decreases tensors.len(),
{
    if tensors.len() == 0 {
        Ok(Seq::empty())
    } else {
        match places_of(tensors.drop_last(), data_offset, file_len) {
            Err(e) => Err(e),
            Ok(places) => match place_of(tensors.last(), data_offset, file_len) {
                Err(e) => Err(e),
                Ok(place) => Ok(places.push(place)),
            },
        }
    }
}

/// The place under a name; where two tensors share it, that of the later one.
pub open spec fn place_named(places: Seq<Place>, name: Seq<char>) -> Option<Place>
    decreases places.len(),
{
    if places.len() == 0 {
        None
    } else if places.last().name == name {
        Some(places.last())
    } else {
        place_named(places.drop_last(), name)
    }
}

/// A tensor's place.
#[derive(Debug)]
struct TensorLocation {
    name: String,
    ggml_type: u32,
    dims: Vec<u64>,
    start: usize,
    len: usize,
}

impl TensorLocation {
    spec fn place(self) -> Place {
        Place {
            name: self.name@,
            ggml_type: self.ggml_type,
            dims: self.dims@,
            start: self.start as nat,
            len: self.len as nat,
        }
    }
}

/// Whether a place is that of a tensor whose sizes can be counted, in a file of
/// `file_len` bytes.
pub open spec fn sound(p: Place, file_len: nat) -> bool {
    &&& dims_fit(p.ggml_type, p.dims)
    &&& quant::byte_size(p.ggml_type, product(p.dims)) == Ok::<nat, QuantError>(p.len)
    &&& p.start + p.len <= file_len
    &&& file_len <= usize::MAX
}

/// The tensors of a model, all of which lie in its file.
pub struct TensorTable {
    locations: Vec<TensorLocation>,
    file_len: usize,
}

impl TensorTable {
    /// Where the tensors lie.
    pub closed spec fn places(self) -> Seq<Place> {
        self.locations@.map_values(|t: TensorLocation| t.place())
    }

    /// The number of bytes in the file.
    pub closed spec fn len(self) -> nat {
        self.file_len as nat
    }

    #[verifier::type_invariant]
    spec fn all_sound(self) -> bool {
        forall|i: int|
            0 <= i < self.locations@.len() ==> sound(
                (#[trigger] self.locations@[i]).place(),
                self.file_len as nat,
            )
    }

    /// The table of the tensors of a file of `file_len` bytes.
    fn new(listed: &Vec<GgufTensor>, data_offset: u64, file_len: usize) -> (r: Result<
        TensorTable,
        LoadError,
    >)
        requires
            tensors_fit(listed@, data_offset),
        ensures
            match r {
                Ok(t) => places_of(listed@, data_offset, file_len as nat) == Ok::<
                    Seq<Place>,
                    LoadFault,
                >(t.places()) && t.len() == file_len,
                Err(e) => places_of(listed@, data_offset, file_len as nat) == Err::<
                    Seq<Place>,
                    LoadFault,
                >(e@),
            },
    {
        let mut locations: Vec<TensorLocation> = Vec::new();
        let mut i: usize = 0;
        assert(listed@.take(0) =~= Seq::empty());
        assert(locations@.map_values(|t: TensorLocation| t.place()) =~= Seq::empty());
        while i < listed.len()
            invariant
                i <= listed.len(),
                tensors_fit(listed@, data_offset),
                places_of(listed@.take(i as int), data_offset, file_len as nat) == Ok::<
                    Seq<Place>,
                    LoadFault,
                >(locations@.map_values(|t: TensorLocation| t.place())),
                forall|j: int|
                    0 <= j < locations@.len() ==> sound(
                        (#[trigger] locations@[j]).place(),
                        file_len as nat,
                    ),
            decreases listed.len() - i,
        {
            let tensor = &listed[i];
            assert(tensor_fits(listed@[i as int], data_offset));
            assert(listed@.take(i + 1).drop_last() =~= listed@.take(i as int));
            proof {
                first_failure(listed@, data_offset, file_len as nat, i + 1);
                assert(tensor.dims@.take(tensor.dims@.len() as int) =~= tensor.dims@);
            }
            let n: u64 = element_count(&tensor.dims);
            let len: usize = match tensor_byte_size(tensor.ggml_type, n) {
                Ok(len) => len as usize,
                Err(cause) => {
                    return Err(LoadError::Tensor { name: tensor.name.clone(), cause });
                },
            };
            let start: usize = data_offset as usize + tensor.offset as usize;
            if start + len > file_len {
                return Err(LoadError::PastEnd { name: tensor.name.clone() });
            }
            let ghost before = locations@.map_values(|t: TensorLocation| t.place());
            locations.push(
                TensorLocation {
                    name: tensor.name.clone(),
                    ggml_type: tensor.ggml_type,
                    dims: tensor.dims.clone(),
                    start,
                    len,
                },
            );
            assert(locations@.map_values(|t: TensorLocation| t.place()) =~= before.push(
                locations@.last().place(),
            ));
            i += 1;
        }
        assert(listed@.take(listed@.len() as int) =~= listed@);
        Ok(TensorTable { locations, file_len })
    }

    /// The place under a name.
    fn find(&self, name: &str) -> (r: Option<&TensorLocation>)
        ensures
            match r {
                Some(t) => place_named(self.places(), name@) == Some(t.place()) && sound(
                    t.place(),
                    self.len(),
                ),
                None => place_named(self.places(), name@) is None,
            },
    {
        proof {
            use_type_invariant(self);
        }
        let mut i: usize = self.locations.len();
        assert(self.places().take(i as int) =~= self.places());
        while i > 0
            invariant
                self.all_sound(),
                i <= self.locations.len(),
                place_named(self.places(), name@) == place_named(
                    self.places().take(i as int),
                    name@,
                ),
            decreases i,
        {
            assert(self.places().take(i as int).drop_last() =~= self.places().take(i - 1));
            i -= 1;
            assert(self.places()[i as int] == self.locations@[i as int].place());
            if same_text(self.locations[i].name.as_str(), name) {
                return Some(&self.locations[i]);
            }
        }
        None
    }
}

/// A model: its hyperparameters, the rest of the file's metadata, and its tensors.
pub struct LoadedModel {
    pub config: ModelConfig,
    pub metadata: Vec<(String, GgufValue)>,
    pub tensors: TensorTable,
}

/// The product of dimensions.
fn element_count(dims: &Vec<u64>) -> (n: u64)
    requires
        forall|k: int| 0 <= k <= dims@.len() ==> product(#[trigger] dims@.take(k)) <= u64::MAX,
    ensures
        n == product(dims@),
{
    let mut n: u64 = 1;
    let mut i: usize = 0;
    assert(dims@.take(0) =~= Seq::empty());
    while i < dims.len()
        invariant
            i <= dims.len(),
            forall|k: int|
                0 <= k <= dims@.len() ==> product(#[trigger] dims@.take(k)) <= u64::MAX,
            n == product(dims@.take(i as int)),
        decreases dims.len() - i,
    {
        assert(dims@.take(i + 1).drop_last() =~= dims@.take(i as int));
        n = n * dims[i];
        i += 1;
    }
    assert(dims@.take(dims@.len() as int) =~= dims@);
    n
}

/// The number of bytes that `n` elements take, where both can be counted; zero
/// where they take no whole number of blocks.
fn counted_bytes(ggml_type: u32, n: u64) -> (r: Option<u64>)
    ensures
        r is Some <==> count_fits(ggml_type, n as nat),
        r is Some && quant::byte_size(ggml_type, n as nat) is Ok ==> r->0 == quant::byte_size(
            ggml_type,
            n as nat,
        )->Ok_0,
        r is Some && quant::byte_size(ggml_type, n as nat) is Err ==> r->0 == 0,
{
    if n > usize::MAX as u64 {
        return None;
    }
    match quant::block_layout(ggml_type) {
        None => Some(0),
        Some((block_bytes, block_elems)) => {
            if n % block_elems as u64 != 0 {
                return Some(0);
            }
            match (n / block_elems as u64).checked_mul(block_bytes as u64) {
                None => None,
                Some(size) => if size > usize::MAX as u64 {
                    None
                } else {
                    Some(size)
                },
            }
        },
    }
}

/// Whether the sizes and the place of a tensor can be counted.
fn tensor_is_countable(tensor: &GgufTensor, data_offset: u64) -> (r: bool)
    ensures
        r == tensor_fits(*tensor, data_offset),
{
    let dims = &tensor.dims;
    let mut n: u64 = 1;
    let mut i: usize = 0;
    assert(dims@.take(0) =~= Seq::empty());
    while i < dims.len()
        invariant
            i <= dims.len(),
            dims == &tensor.dims,
            n == product(dims@.take(i as int)),
            forall|k: int| 0 <= k <= i ==> product(#[trigger] dims@.take(k)) <= u64::MAX,
        decreases dims.len() - i,
    {
        assert(dims@.take(i + 1).drop_last() =~= dims@.take(i as int));
        match n.checked_mul(dims[i]) {
            Some(next) => {
                n = next;
            },
            None => {
                assert(product(dims@.take(i + 1)) > u64::MAX);
                return false;
            },
        }
        i += 1;
    }
    assert(dims@.take(dims@.len() as int) =~= dims@);
    let size: u64 = match counted_bytes(tensor.ggml_type, n) {
        Some(s) => s,
        None => {
            return false;
        },
    };
    if data_offset > usize::MAX as u64 || tensor.offset > usize::MAX as u64 {
        return false;
    }
    if data_offset as u128 + tensor.offset as u128 + size as u128 <= usize::MAX as u128 {
        return true;
    }
    match tensor_byte_size(tensor.ggml_type, n) {
        Ok(_) => false,
        Err(_) => true,
    }
}

/// Whether the sizes and places of all tensors of a file can be counted.
pub fn tensors_are_countable(gguf: &GgufFile) -> (r: bool)
    ensures
        r == tensors_fit(gguf.tensors@, gguf.data_offset),
{
    let mut i: usize = 0;
    while i < gguf.tensors.len()
        invariant
            i <= gguf.tensors.len(),
            forall|j: int|
                0 <= j < i ==> tensor_fits(#[trigger] gguf.tensors@[j], gguf.data_offset),
        decreases gguf.tensors.len() - i,
    {
        if !tensor_is_countable(&gguf.tensors[i], gguf.data_offset) {
            return false;
        }
        i += 1;
    }
    true
}

/// The first tensor that lies nowhere decides, whatever comes after it.
proof fn first_failure(tensors: Seq<GgufTensor>, data_offset: u64, file_len: nat, n: int)
    requires
        0 <= n <= tensors.len(),
    ensures
        places_of(tensors.take(n), data_offset, file_len) is Err ==> places_of(
            tensors,
            data_offset,
            file_len,
        ) == places_of(tensors.take(n), data_offset, file_len),
    decreases tensors.len(),
{
    if n < tensors.len() {
        let shorter = tensors.drop_last();
        assert(shorter.take(n) =~= tensors.take(n));
        first_failure(shorter, data_offset, file_len, n);
    } else {
        assert(tensors.take(n) =~= tensors);
    }
}

/// What a model is: its hyperparameters and its tensors' places, or what is wrong
/// with the file.
pub open spec fn model_of(gguf: GgufFile, file_len: nat) -> Result<
    (Config, Seq<Place>),
    LoadFault,
> {
    match gguf::text_value(gguf.metadata@, "general.architecture"@) {
        None => Err(LoadFault::MissingArchitecture),
        Some(a) => if super::family_of(a) is None {
            Err(LoadFault::UnsupportedArchitecture(a))
        } else {
            match super::config_of(gguf.metadata@, a) {
                Err(e) => Err(e),
                Ok(config) => match places_of(gguf.tensors@, gguf.data_offset, file_len) {
                    Err(e) => Err(e),
                    Ok(places) => Ok((config, places)),
                },
            }
        },
    }
}

/// The matrix under a name.
pub open spec fn matrix_of(places: Seq<Place>, name: Seq<char>) -> Result<MatrixModel, LoadFault> {
    match place_named(places, name) {
        None => Err(LoadFault::MissingTensor(name)),
        Some(p) => if p.dims.len() != 2 {
            Err(LoadFault::NotMatrix(name, p.dims))
        } else {
            match quant::byte_size(p.ggml_type, p.dims[0] as nat) {
                Err(cause) => Err(LoadFault::Tensor(name, cause)),
                Ok(row_bytes) => Ok(
                    MatrixModel {
                        ggml_type: p.ggml_type,
                        start: p.start,
                        row_bytes,
                        in_dim: p.dims[0] as nat,
                        out_dim: p.dims[1] as nat,
                    },
                ),
            }
        },
    }
}

/// The stack of matrices under a name.
pub open spec fn stack_of(places: Seq<Place>, name: Seq<char>) -> Result<StackModel, LoadFault> {
    match place_named(places, name) {
        None => Err(LoadFault::MissingTensor(name)),
        Some(p) => if p.dims.len() != 3 {
            Err(LoadFault::NotStacked(name, p.dims))
        } else {
            match quant::byte_size(p.ggml_type, p.dims[0] as nat) {
                Err(cause) => Err(LoadFault::Tensor(name, cause)),
                Ok(row_bytes) => Ok(
                    StackModel {
                        first: MatrixModel {
                            ggml_type: p.ggml_type,
                            start: p.start,
                            row_bytes,
                            in_dim: p.dims[0] as nat,
                            out_dim: p.dims[1] as nat,
                        },
                        n_expert: p.dims[2] as nat,
                    },
                ),
            }
        },
    }
}

/// Whether the rows of the tensor under a name can be counted, where it has that many
/// dimensions: its dimensions, the bytes that a row takes, and with three dimensions
/// those that the rows of one expert take.
pub open spec fn rows_fit(places: Seq<Place>, name: Seq<char>, n_dims: nat) -> bool {
    match place_named(places, name) {
        None => true,
        Some(p) => p.dims.len() == n_dims && n_dims > 0 ==> {
            let row = quant::byte_size(p.ggml_type, p.dims[0] as nat);
            &&& forall|k: int| 0 <= k < n_dims ==> (#[trigger] p.dims[k]) <= usize::MAX
            &&& row is Ok ==> row->Ok_0 <= usize::MAX
            &&& row is Ok && n_dims == 3 ==> row->Ok_0 * p.dims[1] <= usize::MAX
        },
    }
}

/// The elements of a tensor at a place.
pub open spec fn tensor_elements(p: Place, file: Seq<u8>) -> Seq<Element> {
    let part = file.subrange(p.start as int, (p.start + p.len) as int);
    Seq::new(product(p.dims), |i: int| quant::element_at(p.ggml_type, part, i))
}

/// The product of two or three dimensions.
proof fn small_products(dims: Seq<u64>)
    ensures
        dims.len() >= 1 ==> product(dims.take(1)) == dims[0],
        dims.len() >= 2 ==> product(dims.take(2)) == dims[0] as nat * dims[1] as nat,
        dims.len() >= 3 ==> product(dims.take(3)) == (dims[0] as nat * dims[1] as nat)
            * dims[2] as nat,
        dims.take(dims.len() as int) == dims,
{
    reveal_with_fuel(product, 4);
    if dims.len() >= 1 {
        assert(dims.take(1).drop_last() =~= Seq::empty());
        assert(1 * dims[0] as nat == dims[0]) by (nonlinear_arith);
    }
    if dims.len() >= 2 {
        assert(dims.take(2).drop_last() =~= dims.take(1));
    }
    if dims.len() >= 3 {
        assert(dims.take(3).drop_last() =~= dims.take(2));
    }
    assert(dims.take(dims.len() as int) =~= dims);
}

/// The rows of a tensor with two dimensions take the tensor's bytes, and it is a
/// sound matrix.
pub proof fn matrices_are_sound(places: Seq<Place>, name: Seq<char>, file_len: nat)
    requires
        place_named(places, name) is Some ==> sound(place_named(places, name)->0, file_len),
        matrix_of(places, name) is Ok,
    ensures
        matrix_of(places, name)->Ok_0.sound(file_len),
        matrix_of(places, name)->Ok_0.row_bytes * matrix_of(places, name)->Ok_0.out_dim
            == place_named(places, name)->0.len,
{
    let p = place_named(places, name)->0;
    let m = matrix_of(places, name)->Ok_0;
    small_products(p.dims);
    quant::rows_make_the_tensor(p.ggml_type, m.in_dim, m.out_dim);
}

/// The rows of a tensor with three dimensions take the tensor's bytes, and it is a
/// sound stack of matrices.
pub proof fn stacks_are_sound(places: Seq<Place>, name: Seq<char>, file_len: nat)
    requires
        place_named(places, name) is Some ==> sound(place_named(places, name)->0, file_len),
        stack_of(places, name) is Ok,
    ensures
        stack_of(places, name)->Ok_0.sound(file_len),
        ({
            let m = stack_of(places, name)->Ok_0;
            m.first.row_bytes * m.first.out_dim * m.n_expert
        }) == place_named(places, name)->0.len,
{
    let p = place_named(places, name)->0;
    let m = stack_of(places, name)->Ok_0;
    small_products(p.dims);
    quant::rows_make_the_tensor(p.ggml_type, m.first.in_dim, m.first.out_dim);
    quant::rows_make_the_tensor(p.ggml_type, m.first.in_dim * m.first.out_dim, m.n_expert);
}

/// A row read lazily is the part of the tensor that it stands for.
pub proof fn matrix_rows_are_the_tensor(
    places: Seq<Place>,
    name: Seq<char>,
    file: Seq<u8>,
    index: int,
    j: int,
)
    requires
        place_named(places, name) is Some ==> sound(place_named(places, name)->0, file.len()),
        matrix_of(places, name) is Ok,
        0 <= index < matrix_of(places, name)->Ok_0.out_dim,
        0 <= j < matrix_of(places, name)->Ok_0.in_dim,
    ensures
        matrix_of(places, name)->Ok_0.row_elements(file, index)[j] == tensor_elements(
            place_named(places, name)->0,
            file,
        )[index * matrix_of(places, name)->Ok_0.in_dim + j],
{
    let p = place_named(places, name)->0;
    let m = matrix_of(places, name)->Ok_0;
    matrices_are_sound(places, name, file.len());
    matrix::rows_are_the_tensor(m, file, index, j);
    small_products(p.dims);
    assert(0 <= index * m.in_dim + j < m.in_dim * m.out_dim) by (nonlinear_arith)
        requires
            0 <= index < m.out_dim,
            0 <= j < m.in_dim,
    ;
}

/// A row of an expert read lazily is the part of the tensor that it stands for.
pub proof fn expert_rows_are_the_tensor(
    places: Seq<Place>,
    name: Seq<char>,
    file: Seq<u8>,
    e: int,
    index: int,
    j: int,
)
    requires
        place_named(places, name) is Some ==> sound(place_named(places, name)->0, file.len()),
        stack_of(places, name) is Ok,
        0 <= e < stack_of(places, name)->Ok_0.n_expert,
        0 <= index < stack_of(places, name)->Ok_0.first.out_dim,
        0 <= j < stack_of(places, name)->Ok_0.first.in_dim,
    ensures
        ({
            let m = stack_of(places, name)->Ok_0;
            m.expert(e).row_elements(file, index)[j] == tensor_elements(
                place_named(places, name)->0,
                file,
            )[(e * m.first.out_dim + index) * m.first.in_dim + j]
        }),
{
    let p = place_named(places, name)->0;
    let m = stack_of(places, name)->Ok_0;
    let flat = MatrixModel { out_dim: m.first.out_dim * m.n_expert, ..m.first };
    let row = e * m.first.out_dim + index;
    stacks_are_sound(places, name, file.len());
    small_products(p.dims);
    assert(0 <= row < flat.out_dim) by (nonlinear_arith)
        requires
            row == e * m.first.out_dim + index,
            0 <= index < m.first.out_dim,
            0 <= e < m.n_expert,
            flat.out_dim == m.first.out_dim * m.n_expert,
    ;
    assert(m.first.row_bytes * flat.out_dim == m.first.row_bytes * m.first.out_dim * m.n_expert)
        by (nonlinear_arith)
        requires
            flat.out_dim == m.first.out_dim * m.n_expert,
    ;
    matrix::rows_are_the_tensor(flat, file, row, j);
    assert(0 <= row * m.first.in_dim + j < m.first.in_dim * m.first.out_dim * m.n_expert) by (
    nonlinear_arith)
        requires
            0 <= row < m.first.out_dim * m.n_expert,
            0 <= j < m.first.in_dim,
    ;
    assert(e * (m.first.row_bytes * m.first.out_dim) + index * m.first.row_bytes == row
        * m.first.row_bytes) by (nonlinear_arith)
        requires
            row == e * m.first.out_dim + index,
    ;
    assert(0 <= e * (m.first.row_bytes * m.first.out_dim)) by {
        matrix::experts_are_sound(m, file.len(), e);
    }
    assert(m.expert(e).row_slice(file, index) == flat.row_slice(file, row));
}

impl LoadedModel {
    /// Where the tensors lie.
    pub open spec fn places(self) -> Seq<Place> {
        self.tensors.places()
    }

    /// The number of bytes in the file.
    pub open spec fn len(self) -> nat {
        self.tensors.len()
    }

    /// A model, from the header of its file and the number of bytes in the file.
    pub fn open(gguf: GgufFile, file_len: usize) -> (r: Result<LoadedModel, LoadError>)
        requires
            tensors_fit(gguf.tensors@, gguf.data_offset),
        ensures
            match r {
                Ok(m) => {
                    &&& model_of(gguf, file_len as nat) == Ok::<(Config, Seq<Place>), LoadFault>(
                        (m.config@, m.places()),
                    )
                    &&& m.metadata@ == gguf.metadata@
                    &&& m.len() == file_len
                },
                Err(e) => model_of(gguf, file_len as nat) == Err::<
                    (Config, Seq<Place>),
                    LoadFault,
                >(e@),
            },
    {
        let architecture = match gguf::metadata_string(&gguf.metadata, "general.architecture") {
            Some(a) => a,
            None => return Err(LoadError::MissingArchitecture),
        };
        match resolve_arch_family(architecture.as_str()) {
            Ok(_) => {},
            Err(e) => return Err(e),
        }
        let config = match read_model_config(&gguf.metadata, architecture.as_str()) {
            Ok(c) => c,
            Err(e) => return Err(e),
        };
        match TensorTable::new(&gguf.tensors, gguf.data_offset, file_len) {
            Ok(tensors) => Ok(LoadedModel { config, metadata: gguf.metadata, tensors }),
            Err(e) => Err(e),
        }
    }

    /// Whether the model has a tensor of that name.
    pub fn has_tensor(&self, name: &str) -> (r: bool)
        ensures
            r == (place_named(self.places(), name@) is Some),
    {
        match self.tensors.find(name) {
            Some(_) => true,
            None => false,
        }
    }

    /// The elements of a tensor, with its dimensions.
    pub fn tensor(&self, file: &[u8], name: &str) -> (r: Result<(Vec<Element>, &Vec<u64>), LoadError>)
        requires
            file@.len() == self.len(),
        ensures
            match r {
                Ok((elements, dims)) => match place_named(self.places(), name@) {
                    Some(p) => elements@ == tensor_elements(p, file@) && dims@ == p.dims,
                    None => false,
                },
                Err(e) => place_named(self.places(), name@) is None && e@
                    == LoadFault::MissingTensor(name@),
            },
    {
        match self.tensors.find(name) {
            None => Err(LoadError::MissingTensor { name: name.to_owned() }),
            Some(loc) => {
                proof {
                    small_products(loc.dims@);
                    matrix::bytes_hold_their_elements(loc.ggml_type, product(loc.dims@));
                }
                let part = vstd::slice::slice_subrange(file, loc.start, loc.start + loc.len);
                let n: u64 = element_count(&loc.dims);
                match dequantize(loc.ggml_type, part, n as usize) {
                    Ok(elements) => {
                        assert(elements@ =~= tensor_elements(loc.place(), file@));
                        Ok((elements, &loc.dims))
                    },
                    Err(cause) => Err(LoadError::Tensor { name: name.to_owned(), cause }),
                }
            },
        }
    }

    /// Whether the rows of the tensor under a name can be counted, where it has that
    /// many dimensions.
    pub fn has_countable_rows(&self, name: &str, n_dims: usize) -> (r: bool)
        ensures
            r == rows_fit(self.places(), name@, n_dims as nat),
    {
        let loc = match self.tensors.find(name) {
            None => {
                return true;
            },
            Some(loc) => loc,
        };
        if loc.dims.len() != n_dims || n_dims == 0 {
            return true;
        }
        let ghost p = loc.place();
        let mut i: usize = 0;
        while i < n_dims
            invariant
                i <= n_dims,
                n_dims == loc.dims@.len(),
                p.dims == loc.dims@,
                n_dims > 0,
                place_named(self.places(), name@) == Some(p),
                forall|k: int| 0 <= k < i ==> (#[trigger] p.dims[k]) <= usize::MAX,
            decreases n_dims - i,
        {
            if loc.dims[i] > usize::MAX as u64 {
                assert(p.dims[i as int] > usize::MAX);
                return false;
            }
            i += 1;
        }
        match counted_bytes(loc.ggml_type, loc.dims[0]) {
            None => false,
            Some(row) => n_dims != 3 || match row.checked_mul(loc.dims[1]) {
                None => false,
                Some(size) => size <= usize::MAX as u64,
            },
        }
    }

    /// The matrix under a name: a tensor with two dimensions, the length of a row
    /// first and the number of rows second.
    pub fn matrix(&self, name: &str) -> (r: Result<QuantMatrix, LoadError>)
        requires
            rows_fit(self.places(), name@, 2),
        ensures
            match r {
                Ok(m) => matrix_of(self.places(), name@) == Ok::<MatrixModel, LoadFault>(m@)
                    && m@.sound(self.len()),
                Err(e) => matrix_of(self.places(), name@) == Err::<MatrixModel, LoadFault>(e@),
            },
    {
        match self.tensors.find(name) {
            None => Err(LoadError::MissingTensor { name: name.to_owned() }),
            Some(loc) => {
                if loc.dims.len() != 2 {
                    return Err(
                        LoadError::NotMatrix { name: name.to_owned(), dims: loc.dims.clone() },
                    );
                }
                proof {
                    small_products(loc.dims@);
                }
                match tensor_byte_size(loc.ggml_type, loc.dims[0]) {
                    Err(cause) => Err(LoadError::Tensor { name: name.to_owned(), cause }),
                    Ok(row_bytes) => {
                        proof {
                            matrices_are_sound(self.places(), name@, self.len());
                        }
                        Ok(
                            QuantMatrix::new(
                                loc.ggml_type,
                                loc.start,
                                row_bytes as usize,
                                loc.dims[0] as usize,
                                loc.dims[1] as usize,
                            ),
                        )
                    },
                }
            },
        }
    }

    /// The stack of matrices under a name: a tensor with three dimensions, the
    /// length of a row, the number of rows and the number of experts.
    pub fn expert_matrix(&self, name: &str) -> (r: Result<ExpertQuantMatrix, LoadError>)
        requires
            rows_fit(self.places(), name@, 3),
        ensures
            match r {
                Ok(m) => stack_of(self.places(), name@) == Ok::<StackModel, LoadFault>(m@) && m.wf(
                    self.len(),
                ),
                Err(e) => stack_of(self.places(), name@) == Err::<StackModel, LoadFault>(e@),
            },
    {
        match self.tensors.find(name) {
            None => Err(LoadError::MissingTensor { name: name.to_owned() }),
            Some(loc) => {
                if loc.dims.len() != 3 {
                    return Err(
                        LoadError::NotStacked { name: name.to_owned(), dims: loc.dims.clone() },
                    );
                }
                proof {
                    small_products(loc.dims@);
                }
                match tensor_byte_size(loc.ggml_type, loc.dims[0]) {
                    Err(cause) => Err(LoadError::Tensor { name: name.to_owned(), cause }),
                    Ok(bytes) => {
                        proof {
                            stacks_are_sound(self.places(), name@, self.len());
                            assert(loc.place().dims[1] <= usize::MAX);
                            assert(loc.place().dims[2] <= usize::MAX);
                        }
                        let row_bytes: usize = bytes as usize;
                        let out_dim: usize = loc.dims[1] as usize;
                        Ok(
                            ExpertQuantMatrix::new(
                                loc.ggml_type,
                                loc.start,
                                row_bytes,
                                row_bytes * out_dim,
                                loc.dims[0] as usize,
                                out_dim,
                                loc.dims[2] as usize,
                            ),
                        )
                    },
                }
            },
        }
    }

    /// The unsigned integer under the key of a hyperparameter.
    pub fn metadata_u64(&self, suffix: &str) -> (r: Option<u64>)
        ensures
            r == gguf::unsigned_value(
                self.metadata@,
                super::key_text(self.config@.architecture, suffix@),
            ),
    {
        let key = arch_key(self.config.architecture.as_str(), suffix);
        gguf::metadata_u64(&self.metadata, key.as_str())
    }

    /// The single-precision value under the key of a hyperparameter, as bits.
    pub fn metadata_f32(&self, suffix: &str) -> (r: Option<u32>)
        ensures
            r == gguf::single_value(
                self.metadata@,
                super::key_text(self.config@.architecture, suffix@),
            ),
    {
        let key = arch_key(self.config.architecture.as_str(), suffix);
        gguf::metadata_f32(&self.metadata, key.as_str())
    }

    /// The list of unsigned integers under the key of a hyperparameter.
    pub fn metadata_array_u64(&self, suffix: &str) -> (r: Option<Vec<u64>>)
        ensures
            match gguf::first_value(
                self.metadata@,
                super::key_text(self.config@.architecture, suffix@),
                gguf::Sort::List,
            ) {
                Some(GgufValue::Array(items)) => r is Some && r->0@ == gguf::array_unsigned(items@),
                _ => r is None,
            },
    {
        let key = arch_key(self.config.architecture.as_str(), suffix);
        gguf::u64_array(&self.metadata, key.as_str())
    }
}

/// The product of no dimensions is one, that of one is itself, and that of two lists in a
/// row is the product of theirs.
pub proof fn products_multiply(a: Seq<u64>, b: Seq<u64>, d: u64)
    ensures
        product(Seq::empty()) == 1,
        product(seq![d]) == d,
        product(a + b) == product(a) * product(b),
    decreases b.len(),
{
    assert(seq![d].drop_last() =~= Seq::<u64>::empty());
    reveal_with_fuel(product, 2);
    assert(1 * d as nat == d) by (nonlinear_arith);
    if b.len() == 0 {
        assert(a + b =~= a);
        assert(product(a) * 1 == product(a)) by (nonlinear_arith);
    } else {
        products_multiply(a, b.drop_last(), d);
        assert((a + b).drop_last() =~= a + b.drop_last());
        let (x, y, z) = (product(a), product(b.drop_last()), b.last() as nat);
        assert((x * y) * z == x * (y * z)) by (nonlinear_arith);
    }
}

/// Where all tensors lie in the file, each is listed at its own place: under its name,
/// from the start of the data plus its offset on, with as many bytes as its elements take.
pub proof fn tensors_lie_at_their_offsets(
    tensors: Seq<GgufTensor>,
    data_offset: u64,
    file_len: nat,
    i: int,
)
    requires
        places_of(tensors, data_offset, file_len) is Ok,
        0 <= i < tensors.len(),
    ensures
        places_of(tensors, data_offset, file_len)->Ok_0.len() == tensors.len(),
        ({
            let (p, t) = (places_of(tensors, data_offset, file_len)->Ok_0[i], tensors[i]);
            &&& p.name == t.name@
            &&& p.ggml_type == t.ggml_type
            &&& p.dims == t.dims@
            &&& p.start == data_offset + t.offset
            &&& quant::byte_size(t.ggml_type, product(t.dims@)) == Ok::<nat, QuantError>(p.len)
            &&& p.start + p.len <= file_len
        }),
    decreases tensors.len(),
{
    let rest = tensors.drop_last();
    reveal_with_fuel(places_of, 2);
    if rest.len() > 0 {
        tensors_lie_at_their_offsets(
            rest,
            data_offset,
            file_len,
            if i < rest.len() {
                i
            } else {
                0
            },
        );
    }
}

/// The first tensor that lies nowhere is told: one whose bytes cannot be counted by what
/// is wrong with it, one that does not end within the file by its name.
pub proof fn the_first_bad_tensor_is_told(
    tensors: Seq<GgufTensor>,
    data_offset: u64,
    file_len: nat,
    i: int,
)
    requires
        0 <= i < tensors.len(),
        places_of(tensors.take(i), data_offset, file_len) is Ok,
    ensures
        ({
            let t = tensors[i];
            let size = quant::byte_size(t.ggml_type, product(t.dims@));
            &&& size is Err ==> places_of(tensors, data_offset, file_len) == Err::<
                Seq<Place>,
                LoadFault,
            >(LoadFault::Tensor(t.name@, size->Err_0))
            &&& size is Ok && data_offset + t.offset + size->Ok_0 > file_len ==> places_of(
                tensors,
                data_offset,
                file_len,
            ) == Err::<Seq<Place>, LoadFault>(LoadFault::PastEnd(t.name@))
            &&& size is Ok && data_offset + t.offset + size->Ok_0 <= file_len ==> places_of(
                tensors.take(i + 1),
                data_offset,
                file_len,
            ) is Ok
        }),
{
    assert(tensors.take(i + 1).drop_last() =~= tensors.take(i));
    first_failure(tensors, data_offset, file_len, i + 1);
}

/// Under a name stands the last place that has it, and none only where none has it.
pub proof fn the_last_of_a_name_is_found(places: Seq<Place>, name: Seq<char>, i: int)
    ensures
        0 <= i < places.len() && places[i].name == name && (forall|j: int|
            i < j < places.len() ==> (#[trigger] places[j]).name != name) ==> place_named(
            places,
            name,
        ) == Some(places[i]),
        place_named(places, name) is None <==> forall|j: int|
            0 <= j < places.len() ==> (#[trigger] places[j]).name != name,
    decreases places.len(),
{
    if places.len() > 0 {
        let rest = places.drop_last();
        the_last_of_a_name_is_found(rest, name, i);
        assert(places[places.len() - 1] == places.last());
        assert forall|j: int| 0 <= j < rest.len() implies rest[j] == places[j] by {}
        if place_named(places, name) is None {
            assert forall|j: int| 0 <= j < places.len() implies (#[trigger] places[j]).name
                != name by {
                if j < rest.len() {
                    assert(rest[j].name != name);
                }
            }
        }
        if 0 <= i < rest.len() {
            assert forall|j: int|
                i < j < rest.len() && (forall|k: int|
                    i < k < places.len() ==> (#[trigger] places[k]).name != name) implies (
            #[trigger] rest[j]).name != name by {
                assert(places[j].name != name);
            }
        }
    }
}

/// A matrix is the tensor under its name where that has two dimensions: the first is the
/// length of a row, the second the number of rows, and its rows begin where it begins. A
/// stack has a third, the number of matrices.
pub proof fn matrices_are_shaped_as_their_tensors(places: Seq<Place>, name: Seq<char>)
    ensures
        matrix_of(places, name) is Ok ==> {
            let (m, p) = (matrix_of(places, name)->Ok_0, place_named(places, name)->0);
            &&& place_named(places, name) is Some
            &&& p.dims.len() == 2
            &&& m.in_dim == p.dims[0]
            &&& m.out_dim == p.dims[1]
            &&& m.start == p.start
            &&& m.ggml_type == p.ggml_type
            &&& quant::byte_size(p.ggml_type, m.in_dim) == Ok::<nat, QuantError>(m.row_bytes)
        },
        stack_of(places, name) is Ok ==> {
            let (m, p) = (stack_of(places, name)->Ok_0, place_named(places, name)->0);
            &&& place_named(places, name) is Some
            &&& p.dims.len() == 3
            &&& m.first.in_dim == p.dims[0]
            &&& m.first.out_dim == p.dims[1]
            &&& m.n_expert == p.dims[2]
            &&& m.first.start == p.start
            &&& m.first.ggml_type == p.ggml_type
            &&& quant::byte_size(p.ggml_type, m.first.in_dim) == Ok::<nat, QuantError>(
                m.first.row_bytes,
            )
        },
        place_named(places, name) is None ==> matrix_of(places, name) == Err::<
            MatrixModel,
            LoadFault,
        >(LoadFault::MissingTensor(name)) && stack_of(places, name) == Err::<StackModel, LoadFault>(
            LoadFault::MissingTensor(name),
        ),
        place_named(places, name) is Some && place_named(places, name)->0.dims.len() != 2
            ==> matrix_of(places, name) == Err::<MatrixModel, LoadFault>(
            LoadFault::NotMatrix(name, place_named(places, name)->0.dims),
        ),
        place_named(places, name) is Some && place_named(places, name)->0.dims.len() != 3
            ==> stack_of(places, name) == Err::<StackModel, LoadFault>(
            LoadFault::NotStacked(name, place_named(places, name)->0.dims),
        ),
{
}

/// The elements of a tensor are those of the bytes from where it begins.
pub proof fn tensors_hold_the_elements_of_their_bytes(p: Place, file: Seq<u8>, i: int)
    requires
        p.start + p.len <= file.len(),
        0 <= i < product(p.dims),
    ensures
        tensor_elements(p, file).len() == product(p.dims),
        tensor_elements(p, file)[i] == quant::element_at(
            p.ggml_type,
            Seq::new(p.len, |k: int| file[p.start + k]),
            i,
        ),
{
    assert(Seq::new(p.len, |k: int| file[p.start + k]) =~= file.subrange(
        p.start as int,
        (p.start + p.len) as int,
    ));
}

/// A tensor can be counted exactly where no product of its first dimensions is too large, its
/// elements and their bytes can be counted, and where its bytes end can be.
pub proof fn tensors_are_counted_within_limits(tensor: GgufTensor, data_offset: u64, len: nat)
    requires
        quant::byte_size(tensor.ggml_type, product(tensor.dims@)) == Ok::<nat, QuantError>(len),
    ensures
        tensor_fits(tensor, data_offset) <==> {
            &&& forall|k: int|
                0 <= k <= tensor.dims@.len() ==> product(#[trigger] tensor.dims@.take(k))
                    <= u64::MAX
            &&& product(tensor.dims@) <= usize::MAX
            &&& data_offset + tensor.offset + len <= usize::MAX
        },
{
}

/// The rows of a tensor can be counted exactly where its dimensions, the bytes of a row and,
/// where it is a stack, those of one expert's rows can be; a tensor of another number of
/// dimensions, or none, stands in the way of nothing.
pub proof fn rows_are_counted_within_limits(
    places: Seq<Place>,
    name: Seq<char>,
    p: Place,
    row: nat,
)
    requires
        place_named(places, name) == Some(p),
        p.dims.len() > 0,
        quant::byte_size(p.ggml_type, p.dims[0] as nat) == Ok::<nat, QuantError>(row),
    ensures
        p.dims.len() != 2 ==> rows_fit(places, name, 2),
        p.dims.len() != 3 ==> rows_fit(places, name, 3),
        p.dims.len() == 2 ==> (rows_fit(places, name, 2) <==> p.dims[0] <= usize::MAX && p.dims[1]
            <= usize::MAX && row <= usize::MAX),
        p.dims.len() == 3 ==> (rows_fit(places, name, 3) <==> p.dims[0] <= usize::MAX && p.dims[1]
            <= usize::MAX && p.dims[2] <= usize::MAX && row <= usize::MAX && row * p.dims[1]
            <= usize::MAX),
{
}

/// A model is refused for the first thing that is wrong: that its architecture is not said, that
/// it is none that can be run, what its hyperparameters lack, and then its tensors.
pub proof fn models_are_refused_in_order(gguf: GgufFile, file_len: nat, a: Seq<char>)
    ensures
        ({
            let said = gguf::text_value(gguf.metadata@, "general.architecture"@);
            let places = places_of(gguf.tensors@, gguf.data_offset, file_len);
            let r = model_of(gguf, file_len);
            &&& said is None ==> r == Err::<(Config, Seq<Place>), LoadFault>(
                LoadFault::MissingArchitecture,
            )
            &&& said == Some(a) && super::family_of(a) is None ==> r == Err::<
                (Config, Seq<Place>),
                LoadFault,
            >(LoadFault::UnsupportedArchitecture(a))
            &&& said == Some(a) && super::family_of(a) is Some ==> {
                let config = super::config_of(gguf.metadata@, a);
                &&& config is Err ==> r == Err::<(Config, Seq<Place>), LoadFault>(config->Err_0)
                &&& config is Ok && places is Err ==> r == Err::<(Config, Seq<Place>), LoadFault>(
                    places->Err_0,
                )
                &&& config is Ok && places is Ok ==> r == Ok::<(Config, Seq<Place>), LoadFault>(
                    (config->Ok_0, places->Ok_0),
                )
            }
        }),
{
}

} // verus!
