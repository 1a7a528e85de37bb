//! The contents of a model file's header: typed metadata values under textual
//! keys, and the tensors' places.

use vstd::prelude::*;

use crate::text;
use crate::text::same_text;

verus! {

/// A metadata value. Floats are held as the bits of their binary encoding; a
/// double also carries its value rounded to single precision.
#[derive(Debug)]
pub enum GgufValue {
    U8(u8),
    I8(i8),
    U16(u16),
    I16(i16),
    U32(u32),
    I32(i32),
    F32(u32),
    Bool(bool),
    String(String),
    Array(Vec<GgufValue>),
    U64(u64),
    I64(i64),
    F64 { bits: u64, single: u32 },
}

/// One tensor of a model file: its name, its dimensions with the fastest-varying
/// first, its type, and its offset from the start of the data.
#[derive(Debug)]
pub struct GgufTensor {
    pub name: String,
    pub dims: Vec<u64>,
    pub ggml_type: u32,
    pub offset: u64,
}

/// The header of a model file.
#[derive(Debug)]
pub struct GgufFile {
    pub version: u32,
    pub metadata: Vec<(String, GgufValue)>,
    pub tensors: Vec<GgufTensor>,
    pub alignment: u64,
    pub data_offset: u64,
}

/// A sort of value that a lookup can ask for.
#[derive(Clone, Copy, PartialEq, Eq, Debug, Structural)]
pub enum Sort {
    Any,
    Text,
    List,
    Float,
}

impl Sort {
    /// Whether a value is of this sort.
    pub open spec fn admits(self, v: GgufValue) -> bool {
        match self {
            Sort::Any => true,
            Sort::Text => v is String,
            Sort::List => v is Array,
            Sort::Float => v is F32 || v is F64,
        }
    }

    fn accepts(self, v: &GgufValue) -> (r: bool)
        ensures
            r == self.admits(*v),
    {
        match self {
            Sort::Any => true,
            Sort::Text => match v {
                GgufValue::String(_) => true,
                _ => false,
            },
            Sort::List => match v {
                GgufValue::Array(_) => true,
                _ => false,
            },
            Sort::Float => match v {
                GgufValue::F32(_) => true,
                GgufValue::F64 { .. } => true,
                _ => false,
            },
        }
    }
}

impl GgufValue {
    /// The value as an unsigned integer: a nonnegative integer as it is, a truth
    /// value as one or zero, and nothing for anything else.
    pub open spec fn unsigned(self) -> Option<u64> {
        match self {
            GgufValue::U8(v) => Some(v as u64),
            GgufValue::U16(v) => Some(v as u64),
            GgufValue::U32(v) => Some(v as u64),
            GgufValue::U64(v) => Some(v),
            GgufValue::I8(v) => if v >= 0 {
                Some(v as u64)
            } else {
                None
            },
            GgufValue::I16(v) => if v >= 0 {
                Some(v as u64)
            } else {
                None
            },
            GgufValue::I32(v) => if v >= 0 {
                Some(v as u64)
            } else {
                None
            },
            GgufValue::I64(v) => if v >= 0 {
                Some(v as u64)
            } else {
                None
            },
            GgufValue::Bool(b) => Some(
                if b {
                    1u64
                } else {
                    0u64
                },
            ),
            _ => None,
        }
    }

    /// The value as a signed integer, wrapped around where it does not fit, and
    /// zero where it is no integer.
    pub open spec fn signed_or_zero(self) -> i64 {
        match self {
            GgufValue::I8(v) => v as i64,
            GgufValue::I16(v) => v as i64,
            GgufValue::I32(v) => v as i64,
            GgufValue::I64(v) => v,
            GgufValue::U8(v) => v as i64,
            GgufValue::U16(v) => v as i64,
            GgufValue::U32(v) => v as i64,
            GgufValue::U64(v) => v as i64,
            _ => 0,
        }
    }

    /// The bits of the value in single precision, where it is a float.
    pub open spec fn single(self) -> Option<u32> {
        match self {
            GgufValue::F32(bits) => Some(bits),
            GgufValue::F64 { single, .. } => Some(single),
            _ => None,
        }
    }

    /// The value as an unsigned integer.
    pub fn as_u64(&self) -> (r: Option<u64>)
        ensures
            r == self.unsigned(),
    {
        match self {
            GgufValue::U8(v) => Some(*v as u64),
            GgufValue::U16(v) => Some(*v as u64),
            GgufValue::U32(v) => Some(*v as u64),
            GgufValue::U64(v) => Some(*v),
            GgufValue::I8(v) => if *v >= 0 {
                Some(*v as u64)
            } else {
                None
            },
            GgufValue::I16(v) => if *v >= 0 {
                Some(*v as u64)
            } else {
                None
            },
            GgufValue::I32(v) => if *v >= 0 {
                Some(*v as u64)
            } else {
                None
            },
            GgufValue::I64(v) => if *v >= 0 {
                Some(*v as u64)
            } else {
                None
            },
            GgufValue::Bool(b) => if *b {
                Some(1)
            } else {
                Some(0)
            },
            _ => None,
        }
    }

    /// The value as a signed integer, or zero.
    pub fn as_i64_or_zero(&self) -> (r: i64)
        ensures
            r == self.signed_or_zero(),
    {
        match self {
            GgufValue::I8(v) => *v as i64,
            GgufValue::I16(v) => *v as i64,
            GgufValue::I32(v) => *v as i64,
            GgufValue::I64(v) => *v,
            GgufValue::U8(v) => *v as i64,
            GgufValue::U16(v) => *v as i64,
            GgufValue::U32(v) => *v as i64,
            GgufValue::U64(v) => *v as i64,
            _ => 0,
        }
    }

    /// The bits of the value in single precision, where it is a float.
    pub fn as_single(&self) -> (r: Option<u32>)
        ensures
            r == self.single(),
    {
        match self {
            GgufValue::F32(bits) => Some(*bits),
            GgufValue::F64 { single, .. } => Some(*single),
            _ => None,
        }
    }
}

/// The first value at or after entry `i` that stands under `key` and is of the
/// wanted sort.
pub open spec fn find_from(
    metadata: Seq<(String, GgufValue)>,
    key: Seq<char>,
    sort: Sort,
    i: int,
) -> Option<GgufValue>
    decreases metadata.len() - i,
{
    if i < 0 || i >= metadata.len() {
        None
    } else if metadata[i].0@ == key && sort.admits(metadata[i].1) {
        Some(metadata[i].1)
    } else {
        find_from(metadata, key, sort, i + 1)
    }
}

/// The first value that stands under `key` and is of the wanted sort.
pub open spec fn first_value(
    metadata: Seq<(String, GgufValue)>,
    key: Seq<char>,
    sort: Sort,
) -> Option<GgufValue> {
    find_from(metadata, key, sort, 0)
}

/// The texts among the items of an array, in order.
pub open spec fn array_texts(items: Seq<GgufValue>) -> Seq<Seq<char>>
    decreases items.len(),
{
    if items.len() == 0 {
        Seq::empty()
    } else {
        let rest = array_texts(items.drop_last());
        match items.last() {
            GgufValue::String(s) => rest.push(s@),
            _ => rest,
        }
    }
}

/// The unsigned integers among the items of an array, in order.
pub open spec fn array_unsigned(items: Seq<GgufValue>) -> Seq<u64>
    decreases items.len(),
{
    if items.len() == 0 {
        Seq::empty()
    } else {
        let rest = array_unsigned(items.drop_last());
        match items.last().unsigned() {
            Some(v) => rest.push(v),
            None => rest,
        }
    }
}

/// The list of texts under a key.
pub open spec fn text_list(metadata: Seq<(String, GgufValue)>, key: Seq<char>) -> Option<
    Seq<Seq<char>>,
> {
    match first_value(metadata, key, Sort::List) {
        Some(GgufValue::Array(items)) => Some(array_texts(items@)),
        _ => None,
    }
}

/// The list of signed integers under a key, with zero for what is no integer.
pub open spec fn signed_list(metadata: Seq<(String, GgufValue)>, key: Seq<char>) -> Option<
    Seq<i64>,
> {
    match first_value(metadata, key, Sort::List) {
        Some(GgufValue::Array(items)) => Some(
            items@.map_values(|v: GgufValue| v.signed_or_zero()),
        ),
        _ => None,
    }
}

/// The list of single-precision values under a key, with zero for what is no
/// float.
pub open spec fn single_list(metadata: Seq<(String, GgufValue)>, key: Seq<char>) -> Option<
    Seq<u32>,
> {
    match first_value(metadata, key, Sort::List) {
        Some(GgufValue::Array(items)) => Some(
            items@.map_values(
                |v: GgufValue|
                    match v.single() {
                        Some(bits) => bits,
                        None => 0u32,
                    },
            ),
        ),
        _ => None,
    }
}

/// The unsigned integer under a key: the first entry with that key decides.
pub open spec fn unsigned_value(metadata: Seq<(String, GgufValue)>, key: Seq<char>) -> Option<
    u64,
> {
    match first_value(metadata, key, Sort::Any) {
        Some(v) => v.unsigned(),
        None => None,
    }
}

/// The text under a key.
pub open spec fn text_value(metadata: Seq<(String, GgufValue)>, key: Seq<char>) -> Option<
    Seq<char>,
> {
    match first_value(metadata, key, Sort::Text) {
        Some(GgufValue::String(s)) => Some(s@),
        _ => None,
    }
}

/// The single-precision value under a key.
pub open spec fn single_value(metadata: Seq<(String, GgufValue)>, key: Seq<char>) -> Option<u32> {
    match first_value(metadata, key, Sort::Float) {
        Some(v) => v.single(),
        None => None,
    }
}

/// The first value that stands under `key` and is of the wanted sort.
pub fn find_value<'a>(
    metadata: &'a Vec<(String, GgufValue)>,
    key: &str,
    sort: Sort,
) -> (r: Option<&'a GgufValue>)
    ensures
        r is Some <==> first_value(metadata@, key@, sort) is Some,
        r is Some ==> *r->0 == first_value(metadata@, key@, sort)->0,
        r is Some ==> sort.admits(*r->0),
{
    let mut i: usize = 0;
    while i < metadata.len()
        invariant
            i <= metadata.len(),
            find_from(metadata@, key@, sort, i as int) == first_value(metadata@, key@, sort),
        decreases metadata.len() - i,
    {
        if same_text(metadata[i].0.as_str(), key) && sort.accepts(&metadata[i].1) {
            return Some(&metadata[i].1);
        }
        i += 1;
    }
    None
}

/// The list of texts under a key.
pub fn string_array(metadata: &Vec<(String, GgufValue)>, key: &str) -> (r: Option<Vec<String>>)
    ensures
        r is Some <==> text_list(metadata@, key@) is Some,
        r is Some ==> text::texts(r->0@) == text_list(metadata@, key@)->0,
{
    match find_value(metadata, key, Sort::List) {
        Some(GgufValue::Array(items)) => {
            let mut out: Vec<String> = Vec::new();
            let mut i: usize = 0;
            assert(text::texts(out@) =~= array_texts(items@.take(0)));
            while i < items.len()
                invariant
                    i <= items.len(),
                    text::texts(out@) == array_texts(items@.take(i as int)),
                decreases items.len() - i,
            {
                assert(items@.take(i + 1).drop_last() =~= items@.take(i as int));
                if let GgufValue::String(s) = &items[i] {
                    let ghost before = out@;
                    out.push(s.clone());
                    assert(text::texts(out@) =~= text::texts(before).push(s@));
                }
                i += 1;
            }
            assert(items@.take(items@.len() as int) =~= items@);
            Some(out)
        },
        _ => None,
    }
}

/// The list of signed integers under a key, with zero for what is no integer.
pub fn i64_array(metadata: &Vec<(String, GgufValue)>, key: &str) -> (r: Option<Vec<i64>>)
    ensures
        r is Some <==> signed_list(metadata@, key@) is Some,
        r is Some ==> r->0@ == signed_list(metadata@, key@)->0,
{
    match find_value(metadata, key, Sort::List) {
        Some(GgufValue::Array(items)) => {
            let mut out: Vec<i64> = Vec::new();
            let mut i: usize = 0;
            while i < items.len()
                invariant
                    i <= items.len(),
                    out@.len() == i,
                    forall|j: int| 0 <= j < i ==> out@[j] == items@[j].signed_or_zero(),
                decreases items.len() - i,
            {
                out.push(items[i].as_i64_or_zero());
                i += 1;
            }
            assert(out@ =~= items@.map_values(|v: GgufValue| v.signed_or_zero()));
            Some(out)
        },
        _ => None,
    }
}

/// The list of single-precision values under a key, as bits, with zero for what
/// is no float.
pub fn f32_array(metadata: &Vec<(String, GgufValue)>, key: &str) -> (r: Option<Vec<u32>>)
    ensures
        r is Some <==> single_list(metadata@, key@) is Some,
        r is Some ==> r->0@ == single_list(metadata@, key@)->0,
{
    match find_value(metadata, key, Sort::List) {
        Some(GgufValue::Array(items)) => {
            let mut out: Vec<u32> = Vec::new();
            let mut i: usize = 0;
            while i < items.len()
                invariant
                    i <= items.len(),
                    out@.len() == i,
                    forall|j: int|
                        0 <= j < i ==> out@[j] == (match items@[j].single() {
                            Some(bits) => bits,
                            None => 0u32,
                        }),
                decreases items.len() - i,
            {
                match items[i].as_single() {
                    Some(bits) => out.push(bits),
                    None => out.push(0),
                }
                i += 1;
            }
            assert(out@ =~= single_list(metadata@, key@)->0);
            Some(out)
        },
        _ => None,
    }
}

/// The list of unsigned integers under a key; what is none is left out.
pub fn u64_array(metadata: &Vec<(String, GgufValue)>, key: &str) -> (r: Option<Vec<u64>>)
    ensures
        match first_value(metadata@, key@, Sort::List) {
            Some(GgufValue::Array(items)) => r is Some && r->0@ == array_unsigned(items@),
            _ => r is None,
        },
{
    match find_value(metadata, key, Sort::List) {
        Some(GgufValue::Array(items)) => {
            let mut out: Vec<u64> = Vec::new();
            let mut i: usize = 0;
            assert(out@ =~= array_unsigned(items@.take(0)));
            while i < items.len()
                invariant
                    i <= items.len(),
                    out@ == array_unsigned(items@.take(i as int)),
                decreases items.len() - i,
            {
                assert(items@.take(i + 1).drop_last() =~= items@.take(i as int));
                if let Some(v) = items[i].as_u64() {
                    out.push(v);
                }
                i += 1;
            }
            assert(items@.take(items@.len() as int) =~= items@);
            Some(out)
        },
        _ => None,
    }
}

/// The unsigned integer under a key.
pub fn metadata_u64(metadata: &Vec<(String, GgufValue)>, key: &str) -> (r: Option<u64>)
    ensures
        r == unsigned_value(metadata@, key@),
{
    match find_value(metadata, key, Sort::Any) {
        Some(v) => v.as_u64(),
        None => None,
    }
}

/// The unsigned integer under a key, cut to 32 bits.
pub fn metadata_u32(metadata: &Vec<(String, GgufValue)>, key: &str) -> (r: Option<u32>)
    ensures
        r == (match unsigned_value(metadata@, key@) {
            Some(v) => Some(v as u32),
            None => None,
        }),
{
    match metadata_u64(metadata, key) {
        Some(v) => Some(#[verifier::truncate] (v as u32)),
        None => None,
    }
}

/// The text under a key.
pub fn metadata_string(metadata: &Vec<(String, GgufValue)>, key: &str) -> (r: Option<String>)
    ensures
        r is Some <==> text_value(metadata@, key@) is Some,
        r is Some ==> r->0@ == text_value(metadata@, key@)->0,
{
    match find_value(metadata, key, Sort::Text) {
        Some(GgufValue::String(s)) => Some(s.clone()),
        _ => None,
    }
}

/// The single-precision value under a key, as bits.
pub fn metadata_f32(metadata: &Vec<(String, GgufValue)>, key: &str) -> (r: Option<u32>)
    ensures
        r == single_value(metadata@, key@),
{
    match find_value(metadata, key, Sort::Float) {
        Some(v) => v.as_single(),
        None => None,
    }
}

/// Of the values that stand under a key and are of the wanted sort the first is found,
/// and none only where there is none.
pub proof fn the_first_value_is_found(
    metadata: Seq<(String, GgufValue)>,
    key: Seq<char>,
    sort: Sort,
    i: int,
)
    ensures
        0 <= i < metadata.len() && metadata[i].0@ == key && sort.admits(metadata[i].1) && (
        forall|j: int|
            0 <= j < i ==> (#[trigger] metadata[j]).0@ != key || !sort.admits(metadata[j].1))
            ==> first_value(metadata, key, sort) == Some(metadata[i].1),
        first_value(metadata, key, sort) is None <==> forall|j: int|
            0 <= j < metadata.len() ==> (#[trigger] metadata[j]).0@ != key || !sort.admits(
                metadata[j].1,
            ),
{
    found_from(metadata, key, sort, 0, i);
}

/// The same from an entry on.
proof fn found_from(
    metadata: Seq<(String, GgufValue)>,
    key: Seq<char>,
    sort: Sort,
    from: int,
    i: int,
)
    requires
        0 <= from,
    ensures
        from <= i < metadata.len() && metadata[i].0@ == key && sort.admits(metadata[i].1) && (
        forall|j: int|
            from <= j < i ==> (#[trigger] metadata[j]).0@ != key || !sort.admits(metadata[j].1))
            ==> find_from(metadata, key, sort, from) == Some(metadata[i].1),
        find_from(metadata, key, sort, from) is None <==> forall|j: int|
            from <= j < metadata.len() ==> (#[trigger] metadata[j]).0@ != key || !sort.admits(
                metadata[j].1,
            ),
    decreases metadata.len() - from,
{
    if from < metadata.len() {
        found_from(metadata, key, sort, from + 1, i);
        assert(metadata[from] == metadata[from]);
    }
}

/// What each sort of lookup admits: texts, lists, and floats of either precision.
pub proof fn sorts_admit_their_own(v: GgufValue)
    ensures
        Sort::Any.admits(v),
        Sort::Text.admits(v) <==> v is String,
        Sort::List.admits(v) <==> v is Array,
        Sort::Float.admits(v) <==> v is F32 || v is F64,
{
}

/// A nonnegative integer of any width is read as itself, a truth value as one or zero;
/// negative integers, floats, texts and lists are read as nothing.
pub proof fn integers_are_read_as_themselves(a: u8, b: u16, c: u32, d: u64, t: bool, n: i64)
    ensures
        GgufValue::U8(a).unsigned() == Some(a as u64),
        GgufValue::U16(b).unsigned() == Some(b as u64),
        GgufValue::U32(c).unsigned() == Some(c as u64),
        GgufValue::U64(d).unsigned() == Some(d),
        GgufValue::Bool(t).unsigned() == Some(
            if t {
                1u64
            } else {
                0u64
            },
        ),
        n >= 0 ==> GgufValue::I64(n).unsigned() == Some(n as u64),
        n < 0 ==> GgufValue::I64(n).unsigned() is None,
        0 <= n <= i32::MAX ==> GgufValue::I32(n as i32).unsigned() == Some(n as u64),
        i32::MIN <= n < 0 ==> GgufValue::I32(n as i32).unsigned() is None,
        0 <= n <= i16::MAX ==> GgufValue::I16(n as i16).unsigned() == Some(n as u64),
        i16::MIN <= n < 0 ==> GgufValue::I16(n as i16).unsigned() is None,
        0 <= n <= i8::MAX ==> GgufValue::I8(n as i8).unsigned() == Some(n as u64),
        i8::MIN <= n < 0 ==> GgufValue::I8(n as i8).unsigned() is None,
        GgufValue::F32(c).unsigned() is None,
        forall|v: GgufValue| v is String || v is Array ==> (#[trigger] v.unsigned()) is None,
        GgufValue::I64(n).signed_or_zero() == n,
        i32::MIN <= n <= i32::MAX ==> GgufValue::I32(n as i32).signed_or_zero() == n,
        GgufValue::U32(c).signed_or_zero() == c,
        GgufValue::F32(c).single() == Some(c),
{
}

/// A list of texts is read entry by entry, in its order; entries that are no texts are
/// left out.
pub proof fn texts_are_read_in_order(items: Seq<GgufValue>, v: GgufValue)
    ensures
        array_texts(Seq::empty()) == Seq::<Seq<char>>::empty(),
        v is String ==> array_texts(items.push(v)) == array_texts(items).push(v->String_0@),
        !(v is String) ==> array_texts(items.push(v)) == array_texts(items),
        v.unsigned() is Some ==> array_unsigned(items.push(v)) == array_unsigned(items).push(
            v.unsigned()->0,
        ),
        v.unsigned() is None ==> array_unsigned(items.push(v)) == array_unsigned(items),
{
    assert(items.push(v).drop_last() =~= items);
    assert(array_texts(Seq::empty()) =~= Seq::<Seq<char>>::empty());
}

/// Where all entries of a list are texts, each is read at its own place.
pub proof fn whole_lists_keep_their_places(items: Seq<GgufValue>, i: int)
    requires
        forall|j: int| 0 <= j < items.len() ==> (#[trigger] items[j]) is String,
        0 <= i < items.len(),
    ensures
        array_texts(items).len() == items.len(),
        array_texts(items)[i] == items[i]->String_0@,
    decreases items.len(),
{
    let rest = items.drop_last();
    reveal_with_fuel(array_texts, 2);
    assert(items[items.len() - 1] is String);
    assert forall|j: int| 0 <= j < rest.len() implies (#[trigger] rest[j]) is String by {
        assert(items[j] is String);
    }
    if rest.len() > 0 {
        whole_lists_keep_their_places(
            rest,
            if i < rest.len() {
                i
            } else {
                0
            },
        );
    }
    assert(items[i] is String);
}

/// What is read under a key is what its first entry holds, if it is of the right sort.
pub proof fn values_stand_under_their_keys(
    metadata: Seq<(String, GgufValue)>,
    key: Seq<char>,
    i: int,
)
    requires
        0 <= i < metadata.len(),
        metadata[i].0@ == key,
        forall|j: int| 0 <= j < i ==> (#[trigger] metadata[j]).0@ != key,
    ensures
        unsigned_value(metadata, key) == metadata[i].1.unsigned(),
        metadata[i].1 is String ==> text_value(metadata, key) == Some(metadata[i].1->String_0@),
        metadata[i].1 is F32 ==> single_value(metadata, key) == Some(metadata[i].1->F32_0),
        metadata[i].1 is Array ==> {
            let items = metadata[i].1->Array_0@;
            &&& text_list(metadata, key) == Some(array_texts(items))
            &&& signed_list(metadata, key) is Some
            &&& signed_list(metadata, key)->0.len() == items.len()
            &&& forall|k: int|
                0 <= k < items.len() ==> #[trigger] signed_list(metadata, key)->0[k]
                    == items[k].signed_or_zero()
            &&& single_list(metadata, key) is Some
            &&& single_list(metadata, key)->0.len() == items.len()
            &&& forall|k: int|
                0 <= k < items.len() && items[k] is F32 ==> #[trigger] single_list(
                    metadata,
                    key,
                )->0[k] == items[k]->F32_0
        },
{
    the_first_value_is_found(metadata, key, Sort::Any, i);
    the_first_value_is_found(metadata, key, Sort::Text, i);
    the_first_value_is_found(metadata, key, Sort::List, i);
    the_first_value_is_found(metadata, key, Sort::Float, i);
}

/// Every integer that fits is read as itself where a signed one is asked for, and what is no
/// integer as zero.
pub proof fn what_is_no_integer_is_read_as_zero(v: GgufValue, n: u64, s: i16, c: u16, b: u8, d: i8)
    ensures
        n <= i64::MAX ==> GgufValue::U64(n).signed_or_zero() == n,
        GgufValue::I16(s).signed_or_zero() == s,
        GgufValue::U16(c).signed_or_zero() == c,
        GgufValue::U8(b).signed_or_zero() == b,
        GgufValue::I8(d).signed_or_zero() == d,
        !(v is U8) && !(v is I8) && !(v is U16) && !(v is I16) && !(v is U32) && !(v is I32) && !(
        v is U64) && !(v is I64) ==> v.signed_or_zero() == 0,
{
}

} // verus!
