//! Arrays, as far as a cast to strings depends on what they are made of.

use vstd::prelude::*;

use datafusion::arrow::array::{make_array, Array, ArrayData, Int64Array};
use datafusion::arrow::compute::{can_cast_types, cast};
use datafusion::arrow::datatypes::{DataType, TimeUnit};

use crate::batch::TimestampUnit;

verus! {

/// The data of an array: its type, its buffers, and the data of the arrays that it is made of.
#[verifier::external_type_specification]
#[verifier::external_body]
pub struct ExArrayData(ArrayData);

/// The type of an array, as far as types are told apart.
#[derive(Debug, Clone, Copy, PartialEq, Eq, Structural)]
pub enum ArrayKind {
    Utf8,
    LargeUtf8,
    Utf8View,
    Bytes,
    Dictionary,
    RunEndEncoded,
    /// Lists of one size.
    FixedSizeList(i32),
    Union,
    Other,
}

/// An array and the arrays that it is made of. `zone` is the unit of timestamps in a time zone, and
/// `moments` are these timestamps. `decimal` is the precision and the scale of decimals. `reads` says
/// that values of the type can be cast to strings.
pub struct ArrayTree {
    pub kind: ArrayKind,
    pub len: usize,
    pub zone: Option<TimestampUnit>,
    pub moments: Seq<Option<i64>>,
    pub decimal: Option<(u8, i8)>,
    pub reads: bool,
    pub parts: Seq<ArrayTree>,
}

/// What an array is made of.
pub uninterp spec fn array_tree(data: ArrayData) -> ArrayTree;

/// What an array is cast to first, on its way to strings with 32-bit offsets.
#[derive(Debug, Clone, Copy, PartialEq, Eq, Structural)]
pub enum CastRoute {
    /// Strings with 32-bit offsets.
    Direct,
    /// Strings with 64-bit offsets.
    ThroughLarge,
    /// Views of strings.
    ThroughViews,
    /// A dictionary with the same keys, of strings with 64-bit offsets.
    ThroughValues,
}

/// `ArrayData::data_type` and its variant.
#[verifier::external_body]
pub(crate) fn array_kind(data: &ArrayData) -> (kind: ArrayKind)
    ensures
        kind == array_tree(*data).kind,
{
    match data.data_type() {
        DataType::Utf8 => ArrayKind::Utf8,
        DataType::LargeUtf8 => ArrayKind::LargeUtf8,
        DataType::Utf8View => ArrayKind::Utf8View,
        DataType::Binary | DataType::LargeBinary => ArrayKind::Bytes,
        DataType::Dictionary(..) => ArrayKind::Dictionary,
        DataType::RunEndEncoded(..) => ArrayKind::RunEndEncoded,
        DataType::FixedSizeList(_, size) => ArrayKind::FixedSizeList(*size),
        DataType::Union(..) => ArrayKind::Union,
        _ => ArrayKind::Other,
    }
}

/// `ArrayData::len`: the number of cells.
#[verifier::external_body]
pub(crate) fn array_len(data: &ArrayData) -> (len: usize)
    ensures
        len == array_tree(*data).len,
{
    data.len()
}

/// `ArrayData::data_type`: the unit of timestamps in a time zone, and nothing of other types.
#[verifier::external_body]
pub(crate) fn array_zone(data: &ArrayData) -> (zone: Option<TimestampUnit>)
    ensures
        zone == array_tree(*data).zone,
{
    match data.data_type() {
        DataType::Timestamp(TimeUnit::Second, Some(_)) => Some(TimestampUnit::Second),
        DataType::Timestamp(TimeUnit::Millisecond, Some(_)) => Some(TimestampUnit::Millisecond),
        DataType::Timestamp(TimeUnit::Microsecond, Some(_)) => Some(TimestampUnit::Microsecond),
        DataType::Timestamp(TimeUnit::Nanosecond, Some(_)) => Some(TimestampUnit::Nanosecond),
        _ => None,
    }
}

/// `arrow::compute::cast` of timestamps to `Int64`, which keeps the numbers: the timestamps as they
/// are stored, `None` where they are null. Nothing comes of other types.
#[verifier::external_body]
pub(crate) fn array_moments(data: &ArrayData) -> (moments: Vec<Option<i64>>)
    requires
        array_tree(*data).zone is Some,
    ensures
        moments@ == array_tree(*data).moments,
{
    let numbers = cast(&make_array(data.clone()), &DataType::Int64);
    let numbers = numbers.ok().and_then(|array| array.as_any().downcast_ref::<Int64Array>().cloned());
    numbers.map(|array| array.iter().collect()).unwrap_or_default()
}

/// `ArrayData::data_type`: the precision and the scale of decimals, and nothing of other types.
#[verifier::external_body]
pub(crate) fn array_decimal(data: &ArrayData) -> (decimal: Option<(u8, i8)>)
    ensures
        decimal == array_tree(*data).decimal,
{
    match data.data_type() {
        DataType::Decimal32(precision, scale) => Some((*precision, *scale)),
        DataType::Decimal64(precision, scale) => Some((*precision, *scale)),
        DataType::Decimal128(precision, scale) => Some((*precision, *scale)),
        DataType::Decimal256(precision, scale) => Some((*precision, *scale)),
        _ => None,
    }
}

/// `arrow::compute::can_cast_types` from the type of the array to `Utf8`.
#[verifier::external_body]
pub(crate) fn array_reads(data: &ArrayData) -> (reads: bool)
    ensures
        reads == array_tree(*data).reads,
{
    can_cast_types(data.data_type(), &DataType::Utf8)
}

/// `ArrayData::child_data`: the arrays that an array is made of.
#[verifier::external_body]
pub(crate) fn array_parts(data: &ArrayData) -> (parts: Vec<ArrayData>)
    ensures
        parts@.len() == array_tree(*data).parts.len(),
        forall|i: int|
            0 <= i < parts@.len() ==> array_tree(#[trigger] parts@[i]) == array_tree(*data).parts[i],
{
    data.child_data().to_vec()
}

/// The first and the last second that have a date.
pub const FIRST_SECOND: i64 = -8334601228800;

pub const LAST_SECOND: i64 = 8210266876799;

/// No time zone is a day or more from UTC.
pub const DAY: i64 = 86400;

/// How many of a unit make up a second.
pub open spec fn per_second(unit: TimestampUnit) -> int {
    match unit {
        TimestampUnit::Second => 1,
        TimestampUnit::Millisecond => 1000,
        TimestampUnit::Microsecond => 1000000,
        TimestampUnit::Nanosecond => 1000000000,
    }
}

/// A timestamp has a date in every time zone, or in none.
pub open spec fn dated_alike(unit: TimestampUnit, moment: i64) -> bool {
    let second = per_second(unit);
    ||| moment < FIRST_SECOND * second
    ||| (FIRST_SECOND + DAY) * second <= moment < (LAST_SECOND + 1 - DAY) * second
    ||| (LAST_SECOND + 1) * second <= moment
}

/// Whether a timestamp has a date in every time zone, or in none.
pub fn is_dated_alike(unit: TimestampUnit, moment: i64) -> (result: bool)
    ensures
        result == dated_alike(unit, moment),
{
    let second: i64 = match unit {
        TimestampUnit::Second => 1,
        TimestampUnit::Millisecond => 1000,
        TimestampUnit::Microsecond => 1000000,
        TimestampUnit::Nanosecond => {
            return true;
        },
    };
    assert(second == 1 || second == 1000 || second == 1000000);
    moment < FIRST_SECOND * second || ((FIRST_SECOND + DAY) * second <= moment && moment < (
    LAST_SECOND + 1 - DAY) * second) || (LAST_SECOND + 1) * second <= moment
}

/// The values of the array itself can be written down: its timestamps have local times, and its
/// decimals have no more places behind the point than they have digits.
pub open spec fn writable_itself(tree: ArrayTree) -> bool {
    &&& match tree.zone {
        Some(unit) => forall|i: int|
            0 <= i < tree.moments.len() ==> (#[trigger] tree.moments[i] is Some ==> dated_alike(
                unit,
                tree.moments[i]->0,
            )),
        None => true,
    }
    &&& match tree.decimal {
        Some((precision, scale)) => scale <= precision,
        None => true,
    }
}

/// The values of the array, and of all that it is made of, can be written down.
pub open spec fn writable(tree: ArrayTree) -> bool
    decreases tree,
{
    &&& writable_itself(tree)
    &&& forall|i: int| 0 <= i < tree.parts.len() ==> writable(#[trigger] tree.parts[i])
}

/// Cells of the array can be picked, however often. That is so of arrays that are not made of others,
/// and of dictionaries, of which only keys are picked.
pub open spec fn pickable(tree: ArrayTree) -> bool {
    tree.kind == ArrayKind::Dictionary || (tree.parts.len() == 0 && tree.kind != ArrayKind::Union)
}

/// An array of strings.
pub open spec fn is_text(tree: ArrayTree) -> bool {
    tree.kind == ArrayKind::Utf8 || tree.kind == ArrayKind::LargeUtf8 || tree.kind
        == ArrayKind::Utf8View
}

/// The place of the first array of strings, if there is one.
pub open spec fn first_text(parts: Seq<ArrayTree>, from: int) -> Option<int>
    decreases parts.len() - from,
{
    if from < 0 || from >= parts.len() {
        None
    } else if is_text(parts[from]) {
        Some(from)
    } else {
        first_text(parts, from + 1)
    }
}

/// The place of the first array that can be cast to strings, if there is one.
pub open spec fn first_read(parts: Seq<ArrayTree>, from: int) -> Option<int>
    decreases parts.len() - from,
{
    if from < 0 || from >= parts.len() {
        None
    } else if parts[from].reads {
        Some(from)
    } else {
        first_read(parts, from + 1)
    }
}

/// Some array has strings with 32-bit offsets.
pub open spec fn some_utf8(parts: Seq<ArrayTree>) -> bool {
    exists|i: int| 0 <= i < parts.len() && (#[trigger] parts[i]).kind == ArrayKind::Utf8
}

/// The route of an array that is made of another, and is not a dictionary.
pub open spec fn outer_route(inner: Option<CastRoute>) -> Option<CastRoute> {
    match inner {
        Some(CastRoute::ThroughValues) => Some(CastRoute::ThroughLarge),
        _ => inner,
    }
}

/// The route of a dictionary. Where its values take the route through 64-bit offsets, they alone do,
/// so that a string that many keys stand for is not written out as often before there is an error.
pub open spec fn dictionary_route(kind: ArrayKind, inner: Option<CastRoute>) -> Option<CastRoute> {
    if kind != ArrayKind::Dictionary && inner == Some(CastRoute::ThroughLarge) {
        Some(CastRoute::ThroughValues)
    } else {
        outer_route(inner)
    }
}

/// On which route an array is cast to strings so that the cast ends in cells or in an error, and in
/// the cells that the direct cast gives where it gives any. Too much text for 32-bit offsets is an
/// error where strings are cast, and not where other values are written down, so these take the route
/// through 64-bit offsets. Of a union the cast takes one part: that of the type asked for, else the
/// first that holds strings, else the first that can be cast.
pub open spec fn route(tree: ArrayTree) -> Option<CastRoute>
    decreases tree,
{
    match tree.kind {
        ArrayKind::Utf8 | ArrayKind::LargeUtf8 | ArrayKind::Bytes => Some(CastRoute::Direct),
        ArrayKind::Utf8View => Some(CastRoute::ThroughLarge),
        ArrayKind::Dictionary => if tree.parts.len() == 1 {
            dictionary_route(tree.parts[0].kind, route(tree.parts[0]))
        } else {
            None
        },
        ArrayKind::FixedSizeList(size) => if size != 1 {
            Some(CastRoute::Direct)
        } else if tree.parts.len() == 1 {
            outer_route(route(tree.parts[0]))
        } else {
            None
        },
        ArrayKind::RunEndEncoded => if tree.parts.len() == 2 && tree.parts[0].len <= i32::MAX
            && pickable(tree.parts[1]) {
            outer_route(route(tree.parts[1]))
        } else {
            None
        },
        ArrayKind::Union => match (first_text(tree.parts, 0), first_read(tree.parts, 0)) {
            (Some(text), _) => if !some_utf8(tree.parts) && tree.parts[text].kind
                == ArrayKind::Utf8View {
                Some(CastRoute::ThroughViews)
            } else {
                Some(CastRoute::Direct)
            },
            (None, Some(read)) => if 0 <= read < tree.parts.len() && pickable(tree.parts[read]) {
                outer_route(route(tree.parts[read]))
            } else {
                None
            },
            (None, None) => Some(CastRoute::Direct),
        },
        ArrayKind::Other => if writable(tree) {
            Some(CastRoute::ThroughLarge)
        } else {
            None
        },
    }
}

/// Whether the values of the array itself can be written down.
fn is_writable_itself(data: &ArrayData) -> (result: bool)
    ensures
        result == writable_itself(array_tree(*data)),
{
    if let Some(unit) = array_zone(data) {
        let moments = array_moments(data);
        for i in 0..moments.len()
            invariant
                moments@ == array_tree(*data).moments,
                array_tree(*data).zone == Some(unit),
                forall|k: int|
                    0 <= k < i ==> (#[trigger] moments@[k] is Some ==> dated_alike(
                        unit,
                        moments@[k]->0,
                    )),
        {
            if let Some(moment) = moments[i] {
                if !is_dated_alike(unit, moment) {
                    assert(array_tree(*data).moments[i as int] is Some);
                    return false;
                }
            }
        }
    }
    match array_decimal(data) {
        Some((precision, scale)) => scale <= 0 || scale as u8 <= precision,
        None => true,
    }
}

/// Whether the values of the array, and of all that it is made of, can be written down.
pub fn is_writable(data: &ArrayData) -> (result: bool)
    ensures
        result == writable(array_tree(*data)),
    decreases array_tree(*data),
{
    let ghost tree = array_tree(*data);
    if !is_writable_itself(data) {
        return false;
    }
    let parts = array_parts(data);
    for i in 0..parts.len()
        invariant
            tree == array_tree(*data),
            writable_itself(tree),
            parts@.len() == tree.parts.len(),
            forall|k: int|
                0 <= k < parts@.len() ==> array_tree(#[trigger] parts@[k]) == tree.parts[k],
            forall|k: int| 0 <= k < i ==> writable(#[trigger] tree.parts[k]),
    {
        assert(array_tree(parts@[i as int]) == tree.parts[i as int]);
        assert(decreases_to!(tree => tree.parts[i as int]));
        if !is_writable(&parts[i]) {
            assert(!writable(tree.parts[i as int]));
            return false;
        }
    }
    true
}

/// Whether cells of the array can be picked.
fn is_pickable(data: &ArrayData) -> (result: bool)
    ensures
        result == pickable(array_tree(*data)),
{
    let kind = array_kind(data);
    kind == ArrayKind::Dictionary || (array_parts(data).len() == 0 && kind != ArrayKind::Union)
}

/// The route of a union, or the place of the part whose route it takes.
fn find_part(parts: &Vec<ArrayData>, Ghost(trees): Ghost<Seq<ArrayTree>>) -> (result: Result<
    CastRoute,
    usize,
>)
    requires
        parts@.len() == trees.len(),
        forall|k: int| 0 <= k < parts@.len() ==> array_tree(#[trigger] parts@[k]) == trees[k],
    ensures
        match result {
            Ok(found) => match first_text(trees, 0) {
                Some(text) => found == if !some_utf8(trees) && trees[text].kind
                    == ArrayKind::Utf8View {
                    CastRoute::ThroughViews
                } else {
                    CastRoute::Direct
                },
                None => first_read(trees, 0) is None && found == CastRoute::Direct,
            },
            Err(read) => read < parts@.len() && first_text(trees, 0) is None && first_read(trees, 0)
                == Some(read as int),
        },
{
    let mut text: Option<ArrayKind> = None;
    let mut read: Option<usize> = None;
    let mut utf8: bool = false;
    for i in 0..parts.len()
        invariant
            parts@.len() == trees.len(),
            forall|k: int| 0 <= k < parts@.len() ==> array_tree(#[trigger] parts@[k]) == trees[k],
            match text {
                Some(kind) => match first_text(trees, 0) {
                    Some(place) => 0 <= place < trees.len() && trees[place].kind == kind,
                    None => false,
                },
                None => first_text(trees, 0) == first_text(trees, i as int),
            },
            match read {
                Some(place) => place < trees.len() && first_read(trees, 0) == Some(place as int),
                None => first_read(trees, 0) == first_read(trees, i as int),
            },
            utf8 == exists|k: int| 0 <= k < i && (#[trigger] trees[k]).kind == ArrayKind::Utf8,
    {
        assert(array_tree(parts@[i as int]) == trees[i as int]);
        let kind = array_kind(&parts[i]);
        if text.is_none() && (kind == ArrayKind::Utf8 || kind == ArrayKind::LargeUtf8 || kind
            == ArrayKind::Utf8View) {
            text = Some(kind);
        }
        if read.is_none() && array_reads(&parts[i]) {
            read = Some(i);
        }
        if kind == ArrayKind::Utf8 {
            utf8 = true;
        }
    }
    match (text, read) {
        (Some(kind), _) => if !utf8 && kind == ArrayKind::Utf8View {
            Ok(CastRoute::ThroughViews)
        } else {
            Ok(CastRoute::Direct)
        },
        (None, Some(place)) => Err(place),
        (None, None) => Ok(CastRoute::Direct),
    }
}

/// The route of an array that is made of another, and is not a dictionary.
fn find_outer_route(inner: Option<CastRoute>) -> (result: Option<CastRoute>)
    ensures
        result == outer_route(inner),
{
    match inner {
        Some(CastRoute::ThroughValues) => Some(CastRoute::ThroughLarge),
        _ => inner,
    }
}

/// Finds the route on which an array is cast to strings, if there is one.
pub fn find_route(data: &ArrayData) -> (result: Option<CastRoute>)
    ensures
        result == route(array_tree(*data)),
    decreases array_tree(*data),
{
    let ghost tree = array_tree(*data);
    let parts = array_parts(data);
    assert forall|i: int| 0 <= i < tree.parts.len() implies decreases_to!(
        tree => #[trigger] tree.parts[i]
    ) by {}
    match array_kind(data) {
        ArrayKind::Utf8 | ArrayKind::LargeUtf8 | ArrayKind::Bytes => Some(CastRoute::Direct),
        ArrayKind::Utf8View => Some(CastRoute::ThroughLarge),
        ArrayKind::Dictionary => if parts.len() == 1 {
            let inner = find_route(&parts[0]);
            match inner {
                Some(CastRoute::ThroughLarge) if array_kind(&parts[0]) != ArrayKind::Dictionary => {
                    Some(CastRoute::ThroughValues)
                },
                _ => find_outer_route(inner),
            }
        } else {
            None
        },
        ArrayKind::FixedSizeList(size) => if size != 1 {
            Some(CastRoute::Direct)
        } else if parts.len() == 1 {
            find_outer_route(find_route(&parts[0]))
        } else {
            None
        },
        ArrayKind::RunEndEncoded => if parts.len() == 2 && array_len(&parts[0])
            <= i32::MAX as usize && is_pickable(&parts[1]) {
            find_outer_route(find_route(&parts[1]))
        } else {
            None
        },
        ArrayKind::Union => match find_part(&parts, Ghost(tree.parts)) {
            Ok(found) => Some(found),
            Err(place) => if is_pickable(&parts[place]) {
                find_outer_route(find_route(&parts[place]))
            } else {
                None
            },
        },
        ArrayKind::Other => if is_writable(data) {
            Some(CastRoute::ThroughLarge)
        } else {
            None
        },
    }
}

} // verus!
