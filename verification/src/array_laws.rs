//! Which arrays are read as strings, and how what they are made of decides it.

use vstd::prelude::*;

use crate::array::{ArrayKind, ArrayTree, CastRoute};
use crate::batch::{ArrayCells, ScanBatch, TimestampUnit};

verus! {

/// A timestamp in seconds is refused within a day of the first or the last second that has a date,
/// and nowhere else. In smaller units it goes by the second that it stands in. All in nanoseconds are
/// dated alike.
pub proof fn timestamps_are_refused_near_the_edges(moment: i64)
    ensures
        !crate::array::dated_alike(TimestampUnit::Second, moment) <==> -8334601228800 <= moment
            < -8334601228800 + 86400 || 8210266876799 - 86400 < moment <= 8210266876799,
        crate::array::dated_alike(TimestampUnit::Millisecond, moment)
            == crate::array::dated_alike(TimestampUnit::Second, (moment as int / 1000) as i64),
        crate::array::dated_alike(TimestampUnit::Microsecond, moment)
            == crate::array::dated_alike(TimestampUnit::Second, (moment as int / 1000000) as i64),
        crate::array::dated_alike(TimestampUnit::Nanosecond, moment),
{
}

/// What a way down the parts of an array leads to: each number is the place of a part in what was
/// reached before.
pub open spec fn reached(tree: ArrayTree, way: Seq<int>) -> Option<ArrayTree>
    decreases way.len(),
{
    if way.len() == 0 {
        Some(tree)
    } else if 0 <= way[0] < tree.parts.len() {
        reached(tree.parts[way[0]], way.drop_first())
    } else {
        None
    }
}

/// An array can be written down by itself: every timestamp in a time zone that it holds is dated
/// alike, and the places behind the point of its decimals are no more than their digits.
pub open spec fn written_by_itself(tree: ArrayTree) -> bool {
    &&& forall|i: int, moment: i64|
        tree.zone is Some && 0 <= i < tree.moments.len() && #[trigger] tree.moments[i] == Some(
            moment,
        ) ==> #[trigger] crate::array::dated_alike(tree.zone->0, moment)
    &&& tree.decimal matches Some((precision, scale)) ==> scale <= precision
}

/// What is written down of an array itself.
proof fn lemma_written_by_itself(tree: ArrayTree)
    ensures
        crate::array::writable_itself(tree) <==> written_by_itself(tree),
{
    if crate::array::writable_itself(tree) {
        assert forall|i: int, moment: i64|
            tree.zone is Some && 0 <= i < tree.moments.len() && #[trigger] tree.moments[i] == Some(
                moment,
            ) implies #[trigger] crate::array::dated_alike(tree.zone->0, moment) by {
            assert(tree.moments[i] is Some);
        }
    }
    if written_by_itself(tree) && tree.zone is Some {
        assert forall|i: int| 0 <= i < tree.moments.len() implies (
        #[trigger] tree.moments[i] is Some ==> crate::array::dated_alike(
            tree.zone->0,
            tree.moments[i]->0,
        )) by {
            if tree.moments[i] is Some {
                assert(tree.moments[i] == Some(tree.moments[i]->0));
                let moment = tree.moments[i]->0;
                assert(crate::array::dated_alike(tree.zone->0, moment));
            }
        }
    }
}

/// What can be written down can be so in every part, however deep.
pub proof fn every_part_can_be_written_down(tree: ArrayTree, way: Seq<int>)
    requires
        crate::array::writable(tree),
        reached(tree, way) is Some,
    ensures
        written_by_itself(reached(tree, way)->0),
    decreases way.len(),
{
    if way.len() == 0 {
        lemma_written_by_itself(tree);
    } else {
        assert(crate::array::writable(tree.parts[way[0]]));
        every_part_can_be_written_down(tree.parts[way[0]], way.drop_first());
    }
}

/// What cannot be written down has a part, however deep, that cannot be so by itself. Nothing else is
/// refused.
pub proof fn some_part_cannot_be_written_down(tree: ArrayTree) -> (way: Seq<int>)
    requires
        !crate::array::writable(tree),
    ensures
        reached(tree, way) is Some,
        !written_by_itself(reached(tree, way)->0),
    decreases tree,
{
    if !crate::array::writable_itself(tree) {
        lemma_written_by_itself(tree);
        assert(reached(tree, Seq::empty()) == Some(tree));
        Seq::empty()
    } else {
        let i = choose|i: int|
            0 <= i < tree.parts.len() && !crate::array::writable(#[trigger] tree.parts[i]);
        let rest = some_part_cannot_be_written_down(tree.parts[i]);
        let way = seq![i] + rest;
        assert(way.drop_first() =~= rest);
        way
    }
}

/// Arrays of strings and of bytes are cast as they are, and so are lists of a size other than one,
/// which cannot be cast. Views of strings, and all other arrays that are not made of others in one of
/// the ways below, are cast through 64-bit offsets: the views always, the others where they can be
/// written down.
pub proof fn routes_of_single_arrays(tree: ArrayTree)
    ensures
        tree.kind is Utf8 || tree.kind is LargeUtf8 || tree.kind is Bytes ==> crate::array::route(
            tree,
        ) == Some(CastRoute::Direct),
        tree.kind matches ArrayKind::FixedSizeList(size) ==> size != 1 ==> crate::array::route(tree)
            == Some(CastRoute::Direct),
        tree.kind is Utf8View ==> crate::array::route(tree) == Some(CastRoute::ThroughLarge),
        tree.kind is Other ==> crate::array::route(tree) == if crate::array::writable(tree) {
            Some(CastRoute::ThroughLarge)
        } else {
            None
        },
{
}

/// The route of an array that holds its cells through another: none where the other has none, direct
/// where the other's is, through views where the other's is.
pub open spec fn goes_as(outer: Option<CastRoute>, inner: Option<CastRoute>) -> bool {
    &&& outer is None <==> inner is None
    &&& outer == Some(CastRoute::Direct) <==> inner == Some(CastRoute::Direct)
    &&& outer == Some(CastRoute::ThroughViews) <==> inner == Some(CastRoute::ThroughViews)
}

/// A dictionary, a list of one element and a run go as what they are made of. A dictionary takes its
/// own route through 64-bit offsets where its values are cast through them and are no dictionary;
/// nothing else takes that route. Of runs there must be no more than 32 bits number, and they must be
/// of a dictionary, or of an array that is not made of others.
pub proof fn routes_of_layers(tree: ArrayTree)
    ensures
        tree.kind is Dictionary && tree.parts.len() == 1 ==> {
            let inner = crate::array::route(tree.parts[0]);
            &&& goes_as(crate::array::route(tree), inner)
            &&& crate::array::route(tree) == Some(CastRoute::ThroughValues) <==> inner == Some(
                CastRoute::ThroughLarge,
            ) && !(tree.parts[0].kind is Dictionary)
        },
        crate::array::route(tree) == Some(CastRoute::ThroughValues) ==> tree.kind is Dictionary,
        tree.kind == ArrayKind::FixedSizeList(1) && tree.parts.len() == 1 ==> goes_as(
            crate::array::route(tree),
            crate::array::route(tree.parts[0]),
        ),
        tree.kind is RunEndEncoded && tree.parts.len() == 2 ==> if tree.parts[0].len <= i32::MAX && (
        tree.parts[1].kind is Dictionary || (tree.parts[1].parts.len() == 0
            && !(tree.parts[1].kind is Union))) {
            goes_as(crate::array::route(tree), crate::array::route(tree.parts[1]))
        } else {
            crate::array::route(tree) is None
        },
{
    reveal_with_fuel(crate::array::route, 2);
}

/// The first of some arrays that hold strings is found, and none where none does.
proof fn lemma_first_text(parts: Seq<ArrayTree>, from: int, place: int)
    requires
        0 <= from <= parts.len(),
    ensures
        from <= place < parts.len() && crate::array::is_text(parts[place]) && (forall|k: int|
            from <= k < place ==> !crate::array::is_text(#[trigger] parts[k]))
            ==> crate::array::first_text(parts, from) == Some(place),
        (forall|k: int| from <= k < parts.len() ==> !crate::array::is_text(#[trigger] parts[k]))
            ==> crate::array::first_text(parts, from) is None,
    decreases parts.len() - from,
{
    if from < parts.len() {
        lemma_first_text(parts, from + 1, place);
    }
}

/// The first of some arrays that can be cast is found, and none where none can.
proof fn lemma_first_read(parts: Seq<ArrayTree>, from: int, place: int)
    requires
        0 <= from <= parts.len(),
    ensures
        from <= place < parts.len() && parts[place].reads && (forall|k: int|
            from <= k < place ==> !(#[trigger] parts[k]).reads) ==> crate::array::first_read(
            parts,
            from,
        ) == Some(place),
        (forall|k: int| from <= k < parts.len() ==> !(#[trigger] parts[k]).reads)
            ==> crate::array::first_read(parts, from) is None,
    decreases parts.len() - from,
{
    if from < parts.len() {
        lemma_first_read(parts, from + 1, place);
    }
}

/// A part that holds strings, in whatever form.
pub open spec fn holds_text(part: ArrayTree) -> bool {
    part.kind is Utf8 || part.kind is LargeUtf8 || part.kind is Utf8View
}

/// A union with a part of strings is cast at once where some part has 32-bit offsets, or where the
/// first part of strings, in `place`, has 64-bit offsets, and through views where that holds views. A
/// union without goes as its first part that can be cast, in `place`, if cells can be picked from it,
/// and is cast at once, to no avail, where no part can be cast.
pub proof fn routes_of_unions(tree: ArrayTree, place: int)
    requires
        tree.kind is Union,
    ensures
        (exists|i: int| 0 <= i < tree.parts.len() && (#[trigger] tree.parts[i]).kind is Utf8)
            ==> crate::array::route(tree) == Some(CastRoute::Direct),
        0 <= place < tree.parts.len() && (forall|i: int|
            0 <= i < tree.parts.len() ==> !((#[trigger] tree.parts[i]).kind is Utf8)) && holds_text(
            tree.parts[place],
        ) && (forall|i: int| 0 <= i < place ==> !holds_text(#[trigger] tree.parts[i]))
            ==> crate::array::route(tree) == if tree.parts[place].kind is Utf8View {
            Some(CastRoute::ThroughViews)
        } else {
            Some(CastRoute::Direct)
        },
        0 <= place < tree.parts.len() && (forall|i: int|
            0 <= i < tree.parts.len() ==> !holds_text(#[trigger] tree.parts[i]))
            && tree.parts[place].reads && (forall|i: int|
            0 <= i < place ==> !(#[trigger] tree.parts[i]).reads) ==> if tree.parts[place].kind is Dictionary
            || (tree.parts[place].parts.len() == 0 && !(tree.parts[place].kind is Union)) {
            goes_as(crate::array::route(tree), crate::array::route(tree.parts[place]))
        } else {
            crate::array::route(tree) is None
        },
        (forall|i: int|
            0 <= i < tree.parts.len() ==> !holds_text(#[trigger] tree.parts[i]) && !(
            #[trigger] tree.parts[i]).reads) ==> crate::array::route(tree) == Some(
            CastRoute::Direct,
        ),
{
    let parts = tree.parts;
    lemma_first_text(parts, 0, place);
    lemma_first_read(parts, 0, place);
    assert forall|i: int| 0 <= i < parts.len() implies holds_text(#[trigger] parts[i])
        == crate::array::is_text(parts[i]) by {}
    if exists|i: int| 0 <= i < parts.len() && (#[trigger] parts[i]).kind is Utf8 {
        let i = choose|i: int| 0 <= i < parts.len() && (#[trigger] parts[i]).kind is Utf8;
        assert(parts[i].kind == ArrayKind::Utf8);
        lemma_text_is_found(parts, 0, i);
    }
}

/// Where some array holds strings, a first one is found.
proof fn lemma_text_is_found(parts: Seq<ArrayTree>, from: int, place: int)
    requires
        0 <= from <= place < parts.len(),
        crate::array::is_text(parts[place]),
    ensures
        crate::array::first_text(parts, from) is Some,
    decreases parts.len() - from,
{
    if !crate::array::is_text(parts[from]) {
        lemma_text_is_found(parts, from + 1, place);
    }
}

/// The bytes of text are those of its strings, one after the other. `sums` are the sums on the way.
pub proof fn bytes_are_summed(cells: Seq<Option<Seq<char>>>, sums: Seq<int>)
    requires
        sums.len() == cells.len() + 1,
        sums[0] == 0,
        forall|i: int|
            0 <= i < cells.len() ==> sums[i + 1] == sums[i] + match #[trigger] cells[i] {
                Some(text) => vstd::utf8::encode_utf8(text).len() as int,
                None => 0,
            },
    ensures
        crate::batch::text_bytes(cells) == sums.last(),
        crate::batch::addressable(cells) <==> sums.last() <= i32::MAX,
    decreases cells.len(),
{
    if cells.len() > 0 {
        let last = cells.len() - 1;
        assert forall|i: int| 0 <= i < last implies sums.drop_last()[i + 1] == sums.drop_last()[i]
            + match #[trigger] cells.drop_last()[i] {
            Some(text) => vstd::utf8::encode_utf8(text).len() as int,
            None => 0,
        } by {
            assert(cells[i] == cells.drop_last()[i]);
        }
        bytes_are_summed(cells.drop_last(), sums.drop_last());
        assert(sums[last + 1] == sums[last] + match cells[last] {
            Some(text) => vstd::utf8::encode_utf8(text).len() as int,
            None => 0,
        });
    }
}

/// What a column is read as when it is cast to strings. A batch without the column gives nothing.
/// Strings come as they are, however many. Of a dictionary of strings come the strings, unless their
/// bytes are too many for 32-bit offsets; `sums` are the sums of their bytes on the way. All else is
/// cast where it has a route, and gives nothing elsewhere.
pub proof fn what_a_cast_reads(batch: ScanBatch, name: Seq<char>, sums: Seq<int>)
    ensures
        match crate::batch::column_named(crate::batch::batch_columns(batch), name) {
            None => crate::batch::cast_named(batch, name) is None,
            Some(column) => match column.cells {
                ArrayCells::Utf8(cells) => crate::batch::cast_named(batch, name) == Some(cells),
                ArrayCells::DictionaryUtf8(cells) => sums.len() == cells.len() + 1 && sums[0] == 0
                    && (forall|i: int|
                    0 <= i < cells.len() ==> sums[i + 1] == sums[i] + match #[trigger] cells[i] {
                        Some(text) => vstd::utf8::encode_utf8(text).len() as int,
                        None => 0,
                    }) ==> crate::batch::cast_named(batch, name) == if sums.last() <= i32::MAX {
                    Some(cells)
                } else {
                    None
                },
                _ => crate::batch::cast_named(batch, name) == if crate::array::route(
                    column.tree,
                ) is Some {
                    crate::batch::batch_text(batch, name)
                } else {
                    None
                },
            },
        },
{
    if let Some(column) = crate::batch::column_named(crate::batch::batch_columns(batch), name) {
        if let ArrayCells::DictionaryUtf8(cells) = column.cells {
            if sums.len() == cells.len() + 1 && sums[0] == 0 && (forall|i: int|
                0 <= i < cells.len() ==> sums[i + 1] == sums[i] + match #[trigger] cells[i] {
                    Some(text) => vstd::utf8::encode_utf8(text).len() as int,
                    None => 0,
                }) {
                bytes_are_summed(cells, sums);
            }
        }
    }
}

} // verus!
