//! A uniform grid of square cells over the plane. Each cell lists the ids of
//! the objects whose rectangle reaches into it, so that a query looks only
//! at the cells it covers.

use vstd::prelude::*;
use std::collections::HashMap;
use crate::collision::CollisionObject;
use crate::math::{floor_divide, Rect};

verus! {

/// The column, or the row, of the cell that holds coordinate `v`.
pub open spec fn cell_of(v: int, cell_size: int) -> int
    recommends
        cell_size > 0,
{
    v / cell_size
}

/// Cell (`cx`, `cy`) lies in the block of cells that `rect` reaches into:
/// every column from that of its left edge to that of its right edge, and
/// every row from that of its top edge to that of its bottom edge.
pub open spec fn covers(rect: Rect, cell_size: int, cx: int, cy: int) -> bool {
    &&& cell_of(rect.left_edge(), cell_size) <= cx <= cell_of(rect.right_edge(), cell_size)
    &&& cell_of(rect.top_edge(), cell_size) <= cy <= cell_of(rect.bottom_edge(), cell_size)
}

/// Some cell lies in the blocks of both rectangles.
#[verifier::opaque]
pub open spec fn share_cell(a: Rect, b: Rect, cell_size: int) -> bool {
    exists|cx: int, cy: int| #[trigger] covers(a, cell_size, cx, cy) && covers(b, cell_size, cx, cy)
}

/// What makes a query for `rect` report `object`.
pub open spec fn reported(object: CollisionObject, rect: Rect, cell_size: int) -> bool {
    object.touches(rect) && share_cell(object.rect, rect, cell_size)
}

/// The ids of the objects grow strictly along the sequence.
pub open spec fn ascending(list: Seq<CollisionObject>) -> bool {
    forall|i: int, j: int| 0 <= i < j < list.len() ==> list[i].id < list[j].id
}

/// Some object of the sequence has the given id.
pub open spec fn lists_id(list: Seq<CollisionObject>, id: u32) -> bool {
    exists|i: int| 0 <= i < list.len() && #[trigger] list[i].id == id
}

/// `list` is the answer to a query for `rect`: the stored objects that the
/// query reports, each once, in the order of their ids.
pub open spec fn listing(
    objects: Map<u32, CollisionObject>,
    rect: Rect,
    cell_size: int,
    list: Seq<CollisionObject>,
) -> bool {
    &&& ascending(list)
    &&& forall|i: int|
        0 <= i < list.len() ==> {
            &&& objects.contains_key(#[trigger] list[i].id)
            &&& objects[list[i].id] == list[i]
            &&& reported(list[i], rect, cell_size)
        }
    &&& forall|id: u32|
        objects.contains_key(id) && reported(#[trigger] objects[id], rect, cell_size) ==> lists_id(
            list,
            id,
        )
}

/// Flooring by a positive divisor keeps the order of the dividends.
pub proof fn lemma_cell_of_monotonic(a: int, b: int, cell_size: int)
    requires
        cell_size > 0,
        a <= b,
    ensures
        cell_of(a, cell_size) <= cell_of(b, cell_size),
{
    vstd::arithmetic::div_mod::lemma_div_is_ordered(a, b, cell_size);
}

/// Two proper rectangles that overlap reach into a common cell, whatever
/// the size of the cells.
pub proof fn lemma_overlap_shares_cell(a: Rect, b: Rect, cell_size: int)
    requires
        cell_size > 0,
        a.proper(),
        b.proper(),
        a.overlaps(b),
    ensures
        share_cell(a, b, cell_size),
{
    reveal(share_cell);
    let x = crate::math::greater(a.left_edge(), b.left_edge());
    let y = crate::math::greater(a.top_edge(), b.top_edge());
    lemma_cell_of_monotonic(a.left_edge(), x, cell_size);
    lemma_cell_of_monotonic(b.left_edge(), x, cell_size);
    lemma_cell_of_monotonic(x, a.right_edge(), cell_size);
    lemma_cell_of_monotonic(x, b.right_edge(), cell_size);
    lemma_cell_of_monotonic(a.top_edge(), y, cell_size);
    lemma_cell_of_monotonic(b.top_edge(), y, cell_size);
    lemma_cell_of_monotonic(y, a.bottom_edge(), cell_size);
    lemma_cell_of_monotonic(y, b.bottom_edge(), cell_size);
    assert(covers(a, cell_size, cell_of(x, cell_size), cell_of(y, cell_size)));
}

/// An answer lists no id twice.
pub proof fn lemma_listing_lists_once(list: Seq<CollisionObject>, i: int, j: int)
    requires
        ascending(list),
        0 <= i < list.len(),
        0 <= j < list.len(),
        list[i].id == list[j].id,
    ensures
        i == j,
{
    if i < j {
        assert(list[i].id < list[j].id);
    } else if j < i {
        assert(list[j].id < list[i].id);
    }
}

/// The answer to a query is settled by what is stored: two answers to one
/// query are the same sequence.
pub proof fn lemma_listing_unique(
    objects: Map<u32, CollisionObject>,
    rect: Rect,
    cell_size: int,
    first: Seq<CollisionObject>,
    second: Seq<CollisionObject>,
)
    requires
        listing(objects, rect, cell_size, first),
        listing(objects, rect, cell_size, second),
    ensures
        first == second,
    decreases first.len(),
{
    if first.len() == 0 {
        if second.len() > 0 {
            assert(lists_id(first, second[0].id));
        }
        assert(first =~= second);
    } else {
        let last = first.last();
        assert(lists_id(second, last.id));
        let k = choose|k: int| 0 <= k < second.len() && #[trigger] second[k].id == last.id;
        if k < second.len() - 1 {
            let other = second[second.len() - 1];
            assert(second[k].id < other.id);
            assert(lists_id(first, other.id));
            let m = choose|m: int| 0 <= m < first.len() && #[trigger] first[m].id == other.id;
            if m < first.len() - 1 {
                assert(first[m].id < first[first.len() - 1].id);
            }
        }
        assert(second.last() == last);
        let objects_rest = objects.remove(last.id);
        let f = first.drop_last();
        let s = second.drop_last();
        assert(listing(objects_rest, rect, cell_size, f)) by {
            assert forall|id: u32|
                objects_rest.contains_key(id) && reported(
                    #[trigger] objects_rest[id],
                    rect,
                    cell_size,
                ) implies lists_id(f, id) by {
                assert(objects[id] == objects_rest[id]);
                assert(lists_id(first, id));
                let m = choose|m: int| 0 <= m < first.len() && #[trigger] first[m].id == id;
                assert(f[m].id == id);
            }
            assert forall|i: int| 0 <= i < f.len() implies {
                &&& objects_rest.contains_key(#[trigger] f[i].id)
                &&& objects_rest[f[i].id] == f[i]
                &&& reported(f[i], rect, cell_size)
            } by {
                assert(f[i] == first[i]);
                assert(first[i].id < first[first.len() - 1].id);
            }
        }
        assert(listing(objects_rest, rect, cell_size, s)) by {
            assert forall|id: u32|
                objects_rest.contains_key(id) && reported(
                    #[trigger] objects_rest[id],
                    rect,
                    cell_size,
                ) implies lists_id(s, id) by {
                assert(objects[id] == objects_rest[id]);
                assert(lists_id(second, id));
                let m = choose|m: int| 0 <= m < second.len() && #[trigger] second[m].id == id;
                assert(s[m].id == id);
            }
            assert forall|i: int| 0 <= i < s.len() implies {
                &&& objects_rest.contains_key(#[trigger] s[i].id)
                &&& objects_rest[s[i].id] == s[i]
                &&& reported(s[i], rect, cell_size)
            } by {
                assert(s[i] == second[i]);
                assert(second[i].id < second[second.len() - 1].id);
            }
        }
        lemma_listing_unique(objects_rest, rect, cell_size, f, s);
        assert(first =~= f.push(last));
        assert(second =~= s.push(last));
    }
}

/// Columns and rows run from this bound below zero, and stay under it above.
pub const CELL_BOUND: i64 = 0x1_0000_0000;

/// A column or a row that a rectangle of 32-bit fields can reach.
pub open spec fn in_cell_bound(c: int) -> bool {
    -CELL_BOUND <= c < CELL_BOUND
}

/// The key under which the bucket of cell (`cx`, `cy`) is kept.
pub open spec fn cell_key(cx: int, cy: int) -> u128 {
    ((cx + CELL_BOUND) * (2 * CELL_BOUND) + (cy + CELL_BOUND)) as u128
}

/// The column of the cell kept under `key`.
pub open spec fn key_column(key: u128) -> int {
    key / ((2 * CELL_BOUND) as u128) - CELL_BOUND
}

/// The row of the cell kept under `key`.
pub open spec fn key_row(key: u128) -> int {
    key % ((2 * CELL_BOUND) as u128) - CELL_BOUND
}

/// Cell (`cx`, `cy`) comes before cell (`px`, `py`) where cells are walked
/// column by column, and each column from its first row on.
pub open spec fn walked(cx: int, cy: int, px: int, py: int) -> bool {
    cx < px || (cx == px && cy < py)
}

/// An object that is being written into the buckets, or wiped from them,
/// cell by cell: the walk stands before cell (`px`, `py`).
pub struct Stage {
    pub id: u32,
    pub rect: Rect,
    pub px: int,
    pub py: int,
    pub adding: bool,
}

/// The staged object is listed in cell (`cx`, `cy`) right now.
pub open spec fn marked(stage: Stage, cell_size: int, cx: int, cy: int) -> bool {
    covers(stage.rect, cell_size, cx, cy) && (stage.adding == walked(cx, cy, stage.px, stage.py))
}

/// Id `e` may stand in the bucket of cell (`cx`, `cy`).
pub open spec fn entry_fits(
    objects: Map<u32, CollisionObject>,
    cell_size: int,
    stage: Option<Stage>,
    cx: int,
    cy: int,
    e: u32,
) -> bool {
    ||| objects.contains_key(e) && covers(objects[e].rect, cell_size, cx, cy)
    ||| stage is Some && e == stage->0.id && marked(stage->0, cell_size, cx, cy)
}

/// The bucket kept under `key` is sound.
pub open spec fn bucket_fits(
    objects: Map<u32, CollisionObject>,
    cell_size: int,
    stage: Option<Stage>,
    key: u128,
    bucket: Seq<u32>,
) -> bool {
    &&& bucket.len() > 0
    &&& bucket.no_duplicates()
    &&& in_cell_bound(key_column(key))
    &&& in_cell_bound(key_row(key))
    &&& key == cell_key(key_column(key), key_row(key))
    &&& forall|i: int|
        0 <= i < bucket.len() ==> entry_fits(
            objects,
            cell_size,
            stage,
            key_column(key),
            key_row(key),
            #[trigger] bucket[i],
        )
}

/// Buckets and records agree: every stored object is listed in each cell
/// of its block, the staged object in the cells marked for it, and a bucket
/// lists nothing else, nothing twice, and is never empty.
pub open spec fn coherent(
    cells: Map<u128, Vec<u32>>,
    objects: Map<u32, CollisionObject>,
    cell_size: int,
    stage: Option<Stage>,
) -> bool {
    &&& cell_size > 0
    &&& stage is Some ==> !objects.contains_key(stage->0.id)
    &&& forall|id: u32| objects.contains_key(id) ==> (#[trigger] objects[id]).id == id
    &&& forall|id: u32, cx: int, cy: int|
        objects.contains_key(id) && #[trigger] covers(objects[id].rect, cell_size, cx, cy) ==> {
            &&& cells.contains_key(cell_key(cx, cy))
            &&& cells[cell_key(cx, cy)]@.contains(id)
        }
    &&& stage is Some ==> forall|cx: int, cy: int| #[trigger]
        marked(stage->0, cell_size, cx, cy) ==> {
            &&& cells.contains_key(cell_key(cx, cy))
            &&& cells[cell_key(cx, cy)]@.contains(stage->0.id)
        }
    &&& forall|key: u128| #[trigger]
        cells.contains_key(key) ==> bucket_fits(objects, cell_size, stage, key, cells[key]@)
}

/// A key gives back the cell it was made from.
pub proof fn lemma_cell_key_inverts(cx: int, cy: int)
    requires
        in_cell_bound(cx),
        in_cell_bound(cy),
    ensures
        key_column(cell_key(cx, cy)) == cx,
        key_row(cell_key(cx, cy)) == cy,
{
    let span = 2 * CELL_BOUND;
    let k = (cx + CELL_BOUND) * span + (cy + CELL_BOUND);
    assert(0 <= k < 0x4_0000_0000_0000_0000) by (nonlinear_arith)
        requires
            0 <= cx + CELL_BOUND < span,
            0 <= cy + CELL_BOUND < span,
            span == 0x2_0000_0000,
            k == (cx + CELL_BOUND) * span + (cy + CELL_BOUND),
    ;
    vstd::arithmetic::div_mod::lemma_fundamental_div_mod_converse(
        k,
        span,
        cx + CELL_BOUND,
        cy + CELL_BOUND,
    );
}

/// The cells of a rectangle's block are all within bounds.
pub proof fn lemma_cell_of_bounded(v: int, cell_size: int)
    requires
        cell_size > 0,
        -CELL_BOUND <= v < CELL_BOUND,
    ensures
        in_cell_bound(cell_of(v, cell_size)),
{
    lemma_cell_of_monotonic(-CELL_BOUND, v, cell_size);
    lemma_cell_of_monotonic(v, CELL_BOUND - 1, cell_size);
    vstd::arithmetic::div_mod::lemma_div_is_ordered_by_denominator(CELL_BOUND - 1, 1, cell_size);
    assert((CELL_BOUND - 1) / 1 == CELL_BOUND - 1);
    assert((-CELL_BOUND) / cell_size >= -CELL_BOUND) by (nonlinear_arith)
        requires
            cell_size > 0,
            CELL_BOUND > 0,
    ;
}

/// A cell that a rectangle covers is within bounds.
pub proof fn lemma_covered_cell_bounded(rect: Rect, cell_size: int, cx: int, cy: int)
    requires
        cell_size > 0,
        covers(rect, cell_size, cx, cy),
    ensures
        in_cell_bound(cx),
        in_cell_bound(cy),
{
    lemma_cell_of_bounded(rect.left_edge(), cell_size);
    lemma_cell_of_bounded(rect.right_edge(), cell_size);
    lemma_cell_of_bounded(rect.top_edge(), cell_size);
    lemma_cell_of_bounded(rect.bottom_edge(), cell_size);
}

/// The spatial hash.
pub struct SpatialGrid {
    /// Edge of a cell.
    cell_size: i32,
    /// The ids listed in each cell that lists any.
    cells: HashMap<u128, Vec<u32>>,
    /// The record of every stored object, by id.
    objects: HashMap<u32, CollisionObject>,
}

/// The key of a cell.
fn make_key(cx: i64, cy: i64) -> (key: u128)
    requires
        in_cell_bound(cx as int),
        in_cell_bound(cy as int),
    ensures
        key == cell_key(cx as int, cy as int),
        key_column(key) == cx,
        key_row(key) == cy,
{
    proof {
        lemma_cell_key_inverts(cx as int, cy as int);
    }
    let a: u128 = (cx + 0x1_0000_0000) as u128;
    let b: u128 = (cy + 0x1_0000_0000) as u128;
    assert(a * 0x2_0000_0000 + b < 0x4_0000_0000_0000_0000) by (nonlinear_arith)
        requires
            0 <= a < 0x2_0000_0000,
            0 <= b < 0x2_0000_0000,
    ;
    a * 0x2_0000_0000 + b
}

/// Puts `object` into a list ordered by id, unless its id is listed.
fn insert_sorted(list: &mut Vec<CollisionObject>, object: CollisionObject)
    requires
        ascending(old(list)@),
    ensures
        ascending(final(list)@),
        lists_id(final(list)@, object.id),
        forall|i: int|
            0 <= i < old(list)@.len() ==> lists_id(final(list)@, (#[trigger] old(list)@[i]).id),
        forall|i: int|
            0 <= i < final(list)@.len() ==> {
                ||| (#[trigger] final(list)@[i]) == object
                ||| old(list)@.contains(final(list)@[i])
            },
{
    let mut at: usize = 0;
    while at < list.len() && list[at].id < object.id
        invariant
            at <= list.len(),
            *list == *old(list),
            forall|i: int| 0 <= i < at ==> list@[i].id < object.id,
        decreases list.len() - at,
    {
        at += 1;
    }
    if at < list.len() && list[at].id == object.id {
        assert(list@[at as int].id == object.id);
        assert forall|i: int| 0 <= i < list@.len() implies old(list)@.contains(
            #[trigger] list@[i],
        ) by {
            assert(old(list)@[i] == list@[i]);
        }
        assert forall|i: int| 0 <= i < old(list)@.len() implies lists_id(
            list@,
            (#[trigger] old(list)@[i]).id,
        ) by {
            assert(list@[i].id == old(list)@[i].id);
        }
    } else {
        let ghost before = list@;
        list.insert(at, object);
        assert(list@ == before.insert(at as int, object));
        assert(list@[at as int] == object);
        assert forall|i: int, j: int| 0 <= i < j < list@.len() implies list@[i].id < list@[j].id by {
            if j < at {
                assert(list@[i] == before[i] && list@[j] == before[j]);
            } else if j == at {
                assert(list@[i] == before[i]);
            } else {
                assert(list@[j] == before[j - 1]);
                if i < at {
                    assert(list@[i] == before[i]);
                    if at < before.len() {
                        assert(before[at as int].id > object.id);
                        assert(before[i].id < object.id);
                    }
                } else if i == at {
                    assert(before[at as int].id > object.id);
                    if j - 1 > at {
                        assert(before[at as int].id < before[j - 1].id);
                    }
                } else {
                    assert(list@[i] == before[i - 1]);
                }
            }
        }
        assert forall|i: int| 0 <= i < before.len() implies lists_id(
            list@,
            (#[trigger] before[i]).id,
        ) by {
            if i < at {
                assert(list@[i].id == before[i].id);
            } else {
                assert(list@[i + 1].id == before[i].id);
            }
        }
        assert forall|i: int| 0 <= i < list@.len() implies {
            ||| (#[trigger] list@[i]) == object
            ||| before.contains(list@[i])
        } by {
            if i < at {
                assert(list@[i] == before[i]);
            } else if i > at {
                assert(list@[i] == before[i - 1]);
            }
        }
    }
}

impl SpatialGrid {
    /// The stored objects, by id.
    pub closed spec fn objects(&self) -> Map<u32, CollisionObject> {
        self.objects@
    }

    /// The edge of a cell.
    pub closed spec fn cell_edge(&self) -> int {
        self.cell_size as int
    }

    /// The ids listed in cell (`cx`, `cy`), in the order in which they were
    /// written; empty where the cell lists none.
    pub closed spec fn bucket(&self, cx: int, cy: int) -> Seq<u32> {
        if self.cells@.contains_key(cell_key(cx, cy)) {
            self.cells@[cell_key(cx, cy)]@
        } else {
            Seq::empty()
        }
    }

    /// Whether a bucket is kept for cell (`cx`, `cy`).
    pub closed spec fn keeps_bucket(&self, cx: int, cy: int) -> bool {
        self.cells@.contains_key(cell_key(cx, cy))
    }

    /// The cell index and the records agree.
    pub closed spec fn wf(&self) -> bool {
        coherent(self.cells@, self.objects@, self.cell_size as int, None)
    }

    /// What a grid in order holds to: its cells have an edge, it stores
    /// finitely many objects, and each under its own id.
    pub proof fn lemma_wf_facts(&self)
        requires
            self.wf(),
        ensures
            self.cell_edge() > 0,
            self.objects().dom().finite(),
            forall|id: u32|
                self.objects().contains_key(id) ==> (#[trigger] self.objects()[id]).id == id,
    {
        broadcast use vstd::std_specs::hash::group_hash_axioms;

    }

    /// An empty grid of cells with the given edge.
    pub fn new(cell_size: i32) -> (grid: Self)
        requires
            cell_size > 0,
        ensures
            grid.wf(),
            grid.cell_edge() == cell_size,
            grid.objects() == Map::<u32, CollisionObject>::empty(),
    {
        Self { cell_size, cells: HashMap::new(), objects: HashMap::new() }
    }

    /// Whether an object with the given id is stored.
    pub fn has_object(&self, id: u32) -> (stored: bool)
        ensures
            stored == self.objects().contains_key(id),
    {
        broadcast use vstd::std_specs::hash::group_hash_axioms;

        self.objects.contains_key(&id)
    }

    /// The number of stored objects.
    pub fn object_count(&self) -> (n: usize)
        ensures
            n == self.objects().len(),
    {
        self.objects.len()
    }

    /// Forgets every object.
    pub fn clear(&mut self)
        requires
            old(self).wf(),
        ensures
            final(self).wf(),
            final(self).cell_edge() == old(self).cell_edge(),
            final(self).objects() == Map::<u32, CollisionObject>::empty(),
    {
        self.cells.clear();
        self.objects.clear();
    }

    /// The block of cells that `rect` reaches into: its first and last
    /// column, then its first and last row.
    fn cell_block(&self, rect: &Rect) -> (block: (i64, i64, i64, i64))
        requires
            self.cell_size > 0,
        ensures
            block.0 == cell_of(rect.left_edge(), self.cell_size as int),
            block.1 == cell_of(rect.right_edge(), self.cell_size as int),
            block.2 == cell_of(rect.top_edge(), self.cell_size as int),
            block.3 == cell_of(rect.bottom_edge(), self.cell_size as int),
            in_cell_bound(block.0 as int),
            in_cell_bound(block.1 as int),
            in_cell_bound(block.2 as int),
            in_cell_bound(block.3 as int),
            forall|cx: int, cy: int|
                #[trigger] covers(*rect, self.cell_size as int, cx, cy) <==> block.0 <= cx <= block.1
                    && block.2 <= cy <= block.3,
    {
        proof {
            lemma_cell_of_bounded(rect.left_edge(), self.cell_size as int);
            lemma_cell_of_bounded(rect.right_edge(), self.cell_size as int);
            lemma_cell_of_bounded(rect.top_edge(), self.cell_size as int);
            lemma_cell_of_bounded(rect.bottom_edge(), self.cell_size as int);
        }
        let size: i64 = self.cell_size as i64;
        (
            floor_divide(rect.left(), size),
            floor_divide(rect.right(), size),
            floor_divide(rect.top(), size),
            floor_divide(rect.bottom(), size),
        )
    }

    /// Stores `object`, and lists its id in every cell of its block. An
    /// object already stored under that id is taken out first.
    pub fn add_object(&mut self, object: CollisionObject)
        requires
            old(self).wf(),
        ensures
            final(self).wf(),
            final(self).cell_edge() == old(self).cell_edge(),
            final(self).objects() == old(self).objects().insert(object.id, object),
    {
        broadcast use vstd::std_specs::hash::group_hash_axioms;

        let id = object.id;
        if self.objects.contains_key(&id) {
            let _ = self.remove_object(id);
        }
        let ghost base = self.objects@;
        let ghost size = self.cell_size as int;
        let (min_x, max_x, min_y, max_y) = self.cell_block(&object.rect);
        let mut cx: i64 = min_x;
        proof {
            lemma_stage_opens(self.cells@, base, size, id, object.rect, min_x as int, min_y as int);
        }
        while cx <= max_x
            invariant
                self.objects@ == base,
                self.cell_size as int == size,
                min_x <= cx,
                cx <= max_x + 1 || cx == min_x,
                in_cell_bound(min_x as int),
                in_cell_bound(max_x as int),
                in_cell_bound(min_y as int),
                in_cell_bound(max_y as int),
                forall|x: int, y: int|
                    #[trigger] covers(object.rect, size, x, y) <==> min_x <= x <= max_x && min_y
                        <= y <= max_y,
                coherent(
                    self.cells@,
                    base,
                    size,
                    Some(
                        Stage {
                            id,
                            rect: object.rect,
                            px: cx as int,
                            py: min_y as int,
                            adding: true,
                        },
                    ),
                ),
            decreases max_x + 1 - cx,
        {
            let mut cy: i64 = min_y;
            while cy <= max_y
                invariant
                    self.objects@ == base,
                    self.cell_size as int == size,
                    min_x <= cx <= max_x,
                    min_y <= cy,
                    cy <= max_y + 1 || cy == min_y,
                    in_cell_bound(min_x as int),
                    in_cell_bound(max_x as int),
                    in_cell_bound(min_y as int),
                    in_cell_bound(max_y as int),
                    forall|x: int, y: int|
                        #[trigger] covers(object.rect, size, x, y) <==> min_x <= x <= max_x && min_y
                            <= y <= max_y,
                    coherent(
                        self.cells@,
                        base,
                        size,
                        Some(
                            Stage {
                                id,
                                rect: object.rect,
                                px: cx as int,
                                py: cy as int,
                                adding: true,
                            },
                        ),
                    ),
                decreases max_y + 1 - cy,
            {
                let key = make_key(cx, cy);
                let ghost cells_before = self.cells@;
                let mut bucket: Vec<u32> = match self.cells.remove(&key) {
                    Some(b) => b,
                    None => Vec::new(),
                };
                let ghost bucket_before = bucket@;
                bucket.push(id);
                self.cells.insert(key, bucket);
                proof {
                    assert(covers(object.rect, size, cx as int, cy as int));
                    assert(self.cells@.dom() =~= cells_before.dom().insert(key));
                    lemma_stage_writes(
                        cells_before,
                        self.cells@,
                        base,
                        size,
                        Stage { id, rect: object.rect, px: cx as int, py: cy as int, adding: true },
                    );
                }
                cy += 1;
            }
            proof {
                lemma_stage_turns(
                    self.cells@,
                    base,
                    size,
                    Stage { id, rect: object.rect, px: cx as int, py: cy as int, adding: true },
                    Stage {
                        id,
                        rect: object.rect,
                        px: cx as int + 1,
                        py: min_y as int,
                        adding: true,
                    },
                );
            }
            cx += 1;
        }
        self.objects.insert(id, object);
        proof {
            lemma_stage_closes_added(
                self.cells@,
                base,
                size,
                Stage { id, rect: object.rect, px: cx as int, py: min_y as int, adding: true },
                object,
            );
        }
    }

    /// Takes the object with the given id out of the grid and hands it
    /// back; `None`, and nothing changes, where no such object is stored.
    pub fn remove_object(&mut self, id: u32) -> (taken: Option<CollisionObject>)
        requires
            old(self).wf(),
        ensures
            final(self).wf(),
            final(self).cell_edge() == old(self).cell_edge(),
            final(self).objects() == old(self).objects().remove(id),
            taken == if old(self).objects().contains_key(id) {
                Some(old(self).objects()[id])
            } else {
                None
            },
            taken is Some ==> taken->0.id == id,
            final(self).objects().len() == if old(self).objects().contains_key(id) {
                old(self).objects().len() - 1
            } else {
                old(self).objects().len() as int
            },
    {
        broadcast use vstd::std_specs::hash::group_hash_axioms;

        let ghost stored = self.objects@;
        proof {
            old(self).lemma_wf_facts();
            if stored.contains_key(id) {
                stored.lemma_remove_key_len(id);
            }
        }
        let object = match self.objects.remove(&id) {
            Some(o) => o,
            None => {
                assert(self.objects@ =~= stored);
                return None;
            },
        };
        let ghost base = self.objects@;
        let ghost size = self.cell_size as int;
        let (min_x, max_x, min_y, max_y) = self.cell_block(&object.rect);
        let mut cx: i64 = min_x;
        proof {
            lemma_stage_opens_wipe(
                self.cells@,
                stored,
                size,
                id,
                min_x as int,
                min_y as int,
            );
        }
        while cx <= max_x
            invariant
                self.objects@ == base,
                self.cell_size as int == size,
                min_x <= cx,
                cx <= max_x + 1 || cx == min_x,
                in_cell_bound(min_x as int),
                in_cell_bound(max_x as int),
                in_cell_bound(min_y as int),
                in_cell_bound(max_y as int),
                forall|x: int, y: int|
                    #[trigger] covers(object.rect, size, x, y) <==> min_x <= x <= max_x && min_y
                        <= y <= max_y,
                coherent(
                    self.cells@,
                    base,
                    size,
                    Some(
                        Stage {
                            id,
                            rect: object.rect,
                            px: cx as int,
                            py: min_y as int,
                            adding: false,
                        },
                    ),
                ),
            decreases max_x + 1 - cx,
        {
            let mut cy: i64 = min_y;
            while cy <= max_y
                invariant
                    self.objects@ == base,
                    self.cell_size as int == size,
                    min_x <= cx <= max_x,
                    min_y <= cy,
                    cy <= max_y + 1 || cy == min_y,
                    in_cell_bound(min_x as int),
                    in_cell_bound(max_x as int),
                    in_cell_bound(min_y as int),
                    in_cell_bound(max_y as int),
                    forall|x: int, y: int|
                        #[trigger] covers(object.rect, size, x, y) <==> min_x <= x <= max_x && min_y
                            <= y <= max_y,
                    coherent(
                        self.cells@,
                        base,
                        size,
                        Some(
                            Stage {
                                id,
                                rect: object.rect,
                                px: cx as int,
                                py: cy as int,
                                adding: false,
                            },
                        ),
                    ),
                decreases max_y + 1 - cy,
            {
                let key = make_key(cx, cy);
                let ghost cells_before = self.cells@;
                let ghost stage = Stage {
                    id,
                    rect: object.rect,
                    px: cx as int,
                    py: cy as int,
                    adding: false,
                };
                proof {
                    assert(covers(object.rect, size, cx as int, cy as int));
                    assert(marked(stage, size, cx as int, cy as int));
                    assert(cells_before.contains_key(key));
                    assert(bucket_fits(base, size, Some(stage), key, cells_before[key]@));
                }
                match self.cells.remove(&key) {
                    Some(mut bucket) => {
                        strip(&mut bucket, id);
                        if bucket.len() > 0 {
                            self.cells.insert(key, bucket);
                        }
                    },
                    None => {},
                }
                proof {
                    lemma_stage_wipes(cells_before, self.cells@, base, size, stage);
                }
                cy += 1;
            }
            proof {
                lemma_stage_turns(
                    self.cells@,
                    base,
                    size,
                    Stage { id, rect: object.rect, px: cx as int, py: cy as int, adding: false },
                    Stage {
                        id,
                        rect: object.rect,
                        px: cx as int + 1,
                        py: min_y as int,
                        adding: false,
                    },
                );
            }
            cx += 1;
        }
        proof {
            lemma_stage_closes_wiped(
                self.cells@,
                base,
                size,
                Stage { id, rect: object.rect, px: cx as int, py: min_y as int, adding: false },
            );
        }
        Some(object)
    }

    /// Moves the object with the given id to `new_rect`: it is taken out
    /// and stored again, so that no cell keeps listing it in vain. Nothing
    /// changes where no such object is stored.
    pub fn update_object(&mut self, id: u32, new_rect: Rect)
        requires
            old(self).wf(),
        ensures
            final(self).wf(),
            final(self).cell_edge() == old(self).cell_edge(),
            final(self).objects() == if old(self).objects().contains_key(id) {
                old(self).objects().insert(
                    id,
                    CollisionObject { rect: new_rect, ..old(self).objects()[id] },
                )
            } else {
                old(self).objects()
            },
    {
        let ghost stored = self.objects@;
        match self.remove_object(id) {
            Some(object) => {
                proof {
                    assert(object.id == id);
                }
                let mut updated = object;
                updated.rect = new_rect;
                self.add_object(updated);
                assert(self.objects@ =~= stored.insert(
                    id,
                    CollisionObject { rect: new_rect, ..stored[id] },
                ));
            },
            None => {
                assert(self.objects@ =~= stored);
            },
        }
    }

    /// The stored objects that are active, whose rectangle overlaps `rect`
    /// and whose block of cells meets that of `rect`, each once, in the
    /// order of their ids.
    pub fn query_rect(&self, rect: &Rect) -> (found: Vec<CollisionObject>)
        requires
            self.wf(),
        ensures
            listing(self.objects(), *rect, self.cell_edge(), found@),
    {
        broadcast use vstd::std_specs::hash::group_hash_axioms;

        let ghost size = self.cell_size as int;
        let ghost objects = self.objects@;
        let (min_x, max_x, min_y, max_y) = self.cell_block(rect);
        let mut found: Vec<CollisionObject> = Vec::new();
        let mut cx: i64 = min_x;
        while cx <= max_x
            invariant
                self.wf(),
                size == self.cell_size as int,
                objects == self.objects@,
                min_x <= cx,
                cx <= max_x + 1 || cx == min_x,
                in_cell_bound(min_x as int),
                in_cell_bound(max_x as int),
                in_cell_bound(min_y as int),
                in_cell_bound(max_y as int),
                forall|x: int, y: int|
                    #[trigger] covers(*rect, size, x, y) <==> min_x <= x <= max_x && min_y <= y
                        <= max_y,
                gathered(objects, *rect, size, found@, cx as int, min_y as int),
            decreases max_x + 1 - cx,
        {
            let mut cy: i64 = min_y;
            while cy <= max_y
                invariant
                    self.wf(),
                    size == self.cell_size as int,
                    objects == self.objects@,
                    min_x <= cx <= max_x,
                    min_y <= cy,
                    cy <= max_y + 1 || cy == min_y,
                    in_cell_bound(min_x as int),
                    in_cell_bound(max_x as int),
                    in_cell_bound(min_y as int),
                    in_cell_bound(max_y as int),
                    forall|x: int, y: int|
                        #[trigger] covers(*rect, size, x, y) <==> min_x <= x <= max_x && min_y <= y
                            <= max_y,
                    gathered(objects, *rect, size, found@, cx as int, cy as int),
                decreases max_y + 1 - cy,
            {
                let key = make_key(cx, cy);
                assert(covers(*rect, size, cx as int, cy as int));
                match self.cells.get(&key) {
                    Some(bucket) => {
                        assert(bucket_fits(objects, size, None, key, bucket@));
                        let mut i: usize = 0;
                        while i < bucket.len()
                            invariant
                                i <= bucket.len(),
                                self.wf(),
                                size == self.cell_size as int,
                                objects == self.objects@,
                                self.cells@.contains_key(key),
                                self.cells@[key] == *bucket,
                                key == cell_key(cx as int, cy as int),
                                key_column(key) == cx,
                                key_row(key) == cy,
                                covers(*rect, size, cx as int, cy as int),
                                bucket_fits(objects, size, None, key, bucket@),
                                gathered(objects, *rect, size, found@, cx as int, cy as int),
                                forall|j: int|
                                    0 <= j < i && (#[trigger] objects[bucket@[j]]).touches(*rect)
                                        ==> lists_id(found@, bucket@[j]),
                            decreases bucket.len() - i,
                        {
                            let id = bucket[i];
                            assert(entry_fits(objects, size, None, cx as int, cy as int, bucket@[i as int]));
                            match self.objects.get(&id) {
                                Some(object) => {
                                    if object.intersects(rect) {
                                        let ghost before = found@;
                                        insert_sorted(&mut found, *object);
                                        proof {
                                            assert(covers(object.rect, size, cx as int, cy as int));
                                            assert(share_cell(object.rect, *rect, size)) by {
                                                reveal(share_cell);
                                            }
                                            lemma_gathered_grows(
                                                objects,
                                                *rect,
                                                size,
                                                before,
                                                found@,
                                                *object,
                                                cx as int,
                                                cy as int,
                                            );
                                            assert forall|j: int|
                                                0 <= j < i + 1 && (#[trigger] objects[bucket@[j]]).touches(
                                                    *rect,
                                                ) implies lists_id(found@, bucket@[j]) by {
                                                if j < i {
                                                    assert(lists_id(before, bucket@[j]));
                                                    let m = choose|m: int|
                                                        0 <= m < before.len() && #[trigger] before[m].id
                                                            == bucket@[j];
                                                    assert(lists_id(found@, before[m].id));
                                                }
                                            }
                                        }
                                    }
                                },
                                None => {},
                            }
                            i += 1;
                        }
                        proof {
                            assert forall|id: u32, x: int, y: int|
                                objects.contains_key(id) && reported(
                                    #[trigger] objects[id],
                                    *rect,
                                    size,
                                ) && #[trigger] covers(objects[id].rect, size, x, y) && covers(
                                    *rect,
                                    size,
                                    x,
                                    y,
                                ) && walked(x, y, cx as int, cy as int + 1) implies lists_id(
                                found@,
                                id,
                            ) by {
                                if x == cx && y == cy {
                                    assert(bucket@.contains(id));
                                    let j = choose|j: int| 0 <= j < bucket@.len() && bucket@[j] == id;
                                    assert(objects[bucket@[j]].touches(*rect));
                                } else {
                                    assert(walked(x, y, cx as int, cy as int));
                                }
                            }
                        }
                    },
                    None => {
                        proof {
                            assert forall|id: u32, x: int, y: int|
                                objects.contains_key(id) && reported(
                                    #[trigger] objects[id],
                                    *rect,
                                    size,
                                ) && #[trigger] covers(objects[id].rect, size, x, y) && covers(
                                    *rect,
                                    size,
                                    x,
                                    y,
                                ) && walked(x, y, cx as int, cy as int + 1) implies lists_id(
                                found@,
                                id,
                            ) by {
                                if x == cx && y == cy {
                                    assert(self.cells@.contains_key(cell_key(x, y)));
                                } else {
                                    assert(walked(x, y, cx as int, cy as int));
                                }
                            }
                        }
                    },
                }
                cy += 1;
            }
            cx += 1;
        }
        proof {
            assert forall|id: u32|
                objects.contains_key(id) && reported(
                    #[trigger] objects[id],
                    *rect,
                    size,
                ) implies lists_id(found@, id) by {
                reveal(share_cell);
                let (x, y) = choose|x: int, y: int| #[trigger]
                    covers(objects[id].rect, size, x, y) && covers(*rect, size, x, y);
                assert(walked(x, y, cx as int, min_y as int));
            }
        }
        found
    }

    /// A bucket lists only stored objects that reach into its cell: no id
    /// is left behind when its object goes.
    pub proof fn lemma_bucket_lists_stored(&self, cx: int, cy: int, i: int)
        requires
            self.wf(),
            in_cell_bound(cx),
            in_cell_bound(cy),
            0 <= i < self.bucket(cx, cy).len(),
        ensures
            self.objects().contains_key(self.bucket(cx, cy)[i]),
            covers(self.objects()[self.bucket(cx, cy)[i]].rect, self.cell_edge(), cx, cy),
            self.bucket(cx, cy).no_duplicates(),
    {
        let key = cell_key(cx, cy);
        lemma_cell_key_inverts(cx, cy);
        assert(bucket_fits(self.objects@, self.cell_size as int, None, key, self.cells@[key]@));
        assert(entry_fits(
            self.objects@,
            self.cell_size as int,
            None,
            cx,
            cy,
            self.cells@[key]@[i],
        ));
    }

    /// No bucket is kept that lists nothing: when the last id leaves a
    /// cell, the bucket goes with it.
    pub proof fn lemma_kept_bucket_is_not_empty(&self, cx: int, cy: int)
        requires
            self.wf(),
            self.keeps_bucket(cx, cy),
        ensures
            self.bucket(cx, cy).len() > 0,
    {
        let key = cell_key(cx, cy);
        assert(bucket_fits(self.objects@, self.cell_size as int, None, key, self.cells@[key]@));
    }

    /// Every stored object is listed in each cell of its block.
    pub proof fn lemma_stored_is_listed(&self, id: u32, cx: int, cy: int)
        requires
            self.wf(),
            self.objects().contains_key(id),
            covers(self.objects()[id].rect, self.cell_edge(), cx, cy),
        ensures
            self.bucket(cx, cy).contains(id),
            self.objects()[id].id == id,
    {
    }
}

/// Nothing is marked yet when a walk opens that will write an object in.
proof fn lemma_stage_opens(
    cells: Map<u128, Vec<u32>>,
    objects: Map<u32, CollisionObject>,
    cell_size: int,
    id: u32,
    rect: Rect,
    px: int,
    py: int,
)
    requires
        coherent(cells, objects, cell_size, None),
        !objects.contains_key(id),
        px == cell_of(rect.left_edge(), cell_size),
        py == cell_of(rect.top_edge(), cell_size),
    ensures
        coherent(cells, objects, cell_size, Some(Stage { id, rect, px, py, adding: true })),
{
    let stage = Stage { id, rect, px, py, adding: true };
    assert forall|key: u128| #[trigger] cells.contains_key(key) implies bucket_fits(
        objects,
        cell_size,
        Some(stage),
        key,
        cells[key]@,
    ) by {
        assert(bucket_fits(objects, cell_size, None, key, cells[key]@));
    }
}

/// After the bucket of the cell the walk stands at got the staged id, the
/// walk stands one row further.
proof fn lemma_stage_writes(
    before: Map<u128, Vec<u32>>,
    after: Map<u128, Vec<u32>>,
    objects: Map<u32, CollisionObject>,
    cell_size: int,
    stage: Stage,
)
    requires
        stage.adding,
        coherent(before, objects, cell_size, Some(stage)),
        covers(stage.rect, cell_size, stage.px, stage.py),
        after.dom() == before.dom().insert(cell_key(stage.px, stage.py)),
        forall|key: u128|
            key != cell_key(stage.px, stage.py) && before.contains_key(key) ==> #[trigger] after[key]
                == before[key],
        after[cell_key(stage.px, stage.py)]@ == (if before.contains_key(
            cell_key(stage.px, stage.py),
        ) {
            before[cell_key(stage.px, stage.py)]@
        } else {
            Seq::<u32>::empty()
        }).push(stage.id),
    ensures
        coherent(after, objects, cell_size, Some(Stage { py: stage.py + 1, ..stage })),
{
    let next = Stage { py: stage.py + 1, ..stage };
    let here = cell_key(stage.px, stage.py);
    lemma_covered_cell_bounded(stage.rect, cell_size, stage.px, stage.py);
    lemma_cell_key_inverts(stage.px, stage.py);
    let was = if before.contains_key(here) {
        before[here]@
    } else {
        Seq::<u32>::empty()
    };
    assert(after.contains_key(here));
    assert forall|id: u32, cx: int, cy: int|
        objects.contains_key(id) && #[trigger] covers(objects[id].rect, cell_size, cx, cy) implies {
        &&& after.contains_key(cell_key(cx, cy))
        &&& after[cell_key(cx, cy)]@.contains(id)
    } by {
        let k = cell_key(cx, cy);
        assert(before.contains_key(k) && before[k]@.contains(id));
        if k == here {
            let i = choose|i: int| 0 <= i < was.len() && was[i] == id;
            assert(after[here]@[i] == id);
        }
    }
    assert forall|cx: int, cy: int| #[trigger] marked(next, cell_size, cx, cy) implies {
        &&& after.contains_key(cell_key(cx, cy))
        &&& after[cell_key(cx, cy)]@.contains(stage.id)
    } by {
        let k = cell_key(cx, cy);
        lemma_covered_cell_bounded(stage.rect, cell_size, cx, cy);
        lemma_cell_key_inverts(cx, cy);
        if cx == stage.px && cy == stage.py {
            assert(after[here]@[was.len() as int] == stage.id);
        } else {
            assert(marked(stage, cell_size, cx, cy));
            assert(k != here);
        }
    }
    assert forall|key: u128| #[trigger] after.contains_key(key) implies bucket_fits(
        objects,
        cell_size,
        Some(next),
        key,
        after[key]@,
    ) by {
        if key == here {
            if before.contains_key(here) {
                assert(bucket_fits(objects, cell_size, Some(stage), here, was));
            }
            let now = after[here]@;
            assert forall|i: int| 0 <= i < was.len() implies was[i] != stage.id by {
                assert(entry_fits(objects, cell_size, Some(stage), stage.px, stage.py, was[i]));
            }
            assert forall|i: int, j: int| 0 <= i < now.len() && 0 <= j < now.len() && i
                != j implies now[i] != now[j] by {
                if i < was.len() {
                    assert(now[i] == was[i]);
                }
                if j < was.len() {
                    assert(now[j] == was[j]);
                }
            }
            assert forall|i: int| 0 <= i < now.len() implies entry_fits(
                objects,
                cell_size,
                Some(next),
                key_column(key),
                key_row(key),
                #[trigger] now[i],
            ) by {
                if i < was.len() {
                    assert(now[i] == was[i]);
                    assert(entry_fits(
                        objects,
                        cell_size,
                        Some(stage),
                        stage.px,
                        stage.py,
                        was[i],
                    ));
                } else {
                    assert(marked(next, cell_size, stage.px, stage.py));
                }
            }
        } else {
            assert(before.contains_key(key));
            assert(bucket_fits(objects, cell_size, Some(stage), key, before[key]@));
            let b = after[key]@;
            assert forall|i: int| 0 <= i < b.len() implies entry_fits(
                objects,
                cell_size,
                Some(next),
                key_column(key),
                key_row(key),
                #[trigger] b[i],
            ) by {
                assert(entry_fits(
                    objects,
                    cell_size,
                    Some(stage),
                    key_column(key),
                    key_row(key),
                    b[i],
                ));
            }
        }
    }
}

/// Two places of a walk that mark the same cells stand for the same state.
proof fn lemma_stage_turns(
    cells: Map<u128, Vec<u32>>,
    objects: Map<u32, CollisionObject>,
    cell_size: int,
    stage: Stage,
    next: Stage,
)
    requires
        coherent(cells, objects, cell_size, Some(stage)),
        next.id == stage.id,
        forall|cx: int, cy: int|
            #[trigger] marked(next, cell_size, cx, cy) == marked(stage, cell_size, cx, cy),
    ensures
        coherent(cells, objects, cell_size, Some(next)),
{
    assert forall|cx: int, cy: int| #[trigger] marked(next, cell_size, cx, cy) implies {
        &&& cells.contains_key(cell_key(cx, cy))
        &&& cells[cell_key(cx, cy)]@.contains(next.id)
    } by {
        assert(marked(stage, cell_size, cx, cy));
    }
    assert forall|key: u128| #[trigger] cells.contains_key(key) implies bucket_fits(
        objects,
        cell_size,
        Some(next),
        key,
        cells[key]@,
    ) by {
        assert(bucket_fits(objects, cell_size, Some(stage), key, cells[key]@));
        let b = cells[key]@;
        assert forall|i: int| 0 <= i < b.len() implies entry_fits(
            objects,
            cell_size,
            Some(next),
            key_column(key),
            key_row(key),
            #[trigger] b[i],
        ) by {
            assert(entry_fits(
                objects,
                cell_size,
                Some(stage),
                key_column(key),
                key_row(key),
                b[i],
            ));
            assert(marked(next, cell_size, key_column(key), key_row(key)) == marked(
                stage,
                cell_size,
                key_column(key),
                key_row(key),
            ));
        }
    }
}

/// When the walk that writes an object in is over, the object can be
/// stored.
proof fn lemma_stage_closes_added(
    cells: Map<u128, Vec<u32>>,
    objects: Map<u32, CollisionObject>,
    cell_size: int,
    stage: Stage,
    object: CollisionObject,
)
    requires
        coherent(cells, objects, cell_size, Some(stage)),
        stage.adding,
        object.id == stage.id,
        object.rect == stage.rect,
        forall|cx: int, cy: int|
            #[trigger] covers(stage.rect, cell_size, cx, cy) ==> walked(cx, cy, stage.px, stage.py),
    ensures
        coherent(cells, objects.insert(object.id, object), cell_size, None),
{
    let stored = objects.insert(object.id, object);
    assert forall|id: u32, cx: int, cy: int|
        stored.contains_key(id) && #[trigger] covers(stored[id].rect, cell_size, cx, cy) implies {
        &&& cells.contains_key(cell_key(cx, cy))
        &&& cells[cell_key(cx, cy)]@.contains(id)
    } by {
        if id == object.id {
            assert(marked(stage, cell_size, cx, cy));
        } else {
            assert(covers(objects[id].rect, cell_size, cx, cy));
        }
    }
    assert forall|key: u128| #[trigger] cells.contains_key(key) implies bucket_fits(
        stored,
        cell_size,
        None,
        key,
        cells[key]@,
    ) by {
        assert(bucket_fits(objects, cell_size, Some(stage), key, cells[key]@));
        let b = cells[key]@;
        assert forall|i: int| 0 <= i < b.len() implies entry_fits(
            stored,
            cell_size,
            None,
            key_column(key),
            key_row(key),
            #[trigger] b[i],
        ) by {
            assert(entry_fits(
                objects,
                cell_size,
                Some(stage),
                key_column(key),
                key_row(key),
                b[i],
            ));
        }
    }
}

/// Takes `id` out of a bucket that lists nothing twice.
fn strip(bucket: &mut Vec<u32>, id: u32)
    requires
        old(bucket)@.no_duplicates(),
    ensures
        final(bucket)@.no_duplicates(),
        !final(bucket)@.contains(id),
        forall|e: u32| e != id && old(bucket)@.contains(e) ==> final(bucket)@.contains(e),
        forall|i: int|
            0 <= i < final(bucket)@.len() ==> old(bucket)@.contains(#[trigger] final(bucket)@[i]),
{
    let mut at: usize = 0;
    while at < bucket.len() && bucket[at] != id
        invariant
            at <= bucket.len(),
            *bucket == *old(bucket),
            forall|i: int| 0 <= i < at ==> bucket@[i] != id,
        decreases bucket.len() - at,
    {
        at += 1;
    }
    if at < bucket.len() {
        let ghost before = bucket@;
        let _ = bucket.remove(at);
        assert(bucket@ == before.remove(at as int));
        assert forall|i: int| 0 <= i < bucket@.len() implies before.contains(
            #[trigger] bucket@[i],
        ) && bucket@[i] != id by {
            if i < at {
                assert(bucket@[i] == before[i]);
            } else {
                assert(bucket@[i] == before[i + 1]);
            }
        }
        assert forall|i: int, j: int| 0 <= i < bucket@.len() && 0 <= j < bucket@.len() && i
            != j implies bucket@[i] != bucket@[j] by {
            let oi = if i < at {
                i
            } else {
                i + 1
            };
            let oj = if j < at {
                j
            } else {
                j + 1
            };
            assert(bucket@[i] == before[oi] && bucket@[j] == before[oj]);
        }
        assert forall|e: u32| e != id && before.contains(e) implies bucket@.contains(e) by {
            let i = choose|i: int| 0 <= i < before.len() && before[i] == e;
            if i < at {
                assert(bucket@[i] == e);
            } else {
                assert(bucket@[i - 1] == e);
            }
        }
    } else {
        assert forall|i: int| 0 <= i < bucket@.len() implies old(bucket)@.contains(
            #[trigger] bucket@[i],
        ) by {
            assert(old(bucket)@[i] == bucket@[i]);
        }
    }
}

/// Every cell of its block is marked when a walk opens that will wipe a
/// stored object out.
proof fn lemma_stage_opens_wipe(
    cells: Map<u128, Vec<u32>>,
    stored: Map<u32, CollisionObject>,
    cell_size: int,
    id: u32,
    px: int,
    py: int,
)
    requires
        coherent(cells, stored, cell_size, None),
        stored.contains_key(id),
        px == cell_of(stored[id].rect.left_edge(), cell_size),
        py == cell_of(stored[id].rect.top_edge(), cell_size),
    ensures
        coherent(
            cells,
            stored.remove(id),
            cell_size,
            Some(Stage { id, rect: stored[id].rect, px, py, adding: false }),
        ),
{
    let stage = Stage { id, rect: stored[id].rect, px, py, adding: false };
    let rest = stored.remove(id);
    assert forall|cx: int, cy: int| #[trigger] marked(stage, cell_size, cx, cy) implies {
        &&& cells.contains_key(cell_key(cx, cy))
        &&& cells[cell_key(cx, cy)]@.contains(id)
    } by {
        assert(covers(stored[id].rect, cell_size, cx, cy));
    }
    assert forall|e: u32, cx: int, cy: int|
        rest.contains_key(e) && #[trigger] covers(rest[e].rect, cell_size, cx, cy) implies {
        &&& cells.contains_key(cell_key(cx, cy))
        &&& cells[cell_key(cx, cy)]@.contains(e)
    } by {
        assert(covers(stored[e].rect, cell_size, cx, cy));
    }
    assert forall|key: u128| #[trigger] cells.contains_key(key) implies bucket_fits(
        rest,
        cell_size,
        Some(stage),
        key,
        cells[key]@,
    ) by {
        assert(bucket_fits(stored, cell_size, None, key, cells[key]@));
        let b = cells[key]@;
        assert forall|i: int| 0 <= i < b.len() implies entry_fits(
            rest,
            cell_size,
            Some(stage),
            key_column(key),
            key_row(key),
            #[trigger] b[i],
        ) by {
            assert(entry_fits(stored, cell_size, None, key_column(key), key_row(key), b[i]));
        }
    }
}

/// After the staged id left the bucket of the cell the walk stands at, and
/// the bucket went with it where nothing else was listed, the walk stands
/// one row further.
proof fn lemma_stage_wipes(
    before: Map<u128, Vec<u32>>,
    after: Map<u128, Vec<u32>>,
    objects: Map<u32, CollisionObject>,
    cell_size: int,
    stage: Stage,
)
    requires
        !stage.adding,
        coherent(before, objects, cell_size, Some(stage)),
        covers(stage.rect, cell_size, stage.px, stage.py),
        before.contains_key(cell_key(stage.px, stage.py)),
        forall|key: u128|
            key != cell_key(stage.px, stage.py) ==> (after.contains_key(key)
                <==> before.contains_key(key)),
        forall|key: u128|
            key != cell_key(stage.px, stage.py) && before.contains_key(key) ==> #[trigger] after[key]
                == before[key],
        after.contains_key(cell_key(stage.px, stage.py)) ==> {
            let now = after[cell_key(stage.px, stage.py)]@;
            let was = before[cell_key(stage.px, stage.py)]@;
            &&& now.len() > 0
            &&& now.no_duplicates()
            &&& !now.contains(stage.id)
            &&& forall|e: u32| e != stage.id && was.contains(e) ==> now.contains(e)
            &&& forall|i: int| 0 <= i < now.len() ==> was.contains(#[trigger] now[i])
        },
        !after.contains_key(cell_key(stage.px, stage.py)) ==> forall|e: u32|
            before[cell_key(stage.px, stage.py)]@.contains(e) ==> e == stage.id,
    ensures
        coherent(after, objects, cell_size, Some(Stage { py: stage.py + 1, ..stage })),
{
    let next = Stage { py: stage.py + 1, ..stage };
    let here = cell_key(stage.px, stage.py);
    lemma_covered_cell_bounded(stage.rect, cell_size, stage.px, stage.py);
    lemma_cell_key_inverts(stage.px, stage.py);
    let was = before[here]@;
    assert(bucket_fits(objects, cell_size, Some(stage), here, was));
    assert forall|id: u32, cx: int, cy: int|
        objects.contains_key(id) && #[trigger] covers(objects[id].rect, cell_size, cx, cy) implies {
        &&& after.contains_key(cell_key(cx, cy))
        &&& after[cell_key(cx, cy)]@.contains(id)
    } by {
        let k = cell_key(cx, cy);
        assert(before.contains_key(k) && before[k]@.contains(id));
        assert(id != stage.id);
    }
    assert forall|cx: int, cy: int| #[trigger] marked(next, cell_size, cx, cy) implies {
        &&& after.contains_key(cell_key(cx, cy))
        &&& after[cell_key(cx, cy)]@.contains(stage.id)
    } by {
        lemma_covered_cell_bounded(stage.rect, cell_size, cx, cy);
        lemma_cell_key_inverts(cx, cy);
        assert(marked(stage, cell_size, cx, cy));
        assert(cell_key(cx, cy) != here);
    }
    assert forall|key: u128| #[trigger] after.contains_key(key) implies bucket_fits(
        objects,
        cell_size,
        Some(next),
        key,
        after[key]@,
    ) by {
        let b = after[key]@;
        if key == here {
            assert forall|i: int| 0 <= i < b.len() implies entry_fits(
                objects,
                cell_size,
                Some(next),
                key_column(key),
                key_row(key),
                #[trigger] b[i],
            ) by {
                assert(was.contains(b[i]));
                let j = choose|j: int| 0 <= j < was.len() && was[j] == b[i];
                assert(entry_fits(objects, cell_size, Some(stage), stage.px, stage.py, was[j]));
                assert(b.contains(b[i]));
            }
        } else {
            assert(before.contains_key(key));
            assert(bucket_fits(objects, cell_size, Some(stage), key, before[key]@));
            assert forall|i: int| 0 <= i < b.len() implies entry_fits(
                objects,
                cell_size,
                Some(next),
                key_column(key),
                key_row(key),
                #[trigger] b[i],
            ) by {
                assert(entry_fits(
                    objects,
                    cell_size,
                    Some(stage),
                    key_column(key),
                    key_row(key),
                    b[i],
                ));
                if b[i] == stage.id && !objects.contains_key(b[i]) {
                    assert(marked(stage, cell_size, key_column(key), key_row(key)));
                    assert(!(key_column(key) == stage.px && key_row(key) == stage.py));
                }
            }
        }
    }
}

/// When the walk that wipes an object out is over, no cell lists it.
proof fn lemma_stage_closes_wiped(
    cells: Map<u128, Vec<u32>>,
    objects: Map<u32, CollisionObject>,
    cell_size: int,
    stage: Stage,
)
    requires
        coherent(cells, objects, cell_size, Some(stage)),
        !stage.adding,
        forall|cx: int, cy: int|
            #[trigger] covers(stage.rect, cell_size, cx, cy) ==> walked(cx, cy, stage.px, stage.py),
    ensures
        coherent(cells, objects, cell_size, None),
{
    assert forall|key: u128| #[trigger] cells.contains_key(key) implies bucket_fits(
        objects,
        cell_size,
        None,
        key,
        cells[key]@,
    ) by {
        assert(bucket_fits(objects, cell_size, Some(stage), key, cells[key]@));
        let b = cells[key]@;
        assert forall|i: int| 0 <= i < b.len() implies entry_fits(
            objects,
            cell_size,
            None,
            key_column(key),
            key_row(key),
            #[trigger] b[i],
        ) by {
            assert(entry_fits(
                objects,
                cell_size,
                Some(stage),
                key_column(key),
                key_row(key),
                b[i],
            ));
        }
    }
}

/// What a query has gathered when its walk stands before cell (`px`, `py`):
/// an ordered list of stored objects that the query reports, among them
/// every such object that reaches into a cell of the query already walked.
pub open spec fn gathered(
    objects: Map<u32, CollisionObject>,
    rect: Rect,
    cell_size: int,
    list: Seq<CollisionObject>,
    px: int,
    py: int,
) -> bool {
    &&& ascending(list)
    &&& forall|i: int|
        0 <= i < list.len() ==> {
            &&& objects.contains_key(#[trigger] list[i].id)
            &&& objects[list[i].id] == list[i]
            &&& reported(list[i], rect, cell_size)
        }
    &&& forall|id: u32, x: int, y: int|
        objects.contains_key(id) && reported(#[trigger] objects[id], rect, cell_size)
            && #[trigger] covers(objects[id].rect, cell_size, x, y) && covers(rect, cell_size, x, y)
            && walked(x, y, px, py) ==> lists_id(list, id)
}

/// Listing one more reported object keeps what was gathered.
proof fn lemma_gathered_grows(
    objects: Map<u32, CollisionObject>,
    rect: Rect,
    cell_size: int,
    before: Seq<CollisionObject>,
    after: Seq<CollisionObject>,
    object: CollisionObject,
    px: int,
    py: int,
)
    requires
        gathered(objects, rect, cell_size, before, px, py),
        objects.contains_key(object.id),
        objects[object.id] == object,
        reported(object, rect, cell_size),
        ascending(after),
        forall|i: int| 0 <= i < before.len() ==> lists_id(after, (#[trigger] before[i]).id),
        forall|i: int|
            0 <= i < after.len() ==> {
                ||| (#[trigger] after[i]) == object
                ||| before.contains(after[i])
            },
    ensures
        gathered(objects, rect, cell_size, after, px, py),
{
    assert forall|i: int| 0 <= i < after.len() implies {
        &&& objects.contains_key(#[trigger] after[i].id)
        &&& objects[after[i].id] == after[i]
        &&& reported(after[i], rect, cell_size)
    } by {
        if after[i] != object {
            let j = choose|j: int| 0 <= j < before.len() && before[j] == after[i];
            assert(objects.contains_key(before[j].id));
        }
    }
    assert forall|id: u32, x: int, y: int|
        objects.contains_key(id) && reported(#[trigger] objects[id], rect, cell_size)
            && #[trigger] covers(objects[id].rect, cell_size, x, y) && covers(rect, cell_size, x, y)
            && walked(x, y, px, py) implies lists_id(after, id) by {
        assert(lists_id(before, id));
        let m = choose|m: int| 0 <= m < before.len() && #[trigger] before[m].id == id;
        assert(lists_id(after, before[m].id));
    }
}

/// An object that was stored is found exactly once by every query that
/// reports it, however many cells the two share.
pub proof fn lemma_added_object_found_once(
    objects: Map<u32, CollisionObject>,
    object: CollisionObject,
    rect: Rect,
    cell_size: int,
    list: Seq<CollisionObject>,
)
    requires
        reported(object, rect, cell_size),
        listing(objects.insert(object.id, object), rect, cell_size, list),
    ensures
        exists|i: int|
            0 <= i < list.len() && #[trigger] list[i] == object && forall|j: int|
                0 <= j < list.len() && #[trigger] list[j].id == object.id ==> j == i,
{
    let stored = objects.insert(object.id, object);
    assert(stored.contains_key(object.id));
    assert(reported(stored[object.id], rect, cell_size));
    assert(lists_id(list, object.id));
    let i = choose|i: int| 0 <= i < list.len() && #[trigger] list[i].id == object.id;
    assert(stored[list[i].id] == list[i]);
    assert forall|j: int| 0 <= j < list.len() && #[trigger] list[j].id == object.id implies j
        == i by {
        lemma_listing_lists_once(list, i, j);
    }
}

/// An active object that was stored is found exactly once by every query
/// whose rectangle overlaps it, where both rectangles are proper.
pub proof fn lemma_added_proper_object_found_once(
    objects: Map<u32, CollisionObject>,
    object: CollisionObject,
    rect: Rect,
    cell_size: int,
    list: Seq<CollisionObject>,
)
    requires
        cell_size > 0,
        object.active,
        object.rect.proper(),
        rect.proper(),
        object.rect.overlaps(rect),
        listing(objects.insert(object.id, object), rect, cell_size, list),
    ensures
        exists|i: int|
            0 <= i < list.len() && #[trigger] list[i] == object && forall|j: int|
                0 <= j < list.len() && #[trigger] list[j].id == object.id ==> j == i,
{
    lemma_overlap_shares_cell(object.rect, rect, cell_size);
    lemma_added_object_found_once(objects, object, rect, cell_size, list);
}

/// Once an object is taken out, no query finds its id.
pub proof fn lemma_removed_object_not_found(
    objects: Map<u32, CollisionObject>,
    id: u32,
    rect: Rect,
    cell_size: int,
    list: Seq<CollisionObject>,
)
    requires
        listing(objects.remove(id), rect, cell_size, list),
    ensures
        !lists_id(list, id),
{
    if lists_id(list, id) {
        let i = choose|i: int| 0 <= i < list.len() && #[trigger] list[i].id == id;
        assert(objects.remove(id).contains_key(list[i].id));
    }
}

} // verus!
