//! Collision detection: what can collide, the spatial hash that finds it,
//! and the rules by which layers see each other.

use vstd::prelude::*;
use crate::math::{magnitude, saturate, saturate_to_i32, Direction, Rect, Vector2};
use std::collections::HashMap;
use crate::collision::data::Attributes;
use crate::collision::grid::{ascending, listing, lists_id, reported};
use crate::collision::ray::{
    box_between, box_of, end_of_ray, is_within, ray_end, ray_hit, ray_rect_intersection, within,
};

pub mod data;
pub mod grid;
pub mod ray;
pub mod utils;

pub use grid::SpatialGrid;

verus! {

/// The broad category a collidable belongs to.
#[derive(Debug, Clone, Copy, PartialEq, Eq, Hash, Structural)]
pub enum CollisionLayer {
    /// Static world geometry.
    World,
    /// The player character.
    Player,
    /// Enemies.
    Enemy,
    /// Collectible items.
    Item,
    /// Triggers and sensors.
    Trigger,
    /// Projectiles.
    Projectile,
}

/// How a collidable answers a contact.
#[derive(Debug, Clone, Copy, PartialEq, Eq, Structural)]
pub enum CollisionType {
    /// Blocks movement.
    Solid,
    /// Blocks movement from above only.
    Platform,
    /// An area that is entered, and blocks nothing.
    Trigger,
    /// Detects, and blocks nothing.
    Sensor,
}

/// A rectangle that can be hit.
#[derive(Debug, Clone, Copy, PartialEq, Eq, Structural)]
pub struct CollisionObject {
    /// Identity, unique while the object lives.
    pub id: u32,
    /// Where the object is.
    pub rect: Rect,
    /// The layer it belongs to.
    pub layer: CollisionLayer,
    /// How it answers a contact.
    pub collision_type: CollisionType,
    /// Whether it takes part in collisions at all.
    pub active: bool,
}

impl CollisionObject {
    /// The object is active and its rectangle overlaps `rect`.
    pub open spec fn touches(self, rect: Rect) -> bool {
        self.active && self.rect.overlaps(rect)
    }

    /// A new, active object.
    pub fn new(id: u32, rect: Rect, layer: CollisionLayer, collision_type: CollisionType) -> (o:
        Self)
        ensures
            o == (CollisionObject { id, rect, layer, collision_type, active: true }),
    {
        Self { id, rect, layer, collision_type, active: true }
    }

    /// Whether this object is active and overlaps `other_rect`.
    pub fn intersects(&self, other_rect: &Rect) -> (hit: bool)
        ensures
            hit == self.touches(*other_rect),
    {
        self.active && self.rect.intersects(other_rect)
    }

    /// The part of `other_rect` that this object covers: `None` exactly when
    /// the object is inactive or the two do not overlap.
    pub fn intersection(&self, other_rect: &Rect) -> (part: Option<Rect>)
        ensures
            part == if self.touches(*other_rect) {
                Some(self.rect.common(*other_rect))
            } else {
                None
            },
    {
        if self.intersects(other_rect) {
            self.rect.intersection(other_rect)
        } else {
            None
        }
    }
}

/// One contact between a moving rectangle and an object.
#[derive(Debug, Clone, Copy, PartialEq, Eq, Structural)]
pub struct CollisionResult {
    /// The object that was hit.
    pub object: CollisionObject,
    /// Where the object lies as seen from the moving rectangle.
    pub direction: Direction,
    /// How far the two overlap along the axis of `direction`.
    pub penetration: i32,
    /// The middle of the overlap.
    pub contact_point: Vector2,
}

/// Edge of a cell of the grid that a collision system keeps: 64 units.
pub const CELL_SIZE: i32 = 64000;

impl CollisionLayer {
    /// The place of the layer in the order in which the layers are declared.
    pub open spec fn ordinal(self) -> int {
        match self {
            CollisionLayer::World => 0,
            CollisionLayer::Player => 1,
            CollisionLayer::Enemy => 2,
            CollisionLayer::Item => 3,
            CollisionLayer::Trigger => 4,
            CollisionLayer::Projectile => 5,
        }
    }

    /// The place of the layer in the order in which the layers are declared.
    pub fn index(self) -> (i: usize)
        ensures
            i == self.ordinal(),
    {
        match self {
            CollisionLayer::World => 0,
            CollisionLayer::Player => 1,
            CollisionLayer::Enemy => 2,
            CollisionLayer::Item => 3,
            CollisionLayer::Trigger => 4,
            CollisionLayer::Projectile => 5,
        }
    }
}

/// Whether two layers detect each other before anyone changes the rules.
/// The world stops the player, enemies and projectiles; the player meets
/// enemies, items, triggers and projectiles; enemies also meet triggers and
/// projectiles; projectiles set off triggers. No other pair interacts, and
/// no layer interacts with itself.
pub open spec fn default_interaction(a: CollisionLayer, b: CollisionLayer) -> bool {
    let low = if a.ordinal() <= b.ordinal() {
        a
    } else {
        b
    };
    let high = if a.ordinal() <= b.ordinal() {
        b
    } else {
        a
    };
    match (low, high) {
        (CollisionLayer::World, CollisionLayer::Player) => true,
        (CollisionLayer::World, CollisionLayer::Enemy) => true,
        (CollisionLayer::World, CollisionLayer::Projectile) => true,
        (CollisionLayer::Player, CollisionLayer::Enemy) => true,
        (CollisionLayer::Player, CollisionLayer::Item) => true,
        (CollisionLayer::Player, CollisionLayer::Trigger) => true,
        (CollisionLayer::Player, CollisionLayer::Projectile) => true,
        (CollisionLayer::Enemy, CollisionLayer::Trigger) => true,
        (CollisionLayer::Enemy, CollisionLayer::Projectile) => true,
        (CollisionLayer::Trigger, CollisionLayer::Projectile) => true,
        _ => false,
    }
}

/// Where `fixed` lies as seen from `moving`, going by the offset from the
/// midpoint of `moving` to that of `fixed`: sideways where the offset is
/// wider than it is tall (`Right` where the midpoint of `fixed` is the one
/// further right), else up or down (`Down` where it is the one further
/// down, so that what comes down on an object from above meets it `Down`).
/// An offset as wide as it is tall counts as up or down.
pub open spec fn direction_from(moving: Rect, fixed: Rect) -> Direction {
    let dx = (2 * fixed.x + fixed.width) - (2 * moving.x + moving.width);
    let dy = (2 * fixed.y + fixed.height) - (2 * moving.y + moving.height);
    if magnitude(dx) > magnitude(dy) {
        if dx > 0 {
            Direction::Right
        } else {
            Direction::Left
        }
    } else {
        if dy > 0 {
            Direction::Down
        } else {
            Direction::Up
        }
    }
}

/// What comes down on an object meets it `Down`: where the midpoint of
/// `moving` lies above that of `fixed`, by no less than it lies beside it,
/// the direction is `Down`; where it lies below by as much, the direction is
/// `Up`.
pub proof fn lemma_direction_from_above(moving: Rect, fixed: Rect)
    ensures
        ({
            let dx = (2 * fixed.x + fixed.width) - (2 * moving.x + moving.width);
            let dy = (2 * fixed.y + fixed.height) - (2 * moving.y + moving.height);
            &&& dy > 0 && magnitude(dx) <= dy ==> direction_from(moving, fixed) == Direction::Down
            &&& dy <= 0 && magnitude(dx) <= -dy ==> direction_from(moving, fixed) == Direction::Up
            &&& dx > magnitude(dy) ==> direction_from(moving, fixed) == Direction::Right
            &&& dx < 0 && -dx > magnitude(dy) ==> direction_from(moving, fixed) == Direction::Left
        }),
{
}

/// The contact of a rectangle with an object that it overlaps.
#[verifier::opaque]
pub open spec fn contact(rect: Rect, object: CollisionObject) -> CollisionResult {
    let direction = direction_from(rect, object.rect);
    let part = object.rect.common(rect);
    CollisionResult {
        object,
        direction,
        penetration: match direction {
            Direction::Left | Direction::Right => part.width,
            Direction::Up | Direction::Down => part.height,
        },
        contact_point: part.middle(),
    }
}

/// `rect` moved out of a contact along the direction of the contact, and
/// along no other: the edge that faces the object comes to lie on the
/// object's edge.
pub open spec fn pushed_out(rect: Rect, hit: CollisionResult) -> Rect {
    match hit.direction {
        Direction::Left => Rect { x: saturate(hit.object.rect.right_edge()) as i32, ..rect },
        Direction::Right => Rect {
            x: saturate(hit.object.rect.left_edge() - rect.width) as i32,
            ..rect
        },
        Direction::Up => Rect { y: saturate(hit.object.rect.bottom_edge()) as i32, ..rect },
        Direction::Down => Rect {
            y: saturate(hit.object.rect.top_edge() - rect.height) as i32,
            ..rect
        },
    }
}

/// Moves a rectangle out of a contact along the direction of the contact.
pub fn push_out(rect: &Rect, collision: &CollisionResult) -> (resolved: Rect)
    ensures
        resolved == pushed_out(*rect, *collision),
{
    let mut resolved_rect = *rect;
    match collision.direction {
        Direction::Left => {
            resolved_rect.x = saturate_to_i32(collision.object.rect.right() as i128);
        },
        Direction::Right => {
            resolved_rect.x = saturate_to_i32(
                collision.object.rect.left() as i128 - resolved_rect.width as i128,
            );
        },
        Direction::Up => {
            resolved_rect.y = saturate_to_i32(collision.object.rect.bottom() as i128);
        },
        Direction::Down => {
            resolved_rect.y = saturate_to_i32(
                collision.object.rect.top() as i128 - resolved_rect.height as i128,
            );
        },
    }
    resolved_rect
}

/// What a collision system holds.
pub struct CollisionView {
    /// The stored objects, by id.
    pub objects: Map<u32, CollisionObject>,
    /// The id that the next object gets.
    pub next_id: u32,
    /// For each pair of layers in turn, whether the two interact.
    pub matrix: Seq<bool>,
    /// What was noted of the objects: for each object of which anything
    /// was noted, its attributes by name.
    pub data: Map<u32, Map<Seq<char>, Seq<char>>>,
}

impl CollisionView {
    /// Whether the two layers detect each other.
    pub open spec fn interaction(self, a: CollisionLayer, b: CollisionLayer) -> bool {
        self.matrix[a.ordinal() * 6 + b.ordinal()]
    }

    /// The attributes of an object: none where nothing was noted of it.
    pub open spec fn attributes(self, id: u32) -> Map<Seq<char>, Seq<char>> {
        if self.data.contains_key(id) {
            self.data[id]
        } else {
            Map::empty()
        }
    }

    /// The rules treat the two layers of a pair alike, ids are given out
    /// in growing order from one on, and attributes are noted of stored
    /// objects only.
    pub open spec fn wf(self) -> bool {
        &&& self.matrix.len() == 36
        &&& self.next_id >= 1
        &&& forall|id: u32| #[trigger] self.data.contains_key(id) ==> self.objects.contains_key(id)
        &&& forall|id: u32| #[trigger] self.objects.contains_key(id) ==> id < self.next_id
        &&& forall|id: u32| self.objects.contains_key(id) ==> (#[trigger] self.objects[id]).id == id
        &&& forall|a: CollisionLayer, b: CollisionLayer| #[trigger]
            self.interaction(a, b) == self.interaction(b, a)
    }

    /// What makes a check of `rect` on behalf of `layer` report `object`.
    pub open spec fn hits(self, object: CollisionObject, rect: Rect, layer: CollisionLayer) -> bool {
        reported(object, rect, CELL_SIZE as int) && self.interaction(layer, object.layer)
    }

    /// Where a ray looks for objects: the rectangle between its two ends.
    pub open spec fn ray_reach(start: Vector2, direction: Vector2, max_distance: i32) -> Rect {
        box_between(start, ray_end(start, direction, max_distance))
    }

    /// What makes a ray cast on behalf of `layer` meet `object`: a query of
    /// the reach of the ray reports the object, the layers interact, the
    /// ray meets the rectangle of the object, and it does so at less than
    /// `max_distance` from its start.
    pub open spec fn ray_meets(
        self,
        start: Vector2,
        direction: Vector2,
        max_distance: i32,
        layer: CollisionLayer,
        object: CollisionObject,
    ) -> bool {
        &&& reported(object, Self::ray_reach(start, direction, max_distance), CELL_SIZE as int)
        &&& self.interaction(layer, object.layer)
        &&& ray_hit(start, direction, object.rect) is Some
        &&& within(Self::ray_gap(start, direction, object), max_distance as int)
    }

    /// The square of the distance from the start of a ray to where it
    /// meets an object.
    pub open spec fn ray_gap(start: Vector2, direction: Vector2, object: CollisionObject) -> int {
        ray_hit(start, direction, object.rect)->0.gap_squared(start)
    }

    /// The contact of a ray with an object that it meets: at the point
    /// where it meets it, without depth, and in the direction in which the
    /// object lies as seen from a square of one unit at the start of the
    /// ray.
    pub open spec fn ray_contact(start: Vector2, direction: Vector2, object: CollisionObject) -> CollisionResult {
        CollisionResult {
            object,
            direction: direction_from(
                Rect { x: start.x, y: start.y, width: 1000, height: 1000 },
                object.rect,
            ),
            penetration: 0,
            contact_point: ray_hit(start, direction, object.rect)->0,
        }
    }

    /// `found` is the outcome of a ray cast: the contact with the stored
    /// object that the ray meets nearest to its start, the one with the
    /// lowest id among several as near; `None` where the ray meets none.
    pub open spec fn casts(
        self,
        start: Vector2,
        direction: Vector2,
        max_distance: i32,
        layer: CollisionLayer,
        found: Option<CollisionResult>,
    ) -> bool {
        match found {
            Some(hit) => {
                &&& self.objects.contains_key(hit.object.id)
                &&& self.objects[hit.object.id] == hit.object
                &&& self.ray_meets(start, direction, max_distance, layer, hit.object)
                &&& hit == Self::ray_contact(start, direction, hit.object)
                &&& forall|id: u32|
                    self.objects.contains_key(id) && self.ray_meets(
                        start,
                        direction,
                        max_distance,
                        layer,
                        #[trigger] self.objects[id],
                    ) ==> Self::ray_gap(start, direction, hit.object) < Self::ray_gap(
                        start,
                        direction,
                        self.objects[id],
                    ) || (Self::ray_gap(start, direction, hit.object) == Self::ray_gap(
                        start,
                        direction,
                        self.objects[id],
                    ) && hit.object.id <= id)
            },
            None => forall|id: u32|
                self.objects.contains_key(id) ==> !self.ray_meets(
                    start,
                    direction,
                    max_distance,
                    layer,
                    #[trigger] self.objects[id],
                ),
        }
    }

    /// `list` is the outcome of a check of `rect` on behalf of `layer`: one
    /// contact for each stored object that is active, overlaps `rect` and is
    /// on a layer that interacts with `layer`, in the order of the ids.
    pub open spec fn lists_collisions(
        self,
        rect: Rect,
        layer: CollisionLayer,
        list: Seq<CollisionResult>,
    ) -> bool {
        &&& forall|i: int, j: int|
            0 <= i < j < list.len() ==> list[i].object.id < list[j].object.id
        &&& forall|i: int|
            0 <= i < list.len() ==> {
                &&& self.objects.contains_key(#[trigger] list[i].object.id)
                &&& self.hits(self.objects[list[i].object.id], rect, layer)
                &&& list[i] == contact(rect, self.objects[list[i].object.id])
            }
        &&& forall|id: u32|
            self.objects.contains_key(id) && self.hits(#[trigger] self.objects[id], rect, layer)
                ==> exists|i: int| 0 <= i < list.len() && #[trigger] list[i].object.id == id
    }
}

/// The collision system: a spatial grid, the ids it gives out, and the rules
/// by which layers detect each other.
pub struct CollisionSystem {
    spatial_grid: SpatialGrid,
    next_id: u32,
    layer_matrix: Vec<bool>,
    object_data: HashMap<u32, Attributes>,
}

impl View for CollisionSystem {
    type V = CollisionView;

    closed spec fn view(&self) -> CollisionView {
        CollisionView {
            objects: self.spatial_grid.objects(),
            next_id: self.next_id,
            matrix: self.layer_matrix@,
            data: Map::new(
                |id: u32| self.object_data@.contains_key(id),
                |id: u32| self.object_data@[id]@,
            ),
        }
    }
}

impl CollisionSystem {
    /// The grid is sound and what the system holds is well formed.
    pub closed spec fn wf(&self) -> bool {
        &&& self.spatial_grid.wf()
        &&& self.spatial_grid.cell_edge() == CELL_SIZE
        &&& self@.wf()
        &&& forall|id: u32| self.object_data@.contains_key(id) ==> (#[trigger] self.object_data@[id]).wf()
    }

    /// What is well formed of a system is well formed of what it holds.
    pub proof fn lemma_wf_view(&self)
        requires
            self.wf(),
        ensures
            self@.wf(),
    {
    }

    /// A system without objects, with the default rules: see
    /// `default_interaction`.
    pub fn new() -> (system: Self)
        ensures
            system.wf(),
            system@.objects == Map::<u32, CollisionObject>::empty(),
            system@.next_id == 1,
            system@.data == Map::<u32, Map<Seq<char>, Seq<char>>>::empty(),
            forall|a: CollisionLayer, b: CollisionLayer| #[trigger]
                system@.interaction(a, b) == default_interaction(a, b),
    {
        let mut matrix: Vec<bool> = Vec::new();
        let mut i: usize = 0;
        while i < 36
            invariant
                i <= 36,
                matrix@.len() == i,
                forall|k: int| 0 <= k < i ==> !matrix@[k],
            decreases 36 - i,
        {
            matrix.push(false);
            i += 1;
        }
        let mut system = Self {
            spatial_grid: SpatialGrid::new(CELL_SIZE),
            next_id: 1,
            layer_matrix: matrix,
            object_data: HashMap::new(),
        };
        assert(system@.data =~= Map::<u32, Map<Seq<char>, Seq<char>>>::empty());
        assert(system.wf());
        system.setup_default_layer_interactions();
        system
    }

    /// Writes the default rules, pair by pair.
    fn setup_default_layer_interactions(&mut self)
        requires
            old(self).wf(),
            forall|k: int| 0 <= k < 36 ==> !old(self)@.matrix[k],
        ensures
            final(self).wf(),
            final(self)@.objects == old(self)@.objects,
            final(self)@.next_id == old(self)@.next_id,
            final(self)@.data == old(self)@.data,
            forall|a: CollisionLayer, b: CollisionLayer| #[trigger]
                final(self)@.interaction(a, b) == default_interaction(a, b),
    {
        self.set_layer_interaction(CollisionLayer::World, CollisionLayer::Player, true);
        self.set_layer_interaction(CollisionLayer::World, CollisionLayer::Enemy, true);
        self.set_layer_interaction(CollisionLayer::World, CollisionLayer::Item, false);
        self.set_layer_interaction(CollisionLayer::World, CollisionLayer::Trigger, false);
        self.set_layer_interaction(CollisionLayer::World, CollisionLayer::Projectile, true);

        self.set_layer_interaction(CollisionLayer::Player, CollisionLayer::Enemy, true);
        self.set_layer_interaction(CollisionLayer::Player, CollisionLayer::Item, true);
        self.set_layer_interaction(CollisionLayer::Player, CollisionLayer::Trigger, true);
        self.set_layer_interaction(CollisionLayer::Player, CollisionLayer::Projectile, true);

        self.set_layer_interaction(CollisionLayer::Enemy, CollisionLayer::Item, false);
        self.set_layer_interaction(CollisionLayer::Enemy, CollisionLayer::Trigger, true);
        self.set_layer_interaction(CollisionLayer::Enemy, CollisionLayer::Projectile, true);

        self.set_layer_interaction(CollisionLayer::Item, CollisionLayer::Item, false);
        self.set_layer_interaction(CollisionLayer::Item, CollisionLayer::Trigger, false);
        self.set_layer_interaction(CollisionLayer::Item, CollisionLayer::Projectile, false);

        self.set_layer_interaction(CollisionLayer::Trigger, CollisionLayer::Trigger, false);
        self.set_layer_interaction(CollisionLayer::Trigger, CollisionLayer::Projectile, true);

        self.set_layer_interaction(CollisionLayer::Projectile, CollisionLayer::Projectile, false);
    }

    /// Sets whether two layers detect each other, for the pair in either
    /// order. No other pair changes.
    pub fn set_layer_interaction(
        &mut self,
        layer1: CollisionLayer,
        layer2: CollisionLayer,
        interact: bool,
    )
        requires
            old(self).wf(),
        ensures
            final(self).wf(),
            final(self)@.objects == old(self)@.objects,
            final(self)@.next_id == old(self)@.next_id,
            final(self)@.data == old(self)@.data,
            final(self)@.interaction(layer1, layer2) == interact,
            final(self)@.interaction(layer2, layer1) == interact,
            forall|a: CollisionLayer, b: CollisionLayer|
                !(a == layer1 && b == layer2) && !(a == layer2 && b == layer1)
                    ==> #[trigger] final(self)@.interaction(a, b) == old(self)@.interaction(a, b),
    {
        let i: usize = layer1.index() * 6 + layer2.index();
        let j: usize = layer2.index() * 6 + layer1.index();
        self.layer_matrix.set(i, interact);
        self.layer_matrix.set(j, interact);
        proof {
            assert(self@.data =~= old(self)@.data);
            assert forall|a: CollisionLayer, b: CollisionLayer|
                !(a == layer1 && b == layer2) && !(a == layer2 && b == layer1)
                    implies #[trigger] self@.interaction(a, b) == old(self)@.interaction(a, b) by {
                assert(a.ordinal() * 6 + b.ordinal() != i);
                assert(a.ordinal() * 6 + b.ordinal() != j);
            }
            assert forall|a: CollisionLayer, b: CollisionLayer| #[trigger]
                self@.interaction(a, b) == self@.interaction(b, a) by {
                assert(old(self)@.interaction(a, b) == old(self)@.interaction(b, a));
                if (a == layer1 && b == layer2) || (a == layer2 && b == layer1) {
                } else {
                    assert(self@.interaction(a, b) == old(self)@.interaction(a, b));
                    assert(self@.interaction(b, a) == old(self)@.interaction(b, a));
                }
            }
        }
    }

    /// Whether two layers detect each other.
    pub fn layers_interact(&self, layer1: CollisionLayer, layer2: CollisionLayer) -> (interact:
        bool)
        requires
            self.wf(),
        ensures
            interact == self@.interaction(layer1, layer2),
    {
        self.layer_matrix[layer1.index() * 6 + layer2.index()]
    }

    /// Whether an id is left to give out.
    pub fn has_free_id(&self) -> (free: bool)
        ensures
            free == (self@.next_id < u32::MAX),
    {
        self.next_id < u32::MAX
    }

    /// Stores a new, active object and hands back its id, which is the next
    /// in order.
    pub fn add_object(&mut self, rect: Rect, layer: CollisionLayer, collision_type: CollisionType)
        -> (id: u32)
        requires
            old(self).wf(),
            old(self)@.next_id < u32::MAX,
        ensures
            final(self).wf(),
            id == old(self)@.next_id,
            final(self)@ == (CollisionView {
                objects: old(self)@.objects.insert(
                    id,
                    CollisionObject { id, rect, layer, collision_type, active: true },
                ),
                next_id: (id + 1) as u32,
                ..old(self)@
            }),
    {
        let id = self.next_id;
        self.next_id += 1;
        let object = CollisionObject::new(id, rect, layer, collision_type);
        self.spatial_grid.add_object(object);
        proof {
            lemma_view_carries(old(self)@, self@);
        }
        id
    }

    /// Takes an object out; says whether there was one with that id.
    pub fn remove_object(&mut self, id: u32) -> (found: bool)
        requires
            old(self).wf(),
        ensures
            final(self).wf(),
            found == old(self)@.objects.contains_key(id),
            final(self)@ == (CollisionView {
                objects: old(self)@.objects.remove(id),
                data: old(self)@.data.remove(id),
                ..old(self)@
            }),
    {
        broadcast use vstd::std_specs::hash::group_hash_axioms;

        let found = self.spatial_grid.remove_object(id).is_some();
        let _ = self.object_data.remove(&id);
        proof {
            assert(self@.data =~= old(self)@.data.remove(id));
            lemma_view_carries(old(self)@, self@);
        }
        found
    }

    /// Notes an attribute of an object: sets the name to the value, in
    /// place of the value it may have had. Says whether there is such an
    /// object; nothing is noted where there is none.
    pub fn set_object_data(&mut self, id: u32, name: String, value: String) -> (noted: bool)
        requires
            old(self).wf(),
        ensures
            final(self).wf(),
            noted == old(self)@.objects.contains_key(id),
            final(self)@ == if noted {
                CollisionView {
                    data: old(self)@.data.insert(
                        id,
                        old(self)@.attributes(id).insert(name@, value@),
                    ),
                    ..old(self)@
                }
            } else {
                old(self)@
            },
    {
        broadcast use vstd::std_specs::hash::group_hash_axioms;

        if !self.has_object(id) {
            return false;
        }
        let mut attributes = match self.object_data.remove(&id) {
            Some(a) => a,
            None => Attributes::new(),
        };
        attributes.insert(name, value);
        self.object_data.insert(id, attributes);
        proof {
            assert(self@.data =~= old(self)@.data.insert(
                id,
                old(self)@.attributes(id).insert(name@, value@),
            ));
            lemma_view_carries(old(self)@, self@);
        }
        true
    }

    /// An attribute of an object; `None` where nothing of that name was
    /// noted of it.
    pub fn get_object_data(&self, id: u32, name: &str) -> (value: Option<&String>)
        requires
            self.wf(),
        ensures
            match value {
                Some(v) => self@.attributes(id).contains_key(name@) && self@.attributes(id)[name@]
                    == v@,
                None => !self@.attributes(id).contains_key(name@),
            },
    {
        broadcast use vstd::std_specs::hash::group_hash_axioms;

        match self.object_data.get(&id) {
            Some(attributes) => attributes.get(name),
            None => None,
        }
    }

    /// Whether an object with the given id is stored.
    pub fn has_object(&self, id: u32) -> (stored: bool)
        requires
            self.wf(),
        ensures
            stored == self@.objects.contains_key(id),
    {
        self.spatial_grid.has_object(id)
    }

    /// Moves an object to `new_rect`; nothing changes where the id is
    /// unknown.
    pub fn update_object(&mut self, id: u32, new_rect: Rect)
        requires
            old(self).wf(),
        ensures
            final(self).wf(),
            final(self)@ == (CollisionView {
                objects: if old(self)@.objects.contains_key(id) {
                    old(self)@.objects.insert(
                        id,
                        CollisionObject { rect: new_rect, ..old(self)@.objects[id] },
                    )
                } else {
                    old(self)@.objects
                },
                ..old(self)@
            }),
    {
        self.spatial_grid.update_object(id, new_rect);
        proof {
            lemma_view_carries(old(self)@, self@);
        }
    }

    /// Whether two rectangles overlap.
    pub fn check_collision(&self, rect1: &Rect, rect2: &Rect) -> (hit: bool)
        ensures
            hit == rect1.overlaps(*rect2),
    {
        rect1.intersects(rect2)
    }

    /// The contacts of `rect`, moving on behalf of `layer`, with the stored
    /// objects: see `lists_collisions`.
    pub fn check_collisions(&self, rect: &Rect, layer: CollisionLayer) -> (results: Vec<
        CollisionResult,
    >)
        requires
            self.wf(),
        ensures
            self@.lists_collisions(*rect, layer, results@),
    {
        let candidates = self.spatial_grid.query_rect(rect);
        let mut results: Vec<CollisionResult> = Vec::new();
        let mut n: usize = 0;
        while n < candidates.len()
            invariant
                n <= candidates.len(),
                self.wf(),
                results@ == contacts_of(self@, *rect, layer, candidates@.take(n as int)),
            decreases candidates.len() - n,
        {
            let object = candidates[n];
            proof {
                reveal(contact);
                reveal(qualifies);
                assert(candidates@.take(n + 1).drop_last() =~= candidates@.take(n as int));
                assert(candidates@.take(n + 1).last() == object);
            }
            if self.layers_interact(layer, object.layer) {
                match object.intersection(rect) {
                    Some(part) => {
                        let direction = self.get_collision_direction(rect, &object.rect);
                        let penetration = match direction {
                            Direction::Left | Direction::Right => part.width,
                            Direction::Up | Direction::Down => part.height,
                        };
                        results.push(
                            CollisionResult {
                                object,
                                direction,
                                penetration,
                                contact_point: part.center(),
                            },
                        );
                    },
                    None => {},
                }
            }
            n += 1;
        }
        proof {
            assert(candidates@.take(n as int) =~= candidates@);
            lemma_contacts_list_collisions(self@, *rect, layer, candidates@);
        }
        results
    }

    /// The rectangle moved out of a contact along the direction of the
    /// contact only.
    pub fn resolve_collision(&self, rect: &Rect, collision: &CollisionResult) -> (resolved: Rect)
        ensures
            resolved == pushed_out(*rect, *collision),
    {
        push_out(rect, collision)
    }

    /// Where `static_rect` lies as seen from `moving_rect`.
    pub fn get_collision_direction(&self, moving_rect: &Rect, static_rect: &Rect) -> (direction:
        Direction)
        ensures
            direction == direction_from(*moving_rect, *static_rect),
    {
        let dx: i64 = (2 * (static_rect.x as i64) + static_rect.width as i64) - (2 * (
        moving_rect.x as i64) + moving_rect.width as i64);
        let dy: i64 = (2 * (static_rect.y as i64) + static_rect.height as i64) - (2 * (
        moving_rect.y as i64) + moving_rect.height as i64);
        let ax: i64 = if dx >= 0 {
            dx
        } else {
            -dx
        };
        let ay: i64 = if dy >= 0 {
            dy
        } else {
            -dy
        };
        if ax > ay {
            if dx > 0 {
                Direction::Right
            } else {
                Direction::Left
            }
        } else {
            if dy > 0 {
                Direction::Down
            } else {
                Direction::Up
            }
        }
    }

    /// Casts a ray from `start` along `direction`, `max_distance` long, on
    /// behalf of `layer`, and hands back the nearest contact: see
    /// `CollisionView::casts`. The direction is not zero.
    pub fn raycast(
        &self,
        start: Vector2,
        direction: Vector2,
        max_distance: i32,
        layer: CollisionLayer,
    ) -> (found: Option<CollisionResult>)
        requires
            self.wf(),
            direction.x != 0 || direction.y != 0,
        ensures
            self@.casts(start, direction, max_distance, layer, found),
    {
        let end = end_of_ray(start, direction, max_distance);
        let ray_rect = box_of(start, end);
        let candidates = self.spatial_grid.query_rect(&ray_rect);
        let mut closest_collision: Option<CollisionResult> = None;
        let mut closest_gap: i128 = 0;
        let mut n: usize = 0;
        while n < candidates.len()
            invariant
                n <= candidates.len(),
                self.wf(),
                ray_rect == CollisionView::ray_reach(start, direction, max_distance),
                listing(self@.objects, ray_rect, CELL_SIZE as int, candidates@),
                match closest_collision {
                    Some(hit) => {
                        &&& exists|j: int| 0 <= j < n && #[trigger] candidates@[j] == hit.object
                        &&& self@.ray_meets(start, direction, max_distance, layer, hit.object)
                        &&& hit == CollisionView::ray_contact(start, direction, hit.object)
                        &&& closest_gap == CollisionView::ray_gap(start, direction, hit.object)
                        &&& forall|k: int|
                            0 <= k < n && self@.ray_meets(
                                start,
                                direction,
                                max_distance,
                                layer,
                                #[trigger] candidates@[k],
                            ) ==> closest_gap < CollisionView::ray_gap(
                                start,
                                direction,
                                candidates@[k],
                            ) || (closest_gap == CollisionView::ray_gap(
                                start,
                                direction,
                                candidates@[k],
                            ) && hit.object.id <= candidates@[k].id)
                    },
                    None => forall|k: int|
                        0 <= k < n ==> !self@.ray_meets(
                            start,
                            direction,
                            max_distance,
                            layer,
                            #[trigger] candidates@[k],
                        ),
                },
            decreases candidates.len() - n,
        {
            let object = candidates[n];
            let ghost before = closest_collision;
            let ghost gap_before = closest_gap;
            let mut taken = false;
            if self.layers_interact(layer, object.layer) {
                match ray_rect_intersection(start, direction, &object.rect) {
                    Some(point) => {
                        let gap = point.distance_squared(start);
                        if is_within(gap, max_distance) {
                            let nearer = match closest_collision {
                                Some(_) => gap < closest_gap,
                                None => true,
                            };
                            if nearer {
                                closest_gap = gap;
                                closest_collision = Some(
                                    CollisionResult {
                                        object,
                                        direction: self.get_collision_direction(
                                            &Rect::new(start.x, start.y, 1000, 1000),
                                            &object.rect,
                                        ),
                                        penetration: 0,
                                        contact_point: point,
                                    },
                                );
                                taken = true;
                            }
                        }
                    },
                    None => {},
                }
            }
            proof {
                assert(self@.objects.contains_key(candidates@[n as int].id));
                assert(reported(candidates@[n as int], ray_rect, CELL_SIZE as int));
                if taken {
                    assert(candidates@[n as int] == closest_collision->0.object);
                    assert forall|k: int|
                        0 <= k < n + 1 && self@.ray_meets(
                            start,
                            direction,
                            max_distance,
                            layer,
                            #[trigger] candidates@[k],
                        ) implies closest_gap < CollisionView::ray_gap(
                        start,
                        direction,
                        candidates@[k],
                    ) || (closest_gap == CollisionView::ray_gap(start, direction, candidates@[k])
                        && object.id <= candidates@[k].id) by {
                        if k < n {
                            if before is Some {
                                assert(gap_before < CollisionView::ray_gap(
                                    start,
                                    direction,
                                    candidates@[k],
                                ) || gap_before == CollisionView::ray_gap(
                                    start,
                                    direction,
                                    candidates@[k],
                                ));
                            }
                        }
                    }
                } else {
                    if before is Some {
                        let j = choose|j: int| 0 <= j < n && #[trigger] candidates@[j] == before->0.object;
                        assert(candidates@[j].id < candidates@[n as int].id);
                    }
                }
            }
            n += 1;
        }
        proof {
            match closest_collision {
                Some(hit) => {
                    let j = choose|j: int| 0 <= j < n && #[trigger] candidates@[j] == hit.object;
                    assert(self@.objects.contains_key(candidates@[j].id));
                    assert forall|id: u32|
                        self@.objects.contains_key(id) && self@.ray_meets(
                            start,
                            direction,
                            max_distance,
                            layer,
                            #[trigger] self@.objects[id],
                        ) implies CollisionView::ray_gap(start, direction, hit.object)
                        < CollisionView::ray_gap(start, direction, self@.objects[id]) || (
                    CollisionView::ray_gap(start, direction, hit.object) == CollisionView::ray_gap(
                        start,
                        direction,
                        self@.objects[id],
                    ) && hit.object.id <= id) by {
                        assert(lists_id(candidates@, id));
                        let k = choose|k: int|
                            0 <= k < candidates@.len() && #[trigger] candidates@[k].id == id;
                        assert(candidates@[k] == self@.objects[id]);
                    }
                },
                None => {
                    assert forall|id: u32| self@.objects.contains_key(id) implies !self@.ray_meets(
                        start,
                        direction,
                        max_distance,
                        layer,
                        #[trigger] self@.objects[id],
                    ) by {
                        if self@.ray_meets(start, direction, max_distance, layer, self@.objects[id]) {
                            assert(lists_id(candidates@, id));
                            let k = choose|k: int|
                                0 <= k < candidates@.len() && #[trigger] candidates@[k].id == id;
                            assert(candidates@[k] == self@.objects[id]);
                        }
                    }
                },
            }
        }
        closest_collision
    }

    /// Forgets every object. The rules stay, and ids are not given out
    /// again.
    pub fn clear(&mut self)
        requires
            old(self).wf(),
        ensures
            final(self).wf(),
            final(self)@ == (CollisionView {
                objects: Map::<u32, CollisionObject>::empty(),
                data: Map::<u32, Map<Seq<char>, Seq<char>>>::empty(),
                ..old(self)@
            }),
    {
        self.spatial_grid.clear();
        self.object_data.clear();
        proof {
            assert(self@.data =~= Map::<u32, Map<Seq<char>, Seq<char>>>::empty());
            lemma_view_carries(old(self)@, self@);
        }
    }

    /// The number of stored objects.
    pub fn object_count(&self) -> (n: usize)
        ensures
            n == self@.objects.len(),
    {
        self.spatial_grid.object_count()
    }
}

impl Default for CollisionSystem {
    fn default() -> (system: Self)
        ensures
            system.wf(),
            system@.objects == Map::<u32, CollisionObject>::empty(),
            system@.next_id == 1,
            system@.data == Map::<u32, Map<Seq<char>, Seq<char>>>::empty(),
            forall|a: CollisionLayer, b: CollisionLayer| #[trigger]
                system@.interaction(a, b) == default_interaction(a, b),
    {
        Self::new()
    }
}

/// What makes a check of `rect` on behalf of `layer` keep an object that a
/// query found: the layers interact, and the object is active and overlaps
/// the rectangle.
#[verifier::opaque]
pub open spec fn qualifies(
    view: CollisionView,
    rect: Rect,
    layer: CollisionLayer,
    object: CollisionObject,
) -> bool {
    view.interaction(layer, object.layer) && object.touches(rect)
}

/// The contacts of `rect` with those objects of a list that qualify, in the
/// order of the list.
pub open spec fn contacts_of(
    view: CollisionView,
    rect: Rect,
    layer: CollisionLayer,
    list: Seq<CollisionObject>,
) -> Seq<CollisionResult>
    decreases list.len(),
{
    if list.len() == 0 {
        Seq::empty()
    } else {
        let rest = contacts_of(view, rect, layer, list.drop_last());
        if qualifies(view, rect, layer, list.last()) {
            rest.push(contact(rect, list.last()))
        } else {
            rest
        }
    }
}

/// A contact names the object it was made for.
pub proof fn lemma_contact_names_object(rect: Rect, object: CollisionObject)
    ensures
        contact(rect, object).object == object,
{
    reveal(contact);
}

/// The contact comes from an object of the list that qualifies.
pub open spec fn made_from(
    view: CollisionView,
    rect: Rect,
    layer: CollisionLayer,
    list: Seq<CollisionObject>,
    hit: CollisionResult,
) -> bool {
    exists|j: int|
        0 <= j < list.len() && #[trigger] contact(rect, list[j]) == hit && qualifies(
            view,
            rect,
            layer,
            list[j],
        )
}

/// Each contact made from a list comes from an object of the list that
/// qualifies.
proof fn lemma_contacts_come_from_list(
    view: CollisionView,
    rect: Rect,
    layer: CollisionLayer,
    list: Seq<CollisionObject>,
    i: int,
)
    requires
        0 <= i < contacts_of(view, rect, layer, list).len(),
    ensures
        made_from(view, rect, layer, list, contacts_of(view, rect, layer, list)[i]),
    decreases list.len(),
{
    let front = list.drop_last();
    let rest = contacts_of(view, rect, layer, front);
    let all = contacts_of(view, rect, layer, list);
    if i < rest.len() {
        lemma_contacts_come_from_list(view, rect, layer, front, i);
        let j = choose|j: int|
            0 <= j < front.len() && #[trigger] contact(rect, front[j]) == rest[i] && qualifies(
                view,
                rect,
                layer,
                front[j],
            );
        assert(front[j] == list[j]);
        assert(contact(rect, list[j]) == all[i]);
    } else {
        assert(contact(rect, list[list.len() - 1]) == all[i]);
    }
}

/// The contacts made from a list that is ordered by id are ordered by the
/// ids of their objects.
proof fn lemma_contacts_keep_order(
    view: CollisionView,
    rect: Rect,
    layer: CollisionLayer,
    list: Seq<CollisionObject>,
    i: int,
    k: int,
)
    requires
        ascending(list),
        0 <= i < k < contacts_of(view, rect, layer, list).len(),
    ensures
        contacts_of(view, rect, layer, list)[i].object.id < contacts_of(
            view,
            rect,
            layer,
            list,
        )[k].object.id,
    decreases list.len(),
{
    let front = list.drop_last();
    let rest = contacts_of(view, rect, layer, front);
    let all = contacts_of(view, rect, layer, list);
    if k < rest.len() {
        assert(ascending(front)) by {
            assert forall|a: int, b: int| 0 <= a < b < front.len() implies front[a].id
                < front[b].id by {
                assert(front[a] == list[a] && front[b] == list[b]);
            }
        }
        lemma_contacts_keep_order(view, rect, layer, front, i, k);
    } else {
        lemma_contacts_come_from_list(view, rect, layer, front, i);
        let j = choose|j: int|
            0 <= j < front.len() && #[trigger] contact(rect, front[j]) == rest[i] && qualifies(
                view,
                rect,
                layer,
                front[j],
            );
        assert(front[j] == list[j]);
        assert(list[j].id < list[list.len() - 1].id);
        lemma_contact_names_object(rect, list[j]);
        lemma_contact_names_object(rect, list.last());
    }
}

/// Some contact names the given id.
pub open spec fn names_id(contacts: Seq<CollisionResult>, id: u32) -> bool {
    exists|i: int| 0 <= i < contacts.len() && #[trigger] contacts[i].object.id == id
}

/// Every object of a list that qualifies has its contact.
proof fn lemma_contacts_miss_none(
    view: CollisionView,
    rect: Rect,
    layer: CollisionLayer,
    list: Seq<CollisionObject>,
    j: int,
)
    requires
        0 <= j < list.len(),
        qualifies(view, rect, layer, list[j]),
    ensures
        names_id(contacts_of(view, rect, layer, list), list[j].id),
    decreases list.len(),
{
    let front = list.drop_last();
    let rest = contacts_of(view, rect, layer, front);
    let all = contacts_of(view, rect, layer, list);
    if j < front.len() {
        assert(front[j] == list[j]);
        lemma_contacts_miss_none(view, rect, layer, front, j);
        let i = choose|i: int| 0 <= i < rest.len() && #[trigger] rest[i].object.id == front[j].id;
        assert(all[i].object.id == list[j].id);
    } else {
        lemma_contact_names_object(rect, list.last());
        assert(all[rest.len() as int].object.id == list[j].id);
    }
}

/// The contacts made from the answer to a query are the outcome of the
/// check.
proof fn lemma_contacts_list_collisions(
    view: CollisionView,
    rect: Rect,
    layer: CollisionLayer,
    list: Seq<CollisionObject>,
)
    requires
        listing(view.objects, rect, CELL_SIZE as int, list),
    ensures
        view.lists_collisions(rect, layer, contacts_of(view, rect, layer, list)),
{
    let all = contacts_of(view, rect, layer, list);
    assert forall|i: int, k: int| 0 <= i < k < all.len() implies all[i].object.id
        < all[k].object.id by {
        lemma_contacts_keep_order(view, rect, layer, list, i, k);
    }
    assert forall|i: int| 0 <= i < all.len() implies {
        &&& view.objects.contains_key(#[trigger] all[i].object.id)
        &&& view.hits(view.objects[all[i].object.id], rect, layer)
        &&& all[i] == contact(rect, view.objects[all[i].object.id])
    } by {
        lemma_contacts_come_from_list(view, rect, layer, list, i);
        let j = choose|j: int|
            0 <= j < list.len() && #[trigger] contact(rect, list[j]) == all[i] && qualifies(
                view,
                rect,
                layer,
                list[j],
            );
        lemma_contact_names_object(rect, list[j]);
        assert(view.objects.contains_key(list[j].id));
        reveal(qualifies);
    }
    assert forall|id: u32|
        view.objects.contains_key(id) && view.hits(
            #[trigger] view.objects[id],
            rect,
            layer,
        ) implies exists|i: int| 0 <= i < all.len() && #[trigger] all[i].object.id == id by {
        assert(lists_id(list, id));
        let j = choose|j: int| 0 <= j < list.len() && #[trigger] list[j].id == id;
        assert(list[j] == view.objects[id]);
        assert(qualifies(view, rect, layer, list[j])) by {
            reveal(qualifies);
        }
        lemma_contacts_miss_none(view, rect, layer, list, j);
    }
}

/// The ids of the objects of a list of contacts, in the order of the list.
pub open spec fn ids_of(list: Seq<CollisionResult>) -> Seq<u32> {
    Seq::new(list.len(), |i: int| list[i].object.id)
}

/// The ids of an outcome of a check rise, and are the ids of the stored
/// objects that the check reports.
proof fn lemma_outcome_ids(
    view: CollisionView,
    rect: Rect,
    layer: CollisionLayer,
    list: Seq<CollisionResult>,
)
    requires
        view.lists_collisions(rect, layer, list),
    ensures
        crate::util::rising(ids_of(list)),
        forall|x: u32|
            ids_of(list).contains(x) <==> view.objects.contains_key(x) && view.hits(
                view.objects[x],
                rect,
                layer,
            ),
{
    let ids = ids_of(list);
    assert forall|x: u32|
        ids.contains(x) <==> view.objects.contains_key(x) && view.hits(
            view.objects[x],
            rect,
            layer,
        ) by {
        if ids.contains(x) {
            let i = choose|i: int| 0 <= i < ids.len() && ids[i] == x;
            assert(view.objects.contains_key(list[i].object.id));
        }
        if view.objects.contains_key(x) && view.hits(view.objects[x], rect, layer) {
            let i = choose|i: int| 0 <= i < list.len() && #[trigger] list[i].object.id == x;
            assert(ids[i] == x);
        }
    }
}

/// The outcome of a check is settled by what the system holds: two
/// outcomes of one check are the same sequence.
pub proof fn lemma_collisions_unique(
    view: CollisionView,
    rect: Rect,
    layer: CollisionLayer,
    first: Seq<CollisionResult>,
    second: Seq<CollisionResult>,
)
    requires
        view.lists_collisions(rect, layer, first),
        view.lists_collisions(rect, layer, second),
    ensures
        first == second,
{
    lemma_outcome_ids(view, rect, layer, first);
    lemma_outcome_ids(view, rect, layer, second);
    crate::util::lemma_rising_unique(ids_of(first), ids_of(second));
    assert(first.len() == second.len()) by {
        assert(ids_of(first).len() == first.len());
        assert(ids_of(second).len() == second.len());
    }
    assert forall|i: int| 0 <= i < first.len() implies first[i] == second[i] by {
        assert(ids_of(first)[i] == ids_of(second)[i]);
        assert(view.objects.contains_key(first[i].object.id));
        assert(view.objects.contains_key(second[i].object.id));
    }
    assert(first =~= second);
}

/// A view stays well formed where the rules stay and the objects keep
/// their ids below the next one.
proof fn lemma_view_carries(before: CollisionView, after: CollisionView)
    requires
        before.wf(),
        after.matrix == before.matrix,
        after.next_id >= 1,
        forall|id: u32| #[trigger]
            after.objects.contains_key(id) ==> id < after.next_id && after.objects[id].id == id,
        forall|id: u32| #[trigger] after.data.contains_key(id) ==> after.objects.contains_key(id),
    ensures
        after.wf(),
{
    assert forall|a: CollisionLayer, b: CollisionLayer| #[trigger]
        after.interaction(a, b) == after.interaction(b, a) by {
        assert(before.interaction(a, b) == before.interaction(b, a));
    }
}

/// The rules never tell the two layers of a pair apart.
pub proof fn lemma_interaction_symmetric(view: CollisionView, a: CollisionLayer, b: CollisionLayer)
    requires
        view.wf(),
    ensures
        view.interaction(a, b) == view.interaction(b, a),
{
}

} // verus!
