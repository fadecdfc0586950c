//! The table of entities and the systems that pass over it once a frame.

use vstd::prelude::*;
use std::collections::HashMap;
use crate::math::Rect;
use crate::object::{
    Component, ComponentKind, ComponentValue, GameObject, Health, ObjectId, PhysicsComponent,
    SpriteComponent, Timer, Transform,
};
use crate::physics::world::WorldView;
use crate::physics::PhysicsWorld;
use crate::util::{entry_mut, keys_of, lemma_pick_done, lemma_pick_next, picked_from, Result};

verus! {

/// `after` is `before` with the components `parts`.
pub open spec fn reequipped(
    before: GameObject,
    parts: Map<ComponentKind, ComponentValue>,
    after: GameObject,
) -> bool {
    &&& after.wf()
    &&& after.differs_in_components_only(&before)
    &&& after.components@ == parts
}

/// Every entity of a table is well formed.
pub open spec fn all_wf(objects: Map<ObjectId, GameObject>) -> bool {
    forall|id: ObjectId| objects.contains_key(id) ==> (#[trigger] objects[id]).wf()
}

/// The components of an entity after its timer counted `delta_time` ticks.
/// The timer of an inactive entity does not count.
pub open spec fn timers_run(object: GameObject, delta_time: u32) -> Map<ComponentKind, ComponentValue> {
    match object.component::<Timer>() {
        Some(timer) => if object.active {
            object.components@.insert(
                ComponentKind::Timer,
                ComponentValue::Timer(timer.ticked(delta_time)),
            )
        } else {
            object.components@
        },
        None => object.components@,
    }
}

/// The components of an entity after its time of invulnerability ran for
/// `delta_time` ticks. That of an inactive entity does not run.
pub open spec fn health_run(object: GameObject, delta_time: u32) -> Map<ComponentKind, ComponentValue> {
    match object.component::<Health>() {
        Some(health) => if object.active {
            object.components@.insert(
                ComponentKind::Health,
                ComponentValue::Health(health.aged(delta_time)),
            )
        } else {
            object.components@
        },
        None => object.components@,
    }
}

/// The components of an entity after the animation of its sprite ran for
/// `delta_time` ticks.
pub open spec fn sprites_run(object: GameObject, delta_time: u32) -> Map<ComponentKind, ComponentValue> {
    match object.component::<SpriteComponent>() {
        Some(c) => object.components@.insert(
            ComponentKind::Sprite,
            ComponentValue::Sprite(SpriteComponent { sprite: c.sprite.updated(delta_time), ..c }),
        ),
        None => object.components@,
    }
}

/// The components of an entity after its transform took the position of
/// the body that its physics component names. Nothing changes for an
/// inactive entity, for one that lacks either component, and where the
/// world has no such body.
pub open spec fn pulled_from_physics(object: GameObject, world: WorldView) -> Map<
    ComponentKind,
    ComponentValue,
> {
    match (object.component::<PhysicsComponent>(), object.component::<Transform>()) {
        (Some(p), Some(t)) => if object.active && world.bodies.contains_key(p.body_id) {
            object.components@.insert(
                ComponentKind::Transform,
                ComponentValue::Transform(
                    Transform { position: world.bodies[p.body_id].position, ..t },
                ),
            )
        } else {
            object.components@
        },
        _ => object.components@,
    }
}

/// The world after the body that the physics component of an entity names
/// was put at the position of the transform of the entity. Nothing changes
/// for an inactive entity and for one that lacks either component.
pub open spec fn pushed_one(world: WorldView, object: GameObject) -> WorldView {
    match (object.component::<PhysicsComponent>(), object.component::<Transform>()) {
        (Some(p), Some(t)) => if object.active {
            world.with_body_position(p.body_id, t.position)
        } else {
            world
        },
        _ => world,
    }
}

/// The world after the entities with the given ids were pushed to it in
/// turn.
pub open spec fn pushed_to_physics(
    world: WorldView,
    objects: Map<ObjectId, GameObject>,
    ids: Seq<ObjectId>,
) -> WorldView
    decreases ids.len(),
{
    if ids.len() == 0 {
        world
    } else {
        pushed_one(pushed_to_physics(world, objects, ids.drop_last()), objects[ids.last()])
    }
}

/// `after` are the entities `before` moved to where their bodies are.
pub open spec fn synced_from(
    before: Map<ObjectId, GameObject>,
    world: WorldView,
    after: Map<ObjectId, GameObject>,
) -> bool {
    &&& after.dom() == before.dom()
    &&& forall|id: ObjectId| #[trigger]
        before.contains_key(id) ==> reequipped(
            before[id],
            pulled_from_physics(before[id], world),
            after[id],
        )
}

/// Lets the timers of the entities count.
pub struct TimerSystem;

impl TimerSystem {
    pub fn new() -> Self {
        Self
    }

    /// Lets the timer of every active entity count `delta_time` ticks.
    pub fn update(&mut self, objects: &mut HashMap<ObjectId, GameObject>, delta_time: u32) -> (done:
        Result<()>)
        requires
            all_wf(old(objects)@),
        ensures
            done is Ok,
            final(objects)@.dom() == old(objects)@.dom(),
            forall|id: ObjectId| #[trigger]
                old(objects)@.contains_key(id) ==> reequipped(
                    old(objects)@[id],
                    timers_run(old(objects)@[id], delta_time),
                    final(objects)@[id],
                ),
    {
        broadcast use vstd::std_specs::hash::group_hash_axioms;

        let ids = keys_of(objects);
        let ghost start = objects@;
        let mut n: usize = 0;
        while n < ids.len()
            invariant
                n <= ids.len(),
                ids@.no_duplicates(),
                forall|id: ObjectId| ids@.contains(id) <==> start.contains_key(id),
                start == old(objects)@,
                all_wf(start),
                objects@.dom() == start.dom(),
                forall|j: int|
                    0 <= j < n ==> reequipped(
                        start[#[trigger] ids@[j]],
                        timers_run(start[ids@[j]], delta_time),
                        objects@[ids@[j]],
                    ),
                forall|j: int| n <= j < ids@.len() ==> objects@[#[trigger] ids@[j]] == start[ids@[j]],
            decreases ids.len() - n,
        {
            let id = ids[n];
            assert(ids@.contains(ids@[n as int]));
            let ghost before = objects@;
            match objects.remove(&id) {
                Some(object) => {
                    let mut object = object;
                    if object.active {
                        match object.get_component_mut::<Timer>() {
                            Some(timer) => {
                                let _ = timer.update(delta_time);
                            },
                            None => {},
                        }
                    }
                    objects.insert(id, object);
                },
                None => {},
            }
            proof {
                assert(objects@.dom() =~= start.dom());
                assert forall|j: int| 0 <= j < n + 1 implies reequipped(
                    start[#[trigger] ids@[j]],
                    timers_run(start[ids@[j]], delta_time),
                    objects@[ids@[j]],
                ) by {
                    if j < n {
                        assert(ids@[j] != id);
                        assert(objects@[ids@[j]] == before[ids@[j]]);
                    }
                }
                assert forall|j: int| n + 1 <= j < ids@.len() implies objects@[#[trigger] ids@[j]]
                    == start[ids@[j]] by {
                    assert(ids@[j] != id);
                    assert(objects@[ids@[j]] == before[ids@[j]]);
                }
            }
            n += 1;
        }
        proof {
            assert forall|id: ObjectId| #[trigger] start.contains_key(id) implies reequipped(
                start[id],
                timers_run(start[id], delta_time),
                objects@[id],
            ) by {
                assert(ids@.contains(id));
                let j = choose|j: int| 0 <= j < ids@.len() && ids@[j] == id;
                assert(reequipped(
                    start[ids@[j]],
                    timers_run(start[ids@[j]], delta_time),
                    objects@[ids@[j]],
                ));
            }
        }
        Ok(())
    }
}

/// Lets invulnerability run out.
pub struct HealthSystem;

impl HealthSystem {
    pub fn new() -> Self {
        Self
    }

    /// Lets the time of invulnerability of every active entity run for
    /// `delta_time` ticks.
    pub fn update(&mut self, objects: &mut HashMap<ObjectId, GameObject>, delta_time: u32) -> (done:
        Result<()>)
        requires
            all_wf(old(objects)@),
        ensures
            done is Ok,
            final(objects)@.dom() == old(objects)@.dom(),
            forall|id: ObjectId| #[trigger]
                old(objects)@.contains_key(id) ==> reequipped(
                    old(objects)@[id],
                    health_run(old(objects)@[id], delta_time),
                    final(objects)@[id],
                ),
    {
        broadcast use vstd::std_specs::hash::group_hash_axioms;

        let ids = keys_of(objects);
        let ghost start = objects@;
        let mut n: usize = 0;
        while n < ids.len()
            invariant
                n <= ids.len(),
                ids@.no_duplicates(),
                forall|id: ObjectId| ids@.contains(id) <==> start.contains_key(id),
                start == old(objects)@,
                all_wf(start),
                objects@.dom() == start.dom(),
                forall|j: int|
                    0 <= j < n ==> reequipped(
                        start[#[trigger] ids@[j]],
                        health_run(start[ids@[j]], delta_time),
                        objects@[ids@[j]],
                    ),
                forall|j: int| n <= j < ids@.len() ==> objects@[#[trigger] ids@[j]] == start[ids@[j]],
            decreases ids.len() - n,
        {
            let id = ids[n];
            assert(ids@.contains(ids@[n as int]));
            let ghost before = objects@;
            match objects.remove(&id) {
                Some(object) => {
                    let mut object = object;
                    if object.active {
                        match object.get_component_mut::<Health>() {
                            Some(health) => {
                                health.update(delta_time);
                            },
                            None => {},
                        }
                    }
                    objects.insert(id, object);
                },
                None => {},
            }
            proof {
                assert(objects@.dom() =~= start.dom());
                assert forall|j: int| 0 <= j < n + 1 implies reequipped(
                    start[#[trigger] ids@[j]],
                    health_run(start[ids@[j]], delta_time),
                    objects@[ids@[j]],
                ) by {
                    if j < n {
                        assert(ids@[j] != id);
                        assert(objects@[ids@[j]] == before[ids@[j]]);
                    }
                }
                assert forall|j: int| n + 1 <= j < ids@.len() implies objects@[#[trigger] ids@[j]]
                    == start[ids@[j]] by {
                    assert(ids@[j] != id);
                    assert(objects@[ids@[j]] == before[ids@[j]]);
                }
            }
            n += 1;
        }
        proof {
            assert forall|id: ObjectId| #[trigger] start.contains_key(id) implies reequipped(
                start[id],
                health_run(start[id], delta_time),
                objects@[id],
            ) by {
                assert(ids@.contains(id));
                let j = choose|j: int| 0 <= j < ids@.len() && ids@[j] == id;
                assert(reequipped(
                    start[ids@[j]],
                    health_run(start[ids@[j]], delta_time),
                    objects@[ids@[j]],
                ));
            }
        }
        Ok(())
    }
}

/// Keeps entities and bodies in the same place.
pub struct PhysicsSyncSystem;

impl PhysicsSyncSystem {
    pub fn new() -> Self {
        Self
    }

    /// Moves every active entity to where its body is: see
    /// `pulled_from_physics`.
    pub fn sync_from_physics(
        &self,
        objects: &mut HashMap<ObjectId, GameObject>,
        physics_world: &PhysicsWorld,
    ) -> (done: Result<()>)
        requires
            all_wf(old(objects)@),
        ensures
            done is Ok,
            final(objects)@.dom() == old(objects)@.dom(),
            forall|id: ObjectId| #[trigger]
                old(objects)@.contains_key(id) ==> reequipped(
                    old(objects)@[id],
                    pulled_from_physics(old(objects)@[id], physics_world@),
                    final(objects)@[id],
                ),
    {
        broadcast use vstd::std_specs::hash::group_hash_axioms;

        let ids = keys_of(objects);
        let ghost start = objects@;
        let mut n: usize = 0;
        while n < ids.len()
            invariant
                n <= ids.len(),
                ids@.no_duplicates(),
                forall|id: ObjectId| ids@.contains(id) <==> start.contains_key(id),
                start == old(objects)@,
                all_wf(start),
                objects@.dom() == start.dom(),
                forall|j: int|
                    0 <= j < n ==> reequipped(
                        start[#[trigger] ids@[j]],
                        pulled_from_physics(start[ids@[j]], physics_world@),
                        objects@[ids@[j]],
                    ),
                forall|j: int| n <= j < ids@.len() ==> objects@[#[trigger] ids@[j]] == start[ids@[j]],
            decreases ids.len() - n,
        {
            let id = ids[n];
            assert(ids@.contains(ids@[n as int]));
            let ghost before = objects@;
            match objects.remove(&id) {
                Some(object) => {
                    let mut object = object;
                    if object.active {
                        let body_id = match object.get_component::<PhysicsComponent>() {
                            Some(physics_comp) => Some(physics_comp.body_id),
                            None => None,
                        };
                        if let Some(body_id) = body_id {
                            let position = match physics_world.get_body(body_id) {
                                Some(body) => Some(body.position),
                                None => None,
                            };
                            match object.get_component_mut::<Transform>() {
                                Some(transform) => {
                                    if let Some(position) = position {
                                        transform.position = position;
                                    }
                                },
                                None => {},
                            }
                        }
                    }
                    objects.insert(id, object);
                },
                None => {},
            }
            proof {
                assert(objects@.dom() =~= start.dom());
                assert forall|j: int| 0 <= j < n + 1 implies reequipped(
                    start[#[trigger] ids@[j]],
                    pulled_from_physics(start[ids@[j]], physics_world@),
                    objects@[ids@[j]],
                ) by {
                    if j < n {
                        assert(ids@[j] != id);
                        assert(objects@[ids@[j]] == before[ids@[j]]);
                    } else {
                        let o = start[id];
                        if o.component::<Transform>() is Some {
                            Transform::lemma_peel_wrap(o.components@[ComponentKind::Transform]);
                            assert(objects@[id].components@ =~= pulled_from_physics(
                                o,
                                physics_world@,
                            ));
                        }
                    }
                }
                assert forall|j: int| n + 1 <= j < ids@.len() implies objects@[#[trigger] ids@[j]]
                    == start[ids@[j]] by {
                    assert(ids@[j] != id);
                    assert(objects@[ids@[j]] == before[ids@[j]]);
                }
            }
            n += 1;
        }
        proof {
            assert forall|id: ObjectId| #[trigger] start.contains_key(id) implies reequipped(
                start[id],
                pulled_from_physics(start[id], physics_world@),
                objects@[id],
            ) by {
                assert(ids@.contains(id));
                let j = choose|j: int| 0 <= j < ids@.len() && ids@[j] == id;
                assert(reequipped(
                    start[ids@[j]],
                    pulled_from_physics(start[ids@[j]], physics_world@),
                    objects@[ids@[j]],
                ));
            }
        }
        Ok(())
    }

    /// Puts the body of every active entity where the entity is. The
    /// entities are taken in some order, each once: see
    /// `pushed_to_physics`.
    pub fn sync_to_physics(
        &self,
        objects: &HashMap<ObjectId, GameObject>,
        physics_world: &mut PhysicsWorld,
    ) -> (done: Result<()>)
        requires
            all_wf(objects@),
            old(physics_world).wf(),
        ensures
            done is Ok,
            final(physics_world).wf(),
            exists|ids: Seq<ObjectId>|
                {
                    &&& ids.no_duplicates()
                    &&& forall|id: ObjectId| ids.contains(id) <==> objects@.contains_key(id)
                    &&& final(physics_world)@ == #[trigger] pushed_to_physics(
                        old(physics_world)@,
                        objects@,
                        ids,
                    )
                },
    {
        broadcast use vstd::std_specs::hash::group_hash_axioms;

        let ids = keys_of(objects);
        let mut n: usize = 0;
        while n < ids.len()
            invariant
                n <= ids.len(),
                all_wf(objects@),
                forall|id: ObjectId| ids@.contains(id) <==> objects@.contains_key(id),
                physics_world.wf(),
                physics_world@ == pushed_to_physics(
                    old(physics_world)@,
                    objects@,
                    ids@.take(n as int),
                ),
            decreases ids.len() - n,
        {
            let id = ids[n];
            assert(ids@.contains(ids@[n as int]));
            proof {
                assert(ids@.take(n + 1).drop_last() =~= ids@.take(n as int));
                assert(ids@.take(n + 1).last() == id);
            }
            match objects.get(&id) {
                Some(object) => {
                    if object.active {
                        match object.get_component::<PhysicsComponent>() {
                            Some(physics_comp) => match object.get_component::<Transform>() {
                                Some(transform) => {
                                    physics_world.set_body_position(
                                        physics_comp.body_id,
                                        transform.position,
                                    );
                                },
                                None => {},
                            },
                            None => {},
                        }
                    }
                },
                None => {},
            }
            n += 1;
        }
        proof {
            assert(ids@.take(n as int) =~= ids@);
        }
        Ok(())
    }
}

/// Says in which order sprites are drawn.
pub struct SpriteRenderSystem;

/// The layer on which an entity is drawn: that of its sprite, where the
/// entity is active and has a transform and a visible sprite.
pub open spec fn drawn_on(object: GameObject) -> Option<i32> {
    match (object.component::<SpriteComponent>(), object.component::<Transform>()) {
        (Some(s), Some(_)) => if object.active && s.visible {
            Some(s.layer)
        } else {
            None
        },
        _ => None,
    }
}

/// The ids of a draw list are in an order in which the layers do not fall.
pub open spec fn layers_rise(objects: Map<ObjectId, GameObject>, list: Seq<ObjectId>) -> bool {
    forall|i: int, j: int|
        0 <= i < j < list.len() ==> drawn_on(objects[list[i]])->0 <= drawn_on(objects[list[j]])->0
}

impl SpriteRenderSystem {
    pub fn new() -> Self {
        Self
    }

    /// The layer on which an entity is drawn, if it is drawn.
    pub fn layer_of(object: &GameObject) -> (layer: Option<i32>)
        requires
            object.wf(),
        ensures
            layer == drawn_on(*object),
    {
        if !object.active {
            return None;
        }
        match object.get_component::<SpriteComponent>() {
            Some(sprite_comp) => match object.get_component::<Transform>() {
                Some(_) => if sprite_comp.visible {
                    Some(sprite_comp.layer)
                } else {
                    None
                },
                None => None,
            },
            None => None,
        }
    }

    /// The entities to draw, in the order in which to draw them: every
    /// active entity with a transform and a visible sprite, each once,
    /// lower layers first.
    pub fn draw_list(&self, objects: &HashMap<ObjectId, GameObject>) -> (list: Vec<ObjectId>)
        requires
            all_wf(objects@),
        ensures
            list@.no_duplicates(),
            forall|id: ObjectId|
                list@.contains(id) <==> objects@.contains_key(id) && drawn_on(objects@[id]) is Some,
            layers_rise(objects@, list@),
    {
        broadcast use vstd::std_specs::hash::group_hash_axioms;

        let ids = keys_of(objects);
        let mut list: Vec<ObjectId> = Vec::new();
        let mut layers: Vec<i32> = Vec::new();
        let mut n: usize = 0;
        while n < ids.len()
            invariant
                n <= ids.len(),
                all_wf(objects@),
                ids@.no_duplicates(),
                forall|id: ObjectId| ids@.contains(id) <==> objects@.contains_key(id),
                list@.len() == layers@.len(),
                list@.no_duplicates(),
                forall|k: int|
                    0 <= k < list@.len() ==> {
                        &&& objects@.contains_key(#[trigger] list@[k])
                        &&& drawn_on(objects@[list@[k]]) == Some(layers@[k])
                        &&& exists|j: int| 0 <= j < n && ids@[j] == list@[k]
                    },
                forall|i: int, j: int| 0 <= i < j < layers@.len() ==> layers@[i] <= layers@[j],
                forall|j: int|
                    0 <= j < n && drawn_on(objects@[#[trigger] ids@[j]]) is Some ==> list@.contains(
                        ids@[j],
                    ),
            decreases ids.len() - n,
        {
            let id = ids[n];
            assert(ids@.contains(ids@[n as int]));
            let layer = match objects.get(&id) {
                Some(object) => Self::layer_of(object),
                None => None,
            };
            if let Some(layer) = layer {
                let mut at: usize = 0;
                while at < layers.len() && layers[at] <= layer
                    invariant
                        at <= layers.len(),
                        forall|k: int| 0 <= k < at ==> layers@[k] <= layer,
                    decreases layers.len() - at,
                {
                    at += 1;
                }
                let ghost list_before = list@;
                let ghost layers_before = layers@;
                list.insert(at, id);
                layers.insert(at, layer);
                proof {
                    assert forall|k: int| 0 <= k < list_before.len() implies list_before[k] != id by {
                        let j = choose|j: int| 0 <= j < n && ids@[j] == list_before[k];
                        assert(ids@[j] != ids@[n as int]);
                    }
                    assert forall|i: int, j: int|
                        0 <= i < list@.len() && 0 <= j < list@.len() && i != j implies list@[i]
                        != list@[j] by {
                        let oi = if i < at {
                            i
                        } else {
                            i - 1
                        };
                        let oj = if j < at {
                            j
                        } else {
                            j - 1
                        };
                        if i != at && j != at {
                            assert(list@[i] == list_before[oi] && list@[j] == list_before[oj]);
                        } else if i == at {
                            assert(list@[j] == list_before[oj]);
                        } else {
                            assert(list@[i] == list_before[oi]);
                        }
                    }
                    assert forall|k: int| 0 <= k < list@.len() implies {
                        &&& objects@.contains_key(#[trigger] list@[k])
                        &&& drawn_on(objects@[list@[k]]) == Some(layers@[k])
                        &&& exists|j: int| 0 <= j < n + 1 && ids@[j] == list@[k]
                    } by {
                        if k < at {
                            assert(list@[k] == list_before[k] && layers@[k] == layers_before[k]);
                            let j = choose|j: int| 0 <= j < n && ids@[j] == list_before[k];
                            assert(0 <= j < n + 1 && ids@[j] == list@[k]);
                        } else if k == at {
                            assert(ids@[n as int] == list@[k]);
                        } else {
                            assert(list@[k] == list_before[k - 1] && layers@[k] == layers_before[k
                                - 1]);
                            let j = choose|j: int| 0 <= j < n && ids@[j] == list_before[k - 1];
                            assert(0 <= j < n + 1 && ids@[j] == list@[k]);
                        }
                    }
                    assert forall|i: int, j: int| 0 <= i < j < layers@.len() implies layers@[i]
                        <= layers@[j] by {
                        if j < at {
                            assert(layers@[i] == layers_before[i] && layers@[j] == layers_before[j]);
                        } else if j == at {
                            assert(layers@[i] == layers_before[i]);
                        } else {
                            assert(layers@[j] == layers_before[j - 1]);
                            if i < at {
                                assert(layers@[i] == layers_before[i]);
                            } else if i == at {
                                assert(layers_before[at as int] > layer);
                                if j - 1 > at {
                                    assert(layers_before[at as int] <= layers_before[j - 1]);
                                }
                            } else {
                                assert(layers@[i] == layers_before[i - 1]);
                            }
                        }
                    }
                    assert forall|j: int|
                        0 <= j < n + 1 && drawn_on(
                            objects@[#[trigger] ids@[j]],
                        ) is Some implies list@.contains(ids@[j]) by {
                        if j < n {
                            assert(list_before.contains(ids@[j]));
                            let k = choose|k: int|
                                0 <= k < list_before.len() && list_before[k] == ids@[j];
                            if k < at {
                                assert(list@[k] == ids@[j]);
                            } else {
                                assert(list@[k + 1] == ids@[j]);
                            }
                        } else {
                            assert(list@[at as int] == ids@[j]);
                        }
                    }
                }
            } else {
                proof {
                    assert forall|k: int| 0 <= k < list@.len() implies {
                        &&& objects@.contains_key(#[trigger] list@[k])
                        &&& drawn_on(objects@[list@[k]]) == Some(layers@[k])
                        &&& exists|j: int| 0 <= j < n + 1 && ids@[j] == list@[k]
                    } by {
                        let j = choose|j: int| 0 <= j < n && ids@[j] == list@[k];
                        assert(0 <= j < n + 1 && ids@[j] == list@[k]);
                    }
                }
            }
            n += 1;
        }
        proof {
            assert forall|id: ObjectId|
                list@.contains(id) <==> objects@.contains_key(id) && drawn_on(
                    objects@[id],
                ) is Some by {
                if list@.contains(id) {
                    let k = choose|k: int| 0 <= k < list@.len() && list@[k] == id;
                    assert(objects@.contains_key(list@[k]));
                }
                if objects@.contains_key(id) && drawn_on(objects@[id]) is Some {
                    assert(ids@.contains(id));
                    let j = choose|j: int| 0 <= j < ids@.len() && ids@[j] == id;
                    assert(drawn_on(objects@[ids@[j]]) is Some);
                }
            }
            assert forall|i: int, j: int| 0 <= i < j < list@.len() implies drawn_on(
                objects@[list@[i]],
            )->0 <= drawn_on(objects@[list@[j]])->0 by {
                assert(objects@.contains_key(list@[i]));
                assert(objects@.contains_key(list@[j]));
                assert(layers@[i] <= layers@[j]);
            }
        }
        list
    }
}

/// What a manager holds.
pub struct ManagerView {
    /// The entities, by id.
    pub objects: Map<ObjectId, GameObject>,
    /// The id that the next entity made here gets.
    pub next_id: ObjectId,
}

/// The table of entities.
pub struct GameObjectManager {
    objects: HashMap<ObjectId, GameObject>,
    next_id: ObjectId,
    timer_system: TimerSystem,
    health_system: HealthSystem,
    sprite_render_system: SpriteRenderSystem,
    physics_sync_system: PhysicsSyncSystem,
}

impl View for GameObjectManager {
    type V = ManagerView;

    closed spec fn view(&self) -> ManagerView {
        ManagerView { objects: self.objects@, next_id: self.next_id }
    }
}

/// `after` are the entities `before` after an update of `delta_time`
/// ticks.
pub open spec fn refreshed_all(
    before: Map<ObjectId, GameObject>,
    delta_time: u32,
    after: Map<ObjectId, GameObject>,
) -> bool {
    &&& after.dom() == before.dom()
    &&& forall|id: ObjectId| #[trigger]
        before.contains_key(id) ==> reequipped(
            before[id],
            refreshed(before[id], delta_time),
            after[id],
        )
}

/// The components of an entity after an update of `delta_time` ticks: its
/// timer counted, its invulnerability ran, and the animation of its sprite
/// moved on; the first two only where the entity is active.
pub open spec fn refreshed(object: GameObject, delta_time: u32) -> Map<ComponentKind, ComponentValue> {
    let with_timer = timers_run(object, delta_time);
    let with_health = match object.component::<Health>() {
        Some(health) => if object.active {
            with_timer.insert(
                ComponentKind::Health,
                ComponentValue::Health(health.aged(delta_time)),
            )
        } else {
            with_timer
        },
        None => with_timer,
    };
    match object.component::<SpriteComponent>() {
        Some(c) => with_health.insert(
            ComponentKind::Sprite,
            ComponentValue::Sprite(SpriteComponent { sprite: c.sprite.updated(delta_time), ..c }),
        ),
        None => with_health,
    }
}

impl GameObjectManager {
    /// Every entity is well formed.
    pub closed spec fn wf(&self) -> bool {
        all_wf(self.objects@)
    }

    /// What is well formed of a manager is well formed of its entities.
    pub proof fn lemma_wf_view(&self)
        requires
            self.wf(),
        ensures
            all_wf(self@.objects),
    {
    }

    /// A manager without entities; the first id it gives out is one.
    pub fn new() -> (manager: Self)
        ensures
            manager.wf(),
            manager@.objects == Map::<ObjectId, GameObject>::empty(),
            manager@.next_id == 1,
    {
        Self {
            objects: HashMap::new(),
            next_id: 1,
            timer_system: TimerSystem::new(),
            health_system: HealthSystem::new(),
            sprite_render_system: SpriteRenderSystem::new(),
            physics_sync_system: PhysicsSyncSystem::new(),
        }
    }

    /// Whether an id is left to give out.
    pub fn has_free_id(&self) -> (free: bool)
        ensures
            free == (self@.next_id < u32::MAX),
    {
        self.next_id < u32::MAX
    }

    /// Makes an entity with the given name and hands back its id, the next
    /// in order. The entity is active and has neither tag nor components.
    pub fn create_object(&mut self, name: String) -> (id: ObjectId)
        requires
            old(self).wf(),
            old(self)@.next_id < u32::MAX,
        ensures
            final(self).wf(),
            id == old(self)@.next_id,
            final(self)@.next_id == id + 1,
            final(self)@.objects.dom() == old(self)@.objects.dom().insert(id),
            forall|other: ObjectId|
                other != id && old(self)@.objects.contains_key(other) ==> (#[trigger] final(self)@.objects[other])
                    == old(self)@.objects[other],
            ({
                let object = final(self)@.objects[id];
                &&& object.id == id
                &&& object.active
                &&& object.name == name
                &&& object.tag@ == Seq::<char>::empty()
                &&& object.components@ == Map::<ComponentKind, ComponentValue>::empty()
            }),
    {
        let id = self.next_id;
        self.next_id += 1;
        let object = GameObject::new(id, name);
        let ghost before = self.objects@;
        self.objects.insert(id, object);
        assert(self.objects@.dom() =~= before.dom().insert(id));
        id
    }

    /// Files an entity under its own id, in place of the one that was
    /// there, and hands back the id.
    pub fn add_object(&mut self, object: GameObject) -> (id: ObjectId)
        requires
            old(self).wf(),
            object.wf(),
        ensures
            final(self).wf(),
            id == object.id,
            final(self)@ == (ManagerView {
                objects: old(self)@.objects.insert(object.id, object),
                ..old(self)@
            }),
    {
        let id = object.id;
        self.objects.insert(id, object);
        id
    }

    /// Takes an entity out and hands it back; `None` where the id is
    /// unknown.
    pub fn remove_object(&mut self, id: ObjectId) -> (taken: Option<GameObject>)
        requires
            old(self).wf(),
        ensures
            final(self).wf(),
            final(self)@ == (ManagerView {
                objects: old(self)@.objects.remove(id),
                ..old(self)@
            }),
            match taken {
                Some(object) => old(self)@.objects.contains_key(id) && old(self)@.objects[id]
                    == object && object.wf(),
                None => !old(self)@.objects.contains_key(id),
            },
    {
        broadcast use vstd::std_specs::hash::group_hash_axioms;

        self.objects.remove(&id)
    }

    /// The entity with the given id.
    pub fn get_object(&self, id: ObjectId) -> (found: Option<&GameObject>)
        ensures
            match found {
                Some(object) => self@.objects.contains_key(id) && self@.objects[id] == *object && (
                self.wf() ==> object.wf()),
                None => !self@.objects.contains_key(id),
            },
    {
        broadcast use vstd::std_specs::hash::group_hash_axioms;

        self.objects.get(&id)
    }

    /// The entity with the given id, to be changed in place. The manager
    /// stays well formed as long as the entity does.
    pub fn get_object_mut(&mut self, id: ObjectId) -> (found: Option<&mut GameObject>)
        requires
            old(self).wf(),
        ensures
            match found {
                Some(object) => {
                    &&& old(self)@.objects.contains_key(id)
                    &&& *object == old(self)@.objects[id]
                    &&& object.wf()
                    &&& final(self)@ == (ManagerView {
                        objects: old(self)@.objects.insert(id, *final(object)),
                        ..old(self)@
                    })
                    &&& final(object).wf() ==> final(self).wf()
                },
                None => !old(self)@.objects.contains_key(id) && final(self)@ == old(self)@
                    && final(self).wf(),
            },
    {
        entry_mut(&mut self.objects, id)
    }

    /// The ids of the entities, each once, in no particular order.
    pub fn get_object_ids(&self) -> (ids: Vec<ObjectId>)
        ensures
            ids@.no_duplicates(),
            forall|id: ObjectId| ids@.contains(id) <==> self@.objects.contains_key(id),
    {
        keys_of(&self.objects)
    }

    /// The number of entities.
    pub fn object_count(&self) -> (n: usize)
        ensures
            n == self@.objects.len(),
    {
        self.objects.len()
    }

    /// Takes every entity out. Ids are not given out again.
    pub fn clear(&mut self)
        ensures
            final(self).wf(),
            final(self)@ == (ManagerView {
                objects: Map::<ObjectId, GameObject>::empty(),
                ..old(self)@
            }),
    {
        self.objects.clear();
    }

    /// The entities to draw, in the order in which to draw them: every
    /// active entity with a transform and a visible sprite, each once,
    /// lower layers first.
    pub fn draw_list(&self) -> (list: Vec<ObjectId>)
        requires
            self.wf(),
        ensures
            list@.no_duplicates(),
            forall|id: ObjectId|
                list@.contains(id) <==> self@.objects.contains_key(id) && drawn_on(
                    self@.objects[id],
                ) is Some,
            layers_rise(self@.objects, list@),
    {
        self.sprite_render_system.draw_list(&self.objects)
    }

    /// Moves every active entity to where its body is.
    pub fn sync_from_physics(&mut self, physics_world: &PhysicsWorld) -> (done: Result<()>)
        requires
            old(self).wf(),
        ensures
            done is Ok,
            final(self).wf(),
            final(self)@.next_id == old(self)@.next_id,
            synced_from(old(self)@.objects, physics_world@, final(self)@.objects),
    {
        self.physics_sync_system.sync_from_physics(&mut self.objects, physics_world)
    }

    /// Puts the body of every active entity where the entity is.
    pub fn sync_to_physics(&self, physics_world: &mut PhysicsWorld) -> (done: Result<()>)
        requires
            self.wf(),
            old(physics_world).wf(),
        ensures
            done is Ok,
            final(physics_world).wf(),
            exists|ids: Seq<ObjectId>|
                {
                    &&& ids.no_duplicates()
                    &&& forall|id: ObjectId| ids.contains(id) <==> self@.objects.contains_key(id)
                    &&& final(physics_world)@ == #[trigger] pushed_to_physics(
                        old(physics_world)@,
                        self@.objects,
                        ids,
                    )
                },
    {
        let done = self.physics_sync_system.sync_to_physics(&self.objects, physics_world);
        proof {
            let ids = choose|ids: Seq<ObjectId>|
                {
                    &&& ids.no_duplicates()
                    &&& forall|id: ObjectId| ids.contains(id) <==> self.objects@.contains_key(id)
                    &&& physics_world@ == #[trigger] pushed_to_physics(
                        old(physics_world)@,
                        self.objects@,
                        ids,
                    )
                };
            assert(physics_world@ == pushed_to_physics(old(physics_world)@, self@.objects, ids));
        }
        done
    }

    /// Lets `delta_time` ticks pass for every entity: see `refreshed`.
    pub fn update(&mut self, delta_time: u32) -> (done: Result<()>)
        requires
            old(self).wf(),
        ensures
            done is Ok,
            final(self).wf(),
            final(self)@.next_id == old(self)@.next_id,
            refreshed_all(old(self)@.objects, delta_time, final(self)@.objects),
    {
        broadcast use vstd::std_specs::hash::group_hash_axioms;

        let ghost first = self.objects@;
        match self.timer_system.update(&mut self.objects, delta_time) {
            Ok(_) => {},
            Err(e) => {
                return Err(e);
            },
        }
        let ghost second = self.objects@;
        match self.health_system.update(&mut self.objects, delta_time) {
            Ok(_) => {},
            Err(e) => {
                return Err(e);
            },
        }
        let ghost start = self.objects@;
        let ids = keys_of(&self.objects);
        let mut n: usize = 0;
        while n < ids.len()
            invariant
                n <= ids.len(),
                ids@.no_duplicates(),
                forall|id: ObjectId| ids@.contains(id) <==> start.contains_key(id),
                all_wf(start),
                self.next_id == old(self).next_id,
                self.objects@.dom() == start.dom(),
                forall|j: int|
                    0 <= j < n ==> reequipped(
                        start[#[trigger] ids@[j]],
                        sprites_run(start[ids@[j]], delta_time),
                        self.objects@[ids@[j]],
                    ),
                forall|j: int|
                    n <= j < ids@.len() ==> self.objects@[#[trigger] ids@[j]] == start[ids@[j]],
            decreases ids.len() - n,
        {
            let id = ids[n];
            assert(ids@.contains(ids@[n as int]));
            let ghost before = self.objects@;
            match self.objects.remove(&id) {
                Some(object) => {
                    let mut object = object;
                    match object.get_component_mut::<SpriteComponent>() {
                        Some(sprite_comp) => {
                            sprite_comp.sprite.update(delta_time);
                        },
                        None => {},
                    }
                    self.objects.insert(id, object);
                },
                None => {},
            }
            proof {
                assert(self.objects@.dom() =~= start.dom());
                assert forall|j: int| 0 <= j < n + 1 implies reequipped(
                    start[#[trigger] ids@[j]],
                    sprites_run(start[ids@[j]], delta_time),
                    self.objects@[ids@[j]],
                ) by {
                    if j < n {
                        assert(ids@[j] != id);
                        assert(self.objects@[ids@[j]] == before[ids@[j]]);
                    }
                }
                assert forall|j: int| n + 1 <= j < ids@.len() implies self.objects@[#[trigger] ids@[j]]
                    == start[ids@[j]] by {
                    assert(ids@[j] != id);
                    assert(self.objects@[ids@[j]] == before[ids@[j]]);
                }
            }
            n += 1;
        }
        proof {
            assert forall|id: ObjectId| #[trigger] first.contains_key(id) implies reequipped(
                first[id],
                refreshed(first[id], delta_time),
                self.objects@[id],
            ) by {
                assert(second.contains_key(id));
                assert(start.contains_key(id));
                assert(ids@.contains(id));
                let j = choose|j: int| 0 <= j < ids@.len() && ids@[j] == id;
                assert(reequipped(
                    start[ids@[j]],
                    sprites_run(start[ids@[j]], delta_time),
                    self.objects@[ids@[j]],
                ));
                assert(reequipped(first[id], timers_run(first[id], delta_time), second[id]));
                assert(reequipped(second[id], health_run(second[id], delta_time), start[id]));
                lemma_refresh_in_turn(first[id], second[id], start[id], delta_time);
            }
        }
        Ok(())
    }

    /// The ids of the entities with the given tag, each once, in no
    /// particular order.
    pub fn find_objects_by_tag(&self, tag: &str) -> (ids: Vec<ObjectId>)
        ensures
            ids@.no_duplicates(),
            forall|id: ObjectId|
                ids@.contains(id) <==> self@.objects.contains_key(id) && self@.objects[id].tag@
                    == tag@,
    {
        broadcast use vstd::std_specs::hash::group_hash_axioms;

        let wanted = tag.to_owned();
        let all = keys_of(&self.objects);
        let ghost keep = |id: ObjectId| self.objects@[id].tag@ == tag@;
        let mut ids: Vec<ObjectId> = Vec::new();
        let mut n: usize = 0;
        while n < all.len()
            invariant
                n <= all.len(),
                wanted@ == tag@,
                all@.no_duplicates(),
                forall|id: ObjectId| all@.contains(id) <==> self.objects@.contains_key(id),
                keep == |id: ObjectId| self.objects@[id].tag@ == tag@,
                picked_from(all@, n as int, keep, ids@),
            decreases all.len() - n,
        {
            let id = all[n];
            assert(all@.contains(all@[n as int]));
            let ghost before = ids@;
            match self.objects.get(&id) {
                Some(object) => {
                    if object.tag == wanted {
                        ids.push(id);
                    }
                },
                None => {},
            }
            proof {
                lemma_pick_next(all@, n as int, keep, before, ids@);
            }
            n += 1;
        }
        proof {
            lemma_pick_done(all@, keep, ids@);
        }
        ids
    }

    /// The ids of the entities with the given name, each once, in no
    /// particular order.
    pub fn find_objects_by_name(&self, name: &str) -> (ids: Vec<ObjectId>)
        ensures
            ids@.no_duplicates(),
            forall|id: ObjectId|
                ids@.contains(id) <==> self@.objects.contains_key(id) && self@.objects[id].name@
                    == name@,
    {
        broadcast use vstd::std_specs::hash::group_hash_axioms;

        let wanted = name.to_owned();
        let all = keys_of(&self.objects);
        let ghost keep = |id: ObjectId| self.objects@[id].name@ == name@;
        let mut ids: Vec<ObjectId> = Vec::new();
        let mut n: usize = 0;
        while n < all.len()
            invariant
                n <= all.len(),
                wanted@ == name@,
                all@.no_duplicates(),
                forall|id: ObjectId| all@.contains(id) <==> self.objects@.contains_key(id),
                keep == |id: ObjectId| self.objects@[id].name@ == name@,
                picked_from(all@, n as int, keep, ids@),
            decreases all.len() - n,
        {
            let id = all[n];
            assert(all@.contains(all@[n as int]));
            let ghost before = ids@;
            match self.objects.get(&id) {
                Some(object) => {
                    if object.name == wanted {
                        ids.push(id);
                    }
                },
                None => {},
            }
            proof {
                lemma_pick_next(all@, n as int, keep, before, ids@);
            }
            n += 1;
        }
        proof {
            lemma_pick_done(all@, keep, ids@);
        }
        ids
    }

    /// The ids of the entities whose bounds overlap `area`, each once, in
    /// no particular order. An entity without bounds is in no area.
    pub fn get_objects_in_area(&self, area: &Rect) -> (ids: Vec<ObjectId>)
        requires
            self.wf(),
        ensures
            ids@.no_duplicates(),
            forall|id: ObjectId|
                ids@.contains(id) <==> self@.objects.contains_key(id) && in_area(
                    self@.objects[id],
                    *area,
                ),
    {
        broadcast use vstd::std_specs::hash::group_hash_axioms;

        let all = keys_of(&self.objects);
        let ghost keep = |id: ObjectId| in_area(self.objects@[id], *area);
        let mut ids: Vec<ObjectId> = Vec::new();
        let mut n: usize = 0;
        while n < all.len()
            invariant
                n <= all.len(),
                self.wf(),
                all@.no_duplicates(),
                forall|id: ObjectId| all@.contains(id) <==> self.objects@.contains_key(id),
                keep == |id: ObjectId| in_area(self.objects@[id], *area),
                picked_from(all@, n as int, keep, ids@),
            decreases all.len() - n,
        {
            let id = all[n];
            assert(all@.contains(all@[n as int]));
            let ghost before = ids@;
            match self.objects.get(&id) {
                Some(object) => {
                    match object.get_bounds() {
                        Some(bounds) => {
                            if bounds.intersects(area) {
                                ids.push(id);
                            }
                        },
                        None => {},
                    }
                },
                None => {},
            }
            proof {
                lemma_pick_next(all@, n as int, keep, before, ids@);
            }
            n += 1;
        }
        proof {
            lemma_pick_done(all@, keep, ids@);
        }
        ids
    }
}

/// The rectangle an entity fills, where it has a transform and a sprite.
pub open spec fn bounds_of(object: GameObject) -> Option<Rect> {
    match (object.component::<Transform>(), object.component::<SpriteComponent>()) {
        (Some(t), Some(s)) => Some(
            Rect {
                x: t.position.x,
                y: t.position.y,
                width: crate::sprite::scaled(s.sprite.size.x as int, t.scale.x as int) as i32,
                height: crate::sprite::scaled(s.sprite.size.y as int, t.scale.y as int) as i32,
            },
        ),
        _ => None,
    }
}

/// The bounds of the entity overlap `area`.
pub open spec fn in_area(object: GameObject, area: Rect) -> bool {
    bounds_of(object) is Some && bounds_of(object)->0.overlaps(area)
}

/// Timers first, invulnerability second and sprites third come to the same
/// as all three at once.
proof fn lemma_refresh_in_turn(
    first: GameObject,
    second: GameObject,
    third: GameObject,
    delta_time: u32,
)
    requires
        first.wf(),
        reequipped(first, timers_run(first, delta_time), second),
        reequipped(second, health_run(second, delta_time), third),
    ensures
        sprites_run(third, delta_time) == refreshed(first, delta_time),
        third.differs_in_components_only(&first),
{
    first.components.lemma_wf_view();
    assert(second.component::<Health>() == first.component::<Health>());
    assert(third.component::<SpriteComponent>() == first.component::<SpriteComponent>());
}

} // verus!
