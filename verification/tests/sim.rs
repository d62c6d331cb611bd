use spaceship_alpha::block::{
    load_blocks, BlockMeshes, CoolerSystem, GadgetKind, LaserSystem, MinerSystem, COOL_RATE,
    LASER_HEAT, MINER_TOTAL_TIME,
};
use spaceship_alpha::components::{
    Collider, ColliderShape, GameItem, Health, Hitbox, InputAction, InputManager, Miner, Model,
    RigidBody, Ship, Transform, CATEGORY_ASTEROID, CATEGORY_SHIP,
};
use spaceship_alpha::ecs::ECS;
use spaceship_alpha::gameplay::{init_world, spawn_asteroid, AsteroidFieldSystem, FIELD_X_RANGE};
use spaceship_alpha::math::{isqrt, Vec3};
use spaceship_alpha::model_sync::ModelUpdateSystem;
use spaceship_alpha::physics::PhysicsSystem;
use spaceship_alpha::render::{ObjectMeshes, RenderCall};
use spaceship_alpha::scheduler::{DispatcherBuilder, SystemId};
use spaceship_alpha::ship::{attach_block, create_ship};
use spaceship_alpha::sparse::SparseStore;
use spaceship_alpha::ui::{create_button, Ui};
use spaceship_alpha::world::World;

fn test_meshes() -> ObjectMeshes {
    ObjectMeshes { asteroid_iron: 100, asteroid_copper: 101, missile: 102 }
}

fn idle_input() -> InputManager {
    InputManager { action: InputAction::Idle, target: None }
}

#[test]
fn entity_registry_recycles_with_fresh_generation() {
    let mut w = World::new();
    let a = w.create_entity();
    assert!(w.is_alive(a));
    w.delete(a);
    assert!(!w.is_alive(a));
    let b = w.create_entity();
    // the slot is recycled under a new generation: the old handle stays dead
    assert_eq!(b.idx, a.idx);
    assert!(b.gen != a.gen);
    assert!(w.is_alive(b));
    assert!(!w.is_alive(a));
    // stale accessors report absent
    assert!(w.get_transform(a).is_none());
}

#[test]
fn deferred_removal_is_idempotent() {
    let mut w = World::new();
    let sync = ModelUpdateSystem::new(&mut w);
    let e = w.create_entity();
    w.insert_transform(e, Transform::from_position(0, 0, 0));
    w.insert_model(e, Model::new(7));
    // give the model a live handle through the sync pass
    sync.run(&mut w);
    let handle = w.get_model(e).unwrap().model_id.unwrap();
    let calls_before = w.renderer.calls.len();
    w.utils.mark_for_removal(e);
    w.utils.mark_for_removal(e);
    w.utils.mark_for_removal(e);
    assert_eq!(w.utils.to_be_removed.len(), 1);
    w.maintain();
    // exactly one release call, and the entity is gone
    assert_eq!(w.renderer.calls.len(), calls_before + 1);
    assert_eq!(
        w.renderer.calls[calls_before],
        RenderCall::Remove { mesh_id: 7, handle }
    );
    assert!(!w.is_alive(e));
    assert_eq!(w.utils.to_be_removed.len(), 0);
}

#[test]
fn no_dangling_handle_after_deletion() {
    let mut w = World::new();
    let sync = ModelUpdateSystem::new(&mut w);
    let e = w.create_entity();
    w.insert_transform(e, Transform::from_position(1000, 2000, 0));
    w.insert_model(e, Model::new(3));
    sync.run(&mut w);
    let handle = w.get_model(e).unwrap().model_id.unwrap();
    w.utils.mark_for_removal(e);
    w.maintain();
    // the release was issued before the deletion finished, and nothing
    // dead retains a model
    let last = w.renderer.calls.last().unwrap();
    assert_eq!(*last, RenderCall::Remove { mesh_id: 3, handle });
    assert!(w.get_model(e).is_none());
}

#[test]
fn model_sync_creates_once_and_sets_handle() {
    let mut w = World::new();
    let sync = ModelUpdateSystem::new(&mut w);
    let e = w.create_entity();
    w.insert_transform(e, Transform::from_position(500, 0, 0));
    w.insert_model(e, Model::new(42));
    assert!(w.get_model(e).unwrap().model_id.is_none());
    sync.run(&mut w);
    // the handle is set and exactly one creation call was recorded
    let m = w.get_model(e).unwrap();
    assert!(m.model_id.is_some());
    let creates: Vec<&RenderCall> = w
        .renderer
        .calls
        .iter()
        .filter(|c| matches!(c, RenderCall::Create { .. }))
        .collect();
    assert_eq!(creates.len(), 1);
    // a second pass without new events issues nothing
    let n = w.renderer.calls.len();
    sync.run(&mut w);
    assert_eq!(w.renderer.calls.len(), n);
}

#[test]
fn model_sync_never_updates_without_handle() {
    let mut w = World::new();
    let sync = ModelUpdateSystem::new(&mut w);
    let e = w.create_entity();
    // a transform but no model: modifications must produce no calls
    w.insert_transform(e, Transform::from_position(0, 0, 0));
    w.set_transform(e, Transform::from_position(100, 0, 0));
    sync.run(&mut w);
    assert_eq!(w.renderer.calls.len(), 0);
    // now add the model; insertion pass creates, and a later
    // modification updates the created handle
    w.insert_model(e, Model::new(9));
    sync.run(&mut w);
    assert_eq!(w.renderer.calls.len(), 1);
    w.set_transform(e, Transform::from_position(200, 0, 0));
    sync.run(&mut w);
    assert_eq!(w.renderer.calls.len(), 2);
    let h = w.get_model(e).unwrap().model_id.unwrap();
    assert!(matches!(
        w.renderer.calls[1],
        RenderCall::Update { mesh_id: 9, handle, .. } if handle == h
    ));
}

#[test]
fn raycast_respects_category_filter() {
    let mut w = World::new();
    // a ship-category collider square in the ray's path
    let blocker = w.create_entity();
    w.insert_transform(blocker, Transform::from_position(5000, 0, 0));
    w.insert_collider(
        blocker,
        Collider::new(
            Hitbox::with_shape(ColliderShape::Sphere(1000)),
            CATEGORY_SHIP,
            CATEGORY_ASTEROID,
        ),
    );
    // an asteroid further along the same ray
    let rock = w.create_entity();
    w.insert_transform(rock, Transform::from_position(9000, 0, 0));
    w.insert_collider(
        rock,
        Collider::new(
            Hitbox::with_shape(ColliderShape::Sphere(1000)),
            CATEGORY_ASTEROID,
            CATEGORY_SHIP,
        ),
    );
    let origin = Vec3 { x: 0, y: 0, z: 0 };
    let target = Vec3 { x: 12000, y: 0, z: 0 };
    // unrestricted: the nearer ship block is hit first
    let any = w.raycast(&Vec::new(), origin, target);
    assert_eq!(any, Some(blocker));
    // restricted to asteroids: the ship block is never returned
    let only_rocks = w.raycast(&vec![CATEGORY_ASTEROID], origin, target);
    assert_eq!(only_rocks, Some(rock));
}

#[test]
fn area_query_finds_overlapping_colliders() {
    let mut w = World::new();
    let near = w.create_entity();
    w.insert_transform(near, Transform::from_position(1000, 0, 0));
    w.insert_collider(
        near,
        Collider::new(
            Hitbox::with_shape(ColliderShape::Sphere(500)),
            CATEGORY_ASTEROID,
            CATEGORY_SHIP,
        ),
    );
    let far = w.create_entity();
    w.insert_transform(far, Transform::from_position(50000, 0, 0));
    w.insert_collider(
        far,
        Collider::new(
            Hitbox::with_shape(ColliderShape::Sphere(500)),
            CATEGORY_ASTEROID,
            CATEGORY_SHIP,
        ),
    );
    let hits = w.query_area(&Vec::new(), Vec3 { x: 0, y: 0, z: 0 }, 2000);
    assert_eq!(hits, vec![near]);
}

#[test]
fn cooler_clamps_heat_at_zero() {
    let mut w = World::new();
    let ship = create_ship(&mut w);
    w.set_ship(ship, Ship { heat: 100 });
    let gadget = w.create_entity();
    w.insert_gadget(gadget, spaceship_alpha::components::GadgetEntity { ship });
    w.insert_cooler(gadget, spaceship_alpha::components::Cooler);
    let cooler = CoolerSystem;
    cooler.run(&mut w);
    // 100 < 130: floored at zero, never negative
    assert_eq!(w.get_ship(ship).unwrap().heat, 0);
    w.set_ship(ship, Ship { heat: 500 });
    cooler.run(&mut w);
    assert_eq!(w.get_ship(ship).unwrap().heat, 500 - COOL_RATE);
}

#[test]
fn miner_charges_and_fires_once_when_commanded() {
    let mut w = World::new();
    let meshes = test_meshes();
    let turret = w.create_entity();
    w.insert_transform(turret, Transform::from_position(0, 0, 0));
    w.insert_miner(turret, Miner { shoot_time: MINER_TOTAL_TIME + 1 });
    let target = w.create_entity();
    w.insert_transform(target, Transform::from_position(8000, 0, 0));
    let miner = MinerSystem;
    // charged but not commanded: no missile
    miner.run(&mut w, &idle_input(), &meshes);
    assert_eq!(w.missiles.len(), 0);
    // commanded without a target: still no missile
    w.miners.insert(turret.idx, Miner { shoot_time: MINER_TOTAL_TIME + 1 });
    let no_target = InputManager { action: InputAction::Mining, target: None };
    miner.run(&mut w, &no_target, &meshes);
    assert_eq!(w.missiles.len(), 0);
    // commanded with a target: exactly one missile, and the counter resets
    w.miners.insert(turret.idx, Miner { shoot_time: MINER_TOTAL_TIME + 1 });
    let mining = InputManager { action: InputAction::Mining, target: Some(target) };
    miner.run(&mut w, &mining, &meshes);
    assert_eq!(w.missiles.len(), 1);
    assert_eq!(w.miners.get(turret.idx).unwrap().shoot_time, 0);
    // the next commanded tick only charges: strictly periodic
    miner.run(&mut w, &mining, &meshes);
    assert_eq!(w.missiles.len(), 1);
    assert_eq!(w.miners.get(turret.idx).unwrap().shoot_time, 1);
}

#[test]
fn laser_heats_ship_and_damages_target() {
    let mut w = World::new();
    let meshes = BlockMeshes { wall: 0, engine: 1, cube: 2, miner: 3, laser: 4, cooler: 5 };
    let blocks = load_blocks(&meshes);
    let ship = create_ship(&mut w);
    assert_eq!(w.get_ship(ship).unwrap().heat, 0);
    let laser_block = blocks.get_block(blocks.laser);
    assert_eq!(laser_block.setup, Some(GadgetKind::Laser));
    let laser = attach_block(&mut w, ship, laser_block, Vec3 { x: 0, y: 0, z: 0 });
    let target = w.create_entity();
    w.insert_transform(target, Transform::from_position(6000, 0, 0));
    w.insert_health(target, Health(10));
    let sys = LaserSystem;
    let firing = InputManager { action: InputAction::Laser, target: Some(target) };
    sys.run(&mut w, &firing);
    // one tick of fire: heat 0.0 -> 0.3, health 10 -> 9, beam attached
    assert_eq!(w.get_ship(ship).unwrap().heat, LASER_HEAT);
    assert_eq!(w.get_health(target).unwrap(), Health(9));
    let line = w.get_line(laser).unwrap();
    assert_eq!(line.pt2, Vec3 { x: 6000, y: 0, z: 0 });
    // releasing the action removes the beam
    sys.run(&mut w, &idle_input());
    assert!(w.get_line(laser).is_none());
}

#[test]
fn spawner_levels_up_and_spawns_exactly_one() {
    let mut w = World::new();
    let meshes = test_meshes();
    let field_e = init_world(&mut w);
    let f0 = w.fields.get(field_e.idx).unwrap();
    assert_eq!((f0.level, f0.tick, f0.asteroids.len()), (1, 0, 0));
    assert_eq!(f0.x_range, FIELD_X_RANGE);
    let sys = AsteroidFieldSystem;
    sys.run(&mut w, &meshes);
    // level 1 -> 2, countdown 200 - 2*6 = 188, one asteroid spawned
    let f1 = w.fields.get(field_e.idx).unwrap();
    assert_eq!(f1.level, 2);
    assert_eq!(f1.tick, 188);
    assert_eq!(f1.asteroids.len(), 1);
    let rock = f1.asteroids[0];
    assert!(w.is_alive(rock));
    assert_eq!(w.get_transform(rock).unwrap().position.x, -FIELD_X_RANGE);
    assert!(w.asteroids.get(rock.idx).is_some());
    // the countdown now merely ticks
    let sys2 = AsteroidFieldSystem;
    sys2.run(&mut w, &meshes);
    let f2 = w.fields.get(field_e.idx).unwrap();
    assert_eq!(f2.level, 2);
    assert_eq!(f2.tick, 187);
    assert_eq!(f2.asteroids.len(), 1);
}

#[test]
fn spawner_marks_drifted_asteroids() {
    let mut w = World::new();
    let meshes = test_meshes();
    let field_e = init_world(&mut w);
    // an asteroid beyond the range, adopted into the roster
    let rock = spawn_asteroid(
        &mut w,
        Vec3 { x: FIELD_X_RANGE + 1000, y: 0, z: 0 },
        0,
        GameItem::Iron,
        &meshes,
    );
    let mut f = w.fields.take(field_e.idx).unwrap();
    f.asteroids.push(rock);
    f.tick = 50;
    w.fields.insert(field_e.idx, f);
    let sys = AsteroidFieldSystem;
    sys.run(&mut w, &meshes);
    assert!(w.utils.to_be_removed.contains(&rock));
    // the flush then deletes it and the next spawner tick prunes it
    w.maintain();
    assert!(!w.is_alive(rock));
    let sys2 = AsteroidFieldSystem;
    sys2.run(&mut w, &meshes);
    let f2 = w.fields.get(field_e.idx).unwrap();
    assert!(!f2.asteroids.contains(&rock));
}

#[test]
fn scheduler_resolves_declaration_order_with_edges() {
    let mut b = DispatcherBuilder::new();
    b.add(SystemId::Physics, Vec::new());
    spaceship_alpha::block::setup_systems(&mut b);
    b.add(SystemId::ModelSync, vec![SystemId::Miner, SystemId::Laser, SystemId::Cooler]);
    spaceship_alpha::gameplay::setup_systems(&mut b);
    let order = b.build().unwrap();
    assert_eq!(
        order,
        vec![
            SystemId::Physics,
            SystemId::Miner,
            SystemId::Laser,
            SystemId::Cooler,
            SystemId::ModelSync,
            SystemId::FieldSpawner,
        ]
    );
}

#[test]
fn scheduler_reports_cycles() {
    let mut b = DispatcherBuilder::new();
    b.add(SystemId::Physics, vec![SystemId::ModelSync]);
    b.add(SystemId::ModelSync, vec![SystemId::Physics]);
    let r = b.build();
    assert!(r.is_err());
    let rest = r.unwrap_err();
    assert_eq!(rest.len(), 2);
}

#[test]
fn scheduler_respects_runs_after() {
    let mut b = DispatcherBuilder::new();
    b.add(SystemId::ModelSync, vec![SystemId::Physics]);
    b.add(SystemId::Physics, Vec::new());
    let order = b.build().unwrap();
    let p = order.iter().position(|s| *s == SystemId::Physics).unwrap();
    let m = order.iter().position(|s| *s == SystemId::ModelSync).unwrap();
    assert!(p < m);
}

#[test]
fn full_tick_runs_and_flushes() {
    let meshes = BlockMeshes { wall: 0, engine: 1, cube: 2, miner: 3, laser: 4, cooler: 5 };
    let blocks = load_blocks(&meshes);
    let mut ecs = ECS::new(blocks, test_meshes());
    // the bootstrap put a ship, a field and one asteroid into the world
    for _ in 0..3 {
        ecs.update(&idle_input());
        assert_eq!(ecs.world.utils.to_be_removed.len(), 0);
    }
    // the initial asteroid's model got a handle through model-sync
    let creates = ecs
        .world
        .renderer
        .calls
        .iter()
        .filter(|c| matches!(c, RenderCall::Create { .. }))
        .count();
    assert!(creates >= 1);
}

#[test]
fn load_blocks_registers_six_blocks() {
    let meshes = BlockMeshes { wall: 10, engine: 11, cube: 12, miner: 13, laser: 14, cooler: 15 };
    let blocks = load_blocks(&meshes);
    assert_eq!(blocks.blocks.len(), 6);
    assert_eq!(
        (blocks.wall, blocks.engine, blocks.cube, blocks.miner, blocks.laser, blocks.cooler),
        (0, 1, 2, 3, 4, 5)
    );
    let laser = blocks.get_block(blocks.laser);
    assert_eq!(laser.mesh_id, 14);
    assert!(laser.is_gadget);
    assert_eq!(laser.cost.len(), 2);
    assert_eq!(laser.cost[0].item, GameItem::Iron);
    assert_eq!(laser.cost[0].count, 15);
    let wall = blocks.get_block(blocks.wall);
    assert_eq!(wall.height, 3000);
    assert!(wall.setup.is_none());
}

#[test]
fn sparse_store_insert_get_remove() {
    let mut s: SparseStore<u32> = SparseStore::new();
    assert!(s.get(4).is_none());
    s.insert(4, 40);
    s.insert(9, 90);
    s.insert(4, 44);
    assert_eq!(s.len(), 2);
    assert_eq!(s.get(4), Some(&44));
    assert_eq!(s.get(9), Some(&90));
    assert_eq!(s.take(4), Some(44));
    assert!(s.get(4).is_none());
    assert_eq!(s.get(9), Some(&90));
}

#[test]
fn isqrt_is_exact_floor() {
    assert_eq!(isqrt(0), 0);
    assert_eq!(isqrt(1), 1);
    assert_eq!(isqrt(3), 1);
    assert_eq!(isqrt(4), 2);
    assert_eq!(isqrt(999999), 999);
    assert_eq!(isqrt(1000000), 1000);
    assert_eq!(isqrt(u64::MAX), 4294967295);
}

#[test]
fn button_widget_tracks_presses() {
    let mut ui = Ui::new();
    let b = create_button(&mut ui, None);
    assert_eq!((ui.nodes[b].geometry.width, ui.nodes[b].geometry.height), (200, 80));
    assert!(!ui.nodes[b].button.pressed);
    let focus = ui.on_click(b, true);
    assert!(focus);
    assert!(ui.nodes[b].button.pressed);
    ui.on_mouse_focus_lost(b);
    assert!(!ui.nodes[b].button.pressed);
}

#[test]
fn collider_pair_admission_is_symmetric() {
    let a = Collider::new(
        Hitbox::with_shape(ColliderShape::Sphere(1000)),
        CATEGORY_ASTEROID,
        CATEGORY_SHIP,
    );
    let ship = Collider::new(
        Hitbox::with_shape(ColliderShape::Sphere(1000)),
        CATEGORY_SHIP,
        CATEGORY_ASTEROID,
    );
    let deaf = Collider::new(
        Hitbox::new(ColliderShape::Sphere(1000), Vec3 { x: 0, y: 0, z: 0 }),
        CATEGORY_SHIP,
        0,
    );
    // both sides must admit each other
    assert!(spaceship_alpha::collision::colliders_interact(&a, &ship));
    assert!(!spaceship_alpha::collision::colliders_interact(&a, &deaf));
}

#[test]
fn removing_model_component_releases_its_handle() {
    let mut w = World::new();
    let sync = ModelUpdateSystem::new(&mut w);
    let e = w.create_entity();
    w.insert_transform(e, Transform::from_position(0, 0, 0));
    w.insert_model(e, Model::new(5));
    sync.run(&mut w);
    let handle = w.get_model(e).unwrap().model_id.unwrap();
    let n = w.renderer.calls.len();
    w.remove_model(e);
    assert!(w.get_model(e).is_none());
    assert_eq!(w.renderer.calls.len(), n + 1);
    assert_eq!(w.renderer.calls[n], RenderCall::Remove { mesh_id: 5, handle });
}

#[test]
fn event_readers_are_independent() {
    let mut w = World::new();
    let r1 = w.register_transform_reader();
    let e = w.create_entity();
    w.insert_transform(e, Transform::from_position(0, 0, 0));
    let r2 = w.register_transform_reader();
    w.set_transform(e, Transform::from_position(10, 0, 0));
    // the early reader sees both events, the late one only the second
    let seen1 = w.read_transform_events(r1);
    assert_eq!(seen1.len(), 2);
    let seen2 = w.read_transform_events(r2);
    assert_eq!(seen2.len(), 1);
    // a drained reader sees nothing more
    let again = w.read_transform_events(r1);
    assert_eq!(again.len(), 0);
}

#[test]
fn physics_moves_entities() {
    let mut w = World::new();
    let e = w.create_entity();
    w.insert_transform(e, Transform::from_position(1000, -2000, 300));
    w.insert_body(e, RigidBody { velocity: Vec3 { x: 50, y: 10, z: -5 } });
    let still = w.create_entity();
    w.insert_transform(still, Transform::from_position(7, 8, 9));
    let phys = PhysicsSystem;
    phys.run(&mut w, 1);
    // position += velocity * dt, exactly
    let p = w.get_transform(e).unwrap().position;
    assert_eq!(p, Vec3 { x: 1050, y: -1990, z: 295 });
    // entities without a body do not move
    let q = w.get_transform(still).unwrap().position;
    assert_eq!(q, Vec3 { x: 7, y: 8, z: 9 });
    // a larger timestep scales the displacement
    phys.run(&mut w, 10);
    let p2 = w.get_transform(e).unwrap().position;
    assert_eq!(p2, Vec3 { x: 1550, y: -1890, z: 245 });
}
