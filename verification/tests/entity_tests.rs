use mcproto::entity::{to_mob_type, to_object_type, EntityType, MobType, ObjectType};
use mcproto::packet::{FieldValue, Packet};
use mcproto::registry::{EntityManager, SessionKnown};

fn fresh() -> EntityManager {
    EntityManager::init(Vec::new())
}

fn find(reg: &EntityManager, eid: i32) -> Option<&mcproto::entity::Entity> {
    reg.entities.iter().find(|e| e.id == eid)
}

#[test]
fn wire_codes_resolve_to_kinds() {
    assert_eq!(to_mob_type(54), MobType::Zombie);
    assert_eq!(to_mob_type(50), MobType::Creeper);
    assert_eq!(to_mob_type(120), MobType::Villager);
    assert_eq!(to_mob_type(200), MobType::Unknown);
    assert_eq!(to_object_type(1), ObjectType::Boat);
    assert_eq!(to_object_type(93), ObjectType::DragonFireball);
    assert_eq!(to_object_type(4), ObjectType::Unknown);
}

#[test]
fn spawn_mob_tracks_zombie_at_fixed_point() {
    // spawn-mob for id 7, mob-type 54 from session 0 at (320, 2048, 320)
    let mut reg = fresh();
    reg.spawn_mob(7, 54, 320, 2048, 320, 0);
    let e = find(&reg, 7).expect("tracked");
    assert_eq!(e.etype, EntityType::Mob(MobType::Zombie));
    assert_eq!(e.pos, (320, 2048, 320));
    // fixed point: 32 units to one world coordinate
    assert_eq!(e.pos.0 as f64 / 32.0, 10.0);
    assert_eq!(e.pos.1 as f64 / 32.0, 64.0);
    assert_eq!(e.pos.2 as f64 / 32.0, 10.0);
    assert!(e.new);
    assert_eq!(e.owner, Some(0));
    // a duplicate spawn is ignored
    reg.spawn_mob(7, 50, 0, 0, 0, 3);
    let e2 = find(&reg, 7).unwrap();
    assert_eq!(e2.etype, EntityType::Mob(MobType::Zombie));
    assert_eq!(e2.owner, Some(0));
    assert_eq!(reg.entities.len(), 1);
}

#[test]
fn relative_moves_then_teleport() {
    // relative +32 on x twice, then teleport to (640, 2048, 320)
    let mut reg = fresh();
    reg.spawn_mob(7, 54, 320, 2048, 320, 0);
    reg.entity_move((32, 0, 0), false, 7, 0);
    reg.entity_move((32, 0, 0), false, 7, 0);
    assert_eq!(find(&reg, 7).unwrap().pos, (384, 2048, 320));
    assert_eq!(find(&reg, 7).unwrap().last_movement, (64, 0, 0));
    reg.entity_move((640, 2048, 320), true, 7, 0);
    let e = find(&reg, 7).unwrap();
    assert_eq!(e.pos, (640, 2048, 320));
    assert_eq!(e.pos.0 as f64 / 32.0, 20.0);
    assert_eq!(e.pos.1 as f64 / 32.0, 64.0);
    assert_eq!(e.pos.2 as f64 / 32.0, 10.0);
    // the teleport's applied displacement joins the accumulator
    assert_eq!(e.last_movement, (64 + 256, 0, 0));
    assert!(reg.moved.contains(&7));
}

#[test]
fn moves_from_non_owner_change_nothing() {
    let mut reg = fresh();
    reg.spawn_mob(7, 54, 320, 2048, 320, 0);
    reg.tick();
    reg.entity_move((32, 0, 0), false, 7, 1);
    reg.entity_move((640, 0, 0), true, 7, 2);
    let e = find(&reg, 7).unwrap();
    assert_eq!(e.pos, (320, 2048, 320));
    assert!(reg.moved.is_empty());
    // attach and destroy from a non-owner are no-ops too
    let attach = Packet {
        id: 0x27,
        fields: vec![FieldValue::I32(7), FieldValue::I32(9)],
    };
    reg.handle_packet(&attach, 1);
    assert_eq!(find(&reg, 7).unwrap().parent, None);
    reg.entity_destroy(&vec![7], 1);
    assert_eq!(find(&reg, 7).unwrap().owner, Some(0));
}

#[test]
fn attached_rider_follows_vehicle() {
    // attach id 7 to vehicle id 9, then teleport id 9
    let mut reg = fresh();
    reg.spawn_mob(7, 54, 320, 2048, 320, 0);
    reg.spawn_mob(9, 100, 0, 2048, 0, 0);
    let attach = Packet {
        id: 0x27,
        fields: vec![FieldValue::I32(7), FieldValue::I32(9)],
    };
    reg.handle_packet(&attach, 0);
    assert_eq!(find(&reg, 7).unwrap().parent, Some(9));
    let children = reg.children_of(9);
    assert_eq!(children, vec![7]);

    reg.entity_move((960, 2048, 960), true, 9, 0);
    assert_eq!(find(&reg, 9).unwrap().pos, (960, 2048, 960));
    assert_eq!(find(&reg, 7).unwrap().pos, (960, 2048, 960));
    // the carried rider accumulates the displacement it was moved by
    assert_eq!(find(&reg, 7).unwrap().last_movement, (640, 0, 640));

    // detach (vehicle id -1) and move again: the rider stays put
    let detach = Packet {
        id: 0x27,
        fields: vec![FieldValue::I32(7), FieldValue::I32(-1)],
    };
    reg.handle_packet(&detach, 0);
    assert_eq!(find(&reg, 7).unwrap().parent, None);
    assert!(reg.children_of(9).is_empty());
    reg.entity_move((0, 2048, 0), true, 9, 0);
    assert_eq!(find(&reg, 7).unwrap().pos, (960, 2048, 960));
}

#[test]
fn destroyed_unknown_entity_is_gone_after_resolution() {
    // destroy id 7 from its owner while no session knows it
    let mut reg = fresh();
    reg.spawn_mob(7, 54, 320, 2048, 320, 0);
    reg.entity_destroy(&vec![7], 0);
    assert_eq!(find(&reg, 7).unwrap().owner, None);
    let sessions = vec![SessionKnown { session: 1, known: vec![42] }];
    reg.check_orphaned(&sessions);
    assert!(find(&reg, 7).is_none());
    assert_eq!(reg.deleted, vec![7]);
    assert!(reg.update);
}

#[test]
fn orphan_known_elsewhere_transfers_ownership() {
    let mut reg = fresh();
    reg.spawn_mob(7, 54, 320, 2048, 320, 0);
    reg.entity_destroy(&vec![7], 0);
    let sessions = vec![
        SessionKnown { session: 1, known: vec![7] },
        SessionKnown { session: 2, known: vec![7, 8] },
    ];
    reg.check_orphaned(&sessions);
    let e = find(&reg, 7).expect("still tracked");
    // the last session listing it wins
    assert_eq!(e.owner, Some(2));
    assert!(reg.deleted.is_empty());
}

#[test]
fn tick_resets_change_sets_and_accumulators() {
    let mut reg = fresh();
    reg.spawn_mob(7, 54, 320, 2048, 320, 0);
    reg.entity_move((32, 0, 0), false, 7, 0);
    assert_eq!(find(&reg, 7).unwrap().last_movement, (32, 0, 0));
    reg.tick();
    let e = find(&reg, 7).unwrap();
    assert!(!e.new);
    assert_eq!(e.last_movement, (0, 0, 0));
    assert_eq!(e.last_position, (352, 2048, 320));
    assert!(reg.moved.is_empty());
    assert!(reg.deleted.is_empty());
    assert!(!reg.update);
}

#[test]
fn spawn_object_resolves_info_index() {
    let info = vec![
        mcproto::entity::EntityInfo {
            etype: EntityType::Mob(MobType::Zombie),
            id: 54,
            name: String::from("zombie"),
            sprites: vec![('Z', (0, 200, 0), None)],
        },
        mcproto::entity::EntityInfo {
            etype: EntityType::Object(ObjectType::Boat),
            id: 1,
            name: String::from("boat"),
            sprites: vec![('b', (200, 100, 0), None)],
        },
    ];
    let mut reg = EntityManager::init(info);
    reg.spawn_object(4, 1, 0, 0, 0, 2);
    reg.spawn_mob(5, 54, 0, 0, 0, 2);
    reg.spawn_mob(6, 57, 0, 0, 0, 2);
    assert_eq!(find(&reg, 4).unwrap().info, Some(1));
    assert_eq!(find(&reg, 5).unwrap().info, Some(0));
    assert_eq!(find(&reg, 6).unwrap().info, None);
}

#[test]
fn movement_events_for_unknown_entities_are_dropped() {
    let mut reg = fresh();
    reg.entity_move((32, 0, 0), false, 99, 0);
    assert!(reg.entities.is_empty());
    assert!(reg.moved.is_empty());
    let mv = Packet {
        id: 0x1f,
        fields: vec![
            FieldValue::I32(99),
            FieldValue::I8(1),
            FieldValue::I8(0),
            FieldValue::I8(0),
        ],
    };
    reg.handle_packet(&mv, 0);
    assert!(reg.entities.is_empty());
}
