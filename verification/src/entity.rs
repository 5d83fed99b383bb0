//! Entity identity: the mob and object kind tables keyed by the wire
//! subtype codes, the entity record itself, and the static visual-info
//! records the presentation layer renders from.

use vstd::prelude::*;

verus! {

/// The kind of a tracked entity.
#[derive(Debug, Clone, Copy, PartialEq, Eq, Structural)]
pub enum EntityType {
    Mob(MobType),
    Object(ObjectType),
}

/// Mob kinds by wire code; codes outside the table are `Unknown`.
#[derive(Debug, Clone, Copy, PartialEq, Eq, Structural)]
pub enum MobType {
    Creeper,
    Skeleton,
    Spider,
    GiantZombie,
    Zombie,
    Slime,
    Ghast,
    ZombiePigman,
    Enderman,
    CaveSpider,
    Silverfish,
    Blaze,
    MagmaCube,
    EnderDragon,
    Wither,
    Bat,
    Witch,
    Endermite,
    Guardian,
    Shulker,
    Pig,
    Sheep,
    Cow,
    Chicken,
    Squid,
    Wolf,
    Mooshroom,
    Snowman,
    Ocelot,
    IronGolem,
    Horse,
    Rabbit,
    PolarBear,
    Villager,
    Unknown,
}

/// Object kinds by wire code; codes outside the table are `Unknown`.
#[derive(Debug, Clone, Copy, PartialEq, Eq, Structural)]
pub enum ObjectType {
    Boat,
    ItemStack,
    AreaEffectCloud,
    Minecrart,
    ActivatedTNT,
    EnderCrystal,
    Arrow,
    Snowball,
    Egg,
    FireBall,
    FireCharge,
    EnderPearl,
    WitherSkull,
    ShulkerBullet,
    FallenObject,
    ItemFrame,
    EyeOfEnder,
    Potion,
    ExpBottle,
    FireworkRocket,
    LeashKnot,
    ArmorStand,
    FishingFloat,
    SpectralArrow,
    DragonFireball,
    Unknown,
}

/// The mob kind of a wire subtype code.
pub open spec fn spec_to_mob_type(id: u8) -> MobType {
    match id {
        50 => MobType::Creeper,
        51 => MobType::Skeleton,
        52 => MobType::Spider,
        53 => MobType::GiantZombie,
        54 => MobType::Zombie,
        55 => MobType::Slime,
        56 => MobType::Ghast,
        57 => MobType::ZombiePigman,
        58 => MobType::Enderman,
        59 => MobType::CaveSpider,
        60 => MobType::Silverfish,
        61 => MobType::Blaze,
        62 => MobType::MagmaCube,
        63 => MobType::EnderDragon,
        64 => MobType::Wither,
        65 => MobType::Bat,
        66 => MobType::Witch,
        67 => MobType::Endermite,
        68 => MobType::Guardian,
        69 => MobType::Shulker,
        90 => MobType::Pig,
        91 => MobType::Sheep,
        92 => MobType::Cow,
        93 => MobType::Chicken,
        94 => MobType::Squid,
        95 => MobType::Wolf,
        96 => MobType::Mooshroom,
        97 => MobType::Snowman,
        98 => MobType::Ocelot,
        99 => MobType::IronGolem,
        100 => MobType::Horse,
        101 => MobType::Rabbit,
        102 => MobType::PolarBear,
        120 => MobType::Villager,
        _ => MobType::Unknown,
    }
}

/// The object kind of a wire subtype code.
pub open spec fn spec_to_object_type(id: u8) -> ObjectType {
    match id {
        1 => ObjectType::Boat,
        2 => ObjectType::ItemStack,
        3 => ObjectType::AreaEffectCloud,
        10 => ObjectType::Minecrart,
        50 => ObjectType::ActivatedTNT,
        51 => ObjectType::EnderCrystal,
        60 => ObjectType::Arrow,
        61 => ObjectType::Snowball,
        62 => ObjectType::Egg,
        63 => ObjectType::FireBall,
        64 => ObjectType::FireCharge,
        65 => ObjectType::EnderPearl,
        66 => ObjectType::WitherSkull,
        67 => ObjectType::ShulkerBullet,
        70 => ObjectType::FallenObject,
        71 => ObjectType::ItemFrame,
        72 => ObjectType::EyeOfEnder,
        73 => ObjectType::Potion,
        75 => ObjectType::ExpBottle,
        76 => ObjectType::FireworkRocket,
        77 => ObjectType::LeashKnot,
        78 => ObjectType::ArmorStand,
        90 => ObjectType::FishingFloat,
        91 => ObjectType::SpectralArrow,
        93 => ObjectType::DragonFireball,
        _ => ObjectType::Unknown,
    }
}

/// Resolves a mob wire subtype code to its kind.
pub fn to_mob_type(id: u8) -> (r: MobType)
    ensures
        r == spec_to_mob_type(id),
{
    match id {
        50 => MobType::Creeper,
        51 => MobType::Skeleton,
        52 => MobType::Spider,
        53 => MobType::GiantZombie,
        54 => MobType::Zombie,
        55 => MobType::Slime,
        56 => MobType::Ghast,
        57 => MobType::ZombiePigman,
        58 => MobType::Enderman,
        59 => MobType::CaveSpider,
        60 => MobType::Silverfish,
        61 => MobType::Blaze,
        62 => MobType::MagmaCube,
        63 => MobType::EnderDragon,
        64 => MobType::Wither,
        65 => MobType::Bat,
        66 => MobType::Witch,
        67 => MobType::Endermite,
        68 => MobType::Guardian,
        69 => MobType::Shulker,
        90 => MobType::Pig,
        91 => MobType::Sheep,
        92 => MobType::Cow,
        93 => MobType::Chicken,
        94 => MobType::Squid,
        95 => MobType::Wolf,
        96 => MobType::Mooshroom,
        97 => MobType::Snowman,
        98 => MobType::Ocelot,
        99 => MobType::IronGolem,
        100 => MobType::Horse,
        101 => MobType::Rabbit,
        102 => MobType::PolarBear,
        120 => MobType::Villager,
        _ => MobType::Unknown,
    }
}

/// Resolves an object wire subtype code to its kind.
pub fn to_object_type(id: u8) -> (r: ObjectType)
    ensures
        r == spec_to_object_type(id),
{
    match id {
        1 => ObjectType::Boat,
        2 => ObjectType::ItemStack,
        3 => ObjectType::AreaEffectCloud,
        10 => ObjectType::Minecrart,
        50 => ObjectType::ActivatedTNT,
        51 => ObjectType::EnderCrystal,
        60 => ObjectType::Arrow,
        61 => ObjectType::Snowball,
        62 => ObjectType::Egg,
        63 => ObjectType::FireBall,
        64 => ObjectType::FireCharge,
        65 => ObjectType::EnderPearl,
        66 => ObjectType::WitherSkull,
        67 => ObjectType::ShulkerBullet,
        70 => ObjectType::FallenObject,
        71 => ObjectType::ItemFrame,
        72 => ObjectType::EyeOfEnder,
        73 => ObjectType::Potion,
        75 => ObjectType::ExpBottle,
        76 => ObjectType::FireworkRocket,
        77 => ObjectType::LeashKnot,
        78 => ObjectType::ArmorStand,
        90 => ObjectType::FishingFloat,
        91 => ObjectType::SpectralArrow,
        93 => ObjectType::DragonFireball,
        _ => ObjectType::Unknown,
    }
}

/// A static visual-info record: how an entity kind is displayed. Loaded
/// once at startup and referenced by stable index.
#[derive(Debug, Clone, PartialEq)]
pub struct EntityInfo {
    pub etype: EntityType,
    pub id: u8,
    pub name: String,
    pub sprites: Vec<(char, (u8, u8, u8), Option<(u8, u8, u8)>)>,
}

/// A tracked entity. Positions are in the protocol's fixed-point units
/// (32 units to one world coordinate). `owner` is the connection whose
/// events are authoritative; an orphaned entity has none pending
/// resolution. The attachment graph is kept as the `parent` edge alone;
/// children are resolved by scanning, so the two directions can never
/// disagree.
#[derive(Debug, PartialEq)]
pub struct Entity {
    pub id: i32,
    pub new: bool,
    pub etype: EntityType,
    pub name: Option<String>,
    pub pos: (i64, i64, i64),
    pub last_movement: (i64, i64, i64),
    pub last_position: (i64, i64, i64),
    pub info: Option<usize>,
    pub owner: Option<usize>,
    pub parent: Option<i32>,
}

} // verus!
