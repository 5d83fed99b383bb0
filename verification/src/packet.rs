//! The typed packet model: a packet is a one-byte wire identifier followed
//! by an ordered sequence of typed fields. The identifier-to-field-layout
//! table drives both decoding and encoding. Strings travel as UTF-16BE code
//! units and floating-point fields as their big-endian bit patterns, so the
//! codec itself is exact integer work.

use vstd::prelude::*;

use crate::nbt::NbtData;

verus! {

/// The wire type of one packet field.
#[derive(Debug, Clone, Copy, PartialEq, Eq, Structural)]
pub enum FieldType {
    /// Unsigned byte.
    U8,
    /// Signed byte.
    I8,
    /// One-byte boolean, true exactly for one.
    Bool,
    /// Big-endian unsigned 16-bit integer.
    U16,
    /// Big-endian signed 16-bit integer.
    I16,
    /// Big-endian signed 32-bit integer.
    I32,
    /// Big-endian signed 64-bit integer.
    I64,
    /// Big-endian 32-bit floating point, carried as its bit pattern.
    F32,
    /// Big-endian 64-bit floating point, carried as its bit pattern.
    F64,
    /// UTF-16BE string: 16-bit code-unit count, then two bytes per unit.
    Str,
    /// Opaque blob: unsigned 16-bit byte count, then the bytes.
    Blob,
    /// Length-prefixed binary tag data; a count of minus one is absent and
    /// malformed where the layout requires the field.
    Nbt,
    /// Item slot: empty, or id with count, damage and optional tag data.
    SlotF,
    /// Self-terminating entity metadata entries.
    Meta,
    /// Object data: a leading integer, and three velocity shorts only when
    /// that integer is non-zero.
    ObjData,
    /// Compressed single chunk-column payload and its metadata.
    ChunkBlob,
    /// Compressed multi-column payload and per-column metadata.
    ChunkBulkBlob,
    /// Raw per-record data of a multi-block change.
    MultiBlock,
    /// Explosion block-offset records and a velocity vector.
    BlockOffsets,
    /// 16-bit count of item slots.
    SlotVec,
    /// 8-bit count of signed 32-bit integers.
    I32Vec,
    /// 8-bit count of strings.
    StrVec,
}

/// An item slot as it travels in a packet.
#[derive(Debug, Clone, PartialEq)]
pub enum Slot {
    Empty,
    Item { id: i16, count: i8, damage: i16 },
    ItemNbt { id: i16, count: i8, damage: i16, nbt: NbtData },
}

/// The mathematical value of a slot.
pub enum SlotView {
    Empty,
    Item { id: i16, count: i8, damage: i16 },
    ItemNbt { id: i16, count: i8, damage: i16, nbt: Seq<u8> },
}

impl View for Slot {
    type V = SlotView;

    open spec fn view(&self) -> SlotView {
        match self {
            Slot::Empty => SlotView::Empty,
            Slot::Item { id, count, damage } => SlotView::Item {
                id: *id,
                count: *count,
                damage: *damage,
            },
            Slot::ItemNbt { id, count, damage, nbt } => SlotView::ItemNbt {
                id: *id,
                count: *count,
                damage: *damage,
                nbt: nbt@,
            },
        }
    }
}

/// Decoded entity metadata: the flag bits and name entry the engine reads,
/// plus the identifiers of entries it skipped by their declared width.
#[derive(Debug, Clone, PartialEq)]
pub struct Metadata {
    pub on_fire: bool,
    pub crouching: bool,
    pub riding: bool,
    pub sprinting: bool,
    pub acting: bool,
    pub invisible: bool,
    pub name: Option<Vec<u16>>,
    pub unknown: Vec<u8>,
}

/// The mathematical value of decoded entity metadata.
pub struct MetaView {
    pub on_fire: bool,
    pub crouching: bool,
    pub riding: bool,
    pub sprinting: bool,
    pub acting: bool,
    pub invisible: bool,
    pub name: Option<Seq<u16>>,
    pub unknown: Seq<u8>,
}

impl View for Metadata {
    type V = MetaView;

    open spec fn view(&self) -> MetaView {
        MetaView {
            on_fire: self.on_fire,
            crouching: self.crouching,
            riding: self.riding,
            sprinting: self.sprinting,
            acting: self.acting,
            invisible: self.invisible,
            name: match self.name {
                Some(n) => Some(n@),
                None => None,
            },
            unknown: self.unknown@,
        }
    }
}

/// Object spawn data: the velocity shorts are present exactly when the
/// leading integer is non-zero.
#[derive(Debug, Clone, Copy, PartialEq, Eq, Structural)]
pub struct ObjectData {
    pub integer: i32,
    pub dx: Option<i16>,
    pub dy: Option<i16>,
    pub dz: Option<i16>,
}

/// Per-column chunk metadata: column coordinates and the section bitmasks.
#[derive(Debug, Clone, Copy, PartialEq, Eq, Structural)]
pub struct ChunkMetainfo {
    pub x: i32,
    pub z: i32,
    pub primary: u16,
    pub add: u16,
}

/// A single chunk-column update: zlib-compressed payload plus metadata.
#[derive(Debug, Clone, PartialEq)]
pub struct ChunkData {
    pub ground_up_continuous: bool,
    pub compressed: Vec<u8>,
    pub metainfo: ChunkMetainfo,
}

/// The mathematical value of a single chunk-column update.
pub struct ChunkDataView {
    pub ground_up_continuous: bool,
    pub compressed: Seq<u8>,
    pub metainfo: ChunkMetainfo,
}

impl View for ChunkData {
    type V = ChunkDataView;

    open spec fn view(&self) -> ChunkDataView {
        ChunkDataView {
            ground_up_continuous: self.ground_up_continuous,
            compressed: self.compressed@,
            metainfo: self.metainfo,
        }
    }
}

/// A bulk chunk update: one compressed payload covering several columns.
#[derive(Debug, Clone, PartialEq)]
pub struct ChunkDataBulk {
    pub column_count: u16,
    pub has_skylight: bool,
    pub compressed: Vec<u8>,
    pub metainfo: Vec<ChunkMetainfo>,
}

/// The mathematical value of a bulk chunk update.
pub struct ChunkBulkView {
    pub column_count: u16,
    pub has_skylight: bool,
    pub compressed: Seq<u8>,
    pub metainfo: Seq<ChunkMetainfo>,
}

impl View for ChunkDataBulk {
    type V = ChunkBulkView;

    open spec fn view(&self) -> ChunkBulkView {
        ChunkBulkView {
            column_count: self.column_count,
            has_skylight: self.has_skylight,
            compressed: self.compressed@,
            metainfo: self.metainfo@,
        }
    }
}

/// A multi-block change: raw four-byte records relative to one column.
#[derive(Debug, Clone, PartialEq)]
pub struct MultiBlockChangeData {
    pub x: i32,
    pub z: i32,
    pub record_count: u16,
    pub bytes: Vec<u8>,
}

/// The mathematical value of a multi-block change.
pub struct MultiBlockView {
    pub x: i32,
    pub z: i32,
    pub record_count: u16,
    pub bytes: Seq<u8>,
}

impl View for MultiBlockChangeData {
    type V = MultiBlockView;

    open spec fn view(&self) -> MultiBlockView {
        MultiBlockView {
            x: self.x,
            z: self.z,
            record_count: self.record_count,
            bytes: self.bytes@,
        }
    }
}

/// Explosion debris offsets and a velocity vector (bit patterns).
#[derive(Debug, Clone, PartialEq)]
pub struct BlockOffsetRecords {
    pub offsets: Vec<(i8, i8, i8)>,
    pub dx: u32,
    pub dy: u32,
    pub dz: u32,
}

/// The mathematical value of explosion debris records.
pub struct BlockOffsetsView {
    pub offsets: Seq<(i8, i8, i8)>,
    pub dx: u32,
    pub dy: u32,
    pub dz: u32,
}

impl View for BlockOffsetRecords {
    type V = BlockOffsetsView;

    open spec fn view(&self) -> BlockOffsetsView {
        BlockOffsetsView { offsets: self.offsets@, dx: self.dx, dy: self.dy, dz: self.dz }
    }
}

/// One decoded packet field.
#[derive(Debug, Clone, PartialEq)]
pub enum FieldValue {
    U8(u8),
    I8(i8),
    Bool(bool),
    U16(u16),
    I16(i16),
    I32(i32),
    I64(i64),
    F32(u32),
    F64(u64),
    Str(Vec<u16>),
    Blob(Vec<u8>),
    Nbt(NbtData),
    SlotF(Slot),
    Meta(Metadata),
    ObjData(ObjectData),
    ChunkBlob(ChunkData),
    ChunkBulkBlob(ChunkDataBulk),
    MultiBlock(MultiBlockChangeData),
    BlockOffsets(BlockOffsetRecords),
    SlotVec(Vec<Slot>),
    I32Vec(Vec<i32>),
    StrVec(Vec<Vec<u16>>),
}

/// The mathematical value of one packet field.
pub enum FieldView {
    U8(u8),
    I8(i8),
    Bool(bool),
    U16(u16),
    I16(i16),
    I32(i32),
    I64(i64),
    F32(u32),
    F64(u64),
    Str(Seq<u16>),
    Blob(Seq<u8>),
    Nbt(Seq<u8>),
    SlotF(SlotView),
    Meta(MetaView),
    ObjData(ObjectData),
    ChunkBlob(ChunkDataView),
    ChunkBulkBlob(ChunkBulkView),
    MultiBlock(MultiBlockView),
    BlockOffsets(BlockOffsetsView),
    SlotVec(Seq<SlotView>),
    I32Vec(Seq<i32>),
    StrVec(Seq<Seq<u16>>),
}

impl View for FieldValue {
    type V = FieldView;

    open spec fn view(&self) -> FieldView {
        match self {
            FieldValue::U8(v) => FieldView::U8(*v),
            FieldValue::I8(v) => FieldView::I8(*v),
            FieldValue::Bool(v) => FieldView::Bool(*v),
            FieldValue::U16(v) => FieldView::U16(*v),
            FieldValue::I16(v) => FieldView::I16(*v),
            FieldValue::I32(v) => FieldView::I32(*v),
            FieldValue::I64(v) => FieldView::I64(*v),
            FieldValue::F32(v) => FieldView::F32(*v),
            FieldValue::F64(v) => FieldView::F64(*v),
            FieldValue::Str(v) => FieldView::Str(v@),
            FieldValue::Blob(v) => FieldView::Blob(v@),
            FieldValue::Nbt(v) => FieldView::Nbt(v@),
            FieldValue::SlotF(v) => FieldView::SlotF(v@),
            FieldValue::Meta(v) => FieldView::Meta(v@),
            FieldValue::ObjData(v) => FieldView::ObjData(*v),
            FieldValue::ChunkBlob(v) => FieldView::ChunkBlob(v@),
            FieldValue::ChunkBulkBlob(v) => FieldView::ChunkBulkBlob(v@),
            FieldValue::MultiBlock(v) => FieldView::MultiBlock(v@),
            FieldValue::BlockOffsets(v) => FieldView::BlockOffsets(v@),
            FieldValue::SlotVec(v) => FieldView::SlotVec(
                Seq::new(v@.len(), |i: int| v@[i]@),
            ),
            FieldValue::I32Vec(v) => FieldView::I32Vec(v@),
            FieldValue::StrVec(v) => FieldView::StrVec(Seq::new(v@.len(), |i: int| v@[i]@)),
        }
    }
}

/// A decoded packet: the wire identifier and its fields in declaration
/// order, as the identifier's layout prescribes.
#[derive(Debug, Clone, PartialEq)]
pub struct Packet {
    pub id: u8,
    pub fields: Vec<FieldValue>,
}

/// The mathematical value of a packet.
pub struct PacketView {
    pub id: u8,
    pub fields: Seq<FieldView>,
}

impl View for Packet {
    type V = PacketView;

    open spec fn view(&self) -> PacketView {
        PacketView { id: self.id, fields: Seq::new(self.fields@.len(), |i: int| self.fields@[i]@) }
    }
}

/// The field layout of each known packet identifier; identifiers outside
/// this table are a fatal protocol error when they lead an inbound packet.
pub open spec fn spec_layout(id: u8) -> Option<Seq<FieldType>> {
    match id {
        0x00 => Some(seq![FieldType::I32]),  // KeepAlive
        0x01 => Some(seq![FieldType::I32, FieldType::Str, FieldType::I8, FieldType::I8, FieldType::I8, FieldType::I8, FieldType::I8]),  // LoginRequest
        0x02 => Some(seq![FieldType::U8, FieldType::Str, FieldType::Str, FieldType::I32]),  // Handshake
        0x03 => Some(seq![FieldType::Str]),  // ChatMessage
        0x04 => Some(seq![FieldType::I64, FieldType::I64]),  // TimeUpdate
        0x05 => Some(seq![FieldType::I32, FieldType::I16, FieldType::SlotF]),  // EntityEquipment
        0x06 => Some(seq![FieldType::I32, FieldType::I32, FieldType::I32]),  // SpawnPosition
        0x07 => Some(seq![FieldType::I32, FieldType::I32, FieldType::Bool]),  // UseEntity
        0x08 => Some(seq![FieldType::I16, FieldType::I16, FieldType::F32]),  // UpdateHealth
        0x09 => Some(seq![FieldType::I32, FieldType::U8, FieldType::U8, FieldType::I16, FieldType::Str]),  // Respawn
        0x0A => Some(seq![FieldType::Bool]),  // Player
        0x0B => Some(seq![FieldType::F64, FieldType::F64, FieldType::F64, FieldType::F64, FieldType::Bool]),  // PlayerPosition
        0x0C => Some(seq![FieldType::F32, FieldType::F32, FieldType::Bool]),  // PlayerLook
        0x0D => Some(seq![FieldType::F64, FieldType::F64, FieldType::F64, FieldType::F64, FieldType::F32, FieldType::F32, FieldType::Bool]),  // PlayerPositionAndLook
        0x0E => Some(seq![FieldType::U8, FieldType::I32, FieldType::U8, FieldType::I32, FieldType::U8]),  // PlayerDigging
        0x0F => Some(seq![FieldType::I32, FieldType::U8, FieldType::I32, FieldType::U8, FieldType::SlotF, FieldType::U8, FieldType::U8, FieldType::U8]),  // PlayerBlockPlacement
        0x10 => Some(seq![FieldType::I16]),  // HeldItemChange
        0x11 => Some(seq![FieldType::I32, FieldType::U8, FieldType::I32, FieldType::U8, FieldType::I32]),  // UseBed
        0x12 => Some(seq![FieldType::I32, FieldType::U8]),  // Animation
        0x13 => Some(seq![FieldType::I32, FieldType::U8]),  // EntityAction
        0x14 => Some(seq![FieldType::I32, FieldType::Str, FieldType::I32, FieldType::I32, FieldType::I32, FieldType::U8, FieldType::U8, FieldType::I16, FieldType::Meta]),  // SpawnNamedEntity
        0x16 => Some(seq![FieldType::I32, FieldType::I32]),  // CollectItem
        0x17 => Some(seq![FieldType::I32, FieldType::U8, FieldType::I32, FieldType::I32, FieldType::I32, FieldType::U8, FieldType::U8, FieldType::ObjData]),  // SpawnObject
        0x18 => Some(seq![FieldType::I32, FieldType::U8, FieldType::I32, FieldType::I32, FieldType::I32, FieldType::I8, FieldType::I8, FieldType::I8, FieldType::I16, FieldType::I16, FieldType::I16, FieldType::Meta]),  // SpawnMob
        0x19 => Some(seq![FieldType::I32, FieldType::Str, FieldType::I32, FieldType::I32, FieldType::I32, FieldType::I32]),  // SpawnPainting
        0x1A => Some(seq![FieldType::I32, FieldType::I32, FieldType::I32, FieldType::I32, FieldType::U16]),  // SpawnExperienceOrb
        0x1C => Some(seq![FieldType::I32, FieldType::I16, FieldType::I16, FieldType::I16]),  // EntityVelocity
        0x1D => Some(seq![FieldType::I32Vec]),  // EntityDestroy
        0x1E => Some(seq![FieldType::I32]),  // Entity
        0x1F => Some(seq![FieldType::I32, FieldType::I8, FieldType::I8, FieldType::I8]),  // EntityRelativeMove
        0x20 => Some(seq![FieldType::I32, FieldType::I8, FieldType::I8]),  // EntityLook
        0x21 => Some(seq![FieldType::I32, FieldType::I8, FieldType::I8, FieldType::I8, FieldType::I8, FieldType::I8]),  // EntityLookAndRelativeMove
        0x22 => Some(seq![FieldType::I32, FieldType::I32, FieldType::I32, FieldType::I32, FieldType::I8, FieldType::I8]),  // EntityTeleport
        0x23 => Some(seq![FieldType::I32, FieldType::I8]),  // EntityHeadLook
        0x26 => Some(seq![FieldType::I32, FieldType::U8]),  // EntityStatus
        0x27 => Some(seq![FieldType::I32, FieldType::I32]),  // EntityAttach
        0x28 => Some(seq![FieldType::I32, FieldType::Meta]),  // EntityMetadata
        0x29 => Some(seq![FieldType::I32, FieldType::U8, FieldType::U8, FieldType::I16]),  // EntityEffect
        0x2A => Some(seq![FieldType::I32, FieldType::U8]),  // RemoveEntityEffect
        0x2B => Some(seq![FieldType::F32, FieldType::I16, FieldType::I16]),  // SetExperience
        0x33 => Some(seq![FieldType::ChunkBlob]),  // ChunkData
        0x34 => Some(seq![FieldType::MultiBlock]),  // MultiBlockChange
        0x35 => Some(seq![FieldType::I32, FieldType::U8, FieldType::I32, FieldType::U16, FieldType::U8]),  // BlockChange
        0x36 => Some(seq![FieldType::I32, FieldType::I16, FieldType::I32, FieldType::U8, FieldType::U8, FieldType::I16]),  // BlockAction
        0x37 => Some(seq![FieldType::I32, FieldType::I32, FieldType::I32, FieldType::I32, FieldType::U8]),  // BlockBreakAnimation
        0x38 => Some(seq![FieldType::ChunkBulkBlob]),  // ChunkDataBulk
        0x3C => Some(seq![FieldType::F64, FieldType::F64, FieldType::F64, FieldType::F32, FieldType::BlockOffsets]),  // Explosion
        0x3D => Some(seq![FieldType::I32, FieldType::I32, FieldType::U8, FieldType::I32, FieldType::I32, FieldType::Bool]),  // SoundOrParticleEffect
        0x3E => Some(seq![FieldType::Str, FieldType::I32, FieldType::I32, FieldType::I32, FieldType::F32, FieldType::U8]),  // NamedSoundEffect
        0x3F => Some(seq![FieldType::Str, FieldType::F32, FieldType::F32, FieldType::F32, FieldType::F32, FieldType::F32, FieldType::F32, FieldType::F32, FieldType::I32]),  // Particle
        0x46 => Some(seq![FieldType::U8, FieldType::U8]),  // ChangeGameState
        0x47 => Some(seq![FieldType::I32, FieldType::U8, FieldType::I32, FieldType::I32, FieldType::I32]),  // SpawnGlobalEntity
        0x64 => Some(seq![FieldType::U8, FieldType::U8, FieldType::Str, FieldType::U8, FieldType::Bool]),  // OpenWindow
        0x65 => Some(seq![FieldType::U8]),  // CloseWindow
        0x66 => Some(seq![FieldType::U8, FieldType::U16, FieldType::U8, FieldType::U16, FieldType::U8, FieldType::SlotF]),  // ClickWindow
        0x67 => Some(seq![FieldType::I8, FieldType::I16, FieldType::SlotF]),  // SetSlot
        0x68 => Some(seq![FieldType::U8, FieldType::SlotVec]),  // SetWindowItems
        0x69 => Some(seq![FieldType::U8, FieldType::I16, FieldType::I16]),  // UpdateWindowProperty
        0x6A => Some(seq![FieldType::U8, FieldType::I16, FieldType::Bool]),  // ConfirmTransaction
        0x6B => Some(seq![FieldType::U16, FieldType::SlotF]),  // CreativeInventoryAction
        0x6C => Some(seq![FieldType::U8, FieldType::U8]),  // EnchantItem
        0x82 => Some(seq![FieldType::I32, FieldType::U16, FieldType::I32, FieldType::Str, FieldType::Str, FieldType::Str, FieldType::Str]),  // UpdateSign
        0x83 => Some(seq![FieldType::I16, FieldType::I16, FieldType::Blob]),  // ItemData
        0x84 => Some(seq![FieldType::I32, FieldType::U16, FieldType::I32, FieldType::U8, FieldType::Nbt]),  // UpdateTileEntity
        0xC8 => Some(seq![FieldType::I32, FieldType::I8]),  // IncrementStat
        0xC9 => Some(seq![FieldType::Str, FieldType::Bool, FieldType::U16]),  // PlayerListItem
        0xCA => Some(seq![FieldType::U8, FieldType::U8, FieldType::U8]),  // PlayerAbilities
        0xCB => Some(seq![FieldType::Str]),  // TabComplete
        0xCC => Some(seq![FieldType::Str, FieldType::U8, FieldType::U8, FieldType::U8, FieldType::Bool]),  // ClientSettings
        0xCD => Some(seq![FieldType::U8]),  // ClientStatuses
        0xCE => Some(seq![FieldType::Str, FieldType::Str, FieldType::U8]),  // ScoreboardObjective
        0xCF => Some(seq![FieldType::Str, FieldType::U8, FieldType::Str, FieldType::I32]),  // UpdateScore
        0xD0 => Some(seq![FieldType::U8, FieldType::Str]),  // DisplayScoreboard
        0xD1 => Some(seq![FieldType::Str, FieldType::U8, FieldType::Str, FieldType::Str, FieldType::Str, FieldType::U8, FieldType::U16, FieldType::StrVec]),  // Teams
        0xFA => Some(seq![FieldType::Str, FieldType::Blob]),  // PluginMessage
        0xFC => Some(seq![FieldType::Blob, FieldType::Blob]),  // EncryptionKeyResponse
        0xFD => Some(seq![FieldType::Str, FieldType::Blob, FieldType::Blob]),  // EncryptionKeyRequest
        0xFE => Some(seq![FieldType::U8]),  // ServerListPing
        0xFF => Some(seq![FieldType::Str]),  // Disconnect
        _ => None,
    }
}

/// Executable form of the layout table.
pub fn layout(id: u8) -> (r: Option<Vec<FieldType>>)
    ensures
        match r {
            Some(v) => spec_layout(id) == Some(v@),
            None => spec_layout(id) is None,
        },
{
    let r: Option<Vec<FieldType>> = match id {
        0x00 => Some(vec![FieldType::I32]),  // KeepAlive
        0x01 => Some(vec![FieldType::I32, FieldType::Str, FieldType::I8, FieldType::I8, FieldType::I8, FieldType::I8, FieldType::I8]),  // LoginRequest
        0x02 => Some(vec![FieldType::U8, FieldType::Str, FieldType::Str, FieldType::I32]),  // Handshake
        0x03 => Some(vec![FieldType::Str]),  // ChatMessage
        0x04 => Some(vec![FieldType::I64, FieldType::I64]),  // TimeUpdate
        0x05 => Some(vec![FieldType::I32, FieldType::I16, FieldType::SlotF]),  // EntityEquipment
        0x06 => Some(vec![FieldType::I32, FieldType::I32, FieldType::I32]),  // SpawnPosition
        0x07 => Some(vec![FieldType::I32, FieldType::I32, FieldType::Bool]),  // UseEntity
        0x08 => Some(vec![FieldType::I16, FieldType::I16, FieldType::F32]),  // UpdateHealth
        0x09 => Some(vec![FieldType::I32, FieldType::U8, FieldType::U8, FieldType::I16, FieldType::Str]),  // Respawn
        0x0A => Some(vec![FieldType::Bool]),  // Player
        0x0B => Some(vec![FieldType::F64, FieldType::F64, FieldType::F64, FieldType::F64, FieldType::Bool]),  // PlayerPosition
        0x0C => Some(vec![FieldType::F32, FieldType::F32, FieldType::Bool]),  // PlayerLook
        0x0D => Some(vec![FieldType::F64, FieldType::F64, FieldType::F64, FieldType::F64, FieldType::F32, FieldType::F32, FieldType::Bool]),  // PlayerPositionAndLook
        0x0E => Some(vec![FieldType::U8, FieldType::I32, FieldType::U8, FieldType::I32, FieldType::U8]),  // PlayerDigging
        0x0F => Some(vec![FieldType::I32, FieldType::U8, FieldType::I32, FieldType::U8, FieldType::SlotF, FieldType::U8, FieldType::U8, FieldType::U8]),  // PlayerBlockPlacement
        0x10 => Some(vec![FieldType::I16]),  // HeldItemChange
        0x11 => Some(vec![FieldType::I32, FieldType::U8, FieldType::I32, FieldType::U8, FieldType::I32]),  // UseBed
        0x12 => Some(vec![FieldType::I32, FieldType::U8]),  // Animation
        0x13 => Some(vec![FieldType::I32, FieldType::U8]),  // EntityAction
        0x14 => Some(vec![FieldType::I32, FieldType::Str, FieldType::I32, FieldType::I32, FieldType::I32, FieldType::U8, FieldType::U8, FieldType::I16, FieldType::Meta]),  // SpawnNamedEntity
        0x16 => Some(vec![FieldType::I32, FieldType::I32]),  // CollectItem
        0x17 => Some(vec![FieldType::I32, FieldType::U8, FieldType::I32, FieldType::I32, FieldType::I32, FieldType::U8, FieldType::U8, FieldType::ObjData]),  // SpawnObject
        0x18 => Some(vec![FieldType::I32, FieldType::U8, FieldType::I32, FieldType::I32, FieldType::I32, FieldType::I8, FieldType::I8, FieldType::I8, FieldType::I16, FieldType::I16, FieldType::I16, FieldType::Meta]),  // SpawnMob
        0x19 => Some(vec![FieldType::I32, FieldType::Str, FieldType::I32, FieldType::I32, FieldType::I32, FieldType::I32]),  // SpawnPainting
        0x1A => Some(vec![FieldType::I32, FieldType::I32, FieldType::I32, FieldType::I32, FieldType::U16]),  // SpawnExperienceOrb
        0x1C => Some(vec![FieldType::I32, FieldType::I16, FieldType::I16, FieldType::I16]),  // EntityVelocity
        0x1D => Some(vec![FieldType::I32Vec]),  // EntityDestroy
        0x1E => Some(vec![FieldType::I32]),  // Entity
        0x1F => Some(vec![FieldType::I32, FieldType::I8, FieldType::I8, FieldType::I8]),  // EntityRelativeMove
        0x20 => Some(vec![FieldType::I32, FieldType::I8, FieldType::I8]),  // EntityLook
        0x21 => Some(vec![FieldType::I32, FieldType::I8, FieldType::I8, FieldType::I8, FieldType::I8, FieldType::I8]),  // EntityLookAndRelativeMove
        0x22 => Some(vec![FieldType::I32, FieldType::I32, FieldType::I32, FieldType::I32, FieldType::I8, FieldType::I8]),  // EntityTeleport
        0x23 => Some(vec![FieldType::I32, FieldType::I8]),  // EntityHeadLook
        0x26 => Some(vec![FieldType::I32, FieldType::U8]),  // EntityStatus
        0x27 => Some(vec![FieldType::I32, FieldType::I32]),  // EntityAttach
        0x28 => Some(vec![FieldType::I32, FieldType::Meta]),  // EntityMetadata
        0x29 => Some(vec![FieldType::I32, FieldType::U8, FieldType::U8, FieldType::I16]),  // EntityEffect
        0x2A => Some(vec![FieldType::I32, FieldType::U8]),  // RemoveEntityEffect
        0x2B => Some(vec![FieldType::F32, FieldType::I16, FieldType::I16]),  // SetExperience
        0x33 => Some(vec![FieldType::ChunkBlob]),  // ChunkData
        0x34 => Some(vec![FieldType::MultiBlock]),  // MultiBlockChange
        0x35 => Some(vec![FieldType::I32, FieldType::U8, FieldType::I32, FieldType::U16, FieldType::U8]),  // BlockChange
        0x36 => Some(vec![FieldType::I32, FieldType::I16, FieldType::I32, FieldType::U8, FieldType::U8, FieldType::I16]),  // BlockAction
        0x37 => Some(vec![FieldType::I32, FieldType::I32, FieldType::I32, FieldType::I32, FieldType::U8]),  // BlockBreakAnimation
        0x38 => Some(vec![FieldType::ChunkBulkBlob]),  // ChunkDataBulk
        0x3C => Some(vec![FieldType::F64, FieldType::F64, FieldType::F64, FieldType::F32, FieldType::BlockOffsets]),  // Explosion
        0x3D => Some(vec![FieldType::I32, FieldType::I32, FieldType::U8, FieldType::I32, FieldType::I32, FieldType::Bool]),  // SoundOrParticleEffect
        0x3E => Some(vec![FieldType::Str, FieldType::I32, FieldType::I32, FieldType::I32, FieldType::F32, FieldType::U8]),  // NamedSoundEffect
        0x3F => Some(vec![FieldType::Str, FieldType::F32, FieldType::F32, FieldType::F32, FieldType::F32, FieldType::F32, FieldType::F32, FieldType::F32, FieldType::I32]),  // Particle
        0x46 => Some(vec![FieldType::U8, FieldType::U8]),  // ChangeGameState
        0x47 => Some(vec![FieldType::I32, FieldType::U8, FieldType::I32, FieldType::I32, FieldType::I32]),  // SpawnGlobalEntity
        0x64 => Some(vec![FieldType::U8, FieldType::U8, FieldType::Str, FieldType::U8, FieldType::Bool]),  // OpenWindow
        0x65 => Some(vec![FieldType::U8]),  // CloseWindow
        0x66 => Some(vec![FieldType::U8, FieldType::U16, FieldType::U8, FieldType::U16, FieldType::U8, FieldType::SlotF]),  // ClickWindow
        0x67 => Some(vec![FieldType::I8, FieldType::I16, FieldType::SlotF]),  // SetSlot
        0x68 => Some(vec![FieldType::U8, FieldType::SlotVec]),  // SetWindowItems
        0x69 => Some(vec![FieldType::U8, FieldType::I16, FieldType::I16]),  // UpdateWindowProperty
        0x6A => Some(vec![FieldType::U8, FieldType::I16, FieldType::Bool]),  // ConfirmTransaction
        0x6B => Some(vec![FieldType::U16, FieldType::SlotF]),  // CreativeInventoryAction
        0x6C => Some(vec![FieldType::U8, FieldType::U8]),  // EnchantItem
        0x82 => Some(vec![FieldType::I32, FieldType::U16, FieldType::I32, FieldType::Str, FieldType::Str, FieldType::Str, FieldType::Str]),  // UpdateSign
        0x83 => Some(vec![FieldType::I16, FieldType::I16, FieldType::Blob]),  // ItemData
        0x84 => Some(vec![FieldType::I32, FieldType::U16, FieldType::I32, FieldType::U8, FieldType::Nbt]),  // UpdateTileEntity
        0xC8 => Some(vec![FieldType::I32, FieldType::I8]),  // IncrementStat
        0xC9 => Some(vec![FieldType::Str, FieldType::Bool, FieldType::U16]),  // PlayerListItem
        0xCA => Some(vec![FieldType::U8, FieldType::U8, FieldType::U8]),  // PlayerAbilities
        0xCB => Some(vec![FieldType::Str]),  // TabComplete
        0xCC => Some(vec![FieldType::Str, FieldType::U8, FieldType::U8, FieldType::U8, FieldType::Bool]),  // ClientSettings
        0xCD => Some(vec![FieldType::U8]),  // ClientStatuses
        0xCE => Some(vec![FieldType::Str, FieldType::Str, FieldType::U8]),  // ScoreboardObjective
        0xCF => Some(vec![FieldType::Str, FieldType::U8, FieldType::Str, FieldType::I32]),  // UpdateScore
        0xD0 => Some(vec![FieldType::U8, FieldType::Str]),  // DisplayScoreboard
        0xD1 => Some(vec![FieldType::Str, FieldType::U8, FieldType::Str, FieldType::Str, FieldType::Str, FieldType::U8, FieldType::U16, FieldType::StrVec]),  // Teams
        0xFA => Some(vec![FieldType::Str, FieldType::Blob]),  // PluginMessage
        0xFC => Some(vec![FieldType::Blob, FieldType::Blob]),  // EncryptionKeyResponse
        0xFD => Some(vec![FieldType::Str, FieldType::Blob, FieldType::Blob]),  // EncryptionKeyRequest
        0xFE => Some(vec![FieldType::U8]),  // ServerListPing
        0xFF => Some(vec![FieldType::Str]),  // Disconnect
        _ => None,
    };
    proof {
        if r is Some {
            assert(spec_layout(id) matches Some(s) && s =~= r->Some_0@);
        }
    }
    r
}

/// Whether a field value has the given wire type.
pub open spec fn field_matches(v: FieldView, t: FieldType) -> bool {
    match t {
        FieldType::U8 => v is U8,
        FieldType::I8 => v is I8,
        FieldType::Bool => v is Bool,
        FieldType::U16 => v is U16,
        FieldType::I16 => v is I16,
        FieldType::I32 => v is I32,
        FieldType::I64 => v is I64,
        FieldType::F32 => v is F32,
        FieldType::F64 => v is F64,
        FieldType::Str => v is Str,
        FieldType::Blob => v is Blob,
        FieldType::Nbt => v is Nbt,
        FieldType::SlotF => v is SlotF,
        FieldType::Meta => v is Meta,
        FieldType::ObjData => v is ObjData,
        FieldType::ChunkBlob => v is ChunkBlob,
        FieldType::ChunkBulkBlob => v is ChunkBulkBlob,
        FieldType::MultiBlock => v is MultiBlock,
        FieldType::BlockOffsets => v is BlockOffsets,
        FieldType::SlotVec => v is SlotVec,
        FieldType::I32Vec => v is I32Vec,
        FieldType::StrVec => v is StrVec,
    }
}

/// A well-formed packet: a known identifier whose fields match its layout.
pub open spec fn packet_wf(p: PacketView) -> bool {
    match spec_layout(p.id) {
        Some(l) => p.fields.len() == l.len() && (forall|i: int|
            0 <= i < l.len() ==> field_matches(#[trigger] p.fields[i], l[i])),
        None => false,
    }
}

} // verus!
