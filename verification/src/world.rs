//! The sparse chunk-column world store. Columns are keyed by chunk
//! coordinates; each holds up to sixteen 16x16x16 sub-chunks and a biome
//! array. Compressed chunk payloads are inflated through the zlib
//! boundary and unpacked in the protocol's fixed phase order: block ids,
//! metadata nibbles, block-light nibbles, skylight nibbles when declared,
//! "add" nibbles for sections whose add bit is set, then the biome array
//! on ground-up updates. The bytes consumed must equal the inflated length
//! exactly; any other total is a fatal desynchronisation.

use vstd::prelude::*;

use std::collections::HashMap;

use crate::packet::{ChunkData, ChunkDataBulk, ChunkMetainfo, MultiBlockChangeData};

verus! {

broadcast use vstd::std_specs::hash::group_hash_axioms;

/// Errors of the world store.
#[derive(Debug, Clone, Copy, PartialEq, Eq, Structural)]
pub enum WorldError {
    /// The unpacking phases would consume a different number of bytes than
    /// the inflated payload holds: the stream is desynchronised.
    SizeMismatch,
    /// The compressed payload is not valid zlib data.
    DecompressFailed,
    /// A multi-block change names a column that is not loaded.
    UnknownColumn,
    /// A multi-block change holds fewer record bytes than its count says.
    ShortRecordData,
}

/// One block: a 12-bit id (8 base bits plus an optional "add" nibble in
/// the high bits), 4-bit metadata, block light and skylight.
#[derive(Debug, Clone, Copy, PartialEq, Eq, Structural)]
pub struct Block {
    pub id: u16,
    pub metadata: u8,
    pub light: u8,
    pub skylit: u8,
}

/// The all-zero air block, the sentinel for any unloaded position.
pub open spec fn block_air() -> Block {
    Block { id: 0, metadata: 0, light: 0, skylit: 0 }
}

impl Block {
    /// The all-zero block.
    pub fn new() -> (r: Block)
        ensures
            r == block_air(),
    {
        Block { id: 0, metadata: 0, light: 0, skylit: 0 }
    }

    /// The air sentinel.
    pub fn air() -> (r: Block)
        ensures
            r == block_air(),
    {
        Block::new()
    }

    /// Whether this block is air: id zero.
    pub fn is_air(&self) -> (r: bool)
        ensures
            r == (self.id == 0),
    {
        self.id == 0
    }
}

/// One 16x16x16 sub-chunk: 4096 blocks addressed as `x + z*16 + y*256`.
#[derive(Debug, Clone, PartialEq)]
pub struct Chunk {
    pub y: u8,
    pub blocks: Vec<Block>,
}

/// The mathematical value of a sub-chunk.
pub struct ChunkView {
    pub y: u8,
    pub blocks: Seq<Block>,
}

impl View for Chunk {
    type V = ChunkView;

    open spec fn view(&self) -> ChunkView {
        ChunkView { y: self.y, blocks: self.blocks@ }
    }
}

impl Chunk {
    /// A sub-chunk of 4096 air blocks at section height `y`.
    pub fn empty(y: u8) -> (r: Chunk)
        ensures
            r@.y == y,
            r@.blocks == Seq::new(4096, |i: int| block_air()),
    {
        let mut blocks: Vec<Block> = Vec::new();
        let mut i: usize = 0;
        while i < 4096
            invariant
                i <= 4096,
                blocks@ == Seq::new(i as nat, |q: int| block_air()),
            decreases 4096 - i,
        {
            blocks.push(Block::new());
            proof {
                assert(blocks@ =~= Seq::new((i + 1) as nat, |q: int| block_air()));
            }
            i += 1;
        }
        Chunk { y, blocks }
    }
}

/// A vertical stack of up to sixteen optional sub-chunks plus a biome
/// array, addressed by chunk coordinates.
#[derive(Debug, Clone, PartialEq)]
pub struct ChunkColumn {
    pub x: i32,
    pub z: i32,
    pub chunks: Vec<Option<Chunk>>,
    pub biome: Vec<u8>,
}

/// The mathematical value of a chunk column.
pub struct ColView {
    pub x: i32,
    pub z: i32,
    pub chunks: Seq<Option<ChunkView>>,
    pub biome: Seq<u8>,
}

impl View for ChunkColumn {
    type V = ColView;

    open spec fn view(&self) -> ColView {
        ColView {
            x: self.x,
            z: self.z,
            chunks: Seq::new(self.chunks@.len(), |s: int| match self.chunks@[s] {
                Some(c) => Some(c@),
                None => None,
            }),
            biome: self.biome@,
        }
    }
}

/// Structural soundness of a column: at most sixteen sections, 4096
/// blocks in each present section, a 256-entry biome array.
pub open spec fn wf_col(c: ColView) -> bool {
    &&& c.chunks.len() <= 16
    &&& forall|s: int|
        0 <= s < c.chunks.len() ==> (#[trigger] c.chunks[s] matches Some(ch)
            ==> ch.blocks.len() == 4096)
    &&& c.biome.len() == 256
}

/// The block index of local coordinates within a sub-chunk.
pub open spec fn block_index(x: i32, y: i32, z: i32) -> int {
    (x & 0xf) + (z & 0xf) * 16 + (y & 0xf) * 256
}

/// The low four bits of a coordinate are its offset within a sub-chunk.
proof fn lemma_mask16(v: i32)
    ensures
        0 <= (v & 0xf) < 16,
{
    assert(0 <= (v & 0xf) < 16) by (bit_vector);
}

/// The block a column answers for a position: air for any height outside
/// its loaded sections.
pub open spec fn col_block_at(c: ColView, pos: (i32, i32, i32)) -> Block {
    if pos.1 < 0 || pos.1 as int > 16 * c.chunks.len() {
        block_air()
    } else if pos.1 as int / 16 < c.chunks.len() && c.chunks[pos.1 as int / 16] is Some {
        c.chunks[pos.1 as int / 16]->Some_0.blocks[block_index(pos.0, pos.1, pos.2)]
    } else {
        block_air()
    }
}

/// The column after writing one block: a no-op for a height outside the
/// section range, writing into the addressed section otherwise, creating
/// that section (all air) if it was absent.
pub open spec fn col_set_block(c: ColView, pos: (i32, i32, i32), b: Block) -> ColView {
    if pos.1 < 0 || pos.1 as int / 16 >= c.chunks.len() {
        c
    } else {
        let cy = pos.1 as int / 16;
        let idx = block_index(pos.0, pos.1, pos.2);
        let blocks = match c.chunks[cy] {
            Some(ch) => ch.blocks,
            None => Seq::new(4096, |i: int| block_air()),
        };
        ColView {
            chunks: c.chunks.update(
                cy,
                Some(ChunkView { y: cy as u8, blocks: blocks.update(idx, b) }),
            ),
            ..c
        }
    }
}

impl ChunkColumn {
    /// A column of sixteen absent sections.
    pub fn new(x: i32, z: i32) -> (r: ChunkColumn)
        ensures
            r@ == col_new_view(x, z),
            wf_col(r@),
    {
        let mut chunks: Vec<Option<Chunk>> = Vec::new();
        let mut i: usize = 0;
        while i < 16
            invariant
                i <= 16,
                chunks@.len() == i,
                forall|s: int| 0 <= s < i ==> chunks@[s] is None,
            decreases 16 - i,
        {
            chunks.push(None);
            i += 1;
        }
        let mut biome: Vec<u8> = Vec::new();
        let mut j: usize = 0;
        while j < 256
            invariant
                j <= 256,
                biome@ == Seq::new(j as nat, |q: int| 0u8),
            decreases 256 - j,
        {
            biome.push(0);
            proof {
                assert(biome@ =~= Seq::new((j + 1) as nat, |q: int| 0u8));
            }
            j += 1;
        }
        let r = ChunkColumn { x, z, chunks, biome };
        proof {
            assert(r@.chunks =~= col_new_view(x, z).chunks);
        }
        r
    }

    /// A column with no sections at all (they are appended while a chunk
    /// payload is unpacked).
    pub fn empty(x: i32, z: i32) -> (r: ChunkColumn)
        ensures
            r@.x == x,
            r@.z == z,
            r@.chunks == Seq::<Option<ChunkView>>::empty(),
            r@.biome == Seq::new(256, |q: int| 0u8),
            wf_col(r@),
    {
        let c = ChunkColumn::new(x, z);
        ChunkColumn { chunks: Vec::new(), ..c }
    }

    /// The block at a position whose horizontal coordinates fall in this
    /// column.
    pub fn get_block(&self, pos: (i32, i32, i32)) -> (r: Block)
        requires
            wf_col(self@),
        ensures
            r == col_block_at(self@, pos),
    {
        if pos.1 < 0 {
            return Block::air();
        }
        let y = pos.1 as usize;
        if y > self.chunks.len() * 16 {
            return Block::air();
        }
        let cy = y / 16;
        if cy < self.chunks.len() {
            match &self.chunks[cy] {
                Some(chunk) => {
                    proof {
                        lemma_mask16(pos.0);
                        lemma_mask16(pos.1);
                        lemma_mask16(pos.2);
                        assert(self@.chunks[cy as int] == Some(chunk@));
                        assert(chunk@.blocks.len() == 4096);
                    }
                    let x = (pos.0 & 0xf) as usize;
                    let z = (pos.2 & 0xf) as usize;
                    let yy = (pos.1 & 0xf) as usize;
                    chunk.blocks[x + z * 16 + yy * 256]
                },
                None => Block::air(),
            }
        } else {
            Block::air()
        }
    }

    /// Writes one block, creating the addressed section if absent; a
    /// height outside the section range is ignored.
    pub fn set_block(&mut self, pos: (i32, i32, i32), block: Block)
        requires
            wf_col(old(self)@),
        ensures
            final(self)@ == col_set_block(old(self)@, pos, block),
            wf_col(final(self)@),
    {
        if pos.1 < 0 {
            return ;
        }
        let y = pos.1 as usize;
        let cy = y / 16;
        if cy >= self.chunks.len() {
            return ;
        }
        proof {
            lemma_mask16(pos.0);
            lemma_mask16(pos.1);
            lemma_mask16(pos.2);
        }
        let x = (pos.0 & 0xf) as usize;
        let z = (pos.2 & 0xf) as usize;
        let yy = (pos.1 & 0xf) as usize;
        let idx = x + z * 16 + yy * 256;
        match &mut self.chunks[cy] {
            Some(chunk) => {
                chunk.y = cy as u8;
                chunk.blocks.set(idx, block);
            },
            None => {},
        }
        if self.chunks[cy].is_none() {
            let mut chunk = Chunk::empty(cy as u8);
            chunk.blocks.set(idx, block);
            self.chunks.set(cy, Some(chunk));
        }
        proof {
            assert(self@.chunks =~= col_set_block(old(self)@, pos, block).chunks);
        }
    }
}

/// The view of a fresh sixteen-section column.
pub open spec fn col_new_view(x: i32, z: i32) -> ColView {
    ColView {
        x,
        z,
        chunks: Seq::new(16, |s: int| None),
        biome: Seq::new(256, |q: int| 0u8),
    }
}

/// The map key of chunk coordinates.
pub open spec fn pack_key(cx: i32, cz: i32) -> u64 {
    ((cx as u32 as u64) << 32) | (cz as u32 as u64)
}

fn pack_key_exec(cx: i32, cz: i32) -> (r: u64)
    ensures
        r == pack_key(cx, cz),
{
    ((cx as u32 as u64) << 32) | (cz as u32 as u64)
}

/// The sparse world: chunk columns by their packed coordinates.
pub struct World {
    columns: HashMap<u64, ChunkColumn>,
}

impl World {
    /// The column views by packed key: the world's mathematical content.
    pub closed spec fn cols(self) -> Map<u64, ColView> {
        Map::new(
            |k: u64| self.columns@.contains_key(k),
            |k: u64| self.columns@[k]@,
        )
    }

    /// Every stored column is structurally sound, has a full sixteen
    /// section slots, and sits under the key of its own coordinates.
    pub closed spec fn wf(self) -> bool {
        forall|k: u64|
            #[trigger] self.columns@.contains_key(k) ==> (wf_col(self.columns@[k]@)
                && self.columns@[k]@.chunks.len() == 16 && pack_key(
                self.columns@[k]@.x,
                self.columns@[k]@.z,
            ) == k)
    }

    /// An empty world.
    pub fn new() -> (r: World)
        ensures
            r.wf(),
            r.cols() == Map::<u64, ColView>::empty(),
    {
        let r = World { columns: HashMap::new() };
        proof {
            assert(r.cols() =~= Map::<u64, ColView>::empty());
        }
        r
    }

    /// The block at a world position: the air sentinel below height zero
    /// and for any unloaded column or section.
    pub fn get_block(&self, pos: (i32, i32, i32)) -> (r: Block)
        requires
            self.wf(),
        ensures
            r == spec_get_block(self.cols(), pos),
    {
        if pos.1 < 0 {
            return Block::air();
        }
        let key = pack_key_exec(pos.0 >> 4, pos.2 >> 4);
        match self.columns.get(&key) {
            Some(column) => column.get_block(pos),
            None => Block::air(),
        }
    }

    /// Writes one block at a world position, creating the column if it is
    /// not loaded.
    pub fn set_block(&mut self, x: i32, z: i32, y: u8, block_type: u16, block_meta: u8)
        requires
            old(self).wf(),
        ensures
            final(self).wf(),
            final(self).cols() == old(self).cols().insert(
                pack_key(x >> 4, z >> 4),
                col_set_block(
                    if old(self).cols().contains_key(pack_key(x >> 4, z >> 4)) {
                        old(self).cols()[pack_key(x >> 4, z >> 4)]
                    } else {
                        col_new_view(x >> 4, z >> 4)
                    },
                    (x, y as i32, z),
                    Block { id: block_type, metadata: block_meta, light: 0, skylit: 0 },
                ),
            ),
    {
        let key = pack_key_exec(x >> 4, z >> 4);
        let mut column = match self.columns.remove(&key) {
            Some(c) => c,
            None => ChunkColumn::new(x >> 4, z >> 4),
        };
        let mut block = Block::new();
        block.id = block_type;
        block.metadata = block_meta;
        column.set_block((x, y as i32, z), block);
        self.columns.insert(key, column);
        proof {
            assert(self.cols() =~= old(self).cols().insert(
                key,
                col_set_block(
                    if old(self).cols().contains_key(key) {
                        old(self).cols()[key]
                    } else {
                        col_new_view(x >> 4, z >> 4)
                    },
                    (x, y as i32, z),
                    Block { id: block_type, metadata: block_meta, light: 0, skylit: 0 },
                ),
            ));
        }
    }
}

/// The block the world answers for a position.
pub open spec fn spec_get_block(cols: Map<u64, ColView>, pos: (i32, i32, i32)) -> Block {
    if pos.1 < 0 {
        block_air()
    } else {
        let key = pack_key(pos.0 >> 4, pos.2 >> 4);
        if cols.contains_key(key) {
            col_block_at(cols[key], pos)
        } else {
            block_air()
        }
    }
}

/// Whether bit `s` of a sixteen-bit mask is set.
pub open spec fn bit16(mask: u16, s: int) -> bool {
    mask & (1u16 << (s as u16)) != 0
}

/// How many of the low `upto` bits of a mask are set.
pub open spec fn countones(mask: u16, upto: int) -> int
    decreases upto,
{
    if upto <= 0 {
        0
    } else {
        countones(mask, upto - 1) + if bit16(mask, upto - 1) {
            1int
        } else {
            0int
        }
    }
}

proof fn lemma_countones_bound(mask: u16, upto: int)
    requires
        upto >= 0,
    ensures
        0 <= countones(mask, upto) <= upto,
    decreases upto,
{
    if upto > 0 {
        lemma_countones_bound(mask, upto - 1);
    }
}

proof fn lemma_countones_mono(mask: u16, a: int, b: int)
    requires
        0 <= a <= b,
    ensures
        countones(mask, a) <= countones(mask, b),
    decreases b,
{
    if a < b {
        lemma_countones_mono(mask, a, b - 1);
    }
}

/// A bit of a conjunction of masks is set exactly when it is set in both.
proof fn lemma_bit_and(p: u16, a: u16, s: u16)
    requires
        s < 16,
    ensures
        (((p & a) & (1u16 << s)) != 0) == ((p & (1u16 << s)) != 0 && (a & (1u16 << s)) != 0),
{
    assert((((p & a) & (1u16 << s)) != 0) == ((p & (1u16 << s)) != 0 && (a & (1u16 << s)) != 0))
        by (bit_vector);
}

/// The number of sections a primary bitmask declares.
pub open spec fn n_secs(p: u16) -> int {
    countones(p, 16)
}

/// The exact number of payload bytes one column's unpacking phases
/// consume: one id byte per block, half a byte each for metadata, block
/// light, skylight (when declared) and the add array (for present
/// sections whose add bit is set), and a 256-byte biome array on
/// ground-up updates.
pub open spec fn col_size(m: ChunkMetainfo, sky: bool, ground: bool) -> int {
    let n = n_secs(m.primary);
    let na = countones(m.primary & m.add, 16);
    n * 4096 + n * 2048 + n * 2048 + (if sky {
        n * 2048
    } else {
        0
    }) + na * 2048 + (if ground {
        256int
    } else {
        0
    })
}

/// The exact number of payload bytes a whole metadata list consumes.
pub open spec fn total_size(ms: Seq<ChunkMetainfo>, sky: bool, ground: bool) -> int
    decreases ms.len(),
{
    if ms.len() == 0 {
        0
    } else {
        col_size(ms[0], sky, ground) + total_size(ms.skip(1), sky, ground)
    }
}

/// Where column `idx` of a payload begins.
pub open spec fn col_off(ms: Seq<ChunkMetainfo>, idx: int, sky: bool, ground: bool) -> int {
    total_size(ms.take(idx), sky, ground)
}

proof fn lemma_col_size_nonneg(m: ChunkMetainfo, sky: bool, ground: bool)
    ensures
        col_size(m, sky, ground) >= 0,
{
    lemma_countones_bound(m.primary, 16);
    lemma_countones_bound(m.primary & m.add, 16);
}

proof fn lemma_total_size_snoc(ms: Seq<ChunkMetainfo>, i: int, sky: bool, ground: bool)
    requires
        0 <= i < ms.len(),
    ensures
        total_size(ms.take(i + 1), sky, ground) == total_size(ms.take(i), sky, ground) + col_size(
            ms[i],
            sky,
            ground,
        ),
    decreases i,
{
    if i == 0 {
        assert(ms.take(1).skip(1) =~= Seq::<ChunkMetainfo>::empty());
        assert(ms.take(0) =~= Seq::<ChunkMetainfo>::empty());
        assert(ms.take(1)[0] == ms[0]);
    } else {
        lemma_total_size_snoc(ms.skip(1), i - 1, sky, ground);
        assert(ms.take(i + 1).skip(1) =~= ms.skip(1).take(i));
        assert(ms.take(i).skip(1) =~= ms.skip(1).take(i - 1));
        assert(ms.take(i + 1)[0] == ms[0]);
        assert(ms.take(i)[0] == ms[0]);
        assert(ms.skip(1)[i - 1] == ms[i]);
    }
}

proof fn lemma_total_size_nonneg(ms: Seq<ChunkMetainfo>, sky: bool, ground: bool)
    ensures
        total_size(ms, sky, ground) >= 0,
    decreases ms.len(),
{
    if ms.len() > 0 {
        lemma_col_size_nonneg(ms[0], sky, ground);
        lemma_total_size_nonneg(ms.skip(1), sky, ground);
    }
}

proof fn lemma_total_prefix_le(ms: Seq<ChunkMetainfo>, a: int, sky: bool, ground: bool)
    requires
        0 <= a <= ms.len(),
    ensures
        total_size(ms.take(a), sky, ground) <= total_size(ms, sky, ground),
    decreases ms.len() - a,
{
    if a == ms.len() {
        assert(ms.take(a) =~= ms);
    } else {
        lemma_total_size_snoc(ms, a, sky, ground);
        lemma_col_size_nonneg(ms[a], sky, ground);
        lemma_total_prefix_le(ms, a + 1, sky, ground);
    }
}

/// The two 4-bit values packed per byte of a nibble array: even block
/// indices take the low nibble, odd ones the high nibble.
pub open spec fn nibble(d: Seq<u8>, base: int, i: int) -> u8 {
    if i % 2 == 0 {
        d[base + i / 2] & 0x0f
    } else {
        (d[base + i / 2] & 0xf0) >> 4
    }
}

/// Block `i` of present section `s` of the column whose payload starts at
/// `off`: the id byte, extended by the add nibble shifted into the high
/// bits where the section's add bit is set, with its metadata, block
/// light, and skylight (when declared) nibbles.
pub open spec fn spec_parsed_block(
    d: Seq<u8>,
    off: int,
    m: ChunkMetainfo,
    sky: bool,
    s: int,
    i: int,
) -> Block {
    let n = n_secs(m.primary);
    let si = countones(m.primary, s);
    let ai = countones(m.primary & m.add, s);
    let base_meta = off + n * 4096;
    let base_light = base_meta + n * 2048;
    let base_add = base_light + n * 2048 + if sky {
        n * 2048
    } else {
        0
    };
    let id_lo = d[off + si * 4096 + i] as u16;
    Block {
        id: if bit16(m.add, s) {
            id_lo | ((nibble(d, base_add + ai * 2048, i) as u16) << 8)
        } else {
            id_lo
        },
        metadata: nibble(d, base_meta + si * 2048, i),
        light: nibble(d, base_light + si * 2048, i),
        skylit: if sky {
            nibble(d, base_light + n * 2048 + si * 2048, i)
        } else {
            0
        },
    }
}

/// The whole column a payload at `off` unpacks to.
pub open spec fn spec_parsed_col(
    d: Seq<u8>,
    off: int,
    m: ChunkMetainfo,
    sky: bool,
    ground: bool,
) -> ColView {
    ColView {
        x: m.x,
        z: m.z,
        chunks: Seq::new(16, |s: int| if bit16(m.primary, s) {
            Some(
                ChunkView {
                    y: s as u8,
                    blocks: Seq::new(4096, |i: int| spec_parsed_block(d, off, m, sky, s, i)),
                },
            )
        } else {
            None
        }),
        biome: if ground {
            d.subrange(
                off + col_size(m, sky, ground) - 256,
                off + col_size(m, sky, ground),
            )
        } else {
            Seq::new(256, |q: int| 0u8)
        },
    }
}

/// The columns a payload's first `upto` metadata entries unpack to, by
/// key; a later entry for the same column wins.
pub open spec fn parsed_cols(
    d: Seq<u8>,
    ms: Seq<ChunkMetainfo>,
    sky: bool,
    ground: bool,
    upto: int,
) -> Map<u64, ColView>
    decreases upto,
{
    if upto <= 0 {
        Map::empty()
    } else {
        parsed_cols(d, ms, sky, ground, upto - 1).insert(
            pack_key(ms[upto - 1].x, ms[upto - 1].z),
            spec_parsed_col(d, col_off(ms, upto - 1, sky, ground), ms[upto - 1], sky, ground),
        )
    }
}

fn count_bits(mask: u16, upto: usize) -> (r: usize)
    requires
        upto <= 16,
    ensures
        r == countones(mask, upto as int),
        r <= upto,
{
    let mut r: usize = 0;
    let mut k: usize = 0;
    while k < upto
        invariant
            k <= upto <= 16,
            r == countones(mask, k as int),
            r <= k,
        decreases upto - k,
    {
        if mask & (1u16 << k) != 0 {
            r += 1;
        }
        k += 1;
    }
    r
}

fn col_size_exec(m: &ChunkMetainfo, sky: bool, ground: bool) -> (r: u32)
    ensures
        r == col_size(*m, sky, ground),
        r <= 196864,
{
    proof {
        lemma_countones_bound(m.primary, 16);
        lemma_countones_bound(m.primary & m.add, 16);
    }
    let n = count_bits(m.primary, 16) as u32;
    let na = count_bits(m.primary & m.add, 16) as u32;
    n * 4096 + n * 2048 + n * 2048 + (if sky {
        n * 2048
    } else {
        0
    }) + na * 2048 + (if ground {
        256
    } else {
        0
    })
}

fn nib(d: &[u8], base: usize, i: usize) -> (r: u8)
    requires
        base + i / 2 < d@.len(),
    ensures
        r == nibble(d@, base as int, i as int),
{
    let dn: usize = d.len();
    if i % 2 == 0 {
        d[base + i / 2] & 0x0f
    } else {
        (d[base + i / 2] & 0xf0) >> 4
    }
}

/// Unpacks one column from its slice of the inflated payload.
#[verifier::loop_isolation(false)]
fn build_column(d: &[u8], off: usize, m: &ChunkMetainfo, sky: bool, ground: bool) -> (c:
    ChunkColumn)
    requires
        off + col_size(*m, sky, ground) <= d@.len(),
    ensures
        c@ == spec_parsed_col(d@, off as int, *m, sky, ground),
        wf_col(c@),
        c@.chunks.len() == 16,
        c@.x == m.x,
        c@.z == m.z,
{
    proof {
        lemma_countones_bound(m.primary, 16);
        lemma_countones_bound(m.primary & m.add, 16);
        lemma_col_size_nonneg(*m, sky, ground);
    }
    let dn: usize = d.len();
    let n = count_bits(m.primary, 16);
    let na_total = count_bits(m.primary & m.add, 16);
    let base_meta = off + n * 4096;
    let base_light = base_meta + n * 2048;
    let base_add = base_light + n * 2048 + (if sky {
        n * 2048
    } else {
        0
    });
    let cs = col_size_exec(m, sky, ground) as usize;
    let mut chunks: Vec<Option<Chunk>> = Vec::new();
    let mut si: usize = 0;
    let mut ai: usize = 0;
    let mut s: usize = 0;
    while s < 16
        invariant
            s <= 16,
            si == countones(m.primary, s as int),
            ai == countones(m.primary & m.add, s as int),
            chunks@.len() == s,
            forall|q: int|
                0 <= q < s ==> (match #[trigger] chunks@[q] {
                    Some(ch) => spec_parsed_col(d@, off as int, *m, sky, ground).chunks[q]
                        == Some(ch@),
                    None => spec_parsed_col(d@, off as int, *m, sky, ground).chunks[q] is None,
                }),
        decreases 16 - s,
    {
        proof {
            lemma_countones_mono(m.primary, s + 1, 16);
            lemma_countones_mono(m.primary & m.add, s + 1, 16);
            lemma_bit_and(m.primary, m.add, s as u16);
        }
        if m.primary & (1u16 << s) != 0 {
            let has_add = m.add & (1u16 << s) != 0;
            let mut blocks: Vec<Block> = Vec::new();
            let mut i: usize = 0;
            while i < 4096
                invariant
                    i <= 4096,
                    si < n,
                    has_add ==> ai < na_total,
                    has_add == bit16(m.add, s as int),
                    bit16(m.primary, s as int),
                    blocks@.len() == i,
                    forall|q: int|
                        0 <= q < i ==> #[trigger] blocks@[q] == spec_parsed_block(
                            d@,
                            off as int,
                            *m,
                            sky,
                            s as int,
                            q,
                        ),
                decreases 4096 - i,
            {
                let id_lo = d[off + si * 4096 + i] as u16;
                let id: u16 = if has_add {
                    id_lo | ((nib(d, base_add + ai * 2048, i) as u16) << 8)
                } else {
                    id_lo
                };
                let b = Block {
                    id,
                    metadata: nib(d, base_meta + si * 2048, i),
                    light: nib(d, base_light + si * 2048, i),
                    skylit: if sky {
                        nib(d, base_light + n * 2048 + si * 2048, i)
                    } else {
                        0
                    },
                };
                blocks.push(b);
                i += 1;
            }
            proof {
                assert(blocks@ =~= Seq::new(
                    4096nat,
                    |q: int| spec_parsed_block(d@, off as int, *m, sky, s as int, q),
                ));
            }
            chunks.push(Some(Chunk { y: s as u8, blocks }));
            si += 1;
            if has_add {
                ai += 1;
            }
        } else {
            chunks.push(None);
        }
        s += 1;
    }
    let mut biome: Vec<u8> = Vec::new();
    if ground {
        let bbase = off + cs - 256;
        let mut j: usize = 0;
        while j < 256
            invariant
                j <= 256,
                bbase == off + col_size(*m, sky, ground) - 256,
                biome@.len() == j,
                forall|q: int| 0 <= q < j ==> #[trigger] biome@[q] == d@[bbase + q],
            decreases 256 - j,
        {
            biome.push(d[bbase + j]);
            j += 1;
        }
    } else {
        let mut j: usize = 0;
        while j < 256
            invariant
                j <= 256,
                biome@ == Seq::new(j as nat, |q: int| 0u8),
            decreases 256 - j,
        {
            biome.push(0);
            proof {
                assert(biome@ =~= Seq::new((j + 1) as nat, |q: int| 0u8));
            }
            j += 1;
        }
    }
    let c = ChunkColumn { x: m.x, z: m.z, chunks, biome };
    proof {
        let spec_col = spec_parsed_col(d@, off as int, *m, sky, ground);
        assert forall|q: int| 0 <= q < 16 implies c@.chunks[q] == spec_col.chunks[q] by {
            match c.chunks@[q] {
                Some(ch) => {
                    assert(spec_col.chunks[q] == Some(ch@));
                },
                None => {},
            }
        }
        assert(c@.chunks =~= spec_col.chunks);
        assert(c@.biome =~= spec_col.biome);
    }
    c
}

/// The name of zlib inflation: a pure function of the compressed bytes.
pub uninterp spec fn inflate_zlib(b: Seq<u8>) -> Option<Seq<u8>>;

/// Relies on miniz_oxide's decompress_to_vec_zlib: inflates a zlib
/// stream, a deterministic function of the input bytes alone; the result
/// is absent exactly for inputs that are not a valid zlib stream.
#[verifier::external_body]
fn decompress_zlib(b: &[u8]) -> (r: Option<Vec<u8>>)
    ensures
        match r {
            Some(v) => inflate_zlib(b@) == Some(v@),
            None => inflate_zlib(b@) == None::<Seq<u8>>,
        },
{
    miniz_oxide::inflate::decompress_to_vec_zlib(b).ok()
}

/// The position and block one multi-block-change record writes: packed
/// x/z nibbles, a height byte, a 12-bit id and 4-bit metadata packed
/// across the last two bytes. Coordinates are local to the column.
pub open spec fn mbc_record(bytes: Seq<u8>, k: int) -> ((i32, i32, i32), Block) {
    let a = bytes[4 * k];
    let b = bytes[4 * k + 1];
    let c = bytes[4 * k + 2];
    let e = bytes[4 * k + 3];
    (
        (((a & 0xf0) >> 4) as i32, b as i32, (a & 0x0f) as i32),
        Block {
            id: ((c as u16) << 4) | (((e & 0xf0) >> 4) as u16),
            metadata: e & 0x0f,
            light: 0,
            skylit: 0,
        },
    )
}

/// A column after the first `upto` records of a multi-block change, in
/// order (a later record for the same position wins).
pub open spec fn apply_records(c: ColView, bytes: Seq<u8>, upto: int) -> ColView
    decreases upto,
{
    if upto <= 0 {
        c
    } else {
        let rec = mbc_record(bytes, upto - 1);
        col_set_block(apply_records(c, bytes, upto - 1), rec.0, rec.1)
    }
}

impl World {
    /// Unpacks an inflated payload into its columns, replacing each
    /// addressed column wholesale (a later entry for the same column
    /// wins). The unpacking phases must consume the payload exactly; any
    /// other total is a fatal desynchronisation and the world is left
    /// untouched.
    #[verifier::loop_isolation(false)]
    pub fn parse(
        &mut self,
        chunk_data: &[u8],
        metadata: &[ChunkMetainfo],
        skylight: bool,
        ground_up: bool,
    ) -> (r: Result<(), WorldError>)
        requires
            old(self).wf(),
        ensures
            final(self).wf(),
            r is Ok <==> chunk_data@.len() == total_size(metadata@, skylight, ground_up),
            r is Err ==> r == Err::<(), WorldError>(WorldError::SizeMismatch) && final(self).cols()
                == old(self).cols(),
            r is Ok ==> final(self).cols() == old(self).cols().union_prefer_right(
                parsed_cols(
                    chunk_data@,
                    metadata@,
                    skylight,
                    ground_up,
                    metadata@.len() as int,
                ),
            ),
    {
        let dlen: usize = chunk_data.len();
        let n_cols: usize = metadata.len();
        let mut total: u64 = 0;
        let mut idx: usize = 0;
        proof {
            assert(metadata@.take(0) =~= Seq::<ChunkMetainfo>::empty());
        }
        while idx < n_cols
            invariant
                idx <= n_cols,
                total == total_size(metadata@.take(idx as int), skylight, ground_up),
                total <= dlen,
            decreases n_cols - idx,
        {
            let cs = col_size_exec(&metadata[idx], skylight, ground_up);
            proof {
                lemma_total_size_snoc(metadata@, idx as int, skylight, ground_up);
            }
            if cs as u64 > dlen as u64 - total {
                proof {
                    lemma_total_prefix_le(metadata@, idx + 1, skylight, ground_up);
                }
                return Err(WorldError::SizeMismatch);
            }
            total = total + cs as u64;
            idx += 1;
        }
        proof {
            assert(metadata@.take(n_cols as int) =~= metadata@);
        }
        if total != dlen as u64 {
            return Err(WorldError::SizeMismatch);
        }
        let mut off: u64 = 0;
        let mut k: usize = 0;
        proof {
            assert(metadata@.take(0) =~= Seq::<ChunkMetainfo>::empty());
            assert(old(self).cols().union_prefer_right(
                parsed_cols(chunk_data@, metadata@, skylight, ground_up, 0),
            ) =~= old(self).cols());
        }
        while k < n_cols
            invariant
                k <= n_cols,
                self.wf(),
                off == total_size(metadata@.take(k as int), skylight, ground_up),
                off <= dlen,
                self.cols() == old(self).cols().union_prefer_right(
                    parsed_cols(chunk_data@, metadata@, skylight, ground_up, k as int),
                ),
            decreases n_cols - k,
        {
            let m = metadata[k];
            proof {
                lemma_total_size_snoc(metadata@, k as int, skylight, ground_up);
                lemma_total_prefix_le(metadata@, k + 1, skylight, ground_up);
                lemma_col_size_nonneg(m, skylight, ground_up);
            }
            let col = build_column(chunk_data, off as usize, &m, skylight, ground_up);
            let key = pack_key_exec(m.x, m.z);
            let ghost prev = *self;
            let ghost col_view = col@;
            self.columns.insert(key, col);
            proof {
                assert(self.cols() =~= prev.cols().insert(key, col_view));
                assert(prev.cols().insert(key, col_view) =~= old(self).cols().union_prefer_right(
                    parsed_cols(chunk_data@, metadata@, skylight, ground_up, k + 1),
                ));
            }
            let cs2 = col_size_exec(&m, skylight, ground_up);
            off = off + cs2 as u64;
            k += 1;
        }
        Ok(())
    }
}

impl World {
    /// Applies a single-column chunk update: inflates the compressed
    /// payload and unpacks it (skylight is always declared on this
    /// packet), replacing the addressed column wholesale.
    pub fn set_chunk(&mut self, data: ChunkData) -> (r: Result<(), WorldError>)
        requires
            old(self).wf(),
        ensures
            final(self).wf(),
            inflate_zlib(data.compressed@) is None ==> r == Err::<(), WorldError>(
                WorldError::DecompressFailed,
            ) && final(self).cols() == old(self).cols(),
            inflate_zlib(data.compressed@) matches Some(d) ==> {
                &&& (r is Ok <==> d.len() == col_size(data.metainfo, true, data.ground_up_continuous))
                &&& (r is Err ==> r == Err::<(), WorldError>(WorldError::SizeMismatch) && final(self).cols() == old(self).cols())
                &&& (r is Ok ==> final(self).cols() == old(self).cols().insert(
                    pack_key(data.metainfo.x, data.metainfo.z),
                    spec_parsed_col(d, 0, data.metainfo, true, data.ground_up_continuous),
                ))
            },
    {
        let inflated = match decompress_zlib(data.compressed.as_slice()) {
            Some(v) => v,
            None => { return Err(WorldError::DecompressFailed); },
        };
        let mut metadata: Vec<ChunkMetainfo> = Vec::new();
        metadata.push(data.metainfo);
        let r = self.parse(
            inflated.as_slice(),
            metadata.as_slice(),
            true,
            data.ground_up_continuous,
        );
        proof {
            let ms = metadata@;
            assert(ms.len() == 1 && ms[0] == data.metainfo);
            assert(ms.skip(1) =~= Seq::<ChunkMetainfo>::empty());
            assert(ms.take(0) =~= Seq::<ChunkMetainfo>::empty());
            assert(total_size(ms.skip(1), true, data.ground_up_continuous) == 0);
            assert(col_off(ms, 0, true, data.ground_up_continuous) == 0);
            assert(total_size(ms, true, data.ground_up_continuous) == col_size(
                data.metainfo,
                true,
                data.ground_up_continuous,
            ));
            if r is Ok {
                reveal_with_fuel(parsed_cols, 3);
                assert(parsed_cols(inflated@, ms, true, data.ground_up_continuous, 1)
                    =~= Map::<u64, ColView>::empty().insert(
                    pack_key(data.metainfo.x, data.metainfo.z),
                    spec_parsed_col(inflated@, 0, data.metainfo, true, data.ground_up_continuous),
                ));
                assert(self.cols() =~= old(self).cols().insert(
                    pack_key(data.metainfo.x, data.metainfo.z),
                    spec_parsed_col(inflated@, 0, data.metainfo, true, data.ground_up_continuous),
                ));
            }
        }
        r
    }

    /// Applies a bulk chunk update: one compressed payload covering
    /// several columns, unpacked in metadata order (ground-up, so each
    /// column's biome array is present).
    pub fn set_chunk_bulk(&mut self, data: &ChunkDataBulk) -> (r: Result<(), WorldError>)
        requires
            old(self).wf(),
        ensures
            final(self).wf(),
            inflate_zlib(data.compressed@) is None ==> r == Err::<(), WorldError>(
                WorldError::DecompressFailed,
            ) && final(self).cols() == old(self).cols(),
            inflate_zlib(data.compressed@) matches Some(d) ==> {
                &&& (r is Ok <==> d.len() == total_size(data.metainfo@, data.has_skylight, true))
                &&& (r is Err ==> r == Err::<(), WorldError>(WorldError::SizeMismatch) && final(self).cols() == old(self).cols())
                &&& (r is Ok ==> final(self).cols() == old(self).cols().union_prefer_right(
                    parsed_cols(
                        d,
                        data.metainfo@,
                        data.has_skylight,
                        true,
                        data.metainfo@.len() as int,
                    ),
                ))
            },
    {
        let inflated = match decompress_zlib(data.compressed.as_slice()) {
            Some(v) => v,
            None => { return Err(WorldError::DecompressFailed); },
        };
        self.parse(inflated.as_slice(), data.metainfo.as_slice(), data.has_skylight, true)
    }

    /// Applies a multi-block change to a column that must already be
    /// loaded, one four-byte record at a time in order.
    pub fn set_block_multiple(&mut self, data: &MultiBlockChangeData) -> (r: Result<
        (),
        WorldError,
    >)
        requires
            old(self).wf(),
        ensures
            final(self).wf(),
            !old(self).cols().contains_key(pack_key(data.x, data.z)) ==> r == Err::<
                (),
                WorldError,
            >(WorldError::UnknownColumn) && final(self).cols() == old(self).cols(),
            old(self).cols().contains_key(pack_key(data.x, data.z)) && data.bytes@.len() < 4 * (
            data.record_count as int) ==> r == Err::<(), WorldError>(WorldError::ShortRecordData)
                && final(self).cols() == old(self).cols(),
            old(self).cols().contains_key(pack_key(data.x, data.z)) && data.bytes@.len() >= 4 * (
            data.record_count as int) ==> r is Ok && final(self).cols() == old(self).cols().insert(
                pack_key(data.x, data.z),
                apply_records(
                    old(self).cols()[pack_key(data.x, data.z)],
                    data.bytes@,
                    data.record_count as int,
                ),
            ),
    {
        let key = pack_key_exec(data.x, data.z);
        let mut column = match self.columns.remove(&key) {
            Some(c) => c,
            None => { return Err(WorldError::UnknownColumn); },
        };
        let count = data.record_count as usize;
        if data.bytes.len() < 4 * count {
            self.columns.insert(key, column);
            proof {
                assert(self.cols() =~= old(self).cols());
            }
            return Err(WorldError::ShortRecordData);
        }
        let ghost start_col = column@;
        let blen: usize = data.bytes.len();
        let mut k: usize = 0;
        while k < count
            invariant
                k <= count,
                blen == data.bytes@.len(),
                4 * count <= blen,
                wf_col(column@),
                column@.chunks.len() == old(self).cols()[pack_key(data.x, data.z)].chunks.len(),
                column@.x == old(self).cols()[pack_key(data.x, data.z)].x,
                column@.z == old(self).cols()[pack_key(data.x, data.z)].z,
                column@ == apply_records(start_col, data.bytes@, k as int),
                start_col == old(self).cols()[pack_key(data.x, data.z)],
            decreases count - k,
        {
            let a = data.bytes[4 * k];
            let b = data.bytes[4 * k + 1];
            let c = data.bytes[4 * k + 2];
            let e = data.bytes[4 * k + 3];
            let x = ((a & 0xf0) >> 4) as i32;
            let z = (a & 0x0f) as i32;
            let y = b as i32;
            let id: u16 = ((c as u16) << 4) | (((e & 0xf0) >> 4) as u16);
            let meta = e & 0x0f;
            let mut block = Block::new();
            block.id = id;
            block.metadata = meta;
            column.set_block((x, y, z), block);
            k += 1;
        }
        self.columns.insert(key, column);
        proof {
            assert(self.cols() =~= old(self).cols().insert(
                key,
                apply_records(
                    old(self).cols()[pack_key(data.x, data.z)],
                    data.bytes@,
                    data.record_count as int,
                ),
            ));
        }
        Ok(())
    }
}

/// The world invariant, bridged to the per-column facts a caller needs:
/// every stored column is structurally sound, carries its full sixteen
/// section slots, and sits under the key of its own coordinates.
pub proof fn lemma_wf_column(w: World, k: u64)
    requires
        w.wf(),
        w.cols().contains_key(k),
    ensures
        wf_col(w.cols()[k]),
        w.cols()[k].chunks.len() == 16,
        pack_key(w.cols()[k].x, w.cols()[k].z) == k,
{
}

/// Distinct chunk coordinates pack to distinct keys.
proof fn lemma_pack_key_injective(a: i32, b: i32, c: i32, d: i32)
    requires
        pack_key(a, b) == pack_key(c, d),
    ensures
        a == c,
        b == d,
{
    assert((((a as u32 as u64) << 32) | (b as u32 as u64)) == (((c as u32 as u64) << 32) | (d
        as u32 as u64)) ==> a == c && b == d) by (bit_vector);
}

/// Whether two positions address the same stored block slot: the same
/// column key, the same section, and the same index within it. Distinct
/// positions that alias one slot (by the `x + z*16 + y*256` addressing)
/// are the same cell.
pub open spec fn same_cell(p: (i32, i32, i32), q: (i32, i32, i32)) -> bool {
    &&& p.0 >> 4 == q.0 >> 4
    &&& p.2 >> 4 == q.2 >> 4
    &&& p.1 as int / 16 == q.1 as int / 16
    &&& block_index(p.0, p.1, p.2) == block_index(q.0, q.1, q.2)
}

/// Writing a block into a full-height, structurally sound column makes
/// it visible at exactly the written position, and keeps the column
/// sound.
pub proof fn lemma_col_set_block_at(c: ColView, t: (i32, i32, i32), b: Block)
    requires
        wf_col(c),
        c.chunks.len() == 16,
        0 <= t.1 < 256,
    ensures
        col_block_at(col_set_block(c, t, b), t) == b,
        wf_col(col_set_block(c, t, b)),
        col_set_block(c, t, b).chunks.len() == 16,
        col_set_block(c, t, b).x == c.x,
        col_set_block(c, t, b).z == c.z,
{
    lemma_mask16(t.0);
    lemma_mask16(t.1);
    lemma_mask16(t.2);
    let cy = t.1 as int / 16;
    assert(0 <= cy < 16) by (nonlinear_arith)
        requires
            0 <= t.1 < 256,
            cy == t.1 as int / 16,
    ;
    let n = col_set_block(c, t, b);
    let idx = block_index(t.0, t.1, t.2);
    assert(0 <= idx < 4096);
    assert(n.chunks[cy] matches Some(ch) && ch.blocks[idx] == b);
    assert(!(t.1 as int > 16 * n.chunks.len()));
}

/// Writing one cell leaves every other cell of the column as it was.
proof fn lemma_col_set_block_other(c: ColView, t: (i32, i32, i32), b: Block, p: (i32, i32, i32))
    requires
        wf_col(c),
        c.chunks.len() == 16,
        0 <= t.1 < 256,
        !(p.1 as int / 16 == t.1 as int / 16 && block_index(p.0, p.1, p.2) == block_index(
            t.0,
            t.1,
            t.2,
        )),
    ensures
        col_block_at(col_set_block(c, t, b), p) == col_block_at(c, p),
{
    let cyt = t.1 as int / 16;
    assert(0 <= cyt < 16) by (nonlinear_arith)
        requires
            0 <= t.1 < 256,
            cyt == t.1 as int / 16,
    ;
    let n = col_set_block(c, t, b);
    assert(n.chunks.len() == 16);
    if p.1 < 0 {
    } else {
        let cyp = p.1 as int / 16;
        assert(cyp >= 0) by (nonlinear_arith)
            requires
                p.1 >= 0,
                cyp == p.1 as int / 16,
        ;
        if p.1 as int > 256 {
        } else if cyp < 16 {
            if cyp != cyt {
                assert(n.chunks[cyp] == c.chunks[cyp]);
            } else {
                lemma_mask16(p.0);
                lemma_mask16(p.1);
                lemma_mask16(p.2);
                lemma_mask16(t.0);
                lemma_mask16(t.1);
                lemma_mask16(t.2);
                let idxp = block_index(p.0, p.1, p.2);
                let idxt = block_index(t.0, t.1, t.2);
                assert(idxp != idxt);
                assert(0 <= idxp < 4096);
                assert(0 <= idxt < 4096);
                if c.chunks[cyt] is Some {
                    let bl = c.chunks[cyt]->Some_0.blocks;
                    assert(bl.len() == 4096);
                    assert(n.chunks[cyt] == Some(
                        ChunkView { y: cyt as u8, blocks: bl.update(idxt, b) },
                    ));
                    assert(bl.update(idxt, b)[idxp] == bl[idxp]);
                    assert(col_block_at(n, p) == bl[idxp]);
                    assert(col_block_at(c, p) == bl[idxp]);
                } else {
                    let fresh = Seq::new(4096, |i: int| block_air());
                    assert(n.chunks[cyt] == Some(
                        ChunkView { y: cyt as u8, blocks: fresh.update(idxt, b) },
                    ));
                    assert(fresh.update(idxt, b)[idxp] == fresh[idxp]);
                    assert(fresh[idxp] == block_air());
                    assert(col_block_at(n, p) == block_air());
                    assert(col_block_at(c, p) == block_air());
                }
            }
        } else {
            assert(!(cyp < 16));
        }
    }
}

/// A fresh column answers air everywhere.
proof fn lemma_col_new_view_air(x: i32, z: i32, p: (i32, i32, i32))
    ensures
        col_block_at(col_new_view(x, z), p) == block_air(),
{
    let c = col_new_view(x, z);
    if p.1 >= 0 && p.1 as int <= 256 {
        let cyp = p.1 as int / 16;
        if 0 <= cyp < 16 {
            assert(c.chunks[cyp] is None);
        }
    }
}

/// Get-after-set: a single-block write makes exactly the written block
/// visible at its position (the column is created lazily, and negative
/// coordinates floor into the correct column by the arithmetic-shift
/// keying), and every position addressing any other cell answers as
/// before.
pub proof fn lemma_set_block_get_block(
    w0: World,
    w1: World,
    x: i32,
    z: i32,
    y: u8,
    block_type: u16,
    block_meta: u8,
)
    requires
        w0.wf(),
        w1.cols() == w0.cols().insert(
            pack_key(x >> 4, z >> 4),
            col_set_block(
                if w0.cols().contains_key(pack_key(x >> 4, z >> 4)) {
                    w0.cols()[pack_key(x >> 4, z >> 4)]
                } else {
                    col_new_view(x >> 4, z >> 4)
                },
                (x, y as i32, z),
                (Block { id: block_type, metadata: block_meta, light: 0, skylit: 0 }),
            ),
        ),
    ensures
        spec_get_block(w1.cols(), (x, y as i32, z)) == (Block {
            id: block_type,
            metadata: block_meta,
            light: 0,
            skylit: 0,
        }),
        forall|p: (i32, i32, i32)|
            !same_cell(p, (x, y as i32, z)) ==> spec_get_block(w1.cols(), p) == spec_get_block(
                w0.cols(),
                p,
            ),
{
    let t = (x, y as i32, z);
    let key = pack_key(x >> 4, z >> 4);
    let blk = Block { id: block_type, metadata: block_meta, light: 0, skylit: 0 };
    let base = if w0.cols().contains_key(key) {
        w0.cols()[key]
    } else {
        col_new_view(x >> 4, z >> 4)
    };
    if w0.cols().contains_key(key) {
        lemma_wf_column(w0, key);
    } else {
        assert(wf_col(base));
    }
    lemma_col_set_block_at(base, t, blk);
    assert(w1.cols()[key] == col_set_block(base, t, blk));
    assert(spec_get_block(w1.cols(), t) == blk);
    assert forall|p: (i32, i32, i32)| !same_cell(p, t) implies spec_get_block(w1.cols(), p)
        == spec_get_block(w0.cols(), p) by {
        if p.1 >= 0 {
            let kp = pack_key(p.0 >> 4, p.2 >> 4);
            if kp == key {
                lemma_pack_key_injective(p.0 >> 4, p.2 >> 4, x >> 4, z >> 4);
                lemma_col_set_block_other(base, t, blk, p);
                if !w0.cols().contains_key(key) {
                    lemma_col_new_view_air(x >> 4, z >> 4, p);
                }
            } else {
                assert(w1.cols().contains_key(kp) == w0.cols().contains_key(kp));
                if w0.cols().contains_key(kp) {
                    assert(w1.cols()[kp] == w0.cols()[kp]);
                }
            }
        }
    }
}

} // verus!
