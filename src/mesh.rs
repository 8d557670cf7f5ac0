use vstd::prelude::*;

use crate::geom::{IVec2, ivec2};
use crate::tile::{TileChunk, TileSetAsset, TileBounds, CHUNK_SIZE, TILE_COUNT};
use crate::world::{World, WORLD_SIZE};

verus! {

/// Render data of one chunk: four texture corners, in atlas pixels, per tile.
pub struct GameMesh {
    pub uvs: Vec<IVec2>,
    pub has_texture: bool,
}

/// Corner `j` of the square tile quad whose first corner is (`x`, `y`), in winding order.
pub open spec fn quad_corner(x: int, y: int, j: int) -> IVec2 {
    if j == 0 {
        IVec2 { x: x as i32, y: y as i32 }
    } else if j == 1 {
        IVec2 { x: (x + 16) as i32, y: y as i32 }
    } else if j == 2 {
        IVec2 { x: (x + 16) as i32, y: (y + 16) as i32 }
    } else {
        IVec2 { x: x as i32, y: (y + 16) as i32 }
    }
}

/// Texture corner `j` of a tile quad drawn from the atlas rectangle `b`.
pub open spec fn uv_corner(b: TileBounds, j: int) -> IVec2 {
    if j == 0 {
        IVec2 { x: b.begin.x, y: b.end.y }
    } else if j == 1 {
        IVec2 { x: b.end.x, y: b.end.y }
    } else if j == 2 {
        IVec2 { x: b.end.x, y: b.begin.y }
    } else {
        IVec2 { x: b.begin.x, y: b.begin.y }
    }
}

/// The texture corners that a chunk's mesh holds once it is rebuilt: four per tile,
/// read from the atlas rectangle of the tile's kind.
pub open spec fn synced_uvs(chunk: TileChunk, bounds: Seq<TileBounds>) -> Seq<IVec2> {
    Seq::new(4 * CHUNK_SIZE as nat, |v: int| uv_corner(bounds[chunk.tiles@[v / 4].spec_index() as int], v % 4))
}

/// Rewrites a mesh's texture corners from a chunk's tiles.
fn sync_mesh(mesh: &mut GameMesh, chunk: &TileChunk, bounds: &Vec<TileBounds>)
    requires
        old(mesh).uvs@.len() == 4 * CHUNK_SIZE,
        chunk.tiles@.len() == CHUNK_SIZE,
        bounds@.len() == TILE_COUNT,
    ensures
        final(mesh).uvs@ == synced_uvs(*chunk, bounds@),
        final(mesh).has_texture == old(mesh).has_texture,
{
    let mut k: usize = 0;
    while k < CHUNK_SIZE
        invariant
            0 <= k <= CHUNK_SIZE,
            chunk.tiles@.len() == CHUNK_SIZE,
            bounds@.len() == TILE_COUNT,
            mesh.uvs@.len() == 4 * CHUNK_SIZE,
            mesh.has_texture == old(mesh).has_texture,
            forall|v: int| 0 <= v < 4 * k ==> #[trigger] mesh.uvs@[v] == synced_uvs(*chunk, bounds@)[v],
        decreases CHUNK_SIZE - k,
    {
        let b = bounds[chunk.tiles[k].index()];
        let i = 4 * k;
        mesh.uvs[i] = ivec2(b.begin.x, b.end.y);
        mesh.uvs[i + 1] = ivec2(b.end.x, b.end.y);
        mesh.uvs[i + 2] = ivec2(b.end.x, b.begin.y);
        mesh.uvs[i + 3] = ivec2(b.begin.x, b.begin.y);
        proof {
            assert forall|v: int| 0 <= v < 4 * (k + 1) implies #[trigger] mesh.uvs@[v] == synced_uvs(*chunk, bounds@)[v] by {
                if v >= 4 * k {
                    assert(v / 4 == k);
                }
            }
        }
        k += 1;
    }
    assert(mesh.uvs@ =~= synced_uvs(*chunk, bounds@));
}

impl World {
    /// Rewrites the texture corners of every chunk whose mesh is due for a rebuild
    /// (every chunk, when a rebuild of all meshes was queued), from the tile set's
    /// atlas rectangles; chunks without a render target are skipped. Afterwards no
    /// mesh is due.
    pub fn apply_updates(&mut self, tile_set: &TileSetAsset)
        requires
            old(self).wf(),
            tile_set.bounds@.len() == TILE_COUNT,
        ensures
            final(self).wf(),
            final(self).chunks == old(self).chunks,
            final(self).vertex_positions == old(self).vertex_positions,
            !final(self).recalculate_all_meshes,
            forall|i: int| 0 <= i < WORLD_SIZE ==> !(#[trigger] final(self).dirty_chunks@[i]),
            forall|i: int| 0 <= i < WORLD_SIZE ==> (#[trigger] final(self).meshes@[i]).has_texture == old(self).meshes@[i].has_texture,
            forall|i: int| 0 <= i < WORLD_SIZE ==> (#[trigger] final(self).meshes@[i]).uvs@ == if (old(self).recalculate_all_meshes
                || old(self).dirty_chunks@[i]) && old(self).meshes@[i].has_texture {
                synced_uvs(old(self).chunks@[i], tile_set.bounds@)
            } else {
                old(self).meshes@[i].uvs@
            },
    {
        let all = self.recalculate_all_meshes;
        let mut ci: usize = 0;
        while ci < WORLD_SIZE
            invariant
                0 <= ci <= WORLD_SIZE,
                self.wf(),
                tile_set.bounds@.len() == TILE_COUNT,
                all == old(self).recalculate_all_meshes,
                self.chunks == old(self).chunks,
                self.vertex_positions == old(self).vertex_positions,
                forall|i: int| 0 <= i < ci ==> !(#[trigger] self.dirty_chunks@[i]),
                forall|i: int| ci <= i < WORLD_SIZE ==> #[trigger] self.dirty_chunks@[i] == old(self).dirty_chunks@[i],
                forall|i: int| 0 <= i < WORLD_SIZE ==> (#[trigger] self.meshes@[i]).has_texture == old(self).meshes@[i].has_texture,
                forall|i: int| 0 <= i < ci ==> (#[trigger] self.meshes@[i]).uvs@ == if (all || old(self).dirty_chunks@[i])
                    && old(self).meshes@[i].has_texture {
                    synced_uvs(old(self).chunks@[i], tile_set.bounds@)
                } else {
                    old(self).meshes@[i].uvs@
                },
                forall|i: int| ci <= i < WORLD_SIZE ==> #[trigger] self.meshes@[i] == old(self).meshes@[i],
            decreases WORLD_SIZE - ci,
        {
            if (all || self.dirty_chunks[ci]) && self.meshes[ci].has_texture {
                sync_mesh(&mut self.meshes[ci], &self.chunks[ci], &tile_set.bounds);
            }
            self.dirty_chunks[ci] = false;
            ci += 1;
        }
        self.recalculate_all_meshes = false;
    }
}

} // verus!
