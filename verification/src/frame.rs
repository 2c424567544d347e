//! What one frame asks of the backend.
//!
//! A frame has three parts, carried out in this order: the texture changes,
//! the primitives, and the textures to free. The functions here say, for a
//! table of textures and a frame, which commands are issued and what the
//! table holds afterwards.

use vstd::prelude::*;
use crate::command::{update_commands, Command, PaintError};
use crate::image::ImageDelta;
use crate::mesh::{ClippedPrimitive, Disposition, Primitive};
use crate::rect::PixelRect;
use crate::texture_cache::{delta_rejection, delta_update, textures_after_delta, TextureInfo};
use crate::texture_id::TextureId;

verus! {

/// A count of the primitives of a frame by what became of them.
#[derive(Clone, Copy, Debug, PartialEq, Eq, Structural)]
pub struct FrameReport {
    /// Meshes drawn, one draw call each.
    pub drawn: usize,
    /// Meshes without a triangle.
    pub empty: usize,
    /// Meshes passed over as malformed.
    pub malformed: usize,
    /// Callbacks passed over.
    pub skipped: usize,
}

/// The textures that exist once the first `count` of `deltas` were applied
/// in order.
pub open spec fn textures_after_deltas(
    textures: Map<TextureId, TextureInfo>,
    deltas: Seq<(TextureId, ImageDelta)>,
    count: nat,
) -> Map<TextureId, TextureInfo>
    decreases count,
{
    if count == 0 {
        textures
    } else {
        textures_after_delta(
            textures_after_deltas(textures, deltas, (count - 1) as nat),
            deltas[count - 1].0,
            deltas[count - 1].1,
        )
    }
}

/// The first of the first `count` of `deltas` that is turned down when they
/// are applied in order, as the error it is reported with.
pub open spec fn first_rejection(
    textures: Map<TextureId, TextureInfo>,
    deltas: Seq<(TextureId, ImageDelta)>,
    count: nat,
) -> Option<PaintError>
    decreases count,
{
    if count == 0 {
        None
    } else {
        match first_rejection(textures, deltas, (count - 1) as nat) {
            Some(error) => Some(error),
            None => match delta_rejection(
                textures_after_deltas(textures, deltas, (count - 1) as nat),
                deltas[count - 1].0,
                deltas[count - 1].1,
            ) {
                Some(reason) => Some(
                    PaintError::Rejected {
                        index: (count - 1) as usize,
                        id: deltas[count - 1].0,
                        reason,
                    },
                ),
                None => None,
            },
        }
    }
}

/// The commands that apply the first `count` of `deltas` in order.
pub open spec fn upload_commands(
    textures: Map<TextureId, TextureInfo>,
    deltas: Seq<(TextureId, ImageDelta)>,
    count: nat,
) -> Seq<Command>
    decreases count,
{
    if count == 0 {
        Seq::empty()
    } else {
        upload_commands(textures, deltas, (count - 1) as nat) + update_commands(
            deltas[count - 1].0,
            (count - 1) as usize,
            delta_update(
                textures_after_deltas(textures, deltas, (count - 1) as nat),
                deltas[count - 1].0,
                deltas[count - 1].1,
            ),
        )
    }
}

/// The texture that is bound for a mesh that asks for `texture_id`: that
/// texture where it exists, none where the mesh asks for none or asks for
/// one that does not exist.
pub open spec fn binding(
    textures: Map<TextureId, TextureInfo>,
    texture_id: Option<TextureId>,
) -> Option<TextureId> {
    match texture_id {
        Some(id) => if textures.contains_key(id) {
            Some(id)
        } else {
            None
        },
        None => None,
    }
}

/// The commands for the primitive number `index` of a frame. A callback has
/// none. A mesh sets its clip rectangle, whatever the rectangle holds, and
/// is then drawn with one call if it is to be drawn.
pub open spec fn primitive_commands<V>(
    textures: Map<TextureId, TextureInfo>,
    job: ClippedPrimitive<V>,
    index: usize,
) -> Seq<Command> {
    match job.primitive {
        Primitive::Callback => Seq::empty(),
        Primitive::Mesh(mesh) => {
            let clip = Command::SetClip { rect: job.clip_rect };
            if mesh.disposition() == Disposition::Drawn {
                seq![
                    clip,
                    Command::DrawMesh {
                        primitive: index,
                        texture: binding(textures, mesh.texture_id),
                        triangles: mesh.triangles() as usize,
                    },
                ]
            } else {
                seq![clip]
            }
        },
    }
}

/// The commands for the first `count` of `jobs`, in the order of the list.
pub open spec fn draw_commands<V>(
    textures: Map<TextureId, TextureInfo>,
    jobs: Seq<ClippedPrimitive<V>>,
    count: nat,
) -> Seq<Command>
    decreases count,
{
    if count == 0 {
        Seq::empty()
    } else {
        draw_commands(textures, jobs, (count - 1) as nat) + primitive_commands(
            textures,
            jobs[count - 1],
            (count - 1) as usize,
        )
    }
}

/// The clip rectangles of the meshes among the first `count` of `jobs`, in
/// the order of the list.
pub open spec fn mesh_clips<V>(jobs: Seq<ClippedPrimitive<V>>, count: nat) -> Seq<PixelRect>
    decreases count,
{
    if count == 0 {
        Seq::empty()
    } else {
        let earlier = mesh_clips(jobs, (count - 1) as nat);
        match jobs[count - 1].primitive {
            Primitive::Mesh(_) => earlier.push(jobs[count - 1].clip_rect),
            Primitive::Callback => earlier,
        }
    }
}

/// How many of the first `count` of `jobs` have the disposition `which`.
pub open spec fn count_disposition<V>(
    jobs: Seq<ClippedPrimitive<V>>,
    count: nat,
    which: Disposition,
) -> nat
    decreases count,
{
    if count == 0 {
        0
    } else {
        count_disposition(jobs, (count - 1) as nat, which) + if jobs[count - 1].disposition()
            == which {
            1nat
        } else {
            0nat
        }
    }
}

/// The report on the first `count` of `jobs`.
pub open spec fn report_of<V>(jobs: Seq<ClippedPrimitive<V>>, count: nat) -> FrameReport {
    FrameReport {
        drawn: count_disposition(jobs, count, Disposition::Drawn) as usize,
        empty: count_disposition(jobs, count, Disposition::Empty) as usize,
        malformed: count_disposition(jobs, count, Disposition::Malformed) as usize,
        skipped: count_disposition(jobs, count, Disposition::Skipped) as usize,
    }
}

/// The textures that exist once the first `count` of `free` were freed.
pub open spec fn textures_after_frees(
    textures: Map<TextureId, TextureInfo>,
    free: Seq<TextureId>,
    count: nat,
) -> Map<TextureId, TextureInfo>
    decreases count,
{
    if count == 0 {
        textures
    } else {
        textures_after_frees(textures, free, (count - 1) as nat).remove(free[count - 1])
    }
}

/// The commands that free the first `count` of `free` in order: one for each
/// that names a texture that still exists when its turn comes.
pub open spec fn free_commands(
    textures: Map<TextureId, TextureInfo>,
    free: Seq<TextureId>,
    count: nat,
) -> Seq<Command>
    decreases count,
{
    if count == 0 {
        Seq::empty()
    } else {
        let before = textures_after_frees(textures, free, (count - 1) as nat);
        free_commands(textures, free, (count - 1) as nat) + if before.contains_key(
            free[count - 1],
        ) {
            seq![Command::DestroyTexture { id: free[count - 1] }]
        } else {
            Seq::<Command>::empty()
        }
    }
}

/// The commands of a whole frame: the texture changes, then the primitives
/// in order with the textures as the changes left them, then the clip
/// rectangle is cleared, then the textures are freed.
pub open spec fn frame_commands<V>(
    textures: Map<TextureId, TextureInfo>,
    deltas: Seq<(TextureId, ImageDelta)>,
    jobs: Seq<ClippedPrimitive<V>>,
    free: Seq<TextureId>,
) -> Seq<Command> {
    let drawn_with = textures_after_deltas(textures, deltas, deltas.len());
    upload_commands(textures, deltas, deltas.len()) + draw_commands(drawn_with, jobs, jobs.len())
        + seq![Command::ClearClip] + free_commands(drawn_with, free, free.len())
}

/// The textures that exist once a whole frame is done.
pub open spec fn textures_after_frame(
    textures: Map<TextureId, TextureInfo>,
    deltas: Seq<(TextureId, ImageDelta)>,
    free: Seq<TextureId>,
) -> Map<TextureId, TextureInfo> {
    textures_after_frees(textures_after_deltas(textures, deltas, deltas.len()), free, free.len())
}

/// Once a texture change is turned down, looking at more of the list gives
/// the same answer.
pub proof fn lemma_rejection_is_first(
    textures: Map<TextureId, TextureInfo>,
    deltas: Seq<(TextureId, ImageDelta)>,
    seen: nat,
    count: nat,
)
    requires
        seen <= count,
        first_rejection(textures, deltas, seen) is Some,
    ensures
        first_rejection(textures, deltas, count) == first_rejection(textures, deltas, seen),
    decreases count,
{
    if seen < count {
        lemma_rejection_is_first(textures, deltas, seen, (count - 1) as nat);
    }
}

/// No more primitives have a given disposition than there are primitives.
pub proof fn lemma_count_disposition_bound<V>(
    jobs: Seq<ClippedPrimitive<V>>,
    count: nat,
    which: Disposition,
)
    ensures
        count_disposition(jobs, count, which) <= count,
    decreases count,
{
    if count > 0 {
        lemma_count_disposition_bound(jobs, (count - 1) as nat, which);
    }
}

} // verus!
