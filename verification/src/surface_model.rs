//! What a surface holds and what each command does to it.
//!
//! This is the meaning of the commands: which of them a backend carries
//! out, and what its textures, its clip rectangle and its record of draw
//! calls are afterwards.

use vstd::prelude::*;
use crate::command::{clip_after_commands, Command};
use crate::image::ImageDelta;
use crate::rect::PixelRect;
use crate::texture_cache::{fits_backend, TextureInfo};
use crate::texture_id::TextureId;

verus! {

/// One draw call as the surface saw it.
#[derive(Clone, Copy, Debug, PartialEq, Eq)]
pub struct DrawCall {
    /// The clip rectangle in force at the call; `None` where drawing was
    /// not restricted.
    pub clip: Option<PixelRect>,
    /// The texture bound at the call.
    pub texture: Option<TextureId>,
    /// The frame's primitive that was drawn.
    pub primitive: usize,
    /// Number of triangles drawn.
    pub triangles: usize,
}

/// A texture of the surface: its dimensions and its pixels, row by row from
/// the top, four bytes a pixel.
pub struct TextureModel {
    pub info: TextureInfo,
    pub rows: Seq<Seq<u8>>,
}

/// What the surface holds.
pub struct SurfaceModel {
    pub textures: Map<TextureId, TextureModel>,
    pub clip: Option<PixelRect>,
    pub draws: Seq<DrawCall>,
}

impl TextureModel {
    /// There is a row for each line of the texture and four bytes in it for
    /// each pixel of the line.
    pub open spec fn wf(self) -> bool {
        &&& self.rows.len() == self.info.height
        &&& forall|r: int|
            0 <= r < self.rows.len() ==> (#[trigger] self.rows[r]).len() == 4 * self.info.width
    }

    /// The byte of channel `channel` of the pixel in column `x` of row `y`.
    pub open spec fn channel(self, x: int, y: int, channel: int) -> u8 {
        self.rows[y][4 * x + channel]
    }
}

/// A texture as it is right after its creation: every byte zero.
pub open spec fn blank_texture(info: TextureInfo) -> TextureModel {
    TextureModel {
        info,
        rows: Seq::new(
            info.height as nat,
            |r: int| Seq::new((4 * info.width) as nat, |c: int| 0u8),
        ),
    }
}

/// The rectangle that an upload writes: `region`, or the whole texture.
pub open spec fn upload_target(info: TextureInfo, region: Option<PixelRect>) -> PixelRect {
    match region {
        Some(rect) => rect,
        None => PixelRect { x: 0, y: 0, width: info.width, height: info.height },
    }
}

/// An upload into `rect` of a texture of dimensions `info` is in order: the
/// rectangle lies in the texture, a payload row holds a row of the
/// rectangle, and the payload holds as many rows as the rectangle.
pub open spec fn upload_in_order(
    info: TextureInfo,
    rect: PixelRect,
    payload: Seq<u8>,
    pitch: u32,
) -> bool {
    &&& 0 <= rect.x
    &&& 0 <= rect.y
    &&& rect.x + rect.width <= info.width
    &&& rect.y + rect.height <= info.height
    &&& 4 * rect.width <= pitch
    &&& pitch * rect.height <= payload.len()
}

/// A row after the pixels from column `x` on, `width` of them, were
/// replaced by the payload bytes from `offset` on.
pub open spec fn written_row(
    row: Seq<u8>,
    x: int,
    width: int,
    payload: Seq<u8>,
    offset: int,
) -> Seq<u8> {
    row.subrange(0, 4 * x) + payload.subrange(offset, offset + 4 * width) + row.subrange(
        4 * (x + width),
        row.len() as int,
    )
}

/// The rows of a texture after an upload into `rect`: the rows of the
/// rectangle are written from successive payload rows, the others stay.
pub open spec fn written_rows(
    rows: Seq<Seq<u8>>,
    rect: PixelRect,
    payload: Seq<u8>,
    pitch: u32,
) -> Seq<Seq<u8>> {
    Seq::new(
        rows.len(),
        |r: int|
            if rect.y <= r < rect.y + rect.height {
                written_row(rows[r], rect.x as int, rect.width as int, payload, (r - rect.y) * pitch)
            } else {
                rows[r]
            },
    )
}

/// The surface carries out `command`, where `deltas` are the texture
/// changes of the frame that the command belongs to.
pub open spec fn accepts(
    surface: SurfaceModel,
    command: Command,
    deltas: Seq<(TextureId, ImageDelta)>,
) -> bool {
    match command {
        Command::CreateTexture { id, width, height } => {
            &&& !surface.textures.contains_key(id)
            &&& 0 < width
            &&& 0 < height
            &&& fits_backend(width as usize, height as usize)
        },
        Command::DestroyTexture { id } => surface.textures.contains_key(id),
        Command::UpdateTexture { id, delta, region, pitch } => {
            &&& surface.textures.contains_key(id)
            &&& delta < deltas.len()
            &&& upload_in_order(
                surface.textures[id].info,
                upload_target(surface.textures[id].info, region),
                deltas[delta as int].1.pixels@,
                pitch,
            )
        },
        Command::SetClip { .. } => true,
        Command::DrawMesh { texture, .. } => match texture {
            Some(id) => surface.textures.contains_key(id),
            None => true,
        },
        Command::ClearClip => true,
    }
}

/// What the surface holds once it has carried out `command`.
pub open spec fn surface_after(
    surface: SurfaceModel,
    command: Command,
    deltas: Seq<(TextureId, ImageDelta)>,
) -> SurfaceModel {
    match command {
        Command::CreateTexture { id, width, height } => SurfaceModel {
            textures: surface.textures.insert(id, blank_texture(TextureInfo { width, height })),
            ..surface
        },
        Command::DestroyTexture { id } => SurfaceModel {
            textures: surface.textures.remove(id),
            ..surface
        },
        Command::UpdateTexture { id, delta, region, pitch } => {
            let texture = surface.textures[id];
            SurfaceModel {
                textures: surface.textures.insert(
                    id,
                    TextureModel {
                        info: texture.info,
                        rows: written_rows(
                            texture.rows,
                            upload_target(texture.info, region),
                            deltas[delta as int].1.pixels@,
                            pitch,
                        ),
                    },
                ),
                ..surface
            }
        },
        Command::SetClip { rect } => SurfaceModel { clip: Some(rect), ..surface },
        Command::DrawMesh { primitive, texture, triangles } => SurfaceModel {
            draws: surface.draws.push(
                DrawCall { clip: surface.clip, texture, primitive, triangles },
            ),
            ..surface
        },
        Command::ClearClip => SurfaceModel { clip: None, ..surface },
    }
}

/// What the surface holds once it has tried `command`: a command that it
/// does not carry out leaves it as it was.
pub open spec fn surface_step(
    surface: SurfaceModel,
    command: Command,
    deltas: Seq<(TextureId, ImageDelta)>,
) -> SurfaceModel {
    if accepts(surface, command, deltas) {
        surface_after(surface, command, deltas)
    } else {
        surface
    }
}

/// What the surface holds once it has tried the first `count` of
/// `commands` in order.
pub open spec fn surface_after_commands(
    surface: SurfaceModel,
    commands: Seq<Command>,
    deltas: Seq<(TextureId, ImageDelta)>,
    count: nat,
) -> SurfaceModel
    decreases count,
{
    if count == 0 {
        surface
    } else {
        surface_step(
            surface_after_commands(surface, commands, deltas, (count - 1) as nat),
            commands[count - 1],
            deltas,
        )
    }
}

/// The surface carries out each of the first `count` of `commands` when
/// they are tried in order.
pub open spec fn all_accepted(
    surface: SurfaceModel,
    commands: Seq<Command>,
    deltas: Seq<(TextureId, ImageDelta)>,
    count: nat,
) -> bool
    decreases count,
{
    count == 0 || {
        &&& all_accepted(surface, commands, deltas, (count - 1) as nat)
        &&& accepts(
            surface_after_commands(surface, commands, deltas, (count - 1) as nat),
            commands[count - 1],
            deltas,
        )
    }
}

/// How many of the first `count` of `commands` the surface carries out
/// before it refuses one.
pub open spec fn carried_out(
    surface: SurfaceModel,
    commands: Seq<Command>,
    deltas: Seq<(TextureId, ImageDelta)>,
    count: nat,
) -> nat
    decreases count,
{
    if count == 0 {
        0
    } else {
        let earlier = carried_out(surface, commands, deltas, (count - 1) as nat);
        if earlier == count - 1 && accepts(
            surface_after_commands(surface, commands, deltas, earlier),
            commands[count - 1],
            deltas,
        ) {
            count
        } else {
            earlier
        }
    }
}

/// Where the surface carries out the first `done` commands and then either
/// refuses the next or has come to the end of the first `count`, `done` is
/// the number that it carries out of those.
pub proof fn lemma_carried_out(
    surface: SurfaceModel,
    commands: Seq<Command>,
    deltas: Seq<(TextureId, ImageDelta)>,
    done: nat,
    count: nat,
)
    requires
        done <= count,
        all_accepted(surface, commands, deltas, done),
        done < count ==> !accepts(
            surface_after_commands(surface, commands, deltas, done),
            commands[done as int],
            deltas,
        ),
    ensures
        carried_out(surface, commands, deltas, count) == done,
    decreases count,
{
    if count > 0 {
        if done == count {
            lemma_carried_out(surface, commands, deltas, (done - 1) as nat, (count - 1) as nat);
        } else {
            lemma_carried_out(surface, commands, deltas, done, (count - 1) as nat);
        }
    }
}

/// The clip rectangle of the surface follows the commands that set and
/// clear it, whatever becomes of the others.
pub proof fn lemma_clip_follows_commands(
    surface: SurfaceModel,
    commands: Seq<Command>,
    deltas: Seq<(TextureId, ImageDelta)>,
    count: nat,
)
    ensures
        surface_after_commands(surface, commands, deltas, count).clip
            == clip_after_commands(surface.clip, commands, count),
    decreases count,
{
    if count > 0 {
        lemma_clip_follows_commands(surface, commands, deltas, (count - 1) as nat);
    }
}

/// Every texture of the surface has its rows and bytes.
pub open spec fn surface_wf(surface: SurfaceModel) -> bool {
    forall|id: TextureId| #[trigger]
        surface.textures.contains_key(id) ==> surface.textures[id].wf()
}

/// The four bytes of the pixel in column `x` of row `y` of the texture of
/// `id`; `None` where there is no such texture or no such pixel in it.
pub open spec fn texel(surface: SurfaceModel, id: TextureId, x: int, y: int) -> Option<Seq<u8>> {
    if surface.textures.contains_key(id) && 0 <= x < surface.textures[id].info.width && 0 <= y
        < surface.textures[id].info.height {
        Some(surface.textures[id].rows[y].subrange(4 * x, 4 * x + 4))
    } else {
        None
    }
}

} // verus!
