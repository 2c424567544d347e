//! The calls that a frame asks of the backend, as values.

use vstd::prelude::*;
use crate::rect::PixelRect;
use crate::texture_cache::{fits_backend, Allocation, TextureError, TextureInfo, TextureUpdate};
use crate::texture_id::TextureId;

verus! {

/// One call on the backend.
///
/// Textures are created in the format that
/// [`PixelFormat::for_byte_order`](crate::format::PixelFormat::for_byte_order)
/// gives for the machine, for streaming, with alpha blending switched on.
#[derive(Clone, Copy, Debug, PartialEq, Eq)]
pub enum Command {
    /// Create the texture of `id` with these dimensions.
    CreateTexture { id: TextureId, width: u32, height: u32 },
    /// Destroy the texture of `id`.
    DestroyTexture { id: TextureId },
    /// Write the payload of the frame's texture change number `delta` into
    /// the texture of `id`: into `region`, or into all of it where `region`
    /// is `None`. A payload row is `pitch` bytes long.
    UpdateTexture { id: TextureId, delta: usize, region: Option<PixelRect>, pitch: u32 },
    /// Restrict drawing to `rect`.
    SetClip { rect: PixelRect },
    /// Draw the mesh of the frame's primitive number `primitive` as an
    /// indexed triangle list of `triangles` triangles, with the texture of
    /// `texture` bound, or with none.
    DrawMesh { primitive: usize, texture: Option<TextureId>, triangles: usize },
    /// Lift the restriction of drawing to a rectangle.
    ClearClip,
}

/// Why a frame did not go through.
#[derive(Clone, Copy, Debug, PartialEq, Eq)]
pub enum PaintError {
    /// The frame's texture change number `index`, for `id`, was turned down.
    Rejected { index: usize, id: TextureId, reason: TextureError },
    /// The backend could not create, write or destroy the texture of `id`.
    Texture { id: TextureId },
    /// The backend could not set or clear the clip rectangle.
    Clip,
    /// The backend could not draw the frame's primitive number `primitive`.
    Draw { primitive: usize },
}

/// The error that a failure of the backend on `command` is reported as.
pub open spec fn failure_of(command: Command) -> PaintError {
    match command {
        Command::CreateTexture { id, .. } => PaintError::Texture { id },
        Command::DestroyTexture { id } => PaintError::Texture { id },
        Command::UpdateTexture { id, .. } => PaintError::Texture { id },
        Command::SetClip { .. } => PaintError::Clip,
        Command::DrawMesh { primitive, .. } => PaintError::Draw { primitive },
        Command::ClearClip => PaintError::Clip,
    }
}

/// The textures that exist once the backend has carried out `command`. A
/// texture beyond the backend's limits is never created.
pub open spec fn textures_after_command(
    textures: Map<TextureId, TextureInfo>,
    command: Command,
) -> Map<TextureId, TextureInfo> {
    match command {
        Command::CreateTexture { id, width, height } => {
            if fits_backend(width as usize, height as usize) {
                textures.insert(id, TextureInfo { width, height })
            } else {
                textures
            }
        },
        Command::DestroyTexture { id } => textures.remove(id),
        _ => textures,
    }
}

/// The textures that exist once the backend has carried out the first
/// `count` of `commands`.
pub open spec fn textures_after_commands(
    textures: Map<TextureId, TextureInfo>,
    commands: Seq<Command>,
    count: nat,
) -> Map<TextureId, TextureInfo>
    decreases count,
{
    if count == 0 {
        textures
    } else {
        textures_after_command(
            textures_after_commands(textures, commands, (count - 1) as nat),
            commands[count - 1],
        )
    }
}

/// The clip rectangle that is in force once the backend has carried out
/// `command`; `None` where drawing is not restricted.
pub open spec fn clip_after_command(clip: Option<PixelRect>, command: Command) -> Option<
    PixelRect,
> {
    match command {
        Command::SetClip { rect } => Some(rect),
        Command::ClearClip => None,
        _ => clip,
    }
}

/// The clip rectangle that is in force once the backend has carried out the
/// first `count` of `commands`.
pub open spec fn clip_after_commands(
    clip: Option<PixelRect>,
    commands: Seq<Command>,
    count: nat,
) -> Option<PixelRect>
    decreases count,
{
    if count == 0 {
        clip
    } else {
        clip_after_command(
            clip_after_commands(clip, commands, (count - 1) as nat),
            commands[count - 1],
        )
    }
}

/// The rectangles that the first `count` of `commands` set as clip
/// rectangle, in the order in which they are set.
pub open spec fn clip_changes(commands: Seq<Command>, count: nat) -> Seq<PixelRect>
    decreases count,
{
    if count == 0 {
        Seq::empty()
    } else {
        let earlier = clip_changes(commands, (count - 1) as nat);
        match commands[count - 1] {
            Command::SetClip { rect } => earlier.push(rect),
            _ => earlier,
        }
    }
}

/// Two lists of commands that agree on their first `count` commands lead to
/// the same textures, the same clip rectangle and the same clip changes
/// over those commands.
pub proof fn lemma_same_prefix(
    textures: Map<TextureId, TextureInfo>,
    clip: Option<PixelRect>,
    left: Seq<Command>,
    right: Seq<Command>,
    count: nat,
)
    requires
        count <= left.len(),
        count <= right.len(),
        forall|i: int| 0 <= i < count ==> left[i] == right[i],
    ensures
        textures_after_commands(textures, left, count) == textures_after_commands(
            textures,
            right,
            count,
        ),
        clip_after_commands(clip, left, count) == clip_after_commands(clip, right, count),
        clip_changes(left, count) == clip_changes(right, count),
    decreases count,
{
    if count > 0 {
        lemma_same_prefix(textures, clip, left, right, (count - 1) as nat);
    }
}

/// Carrying out one list of commands and then the first `count` of another
/// is carrying out that much of the two lists joined.
pub proof fn lemma_appended(
    textures: Map<TextureId, TextureInfo>,
    clip: Option<PixelRect>,
    first: Seq<Command>,
    second: Seq<Command>,
    count: nat,
)
    requires
        count <= second.len(),
    ensures
        textures_after_commands(textures, first + second, first.len() + count)
            == textures_after_commands(
            textures_after_commands(textures, first, first.len()),
            second,
            count,
        ),
        clip_after_commands(clip, first + second, first.len() + count) == clip_after_commands(
            clip_after_commands(clip, first, first.len()),
            second,
            count,
        ),
        clip_changes(first + second, first.len() + count) == clip_changes(first, first.len())
            + clip_changes(second, count),
    decreases count,
{
    let joined = first + second;
    if count == 0 {
        lemma_same_prefix(textures, clip, joined, first, first.len());
        assert(clip_changes(first, first.len()) + clip_changes(second, 0) =~= clip_changes(
            first,
            first.len(),
        ));
    } else {
        lemma_appended(textures, clip, first, second, (count - 1) as nat);
        assert(joined[first.len() + count - 1] == second[count - 1]);
        assert(clip_changes(joined, first.len() + count) =~= clip_changes(first, first.len())
            + clip_changes(second, count));
    }
}

/// The commands that carry out `update` for `id`, where the payload is the
/// frame's texture change number `index`: a texture that is replaced is
/// destroyed first, one that is new is created, then the pixels go in.
pub open spec fn update_commands(id: TextureId, index: usize, update: TextureUpdate) -> Seq<
    Command,
> {
    let create = Command::CreateTexture {
        id,
        width: update.texture.width,
        height: update.texture.height,
    };
    let allocate = match update.allocation {
        Allocation::Keep => Seq::<Command>::empty(),
        Allocation::Create => seq![create],
        Allocation::Replace => seq![Command::DestroyTexture { id }, create],
    };
    let upload = match update.upload {
        Some(upload) => seq![
            Command::UpdateTexture { id, delta: index, region: upload.region, pitch: upload.pitch },
        ],
        None => Seq::<Command>::empty(),
    };
    allocate + upload
}

impl Command {
    /// The commands that carry out `update` for `id`, where the payload is the
    /// frame's texture change number `index`.
    pub fn for_update(id: TextureId, index: usize, update: &TextureUpdate) -> (commands: Vec<
        Command,
    >)
        ensures
            commands@ == update_commands(id, index, *update),
    {
        let mut commands: Vec<Command> = Vec::new();
        push_update_commands(&mut commands, id, index, update);
        assert(Seq::<Command>::empty() + update_commands(id, index, *update) =~= update_commands(
            id,
            index,
            *update,
        ));
        commands
    }

    /// The error that a failure of the backend on this command is reported
    /// as.
    pub fn failure(&self) -> (error: PaintError)
        ensures
            error == failure_of(*self),
    {
        match self {
            Command::CreateTexture { id, .. } => PaintError::Texture { id: *id },
            Command::DestroyTexture { id } => PaintError::Texture { id: *id },
            Command::UpdateTexture { id, .. } => PaintError::Texture { id: *id },
            Command::SetClip { .. } => PaintError::Clip,
            Command::DrawMesh { primitive, .. } => PaintError::Draw { primitive: *primitive },
            Command::ClearClip => PaintError::Clip,
        }
    }
}

/// Appends the commands that carry out `update` for `id`.
pub(crate) fn push_update_commands(
    commands: &mut Vec<Command>,
    id: TextureId,
    index: usize,
    update: &TextureUpdate,
)
    ensures
        final(commands)@ == old(commands)@ + update_commands(id, index, *update),
{
    let create = Command::CreateTexture {
        id,
        width: update.texture.width,
        height: update.texture.height,
    };
    match update.allocation {
        Allocation::Keep => {},
        Allocation::Create => {
            commands.push(create);
        },
        Allocation::Replace => {
            commands.push(Command::DestroyTexture { id });
            commands.push(create);
        },
    }
    match update.upload {
        Some(upload) => {
            commands.push(
                Command::UpdateTexture {
                    id,
                    delta: index,
                    region: upload.region,
                    pitch: upload.pitch,
                },
            );
        },
        None => {},
    }
    assert(commands@ =~= old(commands)@ + update_commands(id, index, *update));
}

} // verus!
