//! Laws of the texture table and of the commands of a frame.

use vstd::prelude::*;
use crate::command::{
    clip_after_commands, clip_changes, lemma_appended, textures_after_commands, update_commands,
    Command,
};
use crate::frame::{
    draw_commands, first_rejection, frame_commands, free_commands, mesh_clips,
    primitive_commands, textures_after_deltas, textures_after_frame, textures_after_frees,
    upload_commands,
};
use crate::image::ImageDelta;
use crate::mesh::{ClippedPrimitive, Disposition, Primitive};
use crate::rect::PixelRect;
use crate::texture_cache::{
    delta_dimensions, delta_rejection, delta_update, textures_after_delta, textures_fit,
    Allocation, TextureInfo, Upload,
};
use crate::texture_id::TextureId;

verus! {

/// After a payload for the whole texture is accepted, the texture exists
/// with the width and height of the payload.
pub proof fn lemma_whole_delta_sets_dimensions(
    textures: Map<TextureId, TextureInfo>,
    id: TextureId,
    delta: ImageDelta,
)
    requires
        delta.pos is None,
        delta_rejection(textures, id, delta) is None,
    ensures
        textures_after_delta(textures, id, delta).contains_key(id),
        textures_after_delta(textures, id, delta)[id].width == delta.width,
        textures_after_delta(textures, id, delta)[id].height == delta.height,
        delta_update(textures, id, delta).texture == textures_after_delta(textures, id, delta)[id],
{
}

/// An accepted patch keeps the texture and its dimensions, and uploads into
/// the rectangle of the patch and nowhere else.
pub proof fn lemma_patch_writes_its_rectangle(
    textures: Map<TextureId, TextureInfo>,
    id: TextureId,
    delta: ImageDelta,
)
    requires
        textures_fit(textures),
        delta.pos is Some,
        delta_rejection(textures, id, delta) is None,
    ensures
        textures_after_delta(textures, id, delta) == textures,
        delta_update(textures, id, delta).allocation == Allocation::Keep,
        match delta_update(textures, id, delta).upload {
            Some(upload) => {
                &&& upload.region matches Some(region)
                &&& delta.pos matches Some((x, y))
                &&& region.x == x
                &&& region.y == y
                &&& region.width == delta.width
                &&& region.height == delta.height
                &&& region.x + region.width <= textures[id].width
                &&& region.y + region.height <= textures[id].height
                &&& upload.pitch == 4 * delta.width
            },
            None => delta.width == 0 || delta.height == 0,
        },
{
}

/// A payload for the whole of a texture that exists with other dimensions
/// gives a texture of the new dimensions: the old one is destroyed, a new
/// one is created, and the whole payload is uploaded.
pub proof fn lemma_resize_replaces_texture(
    textures: Map<TextureId, TextureInfo>,
    id: TextureId,
    index: usize,
    delta: ImageDelta,
)
    requires
        delta.pos is None,
        delta_rejection(textures, id, delta) is None,
        textures.contains_key(id),
        textures[id].width != delta.width || textures[id].height != delta.height,
    ensures
        textures_after_delta(textures, id, delta)[id] == delta_dimensions(delta),
        delta_dimensions(delta).width == delta.width,
        delta_dimensions(delta).height == delta.height,
        update_commands(id, index, delta_update(textures, id, delta)) == seq![
            Command::DestroyTexture { id },
            Command::CreateTexture {
                id,
                width: delta_dimensions(delta).width,
                height: delta_dimensions(delta).height,
            },
            Command::UpdateTexture {
                id,
                delta: index,
                region: None,
                pitch: (4 * delta.width) as u32,
            },
        ],
{
    let update = delta_update(textures, id, delta);
    assert(update.allocation == Allocation::Replace);
    assert(update.upload == Some(Upload { region: None, pitch: (4 * delta.width) as u32 }));
    assert(update_commands(id, index, update) =~= seq![
        Command::DestroyTexture { id },
        Command::CreateTexture {
            id,
            width: delta_dimensions(delta).width,
            height: delta_dimensions(delta).height,
        },
        Command::UpdateTexture { id, delta: index, region: None, pitch: (4 * delta.width) as u32 },
    ]);
}

/// A freed texture is not found any more, and the other textures are as
/// they were.
pub proof fn lemma_freed_is_gone(textures: Map<TextureId, TextureInfo>, id: TextureId)
    ensures
        !textures.remove(id).contains_key(id),
        forall|other: TextureId|
            other != id ==> (#[trigger] textures.remove(id).contains_key(other)
                == textures.contains_key(other)),
        forall|other: TextureId|
            other != id && textures.contains_key(other) ==> #[trigger] textures.remove(id)[other]
                == textures[other],
{
}

/// Freeing a texture that does not exist changes nothing.
pub proof fn lemma_free_unknown_changes_nothing(
    textures: Map<TextureId, TextureInfo>,
    id: TextureId,
)
    requires
        !textures.contains_key(id),
    ensures
        textures.remove(id) == textures,
{
    assert(textures.remove(id) =~= textures);
}

/// Freeing a texture twice is freeing it once.
pub proof fn lemma_free_twice_is_once(textures: Map<TextureId, TextureInfo>, id: TextureId)
    ensures
        textures.remove(id).remove(id) == textures.remove(id),
{
    assert(textures.remove(id).remove(id) =~= textures.remove(id));
}

/// The commands of one accepted texture change lead from the textures before
/// it to the textures after it.
pub proof fn lemma_update_commands_lead_to_table(
    textures: Map<TextureId, TextureInfo>,
    id: TextureId,
    index: usize,
    delta: ImageDelta,
)
    requires
        delta_rejection(textures, id, delta) is None,
    ensures
        ({
            let commands = update_commands(id, index, delta_update(textures, id, delta));
            textures_after_commands(textures, commands, commands.len()) == textures_after_delta(
                textures,
                id,
                delta,
            )
        }),
{
    let update = delta_update(textures, id, delta);
    let commands = update_commands(id, index, update);
    let after = textures_after_delta(textures, id, delta);
    reveal_with_fuel(textures_after_commands, 4);
    match update.allocation {
        Allocation::Keep => {
            assert(textures_after_commands(textures, commands, commands.len()) =~= after);
        },
        Allocation::Create => {
            assert(commands.len() == 2);
            assert(textures_after_commands(textures, commands, commands.len()) =~= after);
        },
        Allocation::Replace => {
            assert(commands.len() == 3);
            assert(textures_after_commands(textures, commands, commands.len()) =~= after);
        },
    }
}

/// The commands of the first `count` texture changes lead from the textures
/// before the frame to the textures after those changes.
pub proof fn lemma_upload_commands_lead_to_table(
    textures: Map<TextureId, TextureInfo>,
    deltas: Seq<(TextureId, ImageDelta)>,
    count: nat,
)
    requires
        count <= deltas.len(),
        first_rejection(textures, deltas, count) is None,
    ensures
        ({
            let commands = upload_commands(textures, deltas, count);
            textures_after_commands(textures, commands, commands.len()) == textures_after_deltas(
                textures,
                deltas,
                count,
            )
        }),
    decreases count,
{
    if count > 0 {
        let earlier = (count - 1) as nat;
        lemma_upload_commands_lead_to_table(textures, deltas, earlier);
        let reached = textures_after_deltas(textures, deltas, earlier);
        let id = deltas[count - 1].0;
        let delta = deltas[count - 1].1;
        let step = update_commands(id, earlier as usize, delta_update(reached, id, delta));
        lemma_update_commands_lead_to_table(reached, id, earlier as usize, delta);
        lemma_appended(textures, None, upload_commands(textures, deltas, earlier), step, step.len());
    }
}

/// Drawing creates and destroys no texture, and sets as clip rectangles the
/// clip rectangles of the meshes, one for each mesh, in the order of the
/// list.
pub proof fn lemma_draw_commands_set_clips<V>(
    textures: Map<TextureId, TextureInfo>,
    bound: Map<TextureId, TextureInfo>,
    jobs: Seq<ClippedPrimitive<V>>,
    count: nat,
)
    requires
        count <= jobs.len(),
    ensures
        ({
            let commands = draw_commands(bound, jobs, count);
            &&& textures_after_commands(textures, commands, commands.len()) == textures
            &&& clip_changes(commands, commands.len()) == mesh_clips(jobs, count)
        }),
    decreases count,
{
    if count > 0 {
        let earlier = (count - 1) as nat;
        lemma_draw_commands_set_clips(textures, bound, jobs, earlier);
        let step = primitive_commands(bound, jobs[count - 1], earlier as usize);
        reveal_with_fuel(textures_after_commands, 3);
        reveal_with_fuel(clip_changes, 3);
        assert(textures_after_commands(textures, step, step.len()) == textures);
        match jobs[count - 1].primitive {
            Primitive::Mesh(_) => {
                assert(clip_changes(step, step.len()) =~= seq![jobs[count - 1].clip_rect]);
            },
            Primitive::Callback => {
                assert(clip_changes(step, step.len()) =~= Seq::<PixelRect>::empty());
            },
        }
        lemma_appended(textures, None, draw_commands(bound, jobs, earlier), step, step.len());
        assert(mesh_clips(jobs, earlier) + clip_changes(step, step.len()) =~= mesh_clips(
            jobs,
            count,
        ));
    }
}

/// The commands that free the first `count` textures of a list lead to the
/// textures without them, and leave the clip rectangle alone.
pub proof fn lemma_free_commands_lead_to_table(
    textures: Map<TextureId, TextureInfo>,
    clip: Option<PixelRect>,
    free: Seq<TextureId>,
    count: nat,
)
    requires
        count <= free.len(),
    ensures
        ({
            let commands = free_commands(textures, free, count);
            &&& textures_after_commands(textures, commands, commands.len())
                == textures_after_frees(textures, free, count)
            &&& clip_changes(commands, commands.len()) == Seq::<PixelRect>::empty()
            &&& clip_after_commands(clip, commands, commands.len()) == clip
        }),
    decreases count,
{
    if count > 0 {
        let earlier = (count - 1) as nat;
        lemma_free_commands_lead_to_table(textures, clip, free, earlier);
        let reached = textures_after_frees(textures, free, earlier);
        let id = free[count - 1];
        let step = if reached.contains_key(id) {
            seq![Command::DestroyTexture { id }]
        } else {
            Seq::<Command>::empty()
        };
        reveal_with_fuel(textures_after_commands, 2);
        reveal_with_fuel(clip_changes, 2);
        reveal_with_fuel(clip_after_commands, 2);
        assert(textures_after_commands(reached, step, step.len()) =~= reached.remove(id));
        assert(clip_changes(step, step.len()) =~= Seq::<PixelRect>::empty());
        lemma_appended(textures, clip, free_commands(textures, free, earlier), step, step.len());
        assert(Seq::<PixelRect>::empty() + Seq::<PixelRect>::empty() =~= Seq::<
            PixelRect,
        >::empty());
    }
}

/// Once the first `count` textures of a list are freed, a texture exists if
/// it existed before and is not among them, and it is as it was.
pub proof fn lemma_frees_remove_the_listed(
    textures: Map<TextureId, TextureInfo>,
    free: Seq<TextureId>,
    count: nat,
)
    requires
        count <= free.len(),
    ensures
        forall|id: TextureId| #[trigger]
            textures_after_frees(textures, free, count).contains_key(id) == (
            textures.contains_key(id) && !(exists|i: int| 0 <= i < count && free[i] == id)),
        forall|id: TextureId| #[trigger]
            textures_after_frees(textures, free, count).contains_key(id)
                ==> textures_after_frees(textures, free, count)[id] == textures[id],
    decreases count,
{
    if count > 0 {
        let earlier = (count - 1) as nat;
        lemma_frees_remove_the_listed(textures, free, earlier);
        let before = textures_after_frees(textures, free, earlier);
        assert forall|id: TextureId| #[trigger]
            textures_after_frees(textures, free, count).contains_key(id) == (
            textures.contains_key(id) && !(exists|i: int| 0 <= i < count && free[i] == id)) by {
            if id == free[count - 1] {
                assert(0 <= count - 1 < count && free[count - 1] == id);
            } else {
                assert(before.contains_key(id) == (textures.contains_key(id) && !(exists|i: int|
                    0 <= i < earlier && free[i] == id)));
                if exists|i: int| 0 <= i < count && free[i] == id {
                    let i = choose|i: int| 0 <= i < count && free[i] == id;
                    assert(0 <= i < earlier && free[i] == id);
                }
            }
        }
    }
}

/// The commands of texture changes leave the clip rectangle alone.
pub proof fn lemma_upload_commands_keep_clip(
    textures: Map<TextureId, TextureInfo>,
    clip: Option<PixelRect>,
    deltas: Seq<(TextureId, ImageDelta)>,
    count: nat,
)
    requires
        count <= deltas.len(),
    ensures
        ({
            let commands = upload_commands(textures, deltas, count);
            &&& clip_changes(commands, commands.len()) == Seq::<PixelRect>::empty()
            &&& clip_after_commands(clip, commands, commands.len()) == clip
        }),
    decreases count,
{
    if count > 0 {
        let earlier = (count - 1) as nat;
        lemma_upload_commands_keep_clip(textures, clip, deltas, earlier);
        let reached = textures_after_deltas(textures, deltas, earlier);
        let step = update_commands(
            deltas[count - 1].0,
            earlier as usize,
            delta_update(reached, deltas[count - 1].0, deltas[count - 1].1),
        );
        reveal_with_fuel(clip_changes, 4);
        reveal_with_fuel(clip_after_commands, 4);
        assert(step.len() <= 3);
        assert(clip_changes(step, step.len()) =~= Seq::<PixelRect>::empty());
        assert(clip_after_commands(clip, step, step.len()) == clip);
        lemma_appended(textures, clip, upload_commands(textures, deltas, earlier), step, step.len());
        assert(Seq::<PixelRect>::empty() + Seq::<PixelRect>::empty() =~= Seq::<
            PixelRect,
        >::empty());
    }
}

/// The commands of a frame lead from the textures before the frame to the
/// textures after it.
pub proof fn lemma_frame_commands_lead_to_table<V>(
    textures: Map<TextureId, TextureInfo>,
    deltas: Seq<(TextureId, ImageDelta)>,
    jobs: Seq<ClippedPrimitive<V>>,
    free: Seq<TextureId>,
)
    requires
        first_rejection(textures, deltas, deltas.len()) is None,
    ensures
        ({
            let commands = frame_commands(textures, deltas, jobs, free);
            textures_after_commands(textures, commands, commands.len()) == textures_after_frame(
                textures,
                deltas,
                free,
            )
        }),
{
    let table = textures_after_deltas(textures, deltas, deltas.len());
    let uploads = upload_commands(textures, deltas, deltas.len());
    let draws = draw_commands(table, jobs, jobs.len());
    let clear = seq![Command::ClearClip];
    let frees = free_commands(table, free, free.len());
    lemma_upload_commands_lead_to_table(textures, deltas, deltas.len());
    lemma_draw_commands_set_clips(table, table, jobs, jobs.len());
    lemma_appended(textures, None, uploads, draws, draws.len());
    reveal_with_fuel(textures_after_commands, 2);
    assert(textures_after_commands(table, clear, 1) == table);
    lemma_appended(textures, None, uploads + draws, clear, 1);
    lemma_free_commands_lead_to_table(table, None, free, free.len());
    lemma_appended(textures, None, uploads + draws + clear, frees, frees.len());
}

/// A frame sets as clip rectangles the clip rectangles of its meshes, one
/// for each mesh, in the order of the list, and when it is done no clip
/// rectangle is in force.
pub proof fn lemma_frame_sets_clip_for_each_mesh<V>(
    textures: Map<TextureId, TextureInfo>,
    clip: Option<PixelRect>,
    deltas: Seq<(TextureId, ImageDelta)>,
    jobs: Seq<ClippedPrimitive<V>>,
    free: Seq<TextureId>,
)
    ensures
        ({
            let commands = frame_commands(textures, deltas, jobs, free);
            &&& clip_changes(commands, commands.len()) == mesh_clips(jobs, jobs.len())
            &&& clip_after_commands(clip, commands, commands.len()) == None::<PixelRect>
        }),
{
    let table = textures_after_deltas(textures, deltas, deltas.len());
    let uploads = upload_commands(textures, deltas, deltas.len());
    let draws = draw_commands(table, jobs, jobs.len());
    let clear = seq![Command::ClearClip];
    let frees = free_commands(table, free, free.len());
    let clips = mesh_clips(jobs, jobs.len());
    let none = Seq::<PixelRect>::empty();
    lemma_upload_commands_keep_clip(textures, clip, deltas, deltas.len());
    lemma_draw_commands_set_clips(table, table, jobs, jobs.len());
    lemma_appended(textures, clip, uploads, draws, draws.len());
    assert(none + clips =~= clips);
    reveal_with_fuel(clip_changes, 2);
    reveal_with_fuel(clip_after_commands, 2);
    assert(clip_changes(clear, 1) =~= none);
    lemma_appended(textures, clip, uploads + draws, clear, 1);
    assert(clips + none =~= clips);
    let cleared = clip_after_commands(clip, uploads + draws + clear, (uploads + draws + clear).len());
    assert(cleared == None::<PixelRect>);
    lemma_free_commands_lead_to_table(table, None, free, free.len());
    lemma_appended(textures, clip, uploads + draws + clear, frees, frees.len());
}

/// Where the first `count` primitives are all meshes, their clip
/// rectangles are set one for one: as many as there are primitives, in the
/// order of the list.
pub proof fn lemma_meshes_clip_in_order<V>(jobs: Seq<ClippedPrimitive<V>>, count: nat)
    requires
        count <= jobs.len(),
        forall|i: int| 0 <= i < count ==> (#[trigger] jobs[i]).primitive is Mesh,
    ensures
        mesh_clips(jobs, count) == Seq::new(count, |i: int| jobs[i].clip_rect),
    decreases count,
{
    if count > 0 {
        lemma_meshes_clip_in_order(jobs, (count - 1) as nat);
        assert(jobs[count - 1].primitive is Mesh);
    }
    assert(mesh_clips(jobs, count) =~= Seq::new(count, |i: int| jobs[i].clip_rect));
}

/// A mesh without vertices or without indices sets its clip rectangle and
/// draws no triangle: it has no draw call, and it is not counted as
/// malformed.
pub proof fn lemma_empty_mesh_draws_nothing<V>(
    textures: Map<TextureId, TextureInfo>,
    job: ClippedPrimitive<V>,
    index: usize,
)
    requires
        job.primitive matches Primitive::Mesh(mesh) && (mesh.vertices@.len() == 0
            || mesh.indices@.len() == 0),
    ensures
        job.disposition() == Disposition::Empty,
        primitive_commands(textures, job, index) == seq![Command::SetClip { rect: job.clip_rect }],
{
}

/// A callback issues no command.
pub proof fn lemma_callback_issues_nothing<V>(
    textures: Map<TextureId, TextureInfo>,
    job: ClippedPrimitive<V>,
    index: usize,
)
    requires
        job.primitive is Callback,
    ensures
        job.disposition() == Disposition::Skipped,
        primitive_commands(textures, job, index) == Seq::<Command>::empty(),
{
}

} // verus!
