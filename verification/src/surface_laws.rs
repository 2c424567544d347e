//! What the commands of a frame do on a surface.

use vstd::prelude::*;
use crate::command::{
    textures_after_command, textures_after_commands, update_commands, Command,
};
use crate::frame::{
    binding, draw_commands, first_rejection, frame_commands, free_commands, primitive_commands,
    textures_after_deltas, textures_after_frame, textures_after_frees, upload_commands,
};
use crate::image::ImageDelta;
use crate::mesh::{ClippedPrimitive, Disposition, Primitive};
use crate::rect::PixelRect;
use crate::surface_model::{
    accepts, all_accepted, blank_texture, surface_after, surface_after_commands,
    upload_in_order, upload_target, written_row, written_rows, DrawCall, SurfaceModel,
    TextureModel,
};
use crate::texture_cache::{
    delta_dimensions, delta_rejection, delta_update, fits_backend, textures_after_delta,
    textures_fit, Allocation, TextureInfo,
};
use crate::texture_id::TextureId;

verus! {

/// The surface holds the textures of the table and no others, each with the
/// dimensions that the table gives it and with all its rows.
pub open spec fn mirrors(surface: SurfaceModel, textures: Map<TextureId, TextureInfo>) -> bool {
    &&& forall|id: TextureId| #[trigger]
        surface.textures.contains_key(id) == textures.contains_key(id)
    &&& forall|id: TextureId| #[trigger]
        textures.contains_key(id) ==> surface.textures[id].info == textures[id]
            && surface.textures[id].wf()
}

/// Every payload for a whole texture among the first `count` of `deltas`
/// holds at least one pixel.
pub open spec fn whole_deltas_hold_pixels(deltas: Seq<(TextureId, ImageDelta)>, count: nat) -> bool {
    forall|i: int|
        0 <= i < count && (#[trigger] deltas[i]).1.pos is None ==> 0 < deltas[i].1.width && 0
            < deltas[i].1.height
}

/// The texture of `id` on the surface once the accepted `delta` went in: a
/// payload for the whole texture becomes its rows; a patch is written into
/// the rows that were there.
pub open spec fn texture_after_delta(
    surface: SurfaceModel,
    id: TextureId,
    delta: ImageDelta,
) -> TextureModel {
    match delta.pos {
        None => TextureModel {
            info: delta_dimensions(delta),
            rows: Seq::new(
                delta.height as nat,
                |r: int|
                    delta.pixels@.subrange(
                        r * (4 * delta.width),
                        r * (4 * delta.width) + 4 * delta.width,
                    ),
            ),
        },
        Some((x, y)) => TextureModel {
            info: surface.textures[id].info,
            rows: written_rows(
                surface.textures[id].rows,
                PixelRect {
                    x: x as i32,
                    y: y as i32,
                    width: delta.width as u32,
                    height: delta.height as u32,
                },
                delta.pixels@,
                (4 * delta.width) as u32,
            ),
        },
    }
}

/// Two lists of commands that agree on their first `count` commands do the
/// same on a surface over those commands.
pub proof fn lemma_surface_same_prefix(
    surface: SurfaceModel,
    left: Seq<Command>,
    right: Seq<Command>,
    deltas: Seq<(TextureId, ImageDelta)>,
    count: nat,
)
    requires
        count <= left.len(),
        count <= right.len(),
        forall|i: int| 0 <= i < count ==> left[i] == right[i],
    ensures
        surface_after_commands(surface, left, deltas, count) == surface_after_commands(
            surface,
            right,
            deltas,
            count,
        ),
        all_accepted(surface, left, deltas, count) == all_accepted(surface, right, deltas, count),
    decreases count,
{
    if count > 0 {
        lemma_surface_same_prefix(surface, left, right, deltas, (count - 1) as nat);
    }
}

/// Trying one list of commands and then the first `count` of another is
/// trying that much of the two lists joined.
pub proof fn lemma_surface_appended(
    surface: SurfaceModel,
    first: Seq<Command>,
    second: Seq<Command>,
    deltas: Seq<(TextureId, ImageDelta)>,
    count: nat,
)
    requires
        count <= second.len(),
    ensures
        surface_after_commands(surface, first + second, deltas, first.len() + count)
            == surface_after_commands(
            surface_after_commands(surface, first, deltas, first.len()),
            second,
            deltas,
            count,
        ),
        all_accepted(surface, first + second, deltas, first.len() + count) == (all_accepted(
            surface,
            first,
            deltas,
            first.len(),
        ) && all_accepted(
            surface_after_commands(surface, first, deltas, first.len()),
            second,
            deltas,
            count,
        )),
    decreases count,
{
    let joined = first + second;
    if count == 0 {
        lemma_surface_same_prefix(surface, joined, first, deltas, first.len());
    } else {
        lemma_surface_appended(surface, first, second, deltas, (count - 1) as nat);
        assert(joined[first.len() + count - 1] == second[count - 1]);
    }
}

/// The rectangle of a whole texture.
pub open spec fn whole_rect(info: TextureInfo) -> PixelRect {
    PixelRect { x: 0, y: 0, width: info.width, height: info.height }
}

/// The rectangle that a patch at `(x, y)` covers.
pub open spec fn patch_rect(x: usize, y: usize, delta: ImageDelta) -> PixelRect {
    PixelRect { x: x as i32, y: y as i32, width: delta.width as u32, height: delta.height as u32 }
}

/// An upload of an accepted payload for a whole texture is in order, and
/// afterwards the rows of the texture are the rows of the payload.
proof fn lemma_whole_upload(texture: TextureModel, delta: ImageDelta)
    requires
        texture.wf(),
        texture.info == delta_dimensions(delta),
        fits_backend(delta.width, delta.height),
        delta.payload_fits(),
    ensures
        upload_in_order(
            texture.info,
            whole_rect(texture.info),
            delta.pixels@,
            (4 * delta.width) as u32,
        ),
        written_rows(
            texture.rows,
            whole_rect(texture.info),
            delta.pixels@,
            (4 * delta.width) as u32,
        ) == Seq::new(
            delta.height as nat,
            |r: int|
                delta.pixels@.subrange(
                    r * (4 * delta.width),
                    r * (4 * delta.width) + 4 * delta.width,
                ),
        ),
{
    let across = 4 * delta.width;
    let payload = delta.pixels@;
    assert(across * delta.height == payload.len()) by (nonlinear_arith)
        requires
            across == 4 * delta.width,
            payload.len() == 4 * delta.width * delta.height,
    ;
    let written = written_rows(texture.rows, whole_rect(texture.info), payload, across as u32);
    let rows = Seq::new(
        delta.height as nat,
        |r: int| payload.subrange(r * across, r * across + across),
    );
    assert forall|r: int| 0 <= r < delta.height implies #[trigger] written[r] == rows[r] by {
        assert(0 <= r * across && r * across + across <= payload.len()) by (nonlinear_arith)
            requires
                0 <= r < delta.height,
                0 <= across,
                across * delta.height == payload.len(),
        ;
        assert(texture.rows[r].len() == across);
        assert(written[r] == written_row(
            texture.rows[r],
            0,
            delta.width as int,
            payload,
            (r - 0) * across,
        ));
        assert(written[r] =~= rows[r]);
    }
    assert(written =~= rows);
}

/// An upload of an accepted patch that holds a pixel is in order, and
/// leaves the texture with all its rows.
proof fn lemma_patch_upload(texture: TextureModel, x: usize, y: usize, delta: ImageDelta)
    requires
        texture.wf(),
        fits_backend(texture.info.width as usize, texture.info.height as usize),
        x + delta.width <= texture.info.width,
        y + delta.height <= texture.info.height,
        delta.payload_fits(),
    ensures
        upload_in_order(
            texture.info,
            patch_rect(x, y, delta),
            delta.pixels@,
            (4 * delta.width) as u32,
        ),
        (TextureModel {
            info: texture.info,
            rows: written_rows(
                texture.rows,
                patch_rect(x, y, delta),
                delta.pixels@,
                (4 * delta.width) as u32,
            ),
        }).wf(),
        delta.width == 0 || delta.height == 0 ==> written_rows(
            texture.rows,
            patch_rect(x, y, delta),
            delta.pixels@,
            (4 * delta.width) as u32,
        ) == texture.rows,
{
    let across = 4 * delta.width;
    let payload = delta.pixels@;
    let rect = patch_rect(x, y, delta);
    assert(across * delta.height == payload.len()) by (nonlinear_arith)
        requires
            across == 4 * delta.width,
            payload.len() == 4 * delta.width * delta.height,
    ;
    let written = written_rows(texture.rows, rect, payload, across as u32);
    assert forall|r: int| 0 <= r < written.len() implies (#[trigger] written[r]).len() == 4
        * texture.info.width && (delta.width == 0 || delta.height == 0 ==> written[r]
        == texture.rows[r]) by {
        assert(texture.rows[r].len() == 4 * texture.info.width);
        if rect.y <= r < rect.y + rect.height {
            let offset = (r - rect.y) * across;
            assert(0 <= offset && offset + across <= payload.len()) by (nonlinear_arith)
                requires
                    offset == (r - rect.y) * across,
                    0 <= r - rect.y < delta.height,
                    0 <= across,
                    across * delta.height == payload.len(),
            ;
            assert(written[r] == written_row(
                texture.rows[r],
                x as int,
                delta.width as int,
                payload,
                offset,
            ));
            if delta.width == 0 {
                assert(written[r] =~= texture.rows[r]);
            }
        }
    }
    if delta.width == 0 || delta.height == 0 {
        assert(written =~= texture.rows);
    }
}

/// A texture right after its creation has all its rows.
proof fn lemma_blank_is_wf(info: TextureInfo)
    ensures
        blank_texture(info).wf(),
        blank_texture(info).info == info,
{
}

/// On a surface that mirrors the table, the commands of one accepted
/// texture change are all carried out. They leave the texture of the change
/// with the pixels that the change describes, touch nothing else, and leave
/// the surface a mirror of the table as the change left it.
pub proof fn lemma_delta_on_surface(
    surface: SurfaceModel,
    textures: Map<TextureId, TextureInfo>,
    deltas: Seq<(TextureId, ImageDelta)>,
    index: int,
)
    requires
        mirrors(surface, textures),
        textures_fit(textures),
        0 <= index < deltas.len(),
        index <= usize::MAX,
        delta_rejection(textures, deltas[index].0, deltas[index].1) is None,
        deltas[index].1.pos is None ==> 0 < deltas[index].1.width && 0 < deltas[index].1.height,
    ensures
        ({
            let id = deltas[index].0;
            let delta = deltas[index].1;
            let commands = update_commands(id, index as usize, delta_update(textures, id, delta));
            let end = surface_after_commands(surface, commands, deltas, commands.len());
            &&& all_accepted(surface, commands, deltas, commands.len())
            &&& end == (SurfaceModel {
                textures: surface.textures.insert(id, texture_after_delta(surface, id, delta)),
                ..surface
            })
            &&& mirrors(end, textures_after_delta(textures, id, delta))
            &&& textures_fit(textures_after_delta(textures, id, delta))
        }),
{
    let id = deltas[index].0;
    let delta = deltas[index].1;
    let update = delta_update(textures, id, delta);
    let commands = update_commands(id, index as usize, update);
    let end = surface_after_commands(surface, commands, deltas, commands.len());
    let after = texture_after_delta(surface, id, delta);
    let goal = SurfaceModel { textures: surface.textures.insert(id, after), ..surface };
    let pitch = (4 * delta.width) as u32;
    reveal_with_fuel(surface_after_commands, 4);
    reveal_with_fuel(all_accepted, 4);
    match delta.pos {
        Some((x, y)) => {
            assert(textures.contains_key(id));
            assert(surface.textures.contains_key(id));
            let texture = surface.textures[id];
            lemma_patch_upload(texture, x, y, delta);
            if delta.width == 0 || delta.height == 0 {
                assert(commands =~= Seq::<Command>::empty());
                assert(after == texture);
                assert(goal.textures =~= surface.textures);
            } else {
                let upload = Command::UpdateTexture {
                    id,
                    delta: index as usize,
                    region: Some(patch_rect(x, y, delta)),
                    pitch,
                };
                assert(commands =~= seq![upload]);
                assert(accepts(surface, upload, deltas));
                assert(end == surface_after(surface, upload, deltas));
            }
            assert(mirrors(goal, textures));
        },
        None => {
            let dims = delta_dimensions(delta);
            let create = Command::CreateTexture { id, width: dims.width, height: dims.height };
            let destroy = Command::DestroyTexture { id };
            let upload = Command::UpdateTexture { id, delta: index as usize, region: None, pitch };
            lemma_blank_is_wf(dims);
            match update.allocation {
                Allocation::Keep => {
                    let texture = surface.textures[id];
                    assert(surface.textures.contains_key(id));
                    lemma_whole_upload(texture, delta);
                    assert(commands =~= seq![upload]);
                    assert(accepts(surface, upload, deltas));
                    assert(end == surface_after(surface, upload, deltas));
                    assert(end.textures =~= goal.textures);
                },
                Allocation::Create => {
                    assert(!surface.textures.contains_key(id));
                    lemma_whole_upload(blank_texture(dims), delta);
                    assert(commands =~= seq![create, upload]);
                    assert(accepts(surface, create, deltas));
                    let created = surface_after(surface, create, deltas);
                    assert(accepts(created, upload, deltas));
                    assert(end == surface_after(created, upload, deltas));
                    assert(end.textures =~= goal.textures);
                },
                Allocation::Replace => {
                    assert(surface.textures.contains_key(id));
                    lemma_whole_upload(blank_texture(dims), delta);
                    assert(commands =~= seq![destroy, create, upload]);
                    assert(accepts(surface, destroy, deltas));
                    let destroyed = surface_after(surface, destroy, deltas);
                    assert(accepts(destroyed, create, deltas));
                    let created = surface_after(destroyed, create, deltas);
                    assert(accepts(created, upload, deltas));
                    assert(end == surface_after(created, upload, deltas));
                    assert(end.textures =~= goal.textures);
                },
            }
            assert(after.wf()) by {
                lemma_whole_upload(blank_texture(dims), delta);
                assert forall|r: int| 0 <= r < after.rows.len() implies (#[trigger] after.rows[r]).len()
                    == 4 * after.info.width by {
                    assert(after.rows[r].len() == 4 * delta.width) by {
                        assert(0 <= r * (4 * delta.width) && r * (4 * delta.width) + 4
                            * delta.width <= delta.pixels@.len()) by (nonlinear_arith)
                            requires
                                0 <= r < delta.height,
                                delta.pixels@.len() == 4 * delta.width * delta.height,
                        ;
                    }
                }
            }
            assert(mirrors(goal, textures_after_delta(textures, id, delta)));
        },
    }
}

/// The draw calls that the first `count` of `jobs` are to leave on a
/// surface: one for each mesh that is drawn, in the order of the list, each
/// under the clip rectangle of its primitive and with its texture bound
/// where that texture exists.
pub open spec fn expected_draws<V>(
    textures: Map<TextureId, TextureInfo>,
    jobs: Seq<ClippedPrimitive<V>>,
    count: nat,
) -> Seq<DrawCall>
    decreases count,
{
    if count == 0 {
        Seq::empty()
    } else {
        let earlier = expected_draws(textures, jobs, (count - 1) as nat);
        let job = jobs[count - 1];
        match job.primitive {
            Primitive::Mesh(mesh) => {
                if mesh.disposition() == Disposition::Drawn {
                    earlier.push(
                        DrawCall {
                            clip: Some(job.clip_rect),
                            texture: binding(textures, mesh.texture_id),
                            primitive: (count - 1) as usize,
                            triangles: mesh.triangles() as usize,
                        },
                    )
                } else {
                    earlier
                }
            },
            Primitive::Callback => earlier,
        }
    }
}

/// On a surface that mirrors the table, the commands of the first `count`
/// texture changes of a frame are all carried out, and leave the surface a
/// mirror of the table as those changes left it. They set no clip rectangle
/// and draw nothing.
pub proof fn lemma_uploads_on_surface(
    surface: SurfaceModel,
    textures: Map<TextureId, TextureInfo>,
    deltas: Seq<(TextureId, ImageDelta)>,
    count: nat,
)
    requires
        mirrors(surface, textures),
        textures_fit(textures),
        count <= deltas.len() <= usize::MAX,
        first_rejection(textures, deltas, count) is None,
        whole_deltas_hold_pixels(deltas, count),
    ensures
        ({
            let commands = upload_commands(textures, deltas, count);
            let end = surface_after_commands(surface, commands, deltas, commands.len());
            &&& all_accepted(surface, commands, deltas, commands.len())
            &&& mirrors(end, textures_after_deltas(textures, deltas, count))
            &&& textures_fit(textures_after_deltas(textures, deltas, count))
            &&& end.clip == surface.clip
            &&& end.draws == surface.draws
        }),
    decreases count,
{
    if count > 0 {
        let earlier = (count - 1) as nat;
        lemma_uploads_on_surface(surface, textures, deltas, earlier);
        let before = upload_commands(textures, deltas, earlier);
        let reached = surface_after_commands(surface, before, deltas, before.len());
        let table = textures_after_deltas(textures, deltas, earlier);
        assert(deltas[earlier as int].1.pos is None ==> 0 < deltas[earlier as int].1.width && 0
            < deltas[earlier as int].1.height);
        lemma_delta_on_surface(reached, table, deltas, earlier as int);
        let step = update_commands(
            deltas[earlier as int].0,
            earlier as usize,
            delta_update(table, deltas[earlier as int].0, deltas[earlier as int].1),
        );
        lemma_surface_appended(surface, before, step, deltas, step.len());
    }
}

/// On a surface that holds the textures of the table, the commands of the
/// first `count` primitives of a frame are all carried out. They change no
/// texture and leave the expected draw calls, in order.
pub proof fn lemma_draws_on_surface<V>(
    surface: SurfaceModel,
    textures: Map<TextureId, TextureInfo>,
    jobs: Seq<ClippedPrimitive<V>>,
    deltas: Seq<(TextureId, ImageDelta)>,
    count: nat,
)
    requires
        mirrors(surface, textures),
        count <= jobs.len(),
    ensures
        ({
            let commands = draw_commands(textures, jobs, count);
            let end = surface_after_commands(surface, commands, deltas, commands.len());
            &&& all_accepted(surface, commands, deltas, commands.len())
            &&& end.textures == surface.textures
            &&& end.draws == surface.draws + expected_draws(textures, jobs, count)
        }),
    decreases count,
{
    if count == 0 {
        assert(surface.draws + expected_draws(textures, jobs, 0) =~= surface.draws);
    } else {
        let earlier = (count - 1) as nat;
        lemma_draws_on_surface(surface, textures, jobs, deltas, earlier);
        let before = draw_commands(textures, jobs, earlier);
        let reached = surface_after_commands(surface, before, deltas, before.len());
        let job = jobs[count - 1];
        let step = primitive_commands(textures, job, earlier as usize);
        let end = surface_after_commands(reached, step, deltas, step.len());
        reveal_with_fuel(surface_after_commands, 3);
        reveal_with_fuel(all_accepted, 3);
        match job.primitive {
            Primitive::Callback => {
                assert(end == reached);
            },
            Primitive::Mesh(mesh) => {
                let clip = Command::SetClip { rect: job.clip_rect };
                let clipped = surface_after(reached, clip, deltas);
                if mesh.disposition() == Disposition::Drawn {
                    let draw = Command::DrawMesh {
                        primitive: earlier as usize,
                        texture: binding(textures, mesh.texture_id),
                        triangles: mesh.triangles() as usize,
                    };
                    assert(step =~= seq![clip, draw]);
                    assert(accepts(clipped, draw, deltas));
                    assert(end == surface_after(clipped, draw, deltas));
                } else {
                    assert(step =~= seq![clip]);
                    assert(end == clipped);
                }
            },
        }
        assert(all_accepted(reached, step, deltas, step.len()));
        assert(end.textures == surface.textures);
        assert(end.draws =~= surface.draws + expected_draws(textures, jobs, count));
        lemma_surface_appended(surface, before, step, deltas, step.len());
    }
}

/// On a surface that mirrors the table, the commands that free the first
/// `count` textures of a list are all carried out, and leave the surface a
/// mirror of the table without those textures. They set no clip rectangle
/// and draw nothing.
pub proof fn lemma_frees_on_surface(
    surface: SurfaceModel,
    textures: Map<TextureId, TextureInfo>,
    free: Seq<TextureId>,
    deltas: Seq<(TextureId, ImageDelta)>,
    count: nat,
)
    requires
        mirrors(surface, textures),
        count <= free.len(),
    ensures
        ({
            let commands = free_commands(textures, free, count);
            let end = surface_after_commands(surface, commands, deltas, commands.len());
            &&& all_accepted(surface, commands, deltas, commands.len())
            &&& mirrors(end, textures_after_frees(textures, free, count))
            &&& end.clip == surface.clip
            &&& end.draws == surface.draws
        }),
    decreases count,
{
    if count > 0 {
        let earlier = (count - 1) as nat;
        lemma_frees_on_surface(surface, textures, free, deltas, earlier);
        let before = free_commands(textures, free, earlier);
        let reached = surface_after_commands(surface, before, deltas, before.len());
        let table = textures_after_frees(textures, free, earlier);
        let id = free[count - 1];
        let step = if table.contains_key(id) {
            seq![Command::DestroyTexture { id }]
        } else {
            Seq::<Command>::empty()
        };
        let end = surface_after_commands(reached, step, deltas, step.len());
        reveal_with_fuel(surface_after_commands, 2);
        reveal_with_fuel(all_accepted, 2);
        if table.contains_key(id) {
            assert(reached.textures.contains_key(id));
            assert(accepts(reached, Command::DestroyTexture { id }, deltas));
        }
        assert(all_accepted(reached, step, deltas, step.len()));
        assert(mirrors(end, table.remove(id)));
        lemma_surface_appended(surface, before, step, deltas, step.len());
    }
}

/// A frame on a surface.
///
/// Where the surface mirrors the table of textures, no texture change of
/// the frame is turned down and every payload for a whole texture holds a
/// pixel, the surface carries out every command of the frame. Afterwards it
/// mirrors the table as the frame left it, no clip rectangle is in force,
/// and the draw calls of the frame stand behind those that were there: one
/// for each mesh that is drawn, in the order of the list, under the clip
/// rectangle of its primitive.
pub proof fn lemma_frame_on_surface<V>(
    surface: SurfaceModel,
    textures: Map<TextureId, TextureInfo>,
    deltas: Seq<(TextureId, ImageDelta)>,
    jobs: Seq<ClippedPrimitive<V>>,
    free: Seq<TextureId>,
)
    requires
        mirrors(surface, textures),
        textures_fit(textures),
        deltas.len() <= usize::MAX,
        first_rejection(textures, deltas, deltas.len()) is None,
        whole_deltas_hold_pixels(deltas, deltas.len()),
    ensures
        ({
            let commands = frame_commands(textures, deltas, jobs, free);
            let end = surface_after_commands(surface, commands, deltas, commands.len());
            &&& all_accepted(surface, commands, deltas, commands.len())
            &&& mirrors(end, textures_after_frame(textures, deltas, free))
            &&& end.clip == None::<PixelRect>
            &&& end.draws == surface.draws + expected_draws(
                textures_after_deltas(textures, deltas, deltas.len()),
                jobs,
                jobs.len(),
            )
        }),
{
    let table = textures_after_deltas(textures, deltas, deltas.len());
    let uploads = upload_commands(textures, deltas, deltas.len());
    let draws = draw_commands(table, jobs, jobs.len());
    let clear = seq![Command::ClearClip];
    let frees = free_commands(table, free, free.len());

    lemma_uploads_on_surface(surface, textures, deltas, deltas.len());
    let uploaded = surface_after_commands(surface, uploads, deltas, uploads.len());

    lemma_draws_on_surface(uploaded, table, jobs, deltas, jobs.len());
    let drawn = surface_after_commands(uploaded, draws, deltas, draws.len());
    lemma_surface_appended(surface, uploads, draws, deltas, draws.len());

    reveal_with_fuel(surface_after_commands, 2);
    reveal_with_fuel(all_accepted, 2);
    let cleared = surface_after_commands(drawn, clear, deltas, 1);
    assert(cleared == surface_after(drawn, Command::ClearClip, deltas));
    assert(all_accepted(drawn, clear, deltas, 1));
    lemma_surface_appended(surface, uploads + draws, clear, deltas, 1);
    assert(mirrors(cleared, table));

    lemma_frees_on_surface(cleared, table, free, deltas, free.len());
    lemma_surface_appended(surface, uploads + draws + clear, frees, deltas, frees.len());
}

/// A payload for a whole texture followed by a patch.
///
/// On a surface that mirrors the table, the commands of the two changes are
/// all carried out. Afterwards the texture has the dimensions of the first
/// payload; each pixel inside the rectangle of the patch is the pixel of
/// the patch at that place, and each pixel outside of it is the pixel of
/// the first payload.
pub proof fn lemma_patch_changes_only_its_rectangle(
    surface: SurfaceModel,
    textures: Map<TextureId, TextureInfo>,
    id: TextureId,
    whole: ImageDelta,
    patch: ImageDelta,
    x: usize,
    y: usize,
)
    requires
        mirrors(surface, textures),
        textures_fit(textures),
        whole.pos is None,
        0 < whole.width,
        0 < whole.height,
        delta_rejection(textures, id, whole) is None,
        patch.pos == Some((x, y)),
        delta_rejection(textures_after_delta(textures, id, whole), id, patch) is None,
    ensures
        ({
            let deltas = seq![(id, whole), (id, patch)];
            let commands = upload_commands(textures, deltas, 2);
            let end = surface_after_commands(surface, commands, deltas, commands.len());
            &&& all_accepted(surface, commands, deltas, commands.len())
            &&& end.textures.contains_key(id)
            &&& end.textures[id].info.width == whole.width
            &&& end.textures[id].info.height == whole.height
            &&& forall|px: int, py: int, channel: int|
                0 <= px < whole.width && 0 <= py < whole.height && 0 <= channel < 4
                    ==> #[trigger] end.textures[id].channel(px, py, channel) == (if x <= px < x
                    + patch.width && y <= py < y + patch.height {
                    patch.pixels@[4 * ((py - y) * patch.width + (px - x)) + channel]
                } else {
                    whole.pixels@[4 * (py * whole.width + px) + channel]
                })
        }),
{
    let deltas = seq![(id, whole), (id, patch)];
    let table = textures_after_delta(textures, id, whole);
    let first = update_commands(id, 0, delta_update(textures, id, whole));
    let second = update_commands(id, 1, delta_update(table, id, patch));
    let commands = upload_commands(textures, deltas, 2);
    reveal_with_fuel(upload_commands, 3);
    reveal_with_fuel(textures_after_deltas, 3);
    assert(commands =~= first + second);

    lemma_delta_on_surface(surface, textures, deltas, 0);
    let uploaded = surface_after_commands(surface, first, deltas, first.len());
    lemma_delta_on_surface(uploaded, table, deltas, 1);
    let end = surface_after_commands(uploaded, second, deltas, second.len());
    lemma_surface_appended(surface, first, second, deltas, second.len());

    let base = uploaded.textures[id];
    let result = end.textures[id];
    let across = 4 * whole.width;
    let stride = 4 * patch.width;
    assert(base == texture_after_delta(surface, id, whole));
    assert(result == texture_after_delta(uploaded, id, patch));
    assert(table[id] == delta_dimensions(whole));
    assert forall|px: int, py: int, channel: int|
        0 <= px < whole.width && 0 <= py < whole.height && 0 <= channel < 4
            implies #[trigger] result.channel(px, py, channel) == (if x <= px < x + patch.width && y
        <= py < y + patch.height {
        patch.pixels@[4 * ((py - y) * patch.width + (px - x)) + channel]
    } else {
        whole.pixels@[4 * (py * whole.width + px) + channel]
    }) by {
        assert(0 <= py * across && py * across + across <= whole.pixels@.len()) by (nonlinear_arith)
            requires
                0 <= py < whole.height,
                across == 4 * whole.width,
                whole.pixels@.len() == 4 * whole.width * whole.height,
        ;
        assert(py * across + 4 * px == 4 * (py * whole.width + px)) by (nonlinear_arith)
            requires
                across == 4 * whole.width,
        ;
        let row = base.rows[py];
        assert(row == whole.pixels@.subrange(py * across, py * across + across));
        assert(row[4 * px + channel] == whole.pixels@[4 * (py * whole.width + px) + channel]);
        if y <= py < y + patch.height {
            let offset = (py - y) * stride;
            assert(0 <= offset && offset + stride <= patch.pixels@.len()) by (nonlinear_arith)
                requires
                    offset == (py - y) * stride,
                    0 <= py - y < patch.height,
                    stride == 4 * patch.width,
                    patch.pixels@.len() == 4 * patch.width * patch.height,
            ;
            assert(offset + 4 * (px - x) == 4 * ((py - y) * patch.width + (px - x)))
                by (nonlinear_arith)
                requires
                    offset == (py - y) * stride,
                    stride == 4 * patch.width,
            ;
            assert(result.rows[py] == written_row(
                row,
                x as int,
                patch.width as int,
                patch.pixels@,
                offset,
            ));
            if x <= px < x + patch.width {
                assert(result.rows[py][4 * px + channel] == patch.pixels@[offset + 4 * (px - x)
                    + channel]);
            } else {
                assert(result.rows[py][4 * px + channel] == row[4 * px + channel]);
            }
        } else {
            assert(result.rows[py] == row);
        }
    }
}

/// An upload that is in order leaves the texture with all its rows.
pub proof fn lemma_upload_keeps_rows(
    texture: TextureModel,
    rect: PixelRect,
    payload: Seq<u8>,
    pitch: u32,
)
    requires
        texture.wf(),
        upload_in_order(texture.info, rect, payload, pitch),
    ensures
        (TextureModel {
            info: texture.info,
            rows: written_rows(texture.rows, rect, payload, pitch),
        }).wf(),
{
    let written = written_rows(texture.rows, rect, payload, pitch);
    assert forall|r: int| 0 <= r < written.len() implies (#[trigger] written[r]).len() == 4
        * texture.info.width by {
        assert(texture.rows[r].len() == 4 * texture.info.width);
        if rect.y <= r < rect.y + rect.height {
            let offset = (r - rect.y) * pitch;
            assert(0 <= offset && offset + 4 * rect.width <= payload.len()) by (nonlinear_arith)
                requires
                    offset == (r - rect.y) * pitch,
                    0 <= r - rect.y < rect.height,
                    0 <= 4 * rect.width <= pitch,
                    pitch * rect.height <= payload.len(),
            ;
            assert(written[r] == written_row(
                texture.rows[r],
                rect.x as int,
                rect.width as int,
                payload,
                offset,
            ));
        }
    }
}

/// The table follows the surface.
///
/// Where a surface mirrors a table of textures and carries out each of the
/// first `count` of any commands, it mirrors afterwards the table that those
/// commands lead to.
pub proof fn lemma_table_follows_surface(
    surface: SurfaceModel,
    textures: Map<TextureId, TextureInfo>,
    commands: Seq<Command>,
    deltas: Seq<(TextureId, ImageDelta)>,
    count: nat,
)
    requires
        mirrors(surface, textures),
        count <= commands.len(),
        all_accepted(surface, commands, deltas, count),
    ensures
        mirrors(
            surface_after_commands(surface, commands, deltas, count),
            textures_after_commands(textures, commands, count),
        ),
    decreases count,
{
    if count > 0 {
        let earlier = (count - 1) as nat;
        lemma_table_follows_surface(surface, textures, commands, deltas, earlier);
        let reached = surface_after_commands(surface, commands, deltas, earlier);
        let table = textures_after_commands(textures, commands, earlier);
        let command = commands[count - 1];
        let end = surface_after(reached, command, deltas);
        match command {
            Command::CreateTexture { id, width, height } => {
                lemma_blank_is_wf(TextureInfo { width, height });
            },
            Command::UpdateTexture { id, delta, region, pitch } => {
                let texture = reached.textures[id];
                assert(table.contains_key(id));
                lemma_upload_keeps_rows(
                    texture,
                    upload_target(texture.info, region),
                    deltas[delta as int].1.pixels@,
                    pitch,
                );
            },
            _ => {},
        }
        assert(mirrors(end, textures_after_command(table, command)));
    }
}

} // verus!
