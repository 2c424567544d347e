use egui_sdl2_canvas::{
    update_egui_texture, ClippedPrimitive, Command, Failure, FrameReport, ImageDelta, Mesh,
    PaintError, Painter, PixelRect, Primitive, TextureCache, TextureError, TextureId,
    TextureInfo, TexturesDelta,
};

#[derive(Clone, Copy, Debug, PartialEq)]
struct Vertex {
    pos: [f32; 2],
    uv: [f32; 2],
    color: [u8; 4],
}

const T1: TextureId = TextureId::User(1);
const T2: TextureId = TextureId::User(2);

fn solid(width: usize, height: usize, rgba: [u8; 4]) -> Vec<u8> {
    let mut pixels = Vec::new();
    for _ in 0..width * height {
        pixels.extend_from_slice(&rgba);
    }
    pixels
}

fn whole(width: usize, height: usize) -> ImageDelta {
    ImageDelta { width, height, pixels: solid(width, height, [255, 0, 0, 255]), pos: None }
}

fn patch(x: usize, y: usize, width: usize, height: usize) -> ImageDelta {
    ImageDelta {
        width,
        height,
        pixels: solid(width, height, [0, 255, 0, 255]),
        pos: Some((x, y)),
    }
}

fn quad(texture_id: Option<TextureId>) -> Mesh<Vertex> {
    let white = [255, 255, 255, 255];
    Mesh {
        indices: vec![0, 1, 2, 0, 2, 3],
        vertices: vec![
            Vertex { pos: [0.0, 0.0], uv: [0.0, 0.0], color: white },
            Vertex { pos: [10.0, 0.0], uv: [1.0, 0.0], color: white },
            Vertex { pos: [10.0, 10.0], uv: [1.0, 1.0], color: white },
            Vertex { pos: [0.0, 10.0], uv: [0.0, 1.0], color: white },
        ],
        texture_id,
    }
}

fn clipped(rect: PixelRect, mesh: Mesh<Vertex>) -> ClippedPrimitive<Vertex> {
    ClippedPrimitive { clip_rect: rect, primitive: Primitive::Mesh(mesh) }
}

fn rect(x: i32, y: i32, width: u32, height: u32) -> PixelRect {
    PixelRect { x, y, width, height }
}

fn frame(set: Vec<(TextureId, ImageDelta)>, free: Vec<TextureId>) -> TexturesDelta {
    TexturesDelta { set, free }
}

#[test]
fn new_painter_knows_no_texture() {
    let painter = Painter::new();
    assert_eq!(painter.lookup(&TextureId::Managed(0)), None);
    assert_eq!(painter.lookup(&T1), None);
}

#[test]
fn textured_quad_frame() {
    let mut painter = Painter::new();
    let delta = ImageDelta {
        width: 2,
        height: 2,
        pixels: solid(2, 2, [255, 0, 0, 255]),
        pos: None,
    };
    let jobs = vec![clipped(rect(0, 0, 10, 10), quad(Some(T1)))];
    let plan = painter.paint_and_update_textures(&frame(vec![(T1, delta)], vec![]), &jobs).unwrap();
    assert_eq!(
        plan.commands,
        vec![
            Command::CreateTexture { id: T1, width: 2, height: 2 },
            Command::UpdateTexture { id: T1, delta: 0, region: None, pitch: 8 },
            Command::SetClip { rect: rect(0, 0, 10, 10) },
            Command::DrawMesh { primitive: 0, texture: Some(T1), triangles: 2 },
            Command::ClearClip,
        ]
    );
    assert_eq!(plan.report, FrameReport { drawn: 1, empty: 0, malformed: 0, skipped: 0 });
    assert_eq!(plan.before.lookup(&T1), None);
    assert_eq!(painter.lookup(&T1), Some(TextureInfo { width: 2, height: 2 }));
}

#[test]
fn callback_only_frame_draws_nothing() {
    let mut painter = Painter::new();
    let jobs: Vec<ClippedPrimitive<Vertex>> =
        vec![ClippedPrimitive { clip_rect: rect(0, 0, 10, 10), primitive: Primitive::Callback }];
    let plan = painter.paint_and_update_textures(&frame(vec![], vec![]), &jobs).unwrap();
    assert_eq!(plan.commands, vec![Command::ClearClip]);
    assert_eq!(plan.report, FrameReport { drawn: 0, empty: 0, malformed: 0, skipped: 1 });
}

#[test]
fn empty_frame_only_clears_the_clip() {
    let mut painter = Painter::new();
    let jobs: Vec<ClippedPrimitive<Vertex>> = Vec::new();
    let plan = painter.paint_and_update_textures(&frame(vec![], vec![]), &jobs).unwrap();
    assert_eq!(plan.commands, vec![Command::ClearClip]);
    assert_eq!(plan.report, FrameReport { drawn: 0, empty: 0, malformed: 0, skipped: 0 });
}

#[test]
fn each_mesh_sets_its_clip_in_list_order() {
    let mut painter = Painter::new();
    let jobs = vec![
        clipped(rect(0, 0, 10, 10), quad(None)),
        clipped(rect(5, 6, 7, 8), quad(None)),
        clipped(rect(-3, -4, 100, 200), quad(None)),
    ];
    let plan = painter.paint_and_update_textures(&frame(vec![], vec![]), &jobs).unwrap();
    assert_eq!(
        plan.commands,
        vec![
            Command::SetClip { rect: rect(0, 0, 10, 10) },
            Command::DrawMesh { primitive: 0, texture: None, triangles: 2 },
            Command::SetClip { rect: rect(5, 6, 7, 8) },
            Command::DrawMesh { primitive: 1, texture: None, triangles: 2 },
            Command::SetClip { rect: rect(-3, -4, 100, 200) },
            Command::DrawMesh { primitive: 2, texture: None, triangles: 2 },
            Command::ClearClip,
        ]
    );
    assert_eq!(plan.report.drawn, 3);
}

#[test]
fn degenerate_clip_is_still_set() {
    let mut painter = Painter::new();
    let jobs = vec![clipped(rect(4, 4, 0, 10), quad(None))];
    let plan = painter.paint_and_update_textures(&frame(vec![], vec![]), &jobs).unwrap();
    assert_eq!(
        plan.commands,
        vec![
            Command::SetClip { rect: rect(4, 4, 0, 10) },
            Command::DrawMesh { primitive: 0, texture: None, triangles: 2 },
            Command::ClearClip,
        ]
    );
}

#[test]
fn mesh_without_triangles_sets_clip_and_draws_nothing() {
    let mut painter = Painter::new();
    let no_indices = Mesh { indices: Vec::new(), ..quad(None) };
    let no_vertices: Mesh<Vertex> =
        Mesh { indices: vec![0, 1, 2], vertices: Vec::new(), texture_id: None };
    let jobs = vec![clipped(rect(0, 0, 1, 1), no_indices), clipped(rect(1, 1, 2, 2), no_vertices)];
    let plan = painter.paint_and_update_textures(&frame(vec![], vec![]), &jobs).unwrap();
    assert_eq!(
        plan.commands,
        vec![
            Command::SetClip { rect: rect(0, 0, 1, 1) },
            Command::SetClip { rect: rect(1, 1, 2, 2) },
            Command::ClearClip,
        ]
    );
    assert_eq!(plan.report, FrameReport { drawn: 0, empty: 2, malformed: 0, skipped: 0 });
}

#[test]
fn malformed_mesh_is_passed_over_and_the_frame_goes_on() {
    let mut painter = Painter::new();
    let odd = Mesh { indices: vec![0, 1, 2, 3], ..quad(None) };
    let beyond = Mesh { indices: vec![0, 1, 4], ..quad(None) };
    let jobs = vec![
        clipped(rect(0, 0, 1, 1), odd),
        clipped(rect(1, 1, 2, 2), quad(None)),
        clipped(rect(2, 2, 3, 3), beyond),
    ];
    let plan = painter.paint_and_update_textures(&frame(vec![], vec![]), &jobs).unwrap();
    assert_eq!(
        plan.commands,
        vec![
            Command::SetClip { rect: rect(0, 0, 1, 1) },
            Command::SetClip { rect: rect(1, 1, 2, 2) },
            Command::DrawMesh { primitive: 1, texture: None, triangles: 2 },
            Command::SetClip { rect: rect(2, 2, 3, 3) },
            Command::ClearClip,
        ]
    );
    assert_eq!(plan.report, FrameReport { drawn: 1, empty: 0, malformed: 2, skipped: 0 });
}

#[test]
fn unknown_texture_is_drawn_untextured() {
    let mut painter = Painter::new();
    let jobs = vec![clipped(rect(0, 0, 10, 10), quad(Some(T2)))];
    let plan =
        painter.paint_and_update_textures(&frame(vec![(T1, whole(2, 2))], vec![]), &jobs).unwrap();
    assert_eq!(
        plan.commands[3],
        Command::DrawMesh { primitive: 0, texture: None, triangles: 2 }
    );
}

#[test]
fn textures_are_freed_after_the_draws_that_use_them() {
    let mut painter = Painter::new();
    let jobs = vec![clipped(rect(0, 0, 10, 10), quad(Some(T1)))];
    painter.paint_and_update_textures(&frame(vec![(T1, whole(2, 2))], vec![]), &jobs).unwrap();
    let plan = painter.paint_and_update_textures(&frame(vec![], vec![T1, T2, T1]), &jobs).unwrap();
    assert_eq!(
        plan.commands,
        vec![
            Command::SetClip { rect: rect(0, 0, 10, 10) },
            Command::DrawMesh { primitive: 0, texture: Some(T1), triangles: 2 },
            Command::ClearClip,
            Command::DestroyTexture { id: T1 },
        ]
    );
    assert_eq!(plan.before.lookup(&T1), Some(TextureInfo { width: 2, height: 2 }));
    assert_eq!(painter.lookup(&T1), None);
}

#[test]
fn texture_changes_apply_in_order() {
    let mut painter = Painter::new();
    let jobs: Vec<ClippedPrimitive<Vertex>> = Vec::new();
    let set = vec![(T1, whole(4, 4)), (T1, patch(1, 1, 2, 2)), (T1, whole(8, 2)), (T2, whole(1, 1))];
    let plan = painter.paint_and_update_textures(&frame(set, vec![]), &jobs).unwrap();
    assert_eq!(
        plan.commands,
        vec![
            Command::CreateTexture { id: T1, width: 4, height: 4 },
            Command::UpdateTexture { id: T1, delta: 0, region: None, pitch: 16 },
            Command::UpdateTexture {
                id: T1,
                delta: 1,
                region: Some(rect(1, 1, 2, 2)),
                pitch: 8,
            },
            Command::DestroyTexture { id: T1 },
            Command::CreateTexture { id: T1, width: 8, height: 2 },
            Command::UpdateTexture { id: T1, delta: 2, region: None, pitch: 32 },
            Command::CreateTexture { id: T2, width: 1, height: 1 },
            Command::UpdateTexture { id: T2, delta: 3, region: None, pitch: 4 },
            Command::ClearClip,
        ]
    );
    assert_eq!(painter.lookup(&T1), Some(TextureInfo { width: 8, height: 2 }));
    assert_eq!(painter.lookup(&T2), Some(TextureInfo { width: 1, height: 1 }));
}

#[test]
fn rejected_change_refuses_the_whole_frame() {
    let mut painter = Painter::new();
    let jobs = vec![clipped(rect(0, 0, 10, 10), quad(Some(T1)))];
    let set = vec![(T1, whole(4, 4)), (T2, patch(0, 0, 1, 1)), (T1, patch(9, 9, 1, 1))];
    let result = painter.paint_and_update_textures(&frame(set, vec![]), &jobs);
    assert_eq!(
        result.err(),
        Some(PaintError::Rejected { index: 1, id: T2, reason: TextureError::UnknownTexture })
    );
    assert_eq!(painter.lookup(&T1), None);
    assert_eq!(painter.lookup(&T2), None);
}

#[test]
fn rejection_names_the_first_offender() {
    let mut painter = Painter::new();
    let jobs: Vec<ClippedPrimitive<Vertex>> = Vec::new();
    painter.paint_and_update_textures(&frame(vec![(T1, whole(4, 4))], vec![]), &jobs).unwrap();
    let mut short = whole(2, 2);
    short.pixels.truncate(3);
    let set = vec![(T1, patch(3, 3, 2, 1)), (T2, short)];
    let result = painter.paint_and_update_textures(&frame(set, vec![]), &jobs);
    assert_eq!(
        result.err(),
        Some(PaintError::Rejected { index: 0, id: T1, reason: TextureError::OutOfBounds })
    );
    assert_eq!(painter.lookup(&T1), Some(TextureInfo { width: 4, height: 4 }));
}

#[test]
fn free_gives_the_destroy_command_once() {
    let mut painter = Painter::new();
    let jobs: Vec<ClippedPrimitive<Vertex>> = Vec::new();
    painter.paint_and_update_textures(&frame(vec![(T1, whole(4, 4))], vec![]), &jobs).unwrap();
    assert_eq!(painter.free(&T2), None);
    assert_eq!(painter.free(&T1), Some(Command::DestroyTexture { id: T1 }));
    assert_eq!(painter.lookup(&T1), None);
    assert_eq!(painter.free(&T1), None);
    assert_eq!(painter.lookup(&T1), None);
}

#[test]
fn failure_is_reported_by_the_kind_of_command() {
    assert_eq!(
        Command::CreateTexture { id: T1, width: 1, height: 1 }.failure(),
        PaintError::Texture { id: T1 }
    );
    assert_eq!(Command::DestroyTexture { id: T2 }.failure(), PaintError::Texture { id: T2 });
    assert_eq!(
        Command::UpdateTexture { id: T1, delta: 3, region: None, pitch: 4 }.failure(),
        PaintError::Texture { id: T1 }
    );
    assert_eq!(Command::SetClip { rect: rect(0, 0, 1, 1) }.failure(), PaintError::Clip);
    assert_eq!(Command::ClearClip.failure(), PaintError::Clip);
    assert_eq!(
        Command::DrawMesh { primitive: 7, texture: None, triangles: 1 }.failure(),
        PaintError::Draw { primitive: 7 }
    );
}

#[test]
fn failed_texture_creation_rolls_the_table_back() {
    let mut painter = Painter::new();
    let jobs = vec![clipped(rect(0, 0, 10, 10), quad(Some(T1)))];
    let set = vec![(T1, whole(4, 4)), (T2, whole(2, 2))];
    let plan = painter.paint_and_update_textures(&frame(set, vec![]), &jobs).unwrap();
    assert_eq!(plan.commands[2], Command::CreateTexture { id: T2, width: 2, height: 2 });
    let failure = painter.backend_failed(&plan, 2);
    assert_eq!(failure, Some(Failure { error: PaintError::Texture { id: T2 }, cleanup: None }));
    assert_eq!(painter.lookup(&T1), Some(TextureInfo { width: 4, height: 4 }));
    assert_eq!(painter.lookup(&T2), None);
}

#[test]
fn nothing_failed_when_every_command_was_carried_out() {
    let mut painter = Painter::new();
    let jobs = vec![clipped(rect(0, 0, 10, 10), quad(Some(T1)))];
    let set = vec![(T1, whole(4, 4)), (T2, whole(2, 2))];
    let plan = painter.paint_and_update_textures(&frame(set, vec![T1]), &jobs).unwrap();
    assert_eq!(painter.backend_failed(&plan, 0).map(|f| f.error), Some(PaintError::Texture { id: T1 }));
    assert_eq!(painter.lookup(&T2), None);
    assert_eq!(painter.backend_failed(&plan, plan.commands.len()), None);
    assert_eq!(painter.lookup(&T1), None);
    assert_eq!(painter.lookup(&T2), Some(TextureInfo { width: 2, height: 2 }));
    assert_eq!(painter.backend_failed(&plan, usize::MAX), None);
    assert_eq!(painter.lookup(&T2), Some(TextureInfo { width: 2, height: 2 }));
}

#[test]
fn failed_draw_asks_for_the_clip_to_be_lifted() {
    let mut painter = Painter::new();
    let jobs = vec![clipped(rect(0, 0, 10, 10), quad(Some(T1)))];
    painter.paint_and_update_textures(&frame(vec![(T1, whole(4, 4))], vec![]), &jobs).unwrap();
    let plan = painter.paint_and_update_textures(&frame(vec![], vec![T1]), &jobs).unwrap();
    assert_eq!(painter.lookup(&T1), None);
    assert_eq!(plan.commands[1], Command::DrawMesh { primitive: 0, texture: Some(T1), triangles: 2 });
    let failure = painter.backend_failed(&plan, 1);
    assert_eq!(
        failure,
        Some(Failure {
            error: PaintError::Draw { primitive: 0 },
            cleanup: Some(Command::ClearClip),
        })
    );
    assert_eq!(painter.lookup(&T1), Some(TextureInfo { width: 4, height: 4 }));
}

#[test]
fn failed_clip_change_asks_for_the_clip_to_be_lifted() {
    let mut painter = Painter::new();
    let jobs = vec![clipped(rect(0, 0, 10, 10), quad(None))];
    let plan = painter.paint_and_update_textures(&frame(vec![], vec![]), &jobs).unwrap();
    let failure = painter.backend_failed(&plan, 0);
    assert_eq!(
        failure,
        Some(Failure { error: PaintError::Clip, cleanup: Some(Command::ClearClip) })
    );
    let at_the_end = painter.backend_failed(&plan, 2);
    assert_eq!(at_the_end, Some(Failure { error: PaintError::Clip, cleanup: None }));
}

#[test]
fn failed_destroy_keeps_the_texture_in_the_table() {
    let mut painter = Painter::new();
    let jobs: Vec<ClippedPrimitive<Vertex>> = Vec::new();
    painter
        .paint_and_update_textures(&frame(vec![(T1, whole(4, 4)), (T2, whole(1, 1))], vec![]), &jobs)
        .unwrap();
    let plan = painter.paint_and_update_textures(&frame(vec![], vec![T2, T1]), &jobs).unwrap();
    assert_eq!(
        plan.commands,
        vec![
            Command::ClearClip,
            Command::DestroyTexture { id: T2 },
            Command::DestroyTexture { id: T1 },
        ]
    );
    let failure = painter.backend_failed(&plan, 2);
    assert_eq!(failure, Some(Failure { error: PaintError::Texture { id: T1 }, cleanup: None }));
    assert_eq!(painter.lookup(&T2), None);
    assert_eq!(painter.lookup(&T1), Some(TextureInfo { width: 4, height: 4 }));
}

#[test]
fn commands_of_one_texture_change() {
    let mut cache = TextureCache::new();
    let created = update_egui_texture(&T1, &whole(4, 4), &mut cache).unwrap();
    assert_eq!(
        Command::for_update(T1, 5, &created),
        vec![
            Command::CreateTexture { id: T1, width: 4, height: 4 },
            Command::UpdateTexture { id: T1, delta: 5, region: None, pitch: 16 },
        ]
    );
    let patched = update_egui_texture(&T1, &patch(1, 2, 3, 2), &mut cache).unwrap();
    assert_eq!(
        Command::for_update(T1, 0, &patched),
        vec![Command::UpdateTexture {
            id: T1,
            delta: 0,
            region: Some(rect(1, 2, 3, 2)),
            pitch: 12,
        }]
    );
    let nothing = update_egui_texture(&T1, &patch(1, 2, 0, 2), &mut cache).unwrap();
    assert_eq!(Command::for_update(T1, 0, &nothing), vec![]);
    let replaced = update_egui_texture(&T1, &whole(2, 2), &mut cache).unwrap();
    assert_eq!(
        Command::for_update(T1, 1, &replaced),
        vec![
            Command::DestroyTexture { id: T1 },
            Command::CreateTexture { id: T1, width: 2, height: 2 },
            Command::UpdateTexture { id: T1, delta: 1, region: None, pitch: 8 },
        ]
    );
}

#[test]
fn replay_follows_the_commands_that_were_carried_out() {
    let commands = vec![
        Command::CreateTexture { id: T1, width: 4, height: 4 },
        Command::SetClip { rect: rect(0, 0, 1, 1) },
        Command::CreateTexture { id: T2, width: 536870912, height: 1 },
        Command::CreateTexture { id: T2, width: 2, height: 3 },
        Command::DestroyTexture { id: T1 },
    ];
    let mut cache = TextureCache::new();
    cache.replay(&commands, 0);
    assert_eq!(cache.lookup(&T1), None);
    cache.replay(&commands, 3);
    assert_eq!(cache.lookup(&T1), Some(TextureInfo { width: 4, height: 4 }));
    assert_eq!(cache.lookup(&T2), None);
    let mut all = TextureCache::new();
    all.replay(&commands, 9);
    assert_eq!(all.lookup(&T1), None);
    assert_eq!(all.lookup(&T2), Some(TextureInfo { width: 2, height: 3 }));
}
