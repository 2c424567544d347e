use egui_sdl2_canvas::{
    ClippedPrimitive, DrawCall, FrameReport, ImageDelta, Mesh, Offscreen, PaintError, PixelRect,
    Primitive, TextureError, TextureId, TextureInfo, TexturesDelta,
};

const T1: TextureId = TextureId::User(1);
const T2: TextureId = TextureId::User(2);
const RED: [u8; 4] = [255, 0, 0, 255];

fn solid(width: usize, height: usize, rgba: [u8; 4]) -> Vec<u8> {
    let mut pixels = Vec::new();
    for _ in 0..width * height {
        pixels.extend_from_slice(&rgba);
    }
    pixels
}

fn whole(width: usize, height: usize) -> ImageDelta {
    ImageDelta { width, height, pixels: solid(width, height, RED), pos: None }
}

fn rect(x: i32, y: i32, width: u32, height: u32) -> PixelRect {
    PixelRect { x, y, width, height }
}

fn quad(texture_id: Option<TextureId>) -> Mesh<[f32; 4]> {
    Mesh {
        indices: vec![0, 1, 2, 0, 2, 3],
        vertices: vec![
            [0.0, 0.0, 0.0, 0.0],
            [10.0, 0.0, 1.0, 0.0],
            [10.0, 10.0, 1.0, 1.0],
            [0.0, 10.0, 0.0, 1.0],
        ],
        texture_id,
    }
}

fn clipped(rect: PixelRect, mesh: Mesh<[f32; 4]>) -> ClippedPrimitive<[f32; 4]> {
    ClippedPrimitive { clip_rect: rect, primitive: Primitive::Mesh(mesh) }
}

#[test]
fn frame_with_a_textured_quad() {
    let mut pair = Offscreen::new();
    let delta = TexturesDelta { set: vec![(T1, whole(2, 2))], free: vec![] };
    let jobs = vec![clipped(rect(0, 0, 10, 10), quad(Some(T1)))];
    let report = pair.apply_frame(&delta, &jobs);
    assert_eq!(report, Ok(FrameReport { drawn: 1, empty: 0, malformed: 0, skipped: 0 }));
    assert_eq!(pair.painter().lookup(&T1), Some(TextureInfo { width: 2, height: 2 }));
    assert_eq!(pair.surface().texture(&T1), Some(TextureInfo { width: 2, height: 2 }));
    for y in 0..2 {
        for x in 0..2 {
            assert_eq!(pair.surface().pixel(&T1, x, y), Some(RED));
        }
    }
    assert_eq!(
        pair.surface().draws(),
        &vec![DrawCall {
            clip: Some(rect(0, 0, 10, 10)),
            texture: Some(T1),
            primitive: 0,
            triangles: 2,
        }]
    );
    assert_eq!(pair.surface().clip(), None);
}

#[test]
fn frame_with_only_a_callback() {
    let mut pair = Offscreen::new();
    let delta = TexturesDelta { set: vec![], free: vec![] };
    let jobs: Vec<ClippedPrimitive<[f32; 4]>> =
        vec![ClippedPrimitive { clip_rect: rect(0, 0, 10, 10), primitive: Primitive::Callback }];
    let report = pair.apply_frame(&delta, &jobs);
    assert_eq!(report, Ok(FrameReport { drawn: 0, empty: 0, malformed: 0, skipped: 1 }));
    assert!(pair.surface().draws().is_empty());
    assert_eq!(pair.surface().clip(), None);
}

#[test]
fn texture_lives_through_the_frame_that_frees_it() {
    let mut pair = Offscreen::new();
    let first = TexturesDelta { set: vec![(T1, whole(2, 2))], free: vec![] };
    let none: Vec<ClippedPrimitive<[f32; 4]>> = Vec::new();
    pair.apply_frame(&first, &none).unwrap();
    let last = TexturesDelta { set: vec![], free: vec![T1] };
    let jobs = vec![clipped(rect(1, 1, 2, 2), quad(Some(T1)))];
    pair.apply_frame(&last, &jobs).unwrap();
    assert_eq!(
        pair.surface().draws(),
        &vec![DrawCall { clip: Some(rect(1, 1, 2, 2)), texture: Some(T1), primitive: 0, triangles: 2 }]
    );
    assert_eq!(pair.surface().texture(&T1), None);
    assert_eq!(pair.painter().lookup(&T1), None);
    pair.apply_frame(&TexturesDelta { set: vec![], free: vec![] }, &jobs).unwrap();
    assert_eq!(pair.surface().draws()[1].texture, None);
}

#[test]
fn rejected_frame_changes_nothing() {
    let mut pair = Offscreen::new();
    let patch = ImageDelta { width: 1, height: 1, pixels: solid(1, 1, RED), pos: Some((0, 0)) };
    let delta = TexturesDelta { set: vec![(T1, whole(2, 2)), (T2, patch)], free: vec![] };
    let jobs = vec![clipped(rect(0, 0, 10, 10), quad(Some(T1)))];
    assert_eq!(
        pair.apply_frame(&delta, &jobs),
        Err(PaintError::Rejected { index: 1, id: T2, reason: TextureError::UnknownTexture })
    );
    assert_eq!(pair.painter().lookup(&T1), None);
    assert_eq!(pair.surface().texture(&T1), None);
    assert!(pair.surface().draws().is_empty());
}

#[test]
fn refused_texture_ends_the_frame_with_its_error() {
    let mut pair = Offscreen::new();
    let delta = TexturesDelta {
        set: vec![(T1, whole(2, 2)), (T2, whole(3, 0))],
        free: vec![],
    };
    let jobs = vec![clipped(rect(0, 0, 10, 10), quad(Some(T1)))];
    assert_eq!(pair.apply_frame(&delta, &jobs), Err(PaintError::Texture { id: T2 }));
    assert_eq!(pair.painter().lookup(&T1), Some(TextureInfo { width: 2, height: 2 }));
    assert_eq!(pair.surface().texture(&T1), Some(TextureInfo { width: 2, height: 2 }));
    assert_eq!(pair.painter().lookup(&T2), None);
    assert_eq!(pair.surface().texture(&T2), None);
    assert!(pair.surface().draws().is_empty());
    assert_eq!(pair.surface().clip(), None);

    let next = TexturesDelta { set: vec![(T2, whole(1, 1))], free: vec![] };
    assert_eq!(
        pair.apply_frame(&next, &jobs),
        Ok(FrameReport { drawn: 1, empty: 0, malformed: 0, skipped: 0 })
    );
    assert_eq!(pair.surface().texture(&T2), Some(TextureInfo { width: 1, height: 1 }));
}
