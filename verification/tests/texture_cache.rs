use egui_sdl2_canvas::{
    update_egui_texture, Allocation, ImageDelta, PixelRect, TextureCache, TextureError,
    TextureId, TextureInfo, TextureUpdate, Upload,
};

fn solid(width: usize, height: usize, rgba: [u8; 4]) -> Vec<u8> {
    let mut pixels = Vec::new();
    for _ in 0..width * height {
        pixels.extend_from_slice(&rgba);
    }
    pixels
}

fn whole(width: usize, height: usize) -> ImageDelta {
    ImageDelta { width, height, pixels: solid(width, height, [255, 0, 0, 255]), pos: None }
}

fn patch(x: usize, y: usize, width: usize, height: usize) -> ImageDelta {
    ImageDelta {
        width,
        height,
        pixels: solid(width, height, [0, 255, 0, 255]),
        pos: Some((x, y)),
    }
}

#[test]
fn whole_delta_creates_texture_of_its_dimensions() {
    let mut cache = TextureCache::new();
    let id = TextureId::Managed(0);
    let update = update_egui_texture(&id, &whole(2, 3), &mut cache);
    assert_eq!(
        update,
        Ok(TextureUpdate {
            allocation: Allocation::Create,
            texture: TextureInfo { width: 2, height: 3 },
            upload: Some(Upload { region: None, pitch: 8 }),
        })
    );
    assert_eq!(cache.lookup(&id), Some(TextureInfo { width: 2, height: 3 }));
    assert_eq!(cache.lookup(&TextureId::User(0)), None);
}

#[test]
fn managed_and_user_identifiers_are_distinct_textures() {
    let mut cache = TextureCache::new();
    update_egui_texture(&TextureId::Managed(5), &whole(1, 1), &mut cache).unwrap();
    update_egui_texture(&TextureId::User(5), &whole(4, 2), &mut cache).unwrap();
    assert_eq!(cache.lookup(&TextureId::Managed(5)), Some(TextureInfo { width: 1, height: 1 }));
    assert_eq!(cache.lookup(&TextureId::User(5)), Some(TextureInfo { width: 4, height: 2 }));
    assert_eq!(cache.lookup(&TextureId::Managed(4)), None);
}

#[test]
fn whole_delta_of_same_dimensions_keeps_texture() {
    let mut cache = TextureCache::new();
    let id = TextureId::Managed(1);
    update_egui_texture(&id, &whole(4, 4), &mut cache).unwrap();
    let update = update_egui_texture(&id, &whole(4, 4), &mut cache);
    assert_eq!(
        update,
        Ok(TextureUpdate {
            allocation: Allocation::Keep,
            texture: TextureInfo { width: 4, height: 4 },
            upload: Some(Upload { region: None, pitch: 16 }),
        })
    );
    assert_eq!(cache.lookup(&id), Some(TextureInfo { width: 4, height: 4 }));
}

#[test]
fn whole_delta_of_other_dimensions_replaces_texture() {
    let mut cache = TextureCache::new();
    let id = TextureId::Managed(1);
    update_egui_texture(&id, &whole(4, 4), &mut cache).unwrap();
    let update = update_egui_texture(&id, &whole(3, 5), &mut cache);
    assert_eq!(
        update,
        Ok(TextureUpdate {
            allocation: Allocation::Replace,
            texture: TextureInfo { width: 3, height: 5 },
            upload: Some(Upload { region: None, pitch: 12 }),
        })
    );
    assert_eq!(cache.lookup(&id), Some(TextureInfo { width: 3, height: 5 }));
}

#[test]
fn patch_uploads_only_its_rectangle() {
    let mut cache = TextureCache::new();
    let id = TextureId::User(7);
    update_egui_texture(&id, &whole(8, 8), &mut cache).unwrap();
    let update = update_egui_texture(&id, &patch(2, 3, 4, 5), &mut cache);
    assert_eq!(
        update,
        Ok(TextureUpdate {
            allocation: Allocation::Keep,
            texture: TextureInfo { width: 8, height: 8 },
            upload: Some(Upload {
                region: Some(PixelRect { x: 2, y: 3, width: 4, height: 5 }),
                pitch: 16,
            }),
        })
    );
    assert_eq!(cache.lookup(&id), Some(TextureInfo { width: 8, height: 8 }));
}

#[test]
fn patch_that_touches_the_far_corner_is_accepted() {
    let mut cache = TextureCache::new();
    let id = TextureId::User(7);
    update_egui_texture(&id, &whole(8, 6), &mut cache).unwrap();
    let update = update_egui_texture(&id, &patch(7, 5, 1, 1), &mut cache).unwrap();
    assert_eq!(
        update.upload,
        Some(Upload { region: Some(PixelRect { x: 7, y: 5, width: 1, height: 1 }), pitch: 4 })
    );
}

#[test]
fn patch_without_pixels_uploads_nothing() {
    let mut cache = TextureCache::new();
    let id = TextureId::User(7);
    update_egui_texture(&id, &whole(8, 8), &mut cache).unwrap();
    let update = update_egui_texture(&id, &patch(8, 8, 0, 0), &mut cache);
    assert_eq!(
        update,
        Ok(TextureUpdate {
            allocation: Allocation::Keep,
            texture: TextureInfo { width: 8, height: 8 },
            upload: None,
        })
    );
}

#[test]
fn patch_for_unknown_texture_is_turned_down() {
    let mut cache = TextureCache::new();
    let id = TextureId::User(1);
    assert_eq!(
        update_egui_texture(&id, &patch(0, 0, 1, 1), &mut cache),
        Err(TextureError::UnknownTexture)
    );
    assert_eq!(cache.lookup(&id), None);
}

#[test]
fn patch_beyond_the_edge_is_turned_down() {
    let mut cache = TextureCache::new();
    let id = TextureId::User(1);
    update_egui_texture(&id, &whole(4, 4), &mut cache).unwrap();
    assert_eq!(
        update_egui_texture(&id, &patch(3, 0, 2, 1), &mut cache),
        Err(TextureError::OutOfBounds)
    );
    assert_eq!(
        update_egui_texture(&id, &patch(0, 4, 1, 1), &mut cache),
        Err(TextureError::OutOfBounds)
    );
    assert_eq!(
        update_egui_texture(&id, &patch(usize::MAX, 0, 1, 1), &mut cache),
        Err(TextureError::OutOfBounds)
    );
    assert_eq!(cache.lookup(&id), Some(TextureInfo { width: 4, height: 4 }));
}

#[test]
fn payload_of_wrong_length_is_turned_down() {
    let mut cache = TextureCache::new();
    let id = TextureId::Managed(2);
    let mut short = whole(2, 2);
    short.pixels.pop();
    assert_eq!(update_egui_texture(&id, &short, &mut cache), Err(TextureError::PayloadSize));
    assert_eq!(cache.lookup(&id), None);

    update_egui_texture(&id, &whole(2, 2), &mut cache).unwrap();
    let mut long = patch(0, 0, 1, 1);
    long.pixels.push(0);
    assert_eq!(update_egui_texture(&id, &long, &mut cache), Err(TextureError::PayloadSize));
}

#[test]
fn texture_beyond_the_limits_is_turned_down() {
    let mut cache = TextureCache::new();
    let id = TextureId::Managed(3);
    let wide = ImageDelta { width: 536870912, height: 0, pixels: Vec::new(), pos: None };
    assert_eq!(update_egui_texture(&id, &wide, &mut cache), Err(TextureError::TooLarge));
    let widest = ImageDelta { width: 536870911, height: 0, pixels: Vec::new(), pos: None };
    assert_eq!(
        update_egui_texture(&id, &widest, &mut cache),
        Ok(TextureUpdate {
            allocation: Allocation::Create,
            texture: TextureInfo { width: 536870911, height: 0 },
            upload: Some(Upload { region: None, pitch: 2147483644 }),
        })
    );
    let tall = ImageDelta { width: 0, height: 1073741824, pixels: Vec::new(), pos: None };
    assert_eq!(
        update_egui_texture(&TextureId::Managed(4), &tall, &mut cache),
        Err(TextureError::TooLarge)
    );
    let tallest = ImageDelta { width: 0, height: 1073741823, pixels: Vec::new(), pos: None };
    assert_eq!(
        update_egui_texture(&TextureId::Managed(4), &tallest, &mut cache).map(|u| u.texture),
        Ok(TextureInfo { width: 0, height: 1073741823 })
    );
}

#[test]
fn free_then_lookup_finds_nothing() {
    let mut cache = TextureCache::new();
    let id = TextureId::Managed(0);
    let other = TextureId::User(0);
    update_egui_texture(&id, &whole(2, 2), &mut cache).unwrap();
    update_egui_texture(&other, &whole(3, 3), &mut cache).unwrap();
    assert!(cache.free(&id));
    assert_eq!(cache.lookup(&id), None);
    assert_eq!(cache.lookup(&other), Some(TextureInfo { width: 3, height: 3 }));
}

#[test]
fn free_of_unknown_texture_changes_nothing() {
    let mut cache = TextureCache::new();
    let id = TextureId::Managed(0);
    update_egui_texture(&id, &whole(2, 2), &mut cache).unwrap();
    assert!(!cache.free(&TextureId::Managed(1)));
    assert!(!cache.free(&TextureId::User(0)));
    assert_eq!(cache.lookup(&id), Some(TextureInfo { width: 2, height: 2 }));
}

#[test]
fn free_twice_is_free_once() {
    let mut cache = TextureCache::new();
    let id = TextureId::User(9);
    update_egui_texture(&id, &whole(2, 2), &mut cache).unwrap();
    assert!(cache.free(&id));
    assert!(!cache.free(&id));
    assert_eq!(cache.lookup(&id), None);
}

#[test]
fn freed_texture_can_be_created_again() {
    let mut cache = TextureCache::new();
    let id = TextureId::User(9);
    update_egui_texture(&id, &whole(2, 2), &mut cache).unwrap();
    cache.free(&id);
    let update = update_egui_texture(&id, &whole(2, 2), &mut cache).unwrap();
    assert_eq!(update.allocation, Allocation::Create);
}

#[test]
fn clone_of_cache_is_independent() {
    let mut cache = TextureCache::new();
    let id = TextureId::User(9);
    update_egui_texture(&id, &whole(2, 2), &mut cache).unwrap();
    let copy = cache.clone();
    cache.free(&id);
    assert_eq!(copy.lookup(&id), Some(TextureInfo { width: 2, height: 2 }));
    assert_eq!(cache.lookup(&id), None);
}
