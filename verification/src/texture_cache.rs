//! The table of textures that exist on the backend, and the rule by which a
//! pixel payload changes it.

use std::collections::HashMap;
use vstd::prelude::*;
use crate::command::{textures_after_commands, Command};
use crate::image::ImageDelta;
use crate::rect::PixelRect;
use crate::texture_id::{slot_of, TextureId};

verus! {

/// Widest texture that is accepted: a row of it, at four bytes a pixel, is
/// the largest pitch that a signed 32-bit backend integer holds.
pub const MAX_TEXTURE_WIDTH: usize = 536870911;

/// Tallest texture that is accepted: the largest height that SDL2's
/// rectangles keep as it is, half the largest signed 32-bit integer.
pub const MAX_TEXTURE_HEIGHT: usize = 1073741823;

/// What is known of a texture that exists on the backend.
#[derive(Clone, Copy, Debug, PartialEq, Eq, Structural)]
pub struct TextureInfo {
    pub width: u32,
    pub height: u32,
}

/// Why a payload was turned down. Nothing changes when one is.
#[derive(Clone, Copy, Debug, PartialEq, Eq, Structural)]
pub enum TextureError {
    /// A patch names a texture that does not exist.
    UnknownTexture,
    /// A patch reaches beyond the right or bottom edge of its texture.
    OutOfBounds,
    /// The payload does not hold four bytes for each pixel.
    PayloadSize,
    /// A whole texture wider than [`MAX_TEXTURE_WIDTH`] or taller than
    /// [`MAX_TEXTURE_HEIGHT`].
    TooLarge,
}

/// What happens to the backend texture before pixels are uploaded.
#[derive(Clone, Copy, Debug, PartialEq, Eq, Structural)]
pub enum Allocation {
    /// The texture exists with the right dimensions and is kept.
    Keep,
    /// No texture exists under the identifier: one is created.
    Create,
    /// A texture of other dimensions exists: it is destroyed and a new one
    /// is created in its place.
    Replace,
}

/// An upload of pixels into a texture.
#[derive(Clone, Copy, Debug, PartialEq, Eq)]
pub struct Upload {
    /// The rectangle of the texture that is written; `None` for all of it.
    pub region: Option<PixelRect>,
    /// Bytes from the start of one payload row to the start of the next.
    pub pitch: u32,
}

/// What the backend has to do for one accepted payload.
#[derive(Clone, Copy, Debug, PartialEq, Eq)]
pub struct TextureUpdate {
    pub allocation: Allocation,
    /// Dimensions of the texture once the update is done.
    pub texture: TextureInfo,
    /// The upload to make; `None` where a patch holds no pixel.
    pub upload: Option<Upload>,
}

/// A whole texture of these dimensions is within the backend's limits.
pub open spec fn fits_backend(width: usize, height: usize) -> bool {
    width <= MAX_TEXTURE_WIDTH && height <= MAX_TEXTURE_HEIGHT
}

/// A block of `width` by `height` pixels placed at `(x, y)` stays inside a
/// texture of the dimensions `texture`.
pub open spec fn patch_in_bounds(
    texture: TextureInfo,
    x: usize,
    y: usize,
    width: usize,
    height: usize,
) -> bool {
    x + width <= texture.width && y + height <= texture.height
}

/// The reason for which `delta` is turned down for `id`, if there is one.
pub open spec fn delta_rejection(
    textures: Map<TextureId, TextureInfo>,
    id: TextureId,
    delta: ImageDelta,
) -> Option<TextureError> {
    match delta.pos {
        Some((x, y)) => {
            if !textures.contains_key(id) {
                Some(TextureError::UnknownTexture)
            } else if !patch_in_bounds(textures[id], x, y, delta.width, delta.height) {
                Some(TextureError::OutOfBounds)
            } else if !delta.payload_fits() {
                Some(TextureError::PayloadSize)
            } else {
                None
            }
        },
        None => {
            if !fits_backend(delta.width, delta.height) {
                Some(TextureError::TooLarge)
            } else if !delta.payload_fits() {
                Some(TextureError::PayloadSize)
            } else {
                None
            }
        },
    }
}

/// Dimensions that a whole-texture payload gives its texture.
pub open spec fn delta_dimensions(delta: ImageDelta) -> TextureInfo {
    TextureInfo { width: delta.width as u32, height: delta.height as u32 }
}

/// What the backend has to do for a `delta` that is not turned down.
pub open spec fn delta_update(
    textures: Map<TextureId, TextureInfo>,
    id: TextureId,
    delta: ImageDelta,
) -> TextureUpdate {
    match delta.pos {
        Some((x, y)) => TextureUpdate {
            allocation: Allocation::Keep,
            texture: textures[id],
            upload: if delta.width == 0 || delta.height == 0 {
                None
            } else {
                Some(
                    Upload {
                        region: Some(
                            PixelRect {
                                x: x as i32,
                                y: y as i32,
                                width: delta.width as u32,
                                height: delta.height as u32,
                            },
                        ),
                        pitch: (4 * delta.width) as u32,
                    },
                )
            },
        },
        None => TextureUpdate {
            allocation: if !textures.contains_key(id) {
                Allocation::Create
            } else if textures[id] == delta_dimensions(delta) {
                Allocation::Keep
            } else {
                Allocation::Replace
            },
            texture: delta_dimensions(delta),
            upload: Some(Upload { region: None, pitch: (4 * delta.width) as u32 }),
        },
    }
}

/// The outcome of handing `delta` for `id` to a table that holds `textures`.
pub open spec fn texture_update(
    textures: Map<TextureId, TextureInfo>,
    id: TextureId,
    delta: ImageDelta,
) -> Result<TextureUpdate, TextureError> {
    match delta_rejection(textures, id, delta) {
        Some(error) => Err(error),
        None => Ok(delta_update(textures, id, delta)),
    }
}

/// The textures that exist once `delta` was handed in for `id`: an accepted
/// whole-texture payload sets the entry of `id`, anything else changes
/// nothing.
pub open spec fn textures_after_delta(
    textures: Map<TextureId, TextureInfo>,
    id: TextureId,
    delta: ImageDelta,
) -> Map<TextureId, TextureInfo> {
    if delta_rejection(textures, id, delta) is None && delta.pos is None {
        textures.insert(id, delta_dimensions(delta))
    } else {
        textures
    }
}

/// Every texture of the table is within the backend's limits.
pub open spec fn textures_fit(textures: Map<TextureId, TextureInfo>) -> bool {
    forall|id: TextureId| #[trigger]
        textures.contains_key(id) ==> fits_backend(
            textures[id].width as usize,
            textures[id].height as usize,
        )
}

/// The textures that exist on the backend, by identifier. Each of them is
/// within the backend's limits.
pub struct TextureCache {
    entries: HashMap<u128, TextureInfo>,
}

impl View for TextureCache {
    type V = Map<TextureId, TextureInfo>;

    closed spec fn view(&self) -> Map<TextureId, TextureInfo> {
        Map::new(
            |id: TextureId| self.entries@.contains_key(slot_of(id)),
            |id: TextureId| self.entries@[slot_of(id)],
        )
    }
}

impl TextureCache {
    #[verifier::type_invariant]
    spec fn entries_fit(self) -> bool {
        forall|key: u128| #[trigger]
            self.entries@.contains_key(key) ==> fits_backend(
                self.entries@[key].width as usize,
                self.entries@[key].height as usize,
            )
    }

    /// A table without textures.
    pub fn new() -> (cache: TextureCache)
        ensures
            cache@ == Map::<TextureId, TextureInfo>::empty(),
            textures_fit(cache@),
    {
        let cache = TextureCache { entries: HashMap::new() };
        assert(cache@ =~= Map::<TextureId, TextureInfo>::empty());
        cache
    }

    /// The texture that exists under `id`, if one does. An identifier that
    /// was never seen or was freed gives `None`, which a caller draws as
    /// "no texture".
    pub fn lookup(&self, id: &TextureId) -> (found: Option<TextureInfo>)
        ensures
            found == (if self@.contains_key(*id) {
                Some(self@[*id])
            } else {
                None
            }),
            textures_fit(self@),
    {
        proof {
            use_type_invariant(self);
        }
        let key = id.slot();
        match self.entries.get(&key) {
            Some(info) => Some(*info),
            None => None,
        }
    }

    /// Removes the entry of `id` and says whether there was one. Freeing an
    /// identifier that has no entry changes nothing.
    pub fn free(&mut self, id: &TextureId) -> (freed: bool)
        ensures
            final(self)@ == old(self)@.remove(*id),
            freed == old(self)@.contains_key(*id),
            textures_fit(final(self)@),
    {
        proof {
            use_type_invariant(&*self);
        }
        let key = id.slot();
        let mut entries: HashMap<u128, TextureInfo> = HashMap::new();
        core::mem::swap(&mut self.entries, &mut entries);
        let removed = entries.remove(&key);
        core::mem::swap(&mut self.entries, &mut entries);
        assert(self@ =~= old(self)@.remove(*id)) by {
            assert forall|other: TextureId| other != *id implies slot_of(other) != key by {}
        }
        proof {
            use_type_invariant(&*self);
        }
        removed.is_some()
    }

    /// Sets the entry of `id`.
    fn set(&mut self, id: &TextureId, info: TextureInfo)
        requires
            fits_backend(info.width as usize, info.height as usize),
        ensures
            final(self)@ == old(self)@.insert(*id, info),
            textures_fit(final(self)@),
    {
        proof {
            use_type_invariant(&*self);
        }
        let key = id.slot();
        let mut entries: HashMap<u128, TextureInfo> = HashMap::new();
        core::mem::swap(&mut self.entries, &mut entries);
        entries.insert(key, info);
        core::mem::swap(&mut self.entries, &mut entries);
        assert(self@ =~= old(self)@.insert(*id, info)) by {
            assert forall|other: TextureId| other != *id implies slot_of(other) != key by {}
        }
        proof {
            use_type_invariant(&*self);
        }
    }
}

impl TextureCache {
    /// Brings the table to what exists once the backend has carried out the
    /// first `count` of `commands`, or all of them where they are fewer.
    pub fn replay(&mut self, commands: &Vec<Command>, count: usize)
        ensures
            final(self)@ == textures_after_commands(
                old(self)@,
                commands@,
                if count < commands@.len() {
                    count as nat
                } else {
                    commands@.len()
                },
            ),
            textures_fit(final(self)@),
    {
        proof {
            use_type_invariant(&*self);
        }
        let issued: usize = commands.len();
        let count: usize = if count < issued {
            count
        } else {
            issued
        };
        let mut done: usize = 0;
        while done < count
            invariant
                done <= count <= commands@.len(),
                self@ == textures_after_commands(old(self)@, commands@, done as nat),
                textures_fit(self@),
            decreases count - done,
        {
            match commands[done] {
                Command::CreateTexture { id, width, height } => {
                    if width as usize <= MAX_TEXTURE_WIDTH && height as usize
                        <= MAX_TEXTURE_HEIGHT {
                        self.set(&id, TextureInfo { width, height });
                    }
                },
                Command::DestroyTexture { id } => {
                    self.free(&id);
                },
                _ => {},
            }
            done += 1;
        }
    }
}

impl Clone for TextureCache {
    fn clone(&self) -> (copy: TextureCache)
        ensures
            copy@ == self@,
            textures_fit(copy@),
    {
        proof {
            use_type_invariant(self);
        }
        let copy = TextureCache { entries: self.entries.clone() };
        assert(copy@ =~= self@);
        copy
    }
}

/// Whether `pixels` holds four bytes for each pixel of a block of `width` by
/// `height`.
fn payload_matches(pixels: &Vec<u8>, width: usize, height: usize) -> (fits: bool)
    requires
        width <= MAX_TEXTURE_HEIGHT,
        height <= MAX_TEXTURE_HEIGHT,
    ensures
        fits == (pixels@.len() == 4 * width * height),
{
    let wide: u64 = width as u64;
    let tall: u64 = height as u64;
    assert(4 * wide * tall <= 4 * 2147483647 * 2147483647) by (nonlinear_arith)
        requires
            wide <= 2147483647,
            tall <= 2147483647,
    ;
    let expected: u64 = 4 * wide * tall;
    pixels.len() as u64 == expected
}

/// Applies one payload to the table and says what the backend has to do.
///
/// A payload without `pos` sets the whole texture: the texture is created
/// where `id` has none, kept where one of the same dimensions exists, and
/// replaced by a new one where the dimensions differ. A payload with `pos`
/// patches a rectangle of a texture that must exist and must hold the
/// rectangle. A payload that is turned down leaves the table as it was.
pub fn update_egui_texture(
    id: &TextureId,
    delta: &ImageDelta,
    textures: &mut TextureCache,
) -> (result: Result<TextureUpdate, TextureError>)
    ensures
        result == texture_update(old(textures)@, *id, *delta),
        final(textures)@ == textures_after_delta(old(textures)@, *id, *delta),
        textures_fit(final(textures)@),
{
    let existing = textures.lookup(id);
    match delta.pos {
        Some((x, y)) => {
            let texture = match existing {
                Some(texture) => texture,
                None => {
                    return Err(TextureError::UnknownTexture);
                },
            };
            let across: usize = texture.width as usize;
            let down: usize = texture.height as usize;
            if x > across || delta.width > across - x || y > down || delta.height > down - y {
                return Err(TextureError::OutOfBounds);
            }
            if !payload_matches(&delta.pixels, delta.width, delta.height) {
                return Err(TextureError::PayloadSize);
            }
            let upload = if delta.width == 0 || delta.height == 0 {
                None
            } else {
                Some(
                    Upload {
                        region: Some(
                            PixelRect {
                                x: x as i32,
                                y: y as i32,
                                width: delta.width as u32,
                                height: delta.height as u32,
                            },
                        ),
                        pitch: (4 * delta.width) as u32,
                    },
                )
            };
            Ok(TextureUpdate { allocation: Allocation::Keep, texture, upload })
        },
        None => {
            if delta.width > MAX_TEXTURE_WIDTH || delta.height > MAX_TEXTURE_HEIGHT {
                return Err(TextureError::TooLarge);
            }
            if !payload_matches(&delta.pixels, delta.width, delta.height) {
                return Err(TextureError::PayloadSize);
            }
            let texture = TextureInfo { width: delta.width as u32, height: delta.height as u32 };
            let allocation = match existing {
                None => Allocation::Create,
                Some(old_texture) => {
                    if old_texture.width == texture.width && old_texture.height == texture.height {
                        Allocation::Keep
                    } else {
                        Allocation::Replace
                    }
                },
            };
            textures.set(id, texture);
            let upload = Some(Upload { region: None, pitch: (4 * delta.width) as u32 });
            Ok(TextureUpdate { allocation, texture, upload })
        },
    }
}

} // verus!
