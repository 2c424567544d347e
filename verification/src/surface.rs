//! A surface in memory that carries out commands.
//!
//! It keeps the pixels of every texture, the clip rectangle in force and a
//! record of the draw calls, so that what a frame asks of a backend can be
//! read back. It refuses what a backend would refuse, and draws nothing.

use std::collections::HashMap;
use vstd::prelude::*;
use crate::command::Command;
use crate::image::ImageDelta;
use crate::rect::PixelRect;
use crate::surface_model::{
    accepts, all_accepted, blank_texture, carried_out, lemma_carried_out, surface_after,
    surface_after_commands, surface_step, surface_wf, texel, upload_in_order, written_row,
    written_rows, DrawCall, SurfaceModel, TextureModel,
};
use crate::texture_cache::{fits_backend, TextureInfo, MAX_TEXTURE_HEIGHT, MAX_TEXTURE_WIDTH};
use crate::texture_id::{slot_of, TextureId};

verus! {

/// The pixels of one texture.
struct Pixels {
    info: TextureInfo,
    rows: Vec<Vec<u8>>,
}

/// Rows of bytes as sequences.
spec fn rows_model(rows: Seq<Vec<u8>>) -> Seq<Seq<u8>> {
    Seq::new(rows.len(), |r: int| rows[r]@)
}

impl Pixels {
    spec fn model(self) -> TextureModel {
        TextureModel { info: self.info, rows: rows_model(self.rows@) }
    }
}

/// A row of `len` zero bytes.
fn zero_row(len: usize) -> (row: Vec<u8>)
    ensures
        row@ == Seq::new(len as nat, |c: int| 0u8),
{
    let mut row: Vec<u8> = Vec::new();
    let mut at: usize = 0;
    while at < len
        invariant
            at <= len,
            row@.len() == at,
            forall|c: int| 0 <= c < at ==> row@[c] == 0u8,
        decreases len - at,
    {
        row.push(0u8);
        at += 1;
    }
    assert(row@ =~= Seq::new(len as nat, |c: int| 0u8));
    row
}

/// The pixels of a texture right after its creation.
fn blank_pixels(info: TextureInfo) -> (pixels: Pixels)
    requires
        fits_backend(info.width as usize, info.height as usize),
    ensures
        pixels.model() == blank_texture(info),
{
    let across: usize = 4 * (info.width as usize);
    let down: usize = info.height as usize;
    let mut rows: Vec<Vec<u8>> = Vec::new();
    let mut at: usize = 0;
    while at < down
        invariant
            at <= down,
            rows@.len() == at,
            across == 4 * info.width,
            forall|r: int| 0 <= r < at ==> (#[trigger] rows@[r])@ == Seq::new(
                across as nat,
                |c: int| 0u8,
            ),
        decreases down - at,
    {
        rows.push(zero_row(across));
        at += 1;
    }
    let pixels = Pixels { info, rows };
    assert(pixels.model().rows =~= blank_texture(info).rows);
    pixels
}

/// A copy of `row` in which the pixels from column `x` on, `width` of them,
/// are the payload bytes from `offset` on.
fn write_row(row: &Vec<u8>, x: usize, width: usize, payload: &Vec<u8>, offset: usize) -> (out: Vec<
    u8,
>)
    requires
        4 * (x + width) <= row@.len(),
        offset + 4 * width <= payload@.len(),
    ensures
        out@ == written_row(row@, x as int, width as int, payload@, offset as int),
{
    let len: usize = row.len();
    let available: usize = payload.len();
    let start: usize = 4 * x;
    let count: usize = 4 * width;
    let mut out: Vec<u8> = Vec::new();
    let mut at: usize = 0;
    while at < start
        invariant
            at <= start <= row@.len(),
            out@ == row@.subrange(0, at as int),
        decreases start - at,
    {
        out.push(row[at]);
        assert(out@ =~= row@.subrange(0, at + 1));
        at += 1;
    }
    let mut taken: usize = 0;
    while taken < count
        invariant
            taken <= count,
            start <= row@.len(),
            offset + count <= available,
            available == payload@.len(),
            out@ == row@.subrange(0, start as int) + payload@.subrange(
                offset as int,
                offset + taken,
            ),
        decreases count - taken,
    {
        out.push(payload[offset + taken]);
        assert(out@ =~= row@.subrange(0, start as int) + payload@.subrange(
            offset as int,
            offset + taken + 1,
        ));
        taken += 1;
    }
    let rest: usize = start + count;
    let mut at: usize = rest;
    while at < len
        invariant
            rest <= at <= len,
            len == row@.len(),
            start <= rest,
            offset + count <= payload@.len(),
            out@ == row@.subrange(0, start as int) + payload@.subrange(
                offset as int,
                offset + count,
            ) + row@.subrange(rest as int, at as int),
        decreases len - at,
    {
        out.push(row[at]);
        assert(out@ =~= row@.subrange(0, start as int) + payload@.subrange(
            offset as int,
            offset + count,
        ) + row@.subrange(rest as int, at + 1));
        at += 1;
    }
    assert(out@ =~= written_row(row@, x as int, width as int, payload@, offset as int)) by {
        assert(row@.subrange(0, 0) =~= Seq::<u8>::empty());
    }
    out
}

/// The pixels after an upload into `rect`.
fn write_pixels(pixels: Pixels, rect: PixelRect, payload: &Vec<u8>, pitch: u32) -> (out: Pixels)
    requires
        pixels.model().wf(),
        upload_in_order(pixels.info, rect, payload@, pitch),
    ensures
        out.model() == (TextureModel {
            info: pixels.info,
            rows: written_rows(pixels.model().rows, rect, payload@, pitch),
        }),
        out.model().wf(),
{
    let info = pixels.info;
    let mut rows = pixels.rows;
    let ghost before = rows_model(rows@);
    let top: usize = rect.y as usize;
    let left: usize = rect.x as usize;
    let width: usize = rect.width as usize;
    let height: usize = rect.height as usize;
    let stride: usize = pitch as usize;
    let available: usize = payload.len();
    let mut line: usize = 0;
    while line < height
        invariant
            line <= height,
            rows@.len() == before.len(),
            before.len() == info.height,
            forall|r: int| 0 <= r < before.len() ==> (#[trigger] before[r]).len() == 4 * info.width,
            top + height <= before.len(),
            left + width <= info.width,
            4 * width <= stride,
            stride * height <= available,
            available == payload@.len(),
            forall|r: int|
                0 <= r < rows@.len() ==> (#[trigger] rows@[r])@ == (if top <= r < top + line {
                    written_row(
                        before[r],
                        left as int,
                        width as int,
                        payload@,
                        (r - top) * stride,
                    )
                } else {
                    before[r]
                }),
        decreases height - line,
    {
        let r: usize = top + line;
        assert(line * stride + 4 * width <= available) by (nonlinear_arith)
            requires
                line < height,
                4 * width <= stride,
                stride * height <= available,
        ;
        let offset: usize = line * stride;
        assert(rows@[r as int]@ == before[r as int]);
        let fresh = write_row(&rows[r], left, width, payload, offset);
        rows.set(r, fresh);
        line += 1;
    }
    let out = Pixels { info, rows };
    assert(out.model().rows =~= written_rows(before, rect, payload@, pitch));
    assert forall|r: int| 0 <= r < out.model().rows.len() implies (#[trigger] out.model().rows[r]).len()
        == 4 * info.width by {
        assert(before[r].len() == 4 * info.width);
        if top <= r < top + height {
            let offset = (r - top) * stride;
            assert(0 <= offset && offset + 4 * width <= payload@.len()) by (nonlinear_arith)
                requires
                    offset == (r - top) * stride,
                    0 <= r - top < height,
                    0 <= 4 * width <= stride,
                    stride * height <= payload@.len(),
            ;
            assert(out.model().rows[r] == written_row(
                before[r],
                left as int,
                width as int,
                payload@,
                offset,
            ));
        }
    }
    out
}

/// A surface in memory.
pub struct Surface {
    textures: HashMap<u128, Pixels>,
    clip: Option<PixelRect>,
    draws: Vec<DrawCall>,
}

impl View for Surface {
    type V = SurfaceModel;

    closed spec fn view(&self) -> SurfaceModel {
        SurfaceModel {
            textures: Map::new(
                |id: TextureId| self.textures@.contains_key(slot_of(id)),
                |id: TextureId| self.textures@[slot_of(id)].model(),
            ),
            clip: self.clip,
            draws: self.draws@,
        }
    }
}

impl Surface {
    #[verifier::type_invariant]
    spec fn textures_wf(self) -> bool {
        forall|key: u128| #[trigger]
            self.textures@.contains_key(key) ==> self.textures@[key].model().wf()
    }

    /// A surface without textures, without clip rectangle, on which nothing
    /// was drawn.
    pub fn new() -> (surface: Surface)
        ensures
            surface@ == (SurfaceModel {
                textures: Map::<TextureId, TextureModel>::empty(),
                clip: None,
                draws: Seq::<DrawCall>::empty(),
            }),
    {
        let surface = Surface { textures: HashMap::new(), clip: None, draws: Vec::new() };
        assert(surface@.textures =~= Map::<TextureId, TextureModel>::empty());
        surface
    }

    /// Puts `pixels` in the place of the texture of `id`.
    fn put(&mut self, id: &TextureId, pixels: Pixels)
        requires
            pixels.model().wf(),
        ensures
            final(self)@ == (SurfaceModel {
                textures: old(self)@.textures.insert(*id, pixels.model()),
                ..old(self)@
            }),
    {
        proof {
            use_type_invariant(&*self);
        }
        let key = id.slot();
        let mut entries: HashMap<u128, Pixels> = HashMap::new();
        core::mem::swap(&mut self.textures, &mut entries);
        entries.insert(key, pixels);
        core::mem::swap(&mut self.textures, &mut entries);
        assert(self@.textures =~= old(self)@.textures.insert(*id, pixels.model())) by {
            assert forall|other: TextureId| other != *id implies slot_of(other) != key by {}
        }
    }

    /// Takes the texture of `id` out of the surface.
    fn take(&mut self, id: &TextureId) -> (taken: Option<Pixels>)
        ensures
            final(self)@ == (SurfaceModel {
                textures: old(self)@.textures.remove(*id),
                ..old(self)@
            }),
            match taken {
                Some(pixels) => {
                    &&& old(self)@.textures.contains_key(*id)
                    &&& pixels.model() == old(self)@.textures[*id]
                    &&& pixels.model().wf()
                },
                None => !old(self)@.textures.contains_key(*id),
            },
    {
        proof {
            use_type_invariant(&*self);
        }
        let key = id.slot();
        let mut entries: HashMap<u128, Pixels> = HashMap::new();
        core::mem::swap(&mut self.textures, &mut entries);
        let taken = entries.remove(&key);
        core::mem::swap(&mut self.textures, &mut entries);
        assert(self@.textures =~= old(self)@.textures.remove(*id)) by {
            assert forall|other: TextureId| other != *id implies slot_of(other) != key by {}
        }
        taken
    }
}

/// Computes [`upload_in_order`] for a payload of `available` bytes.
fn upload_fits(info: TextureInfo, rect: PixelRect, available: usize, pitch: u32) -> (fits: bool)
    ensures
        fits == ({
            &&& 0 <= rect.x
            &&& 0 <= rect.y
            &&& rect.x + rect.width <= info.width
            &&& rect.y + rect.height <= info.height
            &&& 4 * rect.width <= pitch
            &&& pitch * rect.height <= available
        }),
{
    if rect.x < 0 || rect.y < 0 {
        return false;
    }
    let right: u64 = rect.x as u64 + rect.width as u64;
    let bottom: u64 = rect.y as u64 + rect.height as u64;
    if right > info.width as u64 || bottom > info.height as u64 {
        return false;
    }
    if 4 * (rect.width as u64) > pitch as u64 {
        return false;
    }
    assert(pitch * rect.height <= 0xffff_ffff * 0xffff_ffff) by (nonlinear_arith)
        requires
            0 <= pitch <= 0xffff_ffff,
            0 <= rect.height <= 0xffff_ffff,
    ;
    let needed: u64 = (pitch as u64) * (rect.height as u64);
    needed <= available as u64
}

impl Surface {
    /// Whether the surface has a texture of `id`.
    fn holds(&self, id: &TextureId) -> (held: bool)
        ensures
            held == self@.textures.contains_key(*id),
    {
        let key = id.slot();
        self.textures.contains_key(&key)
    }

    /// Tries `command`, which belongs to a frame whose texture changes are
    /// `deltas`, and says whether it was carried out. A command that is
    /// refused changes nothing.
    pub fn run(&mut self, command: &Command, deltas: &Vec<(TextureId, ImageDelta)>) -> (done: bool)
        ensures
            done == accepts(old(self)@, *command, deltas@),
            final(self)@ == surface_step(old(self)@, *command, deltas@),
            surface_wf(final(self)@),
    {
        let done = match command {
            Command::CreateTexture { id, width, height } => {
                if self.holds(id) || *width == 0 || *height == 0 || *width as usize
                    > MAX_TEXTURE_WIDTH || *height as usize > MAX_TEXTURE_HEIGHT {
                    false
                } else {
                    let pixels = blank_pixels(TextureInfo { width: *width, height: *height });
                    self.put(id, pixels);
                    true
                }
            },
            Command::DestroyTexture { id } => {
                let taken = self.take(id);
                assert(taken is None ==> self@.textures =~= old(self)@.textures);
                taken.is_some()
            },
            Command::UpdateTexture { id, delta, region, pitch } => {
                if *delta >= deltas.len() {
                    false
                } else {
                    let payload = &deltas[*delta].1.pixels;
                    match self.take(id) {
                        None => {
                            assert(self@.textures =~= old(self)@.textures);
                            false
                        },
                        Some(pixels) => {
                            let rect = match region {
                                Some(rect) => *rect,
                                None => PixelRect {
                                    x: 0,
                                    y: 0,
                                    width: pixels.info.width,
                                    height: pixels.info.height,
                                },
                            };
                            if upload_fits(pixels.info, rect, payload.len(), *pitch) {
                                let written = write_pixels(pixels, rect, payload, *pitch);
                                self.put(id, written);
                                assert(self@.textures =~= surface_after(
                                    old(self)@,
                                    *command,
                                    deltas@,
                                ).textures);
                                true
                            } else {
                                self.put(id, pixels);
                                assert(self@.textures =~= old(self)@.textures);
                                false
                            }
                        },
                    }
                }
            },
            Command::SetClip { rect } => {
                proof {
                    use_type_invariant(&*self);
                }
                self.clip = Some(*rect);
                assert(self@.textures =~= old(self)@.textures);
                true
            },
            Command::DrawMesh { primitive, texture, triangles } => {
                let bound = match texture {
                    Some(id) => self.holds(id),
                    None => true,
                };
                if bound {
                    proof {
                        use_type_invariant(&*self);
                    }
                    let call = DrawCall {
                        clip: self.clip,
                        texture: *texture,
                        primitive: *primitive,
                        triangles: *triangles,
                    };
                    let mut calls: Vec<DrawCall> = Vec::new();
                    core::mem::swap(&mut self.draws, &mut calls);
                    calls.push(call);
                    core::mem::swap(&mut self.draws, &mut calls);
                    assert(self@.textures =~= old(self)@.textures);
                }
                bound
            },
            Command::ClearClip => {
                proof {
                    use_type_invariant(&*self);
                }
                self.clip = None;
                assert(self@.textures =~= old(self)@.textures);
                true
            },
        };
        proof {
            use_type_invariant(&*self);
        }
        done
    }

    /// Tries `commands` in order up to the first that is refused, and gives
    /// the number of commands carried out.
    pub fn run_all(&mut self, commands: &Vec<Command>, deltas: &Vec<(TextureId, ImageDelta)>) -> (done:
        usize)
        ensures
            done == carried_out(old(self)@, commands@, deltas@, commands@.len()),
            done <= commands@.len(),
            all_accepted(old(self)@, commands@, deltas@, done as nat),
            done < commands@.len() ==> !accepts(final(self)@, commands@[done as int], deltas@),
            final(self)@ == surface_after_commands(old(self)@, commands@, deltas@, done as nat),
            surface_wf(final(self)@),
    {
        let total: usize = commands.len();
        let mut done: usize = 0;
        proof {
            use_type_invariant(&*self);
        }
        while done < total
            invariant
                done <= total,
                total == commands@.len(),
                all_accepted(old(self)@, commands@, deltas@, done as nat),
                self@ == surface_after_commands(old(self)@, commands@, deltas@, done as nat),
                surface_wf(self@),
            decreases total - done,
        {
            if !self.run(&commands[done], deltas) {
                proof {
                    lemma_carried_out(old(self)@, commands@, deltas@, done as nat, total as nat);
                }
                return done;
            }
            done += 1;
        }
        proof {
            lemma_carried_out(old(self)@, commands@, deltas@, done as nat, total as nat);
        }
        done
    }

    /// The dimensions of the texture of `id`, if the surface has one.
    pub fn texture(&self, id: &TextureId) -> (found: Option<TextureInfo>)
        ensures
            found == (if self@.textures.contains_key(*id) {
                Some(self@.textures[*id].info)
            } else {
                None
            }),
            surface_wf(self@),
    {
        proof {
            use_type_invariant(self);
        }
        let key = id.slot();
        match self.textures.get(&key) {
            Some(pixels) => Some(pixels.info),
            None => None,
        }
    }

    /// Reads back the pixel in column `x` of row `y` of the texture of `id`
    /// as red, green, blue, alpha.
    pub fn pixel(&self, id: &TextureId, x: usize, y: usize) -> (rgba: Option<[u8; 4]>)
        ensures
            texel(self@, *id, x as int, y as int) == (match rgba {
                Some(bytes) => Some(bytes@),
                None => None,
            }),
    {
        proof {
            use_type_invariant(self);
        }
        let key = id.slot();
        match self.textures.get(&key) {
            Some(pixels) => {
                if x < pixels.info.width as usize && y < pixels.info.height as usize {
                    assert(pixels.model().wf());
                    assert(pixels.model().rows[y as int] == pixels.rows@[y as int]@);
                    let row = &pixels.rows[y];
                    let across: usize = row.len();
                    assert(across == 4 * pixels.info.width);
                    let at: usize = 4 * x;
                    let bytes = [row[at], row[at + 1], row[at + 2], row[at + 3]];
                    assert(bytes@ =~= row@.subrange(4 * x, 4 * x + 4));
                    Some(bytes)
                } else {
                    None
                }
            },
            None => None,
        }
    }

    /// The clip rectangle in force; `None` where drawing is not
    /// restricted.
    pub fn clip(&self) -> (clip: Option<PixelRect>)
        ensures
            clip == self@.clip,
    {
        self.clip
    }

    /// The draw calls that were carried out, oldest first.
    pub fn draws(&self) -> (calls: &Vec<DrawCall>)
        ensures
            calls@ == self@.draws,
    {
        &self.draws
    }
}

} // verus!
