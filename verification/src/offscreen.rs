//! A painter and the surface in memory that it paints on.
//!
//! The pair shows a frame from end to end: the frame is planned, its
//! commands are carried out one after the other, and a command that the
//! surface refuses ends the frame with an error, with the table of textures
//! put back to what the surface holds and the clip rectangle lifted.

use vstd::prelude::*;
use crate::command::{failure_of, textures_after_commands, Command, PaintError};
use crate::frame::{
    first_rejection, frame_commands, report_of, textures_after_deltas, FrameReport,
};
use crate::image::TexturesDelta;
use crate::laws::{lemma_frame_commands_lead_to_table, lemma_frame_sets_clip_for_each_mesh};
use crate::mesh::ClippedPrimitive;
use crate::painter::Painter;
use crate::surface::Surface;
use crate::surface_model::{
    carried_out, lemma_carried_out, lemma_clip_follows_commands, surface_after_commands,
    DrawCall, SurfaceModel, TextureModel,
};
use crate::surface_laws::{
    expected_draws, lemma_frame_on_surface, lemma_table_follows_surface, mirrors,
    whole_deltas_hold_pixels,
};
use crate::texture_cache::{textures_fit, TextureInfo};
use crate::texture_id::TextureId;

verus! {

/// A painter bound to a surface in memory. Between frames the surface holds
/// the textures of the painter's table and no clip rectangle is in force.
pub struct Offscreen {
    painter: Painter,
    surface: Surface,
}

impl Offscreen {
    #[verifier::type_invariant]
    spec fn in_step(self) -> bool {
        &&& mirrors(self.surface@, self.painter@)
        &&& textures_fit(self.painter@)
        &&& self.surface@.clip is None
    }

    /// The painter's table of textures.
    pub closed spec fn table(self) -> Map<TextureId, TextureInfo> {
        self.painter@
    }

    /// What the surface holds.
    pub closed spec fn screen(self) -> SurfaceModel {
        self.surface@
    }

    /// A painter without textures on a bare surface.
    pub fn new() -> (pair: Offscreen)
        ensures
            pair.table() == Map::<TextureId, TextureInfo>::empty(),
            pair.screen() == (SurfaceModel {
                textures: Map::<TextureId, TextureModel>::empty(),
                clip: None,
                draws: Seq::<DrawCall>::empty(),
            }),
    {
        Offscreen { painter: Painter::new(), surface: Surface::new() }
    }

    /// The painter.
    pub fn painter(&self) -> (painter: &Painter)
        ensures
            painter@ == self.table(),
    {
        &self.painter
    }

    /// The surface.
    pub fn surface(&self) -> (surface: &Surface)
        ensures
            surface@ == self.screen(),
            mirrors(self.screen(), self.table()),
            self.screen().clip is None,
    {
        proof {
            use_type_invariant(self);
        }
        &self.surface
    }

    /// Paints one frame: applies its texture changes, draws its primitives
    /// in order, clears the clip rectangle and frees its textures.
    ///
    /// A frame with a texture change that is turned down is refused before
    /// anything is done. Otherwise the commands of the frame are carried
    /// out in order. Where the surface refuses one, the frame ends there
    /// with the error of that command: the commands before it stay carried
    /// out, the table of textures holds what the surface holds, and no clip
    /// rectangle stays in force. The surface refuses none where every
    /// payload for a whole texture holds a pixel.
    pub fn apply_frame<V>(
        &mut self,
        textures_delta: &TexturesDelta,
        paint_jobs: &[ClippedPrimitive<V>],
    ) -> (result: Result<FrameReport, PaintError>)
        ensures
            match first_rejection(
                old(self).table(),
                textures_delta.set@,
                textures_delta.set@.len(),
            ) {
                Some(error) => {
                    &&& result == Err::<FrameReport, PaintError>(error)
                    &&& final(self).table() == old(self).table()
                    &&& final(self).screen() == old(self).screen()
                },
                None => {
                    let commands = frame_commands(
                        old(self).table(),
                        textures_delta.set@,
                        paint_jobs@,
                        textures_delta.free@,
                    );
                    let done = carried_out(
                        old(self).screen(),
                        commands,
                        textures_delta.set@,
                        commands.len(),
                    );
                    let reached = surface_after_commands(
                        old(self).screen(),
                        commands,
                        textures_delta.set@,
                        done,
                    );
                    &&& final(self).table() == textures_after_commands(
                        old(self).table(),
                        commands,
                        done,
                    )
                    &&& final(self).screen() == (SurfaceModel { clip: None, ..reached })
                    &&& result == (if done == commands.len() {
                        Ok::<FrameReport, PaintError>(report_of(paint_jobs@, paint_jobs@.len()))
                    } else {
                        Err::<FrameReport, PaintError>(failure_of(commands[done as int]))
                    })
                    &&& whole_deltas_hold_pixels(textures_delta.set@, textures_delta.set@.len())
                        ==> {
                        &&& done == commands.len()
                        &&& final(self).screen().draws == old(self).screen().draws
                            + expected_draws(
                            textures_after_deltas(
                                old(self).table(),
                                textures_delta.set@,
                                textures_delta.set@.len(),
                            ),
                            paint_jobs@,
                            paint_jobs@.len(),
                        )
                    }
                },
            },
            mirrors(final(self).screen(), final(self).table()),
            final(self).screen().clip is None,
    {
        proof {
            use_type_invariant(&*self);
        }
        let ghost table = self.table();
        let ghost screen = self.screen();
        let ghost deltas = textures_delta.set@;
        let mut taken = Offscreen::new();
        core::mem::swap(self, &mut taken);
        let mut painter = taken.painter;
        let mut surface = taken.surface;
        let result = match painter.paint_and_update_textures(textures_delta, paint_jobs) {
            Err(error) => Err(error),
            Ok(plan) => {
                let ghost commands = plan.commands@;
                let done = surface.run_all(&plan.commands, &textures_delta.set);
                proof {
                    lemma_table_follows_surface(screen, table, commands, deltas, done as nat);
                    lemma_clip_follows_commands(screen, commands, deltas, done as nat);
                    lemma_frame_commands_lead_to_table(
                        table,
                        deltas,
                        paint_jobs@,
                        textures_delta.free@,
                    );
                    lemma_frame_sets_clip_for_each_mesh(
                        table,
                        None,
                        deltas,
                        paint_jobs@,
                        textures_delta.free@,
                    );
                    if whole_deltas_hold_pixels(deltas, deltas.len()) {
                        assert(deltas.len() == textures_delta.set.len());
                        lemma_frame_on_surface(
                            screen,
                            table,
                            deltas,
                            paint_jobs@,
                            textures_delta.free@,
                        );
                        lemma_carried_out(
                            screen,
                            commands,
                            deltas,
                            commands.len(),
                            commands.len(),
                        );
                    }
                }
                proof {
                    if done < commands.len() {
                        assert(!(commands[done as int] is SetClip));
                        assert(!(commands[done as int] is ClearClip));
                    }
                }
                match painter.backend_failed(&plan, done) {
                    None => Ok(plan.report),
                    Some(failure) => {
                        if failure.cleanup.is_some() {
                            surface.run(&Command::ClearClip, &textures_delta.set);
                        }
                        Err(failure.error)
                    },
                }
            },
        };
        *self = Offscreen { painter, surface };
        result
    }
}

} // verus!
