//! The painter: a table of textures and the planning of frames against it.

use vstd::prelude::*;
use crate::command::{
    clip_after_commands, failure_of, push_update_commands, textures_after_commands, Command,
    PaintError,
};
use crate::frame::{
    count_disposition, draw_commands, first_rejection, frame_commands, free_commands,
    lemma_count_disposition_bound, lemma_rejection_is_first, primitive_commands, report_of,
    textures_after_deltas, textures_after_frame, textures_after_frees, upload_commands,
    FrameReport,
};
use crate::image::TexturesDelta;
use crate::mesh::{ClippedPrimitive, Disposition, Primitive};
use crate::rect::PixelRect;
use crate::texture_cache::{textures_fit, update_egui_texture, TextureCache, TextureInfo};
use crate::texture_id::TextureId;

verus! {

/// Plans frames for one render surface and keeps track of the textures that
/// exist on it.
pub struct Painter {
    textures: TextureCache,
}

/// What the backend has to do for one frame.
pub struct FramePlan {
    /// The commands, to be carried out in order.
    pub commands: Vec<Command>,
    /// What became of the frame's primitives.
    pub report: FrameReport,
    /// The textures that existed before the frame.
    pub before: TextureCache,
}

/// What is left to do after the backend failed on a command.
#[derive(Clone, Copy, Debug, PartialEq, Eq)]
pub struct Failure {
    /// The error to report for the frame.
    pub error: PaintError,
    /// The command that lifts a clip rectangle which the frame left in
    /// force; `None` where it left none.
    pub cleanup: Option<Command>,
}

impl View for Painter {
    type V = Map<TextureId, TextureInfo>;

    closed spec fn view(&self) -> Map<TextureId, TextureInfo> {
        self.textures@
    }
}

/// The clip rectangle that is in force after the first `count` of
/// `commands`, where none was in force before.
fn clip_in_force(commands: &Vec<Command>, count: usize) -> (clip: Option<PixelRect>)
    requires
        count <= commands@.len(),
    ensures
        clip == clip_after_commands(None, commands@, count as nat),
{
    let mut clip: Option<PixelRect> = None;
    let mut done: usize = 0;
    while done < count
        invariant
            done <= count <= commands@.len(),
            clip == clip_after_commands(None, commands@, done as nat),
        decreases count - done,
    {
        match commands[done] {
            Command::SetClip { rect } => {
                clip = Some(rect);
            },
            Command::ClearClip => {
                clip = None;
            },
            _ => {},
        }
        done += 1;
    }
    clip
}

impl Painter {
    /// A painter for a surface that holds no texture yet.
    pub fn new() -> (painter: Painter)
        ensures
            painter@ == Map::<TextureId, TextureInfo>::empty(),
            textures_fit(painter@),
    {
        Painter { textures: TextureCache::new() }
    }

    /// The texture that exists under `id`, if one does.
    pub fn lookup(&self, id: &TextureId) -> (found: Option<TextureInfo>)
        ensures
            found == (if self@.contains_key(*id) {
                Some(self@[*id])
            } else {
                None
            }),
            textures_fit(self@),
    {
        self.textures.lookup(id)
    }

    /// Forgets the texture of `id` and gives the command that destroys it.
    /// Where no texture exists under `id`, nothing changes and there is
    /// nothing to do.
    pub fn free(&mut self, id: &TextureId) -> (command: Option<Command>)
        ensures
            final(self)@ == old(self)@.remove(*id),
            command == (if old(self)@.contains_key(*id) {
                Some(Command::DestroyTexture { id: *id })
            } else {
                None
            }),
            textures_fit(final(self)@),
    {
        if self.textures.free(id) {
            Some(Command::DestroyTexture { id: *id })
        } else {
            None
        }
    }

    /// Plans one frame and brings the table of textures to where the frame
    /// leaves it.
    ///
    /// The texture changes come first, in order; then each primitive in
    /// order, textures being looked up in the table as the changes left it;
    /// then the clip rectangle is cleared; then the textures of
    /// `textures_delta.free` are destroyed. Callbacks and malformed meshes
    /// are passed over and counted in the report.
    ///
    /// Where a texture change is turned down the frame is refused as a
    /// whole: no command is issued and the table stays as it was.
    pub fn paint_and_update_textures<V>(
        &mut self,
        textures_delta: &TexturesDelta,
        paint_jobs: &[ClippedPrimitive<V>],
    ) -> (result: Result<FramePlan, PaintError>)
        ensures
            match first_rejection(
                old(self)@,
                textures_delta.set@,
                textures_delta.set@.len(),
            ) {
                Some(error) => {
                    &&& result matches Err(reported)
                    &&& reported == error
                    &&& final(self)@ == old(self)@
                },
                None => {
                    &&& result matches Ok(plan)
                    &&& plan.commands@ == frame_commands(
                        old(self)@,
                        textures_delta.set@,
                        paint_jobs@,
                        textures_delta.free@,
                    )
                    &&& plan.report == report_of(paint_jobs@, paint_jobs@.len())
                    &&& plan.before@ == old(self)@
                    &&& final(self)@ == textures_after_frame(
                        old(self)@,
                        textures_delta.set@,
                        textures_delta.free@,
                    )
                },
            },
            textures_fit(final(self)@),
    {
        let ghost start = self@;
        let ghost deltas = textures_delta.set@;
        let ghost jobs = paint_jobs@;
        let ghost free = textures_delta.free@;
        let mut working = self.textures.clone();
        let mut commands: Vec<Command> = Vec::new();

        let delta_count: usize = textures_delta.set.len();
        let mut at: usize = 0;
        while at < delta_count
            invariant
                at <= delta_count,
                delta_count == deltas.len(),
                deltas == textures_delta.set@,
                self@ == start,
                textures_fit(start),
                textures_fit(working@),
                first_rejection(start, deltas, at as nat) is None,
                working@ == textures_after_deltas(start, deltas, at as nat),
                commands@ == upload_commands(start, deltas, at as nat),
            decreases delta_count - at,
        {
            let entry = &textures_delta.set[at];
            let id: TextureId = entry.0;
            match update_egui_texture(&entry.0, &entry.1, &mut working) {
                Ok(update) => {
                    push_update_commands(&mut commands, id, at, &update);
                },
                Err(reason) => {
                    proof {
                        lemma_rejection_is_first(
                            start,
                            deltas,
                            (at + 1) as nat,
                            delta_count as nat,
                        );
                    }
                    return Err(PaintError::Rejected { index: at, id, reason });
                },
            }
            at += 1;
        }
        let ghost drawn_with = working@;
        let ghost uploads = commands@;

        let job_count: usize = paint_jobs.len();
        let mut report = FrameReport { drawn: 0, empty: 0, malformed: 0, skipped: 0 };
        let mut at: usize = 0;
        while at < job_count
            invariant
                at <= job_count,
                job_count == jobs.len(),
                jobs == paint_jobs@,
                self@ == start,
                working@ == drawn_with,
                textures_fit(drawn_with),
                commands@ == uploads + draw_commands(drawn_with, jobs, at as nat),
                report.drawn == count_disposition(jobs, at as nat, Disposition::Drawn),
                report.empty == count_disposition(jobs, at as nat, Disposition::Empty),
                report.malformed == count_disposition(jobs, at as nat, Disposition::Malformed),
                report.skipped == count_disposition(jobs, at as nat, Disposition::Skipped),
            decreases job_count - at,
        {
            proof {
                lemma_count_disposition_bound(jobs, at as nat, Disposition::Drawn);
                lemma_count_disposition_bound(jobs, at as nat, Disposition::Empty);
                lemma_count_disposition_bound(jobs, at as nat, Disposition::Malformed);
                lemma_count_disposition_bound(jobs, at as nat, Disposition::Skipped);
            }
            let ghost earlier = commands@;
            let job = &paint_jobs[at];
            match &job.primitive {
                Primitive::Callback => {
                    report.skipped += 1;
                },
                Primitive::Mesh(mesh) => {
                    commands.push(Command::SetClip { rect: job.clip_rect });
                    match mesh.classify() {
                        Disposition::Drawn => {
                            let texture = match mesh.texture_id {
                                Some(id) => {
                                    if working.lookup(&id).is_some() {
                                        Some(id)
                                    } else {
                                        None
                                    }
                                },
                                None => None,
                            };
                            let triangles: usize = mesh.indices.len() / 3;
                            commands.push(Command::DrawMesh { primitive: at, texture, triangles });
                            report.drawn += 1;
                        },
                        Disposition::Empty => {
                            report.empty += 1;
                        },
                        Disposition::Malformed => {
                            report.malformed += 1;
                        },
                        Disposition::Skipped => {},
                    }
                },
            }
            assert(commands@ =~= earlier + primitive_commands(
                drawn_with,
                jobs[at as int],
                at,
            ));
            assert(commands@ =~= uploads + draw_commands(drawn_with, jobs, (at + 1) as nat));
            at += 1;
        }
        let ghost draws = draw_commands(drawn_with, jobs, jobs.len());

        commands.push(Command::ClearClip);

        let free_count: usize = textures_delta.free.len();
        let mut at: usize = 0;
        while at < free_count
            invariant
                at <= free_count,
                free_count == free.len(),
                free == textures_delta.free@,
                self@ == start,
                textures_fit(working@),
                working@ == textures_after_frees(drawn_with, free, at as nat),
                commands@ == uploads + draws + seq![Command::ClearClip] + free_commands(
                    drawn_with,
                    free,
                    at as nat,
                ),
            decreases free_count - at,
        {
            let id: TextureId = textures_delta.free[at];
            if working.free(&id) {
                commands.push(Command::DestroyTexture { id });
            }
            assert(commands@ =~= uploads + draws + seq![Command::ClearClip] + free_commands(
                drawn_with,
                free,
                (at + 1) as nat,
            ));
            at += 1;
        }

        core::mem::swap(&mut self.textures, &mut working);
        proof {
            lemma_count_disposition_bound(jobs, jobs.len(), Disposition::Drawn);
            lemma_count_disposition_bound(jobs, jobs.len(), Disposition::Empty);
            lemma_count_disposition_bound(jobs, jobs.len(), Disposition::Malformed);
            lemma_count_disposition_bound(jobs, jobs.len(), Disposition::Skipped);
        }
        Ok(FramePlan { commands, report, before: working })
    }

    /// Takes note that the backend carried out the first `completed`
    /// commands of `plan` and failed on the next.
    ///
    /// The table of textures goes back to what exists on the backend: what
    /// existed before the frame, changed by the commands that were carried
    /// out. The result names the error to report and says whether a clip
    /// rectangle may still be in force and has to be lifted. Where
    /// `completed` is not less than the number of commands, none of them
    /// failed: the result is `None` and the table is where the whole plan
    /// leaves it.
    pub fn backend_failed(&mut self, plan: &FramePlan, completed: usize) -> (failure: Option<
        Failure,
    >)
        ensures
            final(self)@ == textures_after_commands(
                plan.before@,
                plan.commands@,
                if completed < plan.commands@.len() {
                    completed as nat
                } else {
                    plan.commands@.len()
                },
            ),
            failure == (if completed < plan.commands@.len() {
                Some(
                    Failure {
                        error: failure_of(plan.commands@[completed as int]),
                        cleanup: if clip_after_commands(
                            None,
                            plan.commands@,
                            (completed + 1) as nat,
                        ) is Some {
                            Some(Command::ClearClip)
                        } else {
                            None
                        },
                    },
                )
            } else {
                None
            }),
            textures_fit(final(self)@),
    {
        let issued: usize = plan.commands.len();
        let mut textures = plan.before.clone();
        textures.replay(&plan.commands, completed);
        self.textures = textures;
        if completed >= issued {
            return None;
        }
        let error = plan.commands[completed].failure();
        let cleanup = match clip_in_force(&plan.commands, completed + 1) {
            Some(_) => Some(Command::ClearClip),
            None => None,
        };
        Some(Failure { error, cleanup })
    }
}

} // verus!
