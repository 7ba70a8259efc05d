//! The animation and recording lifecycle around a renderer.
//!
//! An `AnimationHandle` owns a renderer together with a running flag and
//! a recording flag.  The host's frame scheduler calls `tick` once per
//! frame; while the handle is animating, a tick advances the device
//! clock and runs the scene's animation callback, and while it is also
//! recording, the frame's timestamp is captured for export.  Starting
//! and stopping touch only the flags: between a `start_animating`
//! immediately followed by `stop_animating` no tick has run, so the
//! animation callback is invoked zero times and the device is exactly as
//! it was.

use vstd::prelude::*;

use crate::callbacks::SceneCallbacks;
use crate::gpu::Gpu;
use crate::renderer::Renderer;

verus! {

pub struct AnimationHandle<C: SceneCallbacks> {
    renderer: Renderer<C>,
    animating: bool,
    recording: bool,
    frames_played: u64,
    captured_frames: Vec<u64>,
}

impl<C: SceneCallbacks> Renderer<C> {
    /// Wraps the renderer in an animation handle; the handle starts
    /// idle and not recording.
    pub fn into_animation_handle(self) -> (r: AnimationHandle<C>)
        requires
            self.wf(),
        ensures
            r.wf(),
            r.spec_renderer() == self,
            !r.spec_animating(),
            !r.spec_recording(),
            r.spec_frames_played() == 0,
            r.spec_captured_frames() == Seq::<u64>::empty(),
    {
        AnimationHandle::new(self)
    }
}

impl<C: SceneCallbacks> AnimationHandle<C> {
    pub closed spec fn spec_renderer(self) -> Renderer<C> {
        self.renderer
    }

    pub closed spec fn spec_animating(self) -> bool {
        self.animating
    }

    pub closed spec fn spec_recording(self) -> bool {
        self.recording
    }

    pub closed spec fn spec_frames_played(self) -> u64 {
        self.frames_played
    }

    pub closed spec fn spec_captured_frames(self) -> Seq<u64> {
        self.captured_frames@
    }

    pub open spec fn wf(self) -> bool {
        self.spec_renderer().wf()
    }

    pub fn new(renderer: Renderer<C>) -> (r: Self)
        requires
            renderer.wf(),
        ensures
            r.wf(),
            r.spec_renderer() == renderer,
            !r.spec_animating(),
            !r.spec_recording(),
            r.spec_frames_played() == 0,
            r.spec_captured_frames() == Seq::<u64>::empty(),
    {
        AnimationHandle {
            renderer,
            animating: false,
            recording: false,
            frames_played: 0,
            captured_frames: Vec::new(),
        }
    }

    pub fn renderer(&self) -> (r: &Renderer<C>)
        ensures
            r == self.spec_renderer(),
    {
        &self.renderer
    }

    /// Draws one frame outside the animation loop.
    pub fn render(&mut self)
        requires
            old(self).wf(),
        ensures
            final(self).wf(),
            Gpu::extends(
                old(self).spec_renderer().spec_gpu(),
                final(self).spec_renderer().spec_gpu(),
            ),
            final(self).spec_renderer().spec_resources() == old(
                self,
            ).spec_renderer().spec_resources(),
            final(self).spec_animating() == old(self).spec_animating(),
            final(self).spec_recording() == old(self).spec_recording(),
            final(self).spec_frames_played() == old(self).spec_frames_played(),
            final(self).spec_captured_frames() == old(self).spec_captured_frames(),
    {
        self.renderer.render();
    }

    /// Re-runs the update protocol of every uniform outside the
    /// animation loop.
    pub fn update_uniforms(&mut self)
        requires
            old(self).wf(),
        ensures
            final(self).wf(),
            Gpu::extends(
                old(self).spec_renderer().spec_gpu(),
                final(self).spec_renderer().spec_gpu(),
            ),
            final(self).spec_renderer().spec_resources() == old(
                self,
            ).spec_renderer().spec_resources(),
            final(self).spec_animating() == old(self).spec_animating(),
            final(self).spec_recording() == old(self).spec_recording(),
            final(self).spec_frames_played() == old(self).spec_frames_played(),
            final(self).spec_captured_frames() == old(self).spec_captured_frames(),
    {
        self.renderer.update_uniforms();
    }

    pub fn is_animating(&self) -> (r: bool)
        ensures
            r == self.spec_animating(),
    {
        self.animating
    }

    pub fn is_recording(&self) -> (r: bool)
        ensures
            r == self.spec_recording(),
    {
        self.recording
    }

    /// How many frame ticks have run while animating.
    pub fn frames_played(&self) -> (r: u64)
        ensures
            r == self.spec_frames_played(),
    {
        self.frames_played
    }

    /// Begins animating: only the flag changes, so no callback runs and
    /// the renderer — its device log included — is exactly as before.
    /// A no-op when already animating.
    pub fn start_animating(&mut self)
        ensures
            final(self).spec_animating(),
            final(self).spec_renderer() == old(self).spec_renderer(),
            final(self).spec_recording() == old(self).spec_recording(),
            final(self).spec_frames_played() == old(self).spec_frames_played(),
            final(self).spec_captured_frames() == old(self).spec_captured_frames(),
    {
        self.animating = true;
    }

    /// Stops animating before the next tick: only the flag changes, so
    /// a start immediately followed by a stop leaves zero callback
    /// invocations behind.  Safe to call when idle.
    pub fn stop_animating(&mut self)
        ensures
            !final(self).spec_animating(),
            final(self).spec_renderer() == old(self).spec_renderer(),
            final(self).spec_recording() == old(self).spec_recording(),
            final(self).spec_frames_played() == old(self).spec_frames_played(),
            final(self).spec_captured_frames() == old(self).spec_captured_frames(),
    {
        self.animating = false;
    }

    /// Begins capturing frame timestamps.  Captured output is valid only
    /// when the context was created with the drawing buffer preserved;
    /// that is the caller's responsibility and is not enforced here.
    pub fn start_recording(&mut self)
        ensures
            final(self).spec_recording(),
            final(self).spec_renderer() == old(self).spec_renderer(),
            final(self).spec_animating() == old(self).spec_animating(),
            final(self).spec_frames_played() == old(self).spec_frames_played(),
            final(self).spec_captured_frames() == old(self).spec_captured_frames(),
    {
        self.recording = true;
    }

    /// Stops capturing and hands the captured frame timestamps out for
    /// export; the handle's capture store is drained.
    pub fn stop_recording(&mut self) -> (r: Vec<u64>)
        ensures
            !final(self).spec_recording(),
            r@ == old(self).spec_captured_frames(),
            final(self).spec_captured_frames() == Seq::<u64>::empty(),
            final(self).spec_renderer() == old(self).spec_renderer(),
            final(self).spec_animating() == old(self).spec_animating(),
            final(self).spec_frames_played() == old(self).spec_frames_played(),
    {
        self.recording = false;
        let mut drained: Vec<u64> = Vec::new();
        core::mem::swap(&mut drained, &mut self.captured_frames);
        drained
    }

    /// One frame tick from the host scheduler.  Idle handles ignore it
    /// entirely; an animating handle advances the device clock to `now`,
    /// runs the scene's animation callback, counts the frame, and — when
    /// recording — captures the frame's timestamp.
    pub fn tick(&mut self, now: u64)
        requires
            old(self).wf(),
            now >= old(self).spec_renderer().spec_gpu().spec_time(),
        ensures
            final(self).wf(),
            final(self).spec_animating() == old(self).spec_animating(),
            final(self).spec_recording() == old(self).spec_recording(),
            !old(self).spec_animating() ==> *final(self) == *old(self),
            old(self).spec_animating() ==> {
                &&& Gpu::extends(
                    old(self).spec_renderer().spec_gpu(),
                    final(self).spec_renderer().spec_gpu(),
                )
                &&& final(self).spec_renderer().spec_gpu().spec_time() >= now
                &&& final(self).spec_renderer().spec_user_ctx() is Some == old(
                    self,
                ).spec_renderer().spec_user_ctx() is Some
                &&& final(self).spec_renderer().spec_resources() == old(
                    self,
                ).spec_renderer().spec_resources()
                &&& final(self).spec_renderer().spec_render_callback() == old(
                    self,
                ).spec_renderer().spec_render_callback()
                &&& final(self).spec_frames_played() == (
                    if old(self).spec_frames_played() == u64::MAX {
                        u64::MAX
                    } else {
                        (old(self).spec_frames_played() + 1) as u64
                    }
                )
                &&& final(self).spec_captured_frames() == (
                    if old(self).spec_recording() {
                        old(self).spec_captured_frames().push(now)
                    } else {
                        old(self).spec_captured_frames()
                    }
                )
            },
    {
        if !self.animating {
            return;
        }
        self.renderer.animate(now);
        if self.frames_played < u64::MAX {
            self.frames_played = self.frames_played + 1;
        }
        if self.recording {
            self.captured_frames.push(now);
        }
    }
}

} // verus!
