//! The command router of the canvas worker.
//!
//! The worker owns exactly one backend, fixed at creation: direct (a
//! compositor-resident context) or readback (a locally owned context whose
//! frames are published as images). Each inbound command is routed to one
//! action for the surrounding loop to perform; state changes that need no
//! outside work are applied here, fully verified.

use vstd::prelude::*;

use crate::backend::{PublishOutcome, ReadbackModel, ReadbackState};
use crate::geom::{must_reallocate, Size};
use crate::keys::ImageKey;

verus! {

/// The direct backend: the compositor service owns the GPU surface, the
/// worker holds only the service's context identifier. No image key ever
/// exists in this mode.
#[derive(Clone, Copy, Debug)]
pub struct DirectState {
    pub context_id: u64,
    pub size: Size,
}

/// One worker's backend. Exactly one variant is live per worker for its
/// entire lifetime; the variant is fixed at creation and never swapped.
pub enum WebGLPaintState {
    Direct(DirectState),
    Readback(ReadbackState),
}

/// One inbound command, processed exactly once, in arrival order. `C` is
/// the drawing-command payload, `V` the VR-command payload; the router
/// never reads either.
pub enum Command<C, V> {
    /// A GPU drawing command to execute against the surface.
    WebGL(C),
    /// A VR compositor command.
    WebVR(V),
    /// Terminate the worker after releasing all tracked resources.
    Close,
    /// Resize or recreate the surface.
    Recreate(Size),
    /// A pixel-snapshot request; answered with an explicit no-data reply.
    SendPixels,
    /// A render-output request: publish the latest frame.
    SendData,
    /// A command belonging to the 2D-canvas worker protocol: its arrival
    /// here is a misrouted upstream message.
    Canvas2d,
}

/// What the surrounding loop must do after one command was routed.
pub enum Action<C, V> {
    /// Forward the drawing command to the compositor service against the
    /// owned context id.
    ForwardWebGL { context_id: u64, command: C },
    /// Apply the drawing command against the local context.
    ApplyWebGL { command: C },
    /// Forward the VR command to the compositor service.
    ForwardVR { context_id: u64, command: V },
    /// VR is unsupported under readback: report it and keep the loop alive.
    VRUnsupported,
    /// Release the listed keys with the compositor service, then stop the
    /// loop: terminal, no further commands are processed.
    ShutDown { release: Vec<ImageKey> },
    /// Ask the compositor service to resize the direct context in place.
    ForwardResize { context_id: u64, size: Size },
    /// Resize the local context — reallocating its buffer exactly when
    /// `reallocate` — then complete with `ReadbackState::recreate`.
    Resize { requested: Size, reallocate: bool },
    /// A resize arrived while the retirement slot was still occupied: a
    /// defect, to be failed loudly rather than silently proceeded past.
    ResizeRefused,
    /// Reply to the snapshot request with an explicit no-data signal.
    ReplyNoPixels,
    /// Reply to the render-output request with the direct context id.
    ReplyContextId { context_id: u64 },
    /// Read the frame back, transform it with `prepare_frame`, register or
    /// update the image as `outcome` says, release `outcome.release`, and
    /// reply with `outcome.key`.
    PublishFrame { outcome: PublishOutcome },
    /// A command of another worker protocol arrived: a fatal contract
    /// violation, the thread must abort immediately.
    ProtocolViolation,
}

impl WebGLPaintState {
    /// The backend chosen at creation holds a well-formed ledger.
    pub open spec fn well_formed(self) -> bool {
        match self {
            WebGLPaintState::Direct(_) => true,
            WebGLPaintState::Readback(r) => r@.well_formed(),
        }
    }

    /// A direct backend registered with the compositor service.
    pub fn new_direct(context_id: u64, size: Size) -> (s: WebGLPaintState)
        ensures
            s == WebGLPaintState::Direct(DirectState { context_id, size }),
            s.well_formed(),
    {
        WebGLPaintState::Direct(DirectState { context_id, size })
    }

    /// The readback fallback, taken when no direct context could be
    /// registered: all three key slots empty.
    pub fn new_readback(size: Size) -> (s: WebGLPaintState)
        ensures
            s matches WebGLPaintState::Readback(r) && r@ == ReadbackModel::init(size),
            s.well_formed(),
    {
        WebGLPaintState::Readback(ReadbackState::new(size))
    }

    /// Route one command. Commands that change only worker-owned state are
    /// completed here; the returned action is what is left for the
    /// unverified surroundings: sends, GL calls, replies.
    pub fn dispatch<C, V>(&mut self, cmd: Command<C, V>) -> (act: Action<C, V>)
        requires
            old(self).well_formed(),
            cmd is SendData ==> ((*old(self)) matches WebGLPaintState::Readback(r) ==> r@.next
                < u32::MAX),
        ensures
            final(self).well_formed(),
            match cmd {
                Command::WebGL(c) => *final(self) == *old(self) && match *old(self) {
                    WebGLPaintState::Direct(d) => act == (Action::<C, V>::ForwardWebGL {
                        context_id: d.context_id,
                        command: c,
                    }),
                    WebGLPaintState::Readback(_) => act == (Action::<C, V>::ApplyWebGL { command: c }),
                },
                Command::WebVR(v) => *final(self) == *old(self) && match *old(self) {
                    WebGLPaintState::Direct(d) => act == (Action::<C, V>::ForwardVR {
                        context_id: d.context_id,
                        command: v,
                    }),
                    WebGLPaintState::Readback(_) => act is VRUnsupported,
                },
                Command::Close => match *old(self) {
                    WebGLPaintState::Direct(_) => *final(self) == *old(self) && (act matches
                        Action::ShutDown { release } && release@ == Seq::<ImageKey>::empty()),
                    WebGLPaintState::Readback(r) => (*final(self)) matches WebGLPaintState::Readback(
                        r2,
                    ) && r2@ == r@.teardown().0 && (act matches Action::ShutDown { release }
                        && release@ == r@.teardown().1),
                },
                Command::Recreate(requested) => match *old(self) {
                    WebGLPaintState::Direct(d) => *final(self) == WebGLPaintState::Direct(
                        DirectState { context_id: d.context_id, size: requested },
                    ) && act == (Action::<C, V>::ForwardResize {
                        context_id: d.context_id,
                        size: requested,
                    }),
                    WebGLPaintState::Readback(r) => *final(self) == *old(self) && if r@.previous
                        is None {
                        act == (Action::<C, V>::Resize {
                            requested,
                            reallocate: must_reallocate(r@.size, requested),
                        })
                    } else {
                        act is ResizeRefused
                    },
                },
                Command::SendPixels => *final(self) == *old(self) && act is ReplyNoPixels,
                Command::SendData => match *old(self) {
                    WebGLPaintState::Direct(d) => *final(self) == *old(self) && act == (
                    Action::<C, V>::ReplyContextId { context_id: d.context_id }),
                    WebGLPaintState::Readback(r) => (*final(self)) matches WebGLPaintState::Readback(
                        r2,
                    ) && r2@ == r@.publish().0 && act == (Action::<C, V>::PublishFrame {
                        outcome: r@.publish().1,
                    }),
                },
                Command::Canvas2d => *final(self) == *old(self) && act is ProtocolViolation,
            },
    {
        match cmd {
            Command::WebGL(c) => match self {
                WebGLPaintState::Direct(d) => Action::ForwardWebGL {
                    context_id: d.context_id,
                    command: c,
                },
                WebGLPaintState::Readback(_) => Action::ApplyWebGL { command: c },
            },
            Command::WebVR(v) => match self {
                WebGLPaintState::Direct(d) => Action::ForwardVR {
                    context_id: d.context_id,
                    command: v,
                },
                WebGLPaintState::Readback(_) => Action::VRUnsupported,
            },
            Command::Close => match self {
                WebGLPaintState::Direct(_) => Action::ShutDown { release: Vec::new() },
                WebGLPaintState::Readback(r) => Action::ShutDown { release: r.teardown() },
            },
            Command::Recreate(requested) => match self {
                WebGLPaintState::Direct(d) => {
                    let context_id = d.context_id;
                    d.size = requested;
                    Action::ForwardResize { context_id, size: requested }
                },
                WebGLPaintState::Readback(r) => {
                    if r.slots.previous.is_some() {
                        Action::ResizeRefused
                    } else {
                        let reallocate = crate::geom::needs_reallocation(r.size, requested);
                        Action::Resize { requested, reallocate }
                    }
                },
            },
            Command::SendPixels => Action::ReplyNoPixels,
            Command::SendData => match self {
                WebGLPaintState::Direct(d) => Action::ReplyContextId { context_id: d.context_id },
                WebGLPaintState::Readback(r) => Action::PublishFrame { outcome: r.publish() },
            },
            Command::Canvas2d => Action::ProtocolViolation,
        }
    }
}

} // verus!
