use webgl_paint::dispatch::Action;
use webgl_paint::dispatch::Command;
use webgl_paint::dispatch::WebGLPaintState;
use webgl_paint::geom::Size;
use webgl_paint::keys::ImageKey;

type Cmd = Command<u32, &'static str>;

#[test]
fn direct_backend_forwards_drawing_and_vr_commands() {
    let mut state = WebGLPaintState::new_direct(7, Size::new(64, 64));
    match state.dispatch(Cmd::WebGL(42)) {
        Action::ForwardWebGL { context_id, command } => {
            assert_eq!(context_id, 7);
            assert_eq!(command, 42);
        },
        _ => panic!("drawing command not forwarded"),
    }
    match state.dispatch(Cmd::WebVR("pose")) {
        Action::ForwardVR { context_id, command } => {
            assert_eq!(context_id, 7);
            assert_eq!(command, "pose");
        },
        _ => panic!("vr command not forwarded"),
    }
}

#[test]
fn direct_backend_replies_with_its_context_id() {
    let mut state = WebGLPaintState::new_direct(9, Size::new(64, 64));
    match state.dispatch(Cmd::SendData) {
        Action::ReplyContextId { context_id } => assert_eq!(context_id, 9),
        _ => panic!("render output request not answered with the context id"),
    }
}

#[test]
fn direct_backend_resize_is_forwarded_in_place() {
    let mut state = WebGLPaintState::new_direct(3, Size::new(64, 64));
    match state.dispatch(Cmd::Recreate(Size::new(100, 50))) {
        Action::ForwardResize { context_id, size } => {
            assert_eq!(context_id, 3);
            assert_eq!(size, Size::new(100, 50));
        },
        _ => panic!("direct resize not forwarded"),
    }
    match state {
        WebGLPaintState::Direct(d) => assert_eq!(d.size, Size::new(100, 50)),
        _ => panic!("backend variant changed"),
    }
}

#[test]
fn direct_backend_closes_with_nothing_to_release() {
    let mut state = WebGLPaintState::new_direct(3, Size::new(64, 64));
    match state.dispatch(Cmd::Close) {
        Action::ShutDown { release } => assert!(release.is_empty()),
        _ => panic!("close not answered with shutdown"),
    }
}

#[test]
fn readback_backend_applies_drawing_commands_locally() {
    let mut state = WebGLPaintState::new_readback(Size::new(64, 64));
    match state.dispatch(Cmd::WebGL(5)) {
        Action::ApplyWebGL { command } => assert_eq!(command, 5),
        _ => panic!("drawing command not applied locally"),
    }
    assert!(matches!(state.dispatch(Cmd::WebVR("pose")), Action::VRUnsupported));
}

#[test]
fn snapshot_requests_get_an_explicit_no_data_reply() {
    let mut direct = WebGLPaintState::new_direct(1, Size::new(4, 4));
    assert!(matches!(direct.dispatch(Cmd::SendPixels), Action::ReplyNoPixels));
    let mut readback = WebGLPaintState::new_readback(Size::new(4, 4));
    assert!(matches!(readback.dispatch(Cmd::SendPixels), Action::ReplyNoPixels));
}

#[test]
fn misrouted_commands_are_a_fatal_protocol_violation() {
    let mut state = WebGLPaintState::new_readback(Size::new(4, 4));
    assert!(matches!(state.dispatch(Cmd::Canvas2d), Action::ProtocolViolation));
}

fn publish_key(state: &mut WebGLPaintState) -> (ImageKey, bool, Option<ImageKey>) {
    match state.dispatch(Cmd::SendData) {
        Action::PublishFrame { outcome } => (outcome.key, outcome.registered, outcome.release),
        _ => panic!("render output request not answered with a publish"),
    }
}

#[test]
fn fallback_worker_end_to_end() {
    // Direct context creation failed; the worker fell back to readback.
    let mut state = WebGLPaintState::new_readback(Size::new(64, 64));

    let (k1, registered1, release1) = publish_key(&mut state);
    assert!(registered1);
    assert_eq!(release1, None);

    match state.dispatch(Cmd::Recreate(Size::new(32, 32))) {
        Action::Resize { requested, reallocate } => {
            assert_eq!(requested, Size::new(32, 32));
            assert!(!reallocate);
        },
        _ => panic!("shrink not routed as a clip-only resize"),
    }
    match &mut state {
        WebGLPaintState::Readback(r) => r.recreate(Size::new(32, 32), None),
        _ => panic!("backend variant changed"),
    }

    let (k2, registered2, release2) = publish_key(&mut state);
    assert!(registered2);
    assert_ne!(k1, k2);
    assert_eq!(release2, None);
    // K1 is now pending release, one epoch away.
    match &state {
        WebGLPaintState::Readback(r) => assert_eq!(r.slots.stale, Some(k1)),
        _ => panic!("backend variant changed"),
    }

    match state.dispatch(Cmd::Close) {
        Action::ShutDown { release } => {
            assert_eq!(release.len(), 2);
            assert!(release.contains(&k1));
            assert!(release.contains(&k2));
        },
        _ => panic!("close not answered with shutdown"),
    }
}

#[test]
fn resize_while_retirement_slot_occupied_is_refused() {
    let mut state = WebGLPaintState::new_readback(Size::new(64, 64));
    let (k1, _, _) = publish_key(&mut state);
    match state.dispatch(Cmd::Recreate(Size::new(32, 32))) {
        Action::Resize { .. } => {},
        _ => panic!("first resize refused"),
    }
    match &mut state {
        WebGLPaintState::Readback(r) => r.recreate(Size::new(32, 32), None),
        _ => panic!("backend variant changed"),
    }
    // A second resize before any intervening publish finds the retirement
    // slot still holding k1: refused, state untouched.
    assert!(matches!(state.dispatch(Cmd::Recreate(Size::new(128, 128))), Action::ResizeRefused));
    match &state {
        WebGLPaintState::Readback(r) => {
            assert_eq!(r.slots.previous, Some(k1));
            assert_eq!(r.size, Size::new(32, 32));
        },
        _ => panic!("backend variant changed"),
    }
}

#[test]
fn grow_resize_is_routed_with_reallocation() {
    let mut state = WebGLPaintState::new_readback(Size::new(64, 64));
    match state.dispatch(Cmd::Recreate(Size::new(64, 65))) {
        Action::Resize { requested, reallocate } => {
            assert_eq!(requested, Size::new(64, 65));
            assert!(reallocate);
        },
        _ => panic!("grow not routed as a reallocating resize"),
    }
}
