use engine_render::camera::{CameraHandle, Cameras, MAX_CAMERAS, RenderCamera};
use engine_render::capture::{
    image_bytes, pending, request, result, shot_dir, ten, CaptureQueue, PixelFormat,
};
use engine_render::debug_input::{
    apply, bad_wheel, click_steps, dispatch, drag_steps, ended, find_nodes, focus, key, key_steps,
    landed, names_point, physical, point, queued, rec, refuses, shot, sweep_len, target, type_steps,
    wait, wheel_steps, Command, DebugQueue, Focus, Step, TextNode, Wait, WaitStep,
};
use engine_render::gizmo::{
    anchor, captures_pointer, geometry, mode, pick, set_mode, update, Anchor, Drag, Gesture, Gizmo,
    GizmoMode, Handle, Motion, Pointer, Reach, SlotAction, SlotView, Solid,
};
use engine_render::input::{
    keystrokes, mods, Input, Key, KeyCode, KeyEvent, Keystroke, LogicalKey, Mods, MouseButton,
    NamedKey, WindowEvent,
};
use engine_render::overlay::{
    record, OverlayCommand, OverlayVertex, PublishedOverlays, VERTEX_CAPACITY,
};
use engine_render::swapchain::{
    choose_present_mode, min_image_count, AcquireOutcome, AcquireStep, PreBatch, PresentMode,
    PresentOutcome, Semaphore, SwapchainRenderer,
};
use winit::keyboard::ModifiersState;

fn press(code: KeyCode, logical: LogicalKey, text: Option<&str>) -> WindowEvent {
    WindowEvent::KeyboardInput(KeyEvent {
        pressed: true,
        repeat: false,
        physical: Some(code),
        logical,
        text: text.map(|t| t.to_string()),
    })
}

#[test]
fn presses_show_for_one_frame() {
    let mut i = Input::new();
    let a = KeyCode::Letter(0);
    let event = press(a, LogicalKey::Character("a".to_string()), Some("a"));
    i.feed_window_event(&event);
    assert!(i.key_down(a) && i.key_pressed(a) && !i.key_released(a));
    assert_eq!(keystrokes(&i), &[Keystroke::Text("a".to_string())]);
    i.end_frame();
    assert!(i.key_down(a) && !i.key_pressed(a));
    assert!(i.keystrokes().is_empty());
    i.feed_window_event(&WindowEvent::KeyboardInput(KeyEvent {
        pressed: false,
        repeat: false,
        physical: Some(a),
        logical: LogicalKey::Other,
        text: None,
    }));
    assert!(!i.key_down(a) && i.key_released(a));
}

#[test]
fn repeats_type_but_do_not_press() {
    let mut i = Input::new();
    let code = KeyCode::Other(3);
    for repeat in [false, true, true] {
        i.feed_window_event(&WindowEvent::KeyboardInput(KeyEvent {
            pressed: true,
            repeat,
            physical: Some(code),
            logical: LogicalKey::Named(NamedKey::Backspace),
            text: Some("\u{8}".to_string()),
        }));
    }
    assert_eq!(
        i.keystrokes(),
        &vec![Keystroke::Key(Key::Backspace, Mods::none()); 3][..]
    );
    i.end_frame();
    i.feed_window_event(&WindowEvent::KeyboardInput(KeyEvent {
        pressed: true,
        repeat: true,
        physical: Some(code),
        logical: LogicalKey::Other,
        text: None,
    }));
    assert!(i.key_down(code) && !i.key_pressed(code));
}

#[test]
fn modifiers_split_text_from_commands() {
    let mut i = Input::new();
    let ctrl_alt = (ModifiersState::CONTROL | ModifiersState::ALT).bits();
    i.feed_window_event(&WindowEvent::ModifiersChanged(ctrl_alt));
    assert_eq!(mods(&i), Mods::ctrl() | Mods::alt());
    assert!(i.mods().has(Mods::ctrl()) && !i.mods().has(Mods::shift()));
    let a = KeyCode::Letter(0);
    i.feed_window_event(&press(a, LogicalKey::Character("A".to_string()), Some("\u{1}")));
    i.feed_window_event(&press(a, LogicalKey::Named(NamedKey::Other), Some("x")));
    let want = Keystroke::Key(Key::Char('a'), Mods::ctrl() | Mods::alt());
    assert_eq!(i.keystrokes(), &[want]);
    i.end_frame();

    let shift = (ModifiersState::SHIFT | ModifiersState::SUPER).bits();
    i.feed_window_event(&WindowEvent::ModifiersChanged(shift));
    assert_eq!(i.mods(), Mods::shift());
    i.feed_window_event(&press(a, LogicalKey::Character("A".to_string()), Some("A\r")));
    i.feed_window_event(&press(a, LogicalKey::Other, Some("\t")));
    assert_eq!(i.keystrokes(), &[Keystroke::Text("A".to_string())]);
}

#[test]
fn losing_focus_lets_go() {
    let mut i = Input::new();
    i.feed_window_event(&WindowEvent::MouseInput {
        pressed: true,
        button: MouseButton::Left,
    });
    assert!(i.mouse_down(MouseButton::Left) && i.mouse_pressed(MouseButton::Left));
    i.feed_window_event(&WindowEvent::Focused(true));
    assert!(i.mouse_down(MouseButton::Left));
    i.feed_window_event(&WindowEvent::Focused(false));
    assert!(!i.mouse_down(MouseButton::Left));
    i.feed_window_event(&WindowEvent::MouseInput {
        pressed: false,
        button: MouseButton::Other(4),
    });
    assert!(i.mouse_released(MouseButton::Other(4)));
    i.feed_window_event(&WindowEvent::CursorMoved {
        position: [1, 2],
        delta: [3, 4],
    });
    i.feed_window_event(&WindowEvent::MouseWheel { scroll: 9 });
    i.feed_window_event(&WindowEvent::Other);
    assert_eq!((i.cursor_position(), i.cursor_delta(), i.scroll_delta()), ([1, 2], [3, 4], 9));
    i.end_frame();
    assert_eq!((i.cursor_position(), i.cursor_delta(), i.scroll_delta()), ([1, 2], [0, 0], 0));
}

#[test]
fn captures_queue_up() {
    let mut q = CaptureQueue::new();
    assert_eq!(shot_dir(None), "target/shots");
    assert_eq!(shot_dir(Some("/x")), "/x");
    assert_eq!(request(&mut q, None, "target/shots", 17), "target/shots/shot-17.png");
    q.finish(Ok("done".to_string()));
    assert_eq!(result(&q), Some(Ok("done".to_string())));
    assert_eq!(request(&mut q, Some(""), "d/", 5), "d/shot-5.png");
    assert_eq!(result(&q), None, "a new request clears the last outcome");
    assert_eq!(request(&mut q, Some("a.png"), "d", 5), "a.png");
    assert_eq!(pending(&mut q).unwrap(), "target/shots/shot-17.png");
    assert_eq!(pending(&mut q).unwrap(), "d/shot-5.png");
    assert_eq!(pending(&mut q).unwrap(), "a.png");
    assert_eq!(pending(&mut q), None);
    assert_eq!(image_bytes(3, 5), 60);
}

#[test]
fn channels_round_to_the_nearest_level() {
    assert_eq!((ten(0), ten(1023), ten(512)), (0, 255, 128));
    assert_eq!((ten(2), ten(3)), (0, 1));
    assert_eq!(ten(0x400), 0, "only ten bits count");
}

#[test]
fn pixels_unpack_by_format() {
    let px = vec![10, 20, 30, 40, 99];
    assert_eq!(engine_render::capture::write(&PixelFormat::Rgba8, &px), Ok(vec![10, 20, 30, 255, 255]));
    assert_eq!(engine_render::capture::write(&PixelFormat::Bgra8, &px), Ok(vec![30, 20, 10, 255, 255]));
    let v: u32 = (1023 << 20) | (512 << 10);
    let packed = v.to_le_bytes().to_vec();
    assert_eq!(engine_render::capture::write(&PixelFormat::A2R10G10B10, &packed), Ok(vec![255, 128, 0, 255]));
    assert_eq!(engine_render::capture::write(&PixelFormat::A2B10G10R10, &packed), Ok(vec![0, 128, 255, 255]));
    assert_eq!(
        engine_render::capture::write(&PixelFormat::Other("R16_SFLOAT".to_string()), &px),
        Err("unsupported swapchain format R16_SFLOAT".to_string())
    );
}

#[test]
fn key_names_are_understood() {
    assert_eq!(
        key("ctrl+A"),
        Ok((Keystroke::Key(Key::Char('a'), Mods::ctrl()), Some(KeyCode::Letter(0))))
    );
    assert_eq!(
        key("Shift+Control+End"),
        Ok((Keystroke::Key(Key::End, Mods::ctrl() | Mods::shift()), None))
    );
    assert_eq!(
        key("G"),
        Ok((Keystroke::Text("g".to_string()), Some(KeyCode::Letter(6)))),
        "a lone character is typed"
    );
    assert_eq!(key("?"), Ok((Keystroke::Text("?".to_string()), None)));
    assert_eq!(
        key("shift+7"),
        Ok((Keystroke::Key(Key::Char('7'), Mods::shift()), Some(KeyCode::Digit(7))))
    );
    assert_eq!(
        key("esc"),
        Ok((Keystroke::Key(Key::Escape, Mods::none()), Some(KeyCode::Escape)))
    );
    assert_eq!(key("Hyper+a"), Err("err unknown modifier \"hyper\"".to_string()));
    assert_eq!(key("Foo\tbar"), Err("err unknown key \"foo\\tbar\"".to_string()));
    assert_eq!(physical("Return"), Some(KeyCode::Enter));
    assert_eq!(physical("space"), Some(KeyCode::Space));
    assert_eq!(physical("del"), Some(KeyCode::Delete));
    assert_eq!(physical("tab"), Some(KeyCode::Tab));
    assert_eq!(physical("Z"), Some(KeyCode::Letter(25)));
    assert_eq!(physical("7"), Some(KeyCode::Digit(7)));
    assert_eq!(physical("?"), None);
    assert_eq!(physical("home"), None);
}

fn reply(line: &str) -> String {
    match dispatch(line) {
        Command::Reply(r) => r,
        _ => panic!("a command"),
    }
}

#[test]
fn lines_become_commands() {
    assert!(matches!(dispatch("move  12,5 "), Command::Move(t) if t == "12,5"));
    assert!(matches!(
        dispatch("dblclick big cube"),
        Command::Click { target, right: false, double: true } if target == "big cube"
    ));
    assert!(matches!(
        dispatch("rclick x"),
        Command::Click { right: true, double: false, .. }
    ));
    assert!(matches!(
        dispatch("drag a b --to 3,4"),
        Command::Drag { from, to } if from == "a b" && to == "3,4"
    ));
    assert_eq!(reply("drag a -> b"), "err drag <target> --to <target>");
    assert!(matches!(dispatch("wheel -2.5"), Command::Wheel(t) if t == "-2.5"));
    assert!(matches!(dispatch("key Enter"), Command::Key(_, Some(KeyCode::Enter))));
    assert_eq!(reply("key enormous"), "err unknown key \"enormous\"");
    assert!(matches!(dispatch("type a b"), Command::Type(t) if t == "a b"));
    assert_eq!(reply("type"), "err type <text>");
    assert!(matches!(dispatch("wait"), Command::Wait));
    assert!(matches!(dispatch("shot"), Command::Shot(t) if t.is_empty()));
    assert!(matches!(
        dispatch("rec 30 click x"),
        Command::Rec { frames: 30, command } if command == "click x"
    ));
    assert_eq!(reply("rec"), "err rec <frames> [command…]");
    assert_eq!(reply("rec 601"), "err rec takes 1..600 frames");
    assert_eq!(reply("rec 0"), "err rec takes 1..600 frames");
    assert!(matches!(dispatch("find hull"), Command::Find(t) if t == "hull"));
    assert!(matches!(dispatch("tree x"), Command::Find(t) if t.is_empty()));
    assert!(matches!(dispatch("focus"), Command::Focus));
    assert!(matches!(dispatch("quit"), Command::Quit));
    assert_eq!(reply(""), "err empty");
    assert_eq!(reply("dance"), "err unknown command \"dance\"");
}

#[test]
fn points_are_told_from_names() {
    assert!(names_point("12, 5.5"));
    assert!(!names_point("12,x"));
    assert!(!names_point("é,1"));
    assert!(!names_point("125"));
    assert_eq!(point(" 1 , 2 "), Ok(("1".to_string(), "2".to_string())));
    assert_eq!(point("1"), Err("err expected x,y".to_string()));
}

fn node(index: u32, text: &str) -> TextNode {
    TextNode {
        index,
        generation: 0,
        text: text.to_string(),
        rect: ["46", "71", "28", "11"].map(|t| t.to_string()),
    }
}

#[test]
fn nodes_are_found_by_text() {
    let nodes = vec![node(21, "cube"), node(22, "hull"), node(23, "hull 2")];
    assert_eq!(target(&nodes, "ull"), Ok(1));
    assert_eq!(
        target(&nodes, "deck"),
        Err("err no visible node matching \"deck\"".to_string())
    );
    assert_eq!(
        find_nodes(&nodes, "hull"),
        "22.0 46 71 28 11 hull\n23.0 46 71 28 11 hull 2\n"
    );
    assert_eq!(find_nodes(&nodes, "deck"), "none\n");
    assert_eq!(find_nodes(&nodes, "").lines().count(), 3);
    assert_eq!(focus(&None), "none");
    let mut f = Focus {
        index: 4,
        generation: 2,
        field: Some("hi".to_string()),
    };
    assert_eq!(focus(&Some(f)), "4.2 field hi");
    f = Focus {
        index: 4,
        generation: 2,
        field: None,
    };
    assert_eq!(focus(&Some(f)), "4.2 node");
}

#[test]
fn gestures_become_frame_steps() {
    assert_eq!((sweep_len(0), sweep_len(7), sweep_len(500)), (1, 7, 48));
    let path = vec![[1, 1], [2, 2]];
    assert_eq!(click_steps(&path, [2, 2], false, true).len(), 6);
    let right = click_steps(&path, [2, 2], true, false);
    assert!(matches!(right[2], Step::Right([2, 2], true)));
    let drag = drag_steps(&path, [2, 2], &vec![[5, 5]], [5, 5]);
    assert_eq!(drag.len(), 6);
    assert!(matches!(drag[2], Step::Button([2, 2], true)));
    assert!(matches!(drag[5], Step::Button([5, 5], false)));

    let mut q = DebugQueue::new();
    assert!(q.pump().is_none());
    q.enabled = true;
    q.push(key_steps(Keystroke::Key(Key::Tab, Mods::none()), Some(KeyCode::Tab)));
    q.push(wheel_steps(3));
    q.push(type_steps("a b".to_string()));
    assert_eq!(queued(), "ok");
    let mut i = Input::new();
    for _ in 0..2 {
        let s = q.pump().unwrap();
        apply(&mut i, &s, [0, 0], 0);
    }
    assert!(i.key_pressed(KeyCode::Tab));
    assert_eq!(i.keystrokes(), &[Keystroke::Key(Key::Tab, Mods::none())]);
    for _ in 0..2 {
        let s = q.pump().unwrap();
        apply(&mut i, &s, [0, 0], 77);
    }
    assert!(!i.key_down(KeyCode::Tab));
    assert_eq!(i.scroll_delta(), 77);
    let typed = q.pump().unwrap();
    apply(&mut i, &typed, [0, 0], 77);
    assert_eq!(i.keystrokes()[1], Keystroke::Text("a b".to_string()));
    assert!(q.pump().is_none());
    assert_eq!(q.frames, 6);
    apply(&mut i, &Step::Button([4, 4], true), [4, 4], 0);
    assert!(i.mouse_pressed(MouseButton::Left));
    apply(&mut i, &Step::Right([4, 5], true), [4, 5], 0);
    assert!(i.mouse_down(MouseButton::Right));
    apply(&mut i, &Step::Move([9, 9]), [5, 4], 0);
    assert_eq!((i.cursor_position(), i.cursor_delta()), ([9, 9], [5, 4]));
}

#[test]
fn waits_end_two_frames_later() {
    let step = wait(Wait::ForQueue, true, 10, false);
    assert!(matches!(step, WaitStep::Again(Wait::ForFrames { from: 10 })));
    let frames = Wait::ForFrames { from: 10 };
    assert!(matches!(wait(frames, true, 11, false), WaitStep::Again(_)));
    assert!(matches!(wait(frames, true, 12, true), WaitStep::Done(r) if r == "ok"));
    assert!(matches!(
        wait(frames, true, 11, true),
        WaitStep::Done(r) if r == "err timeout waiting for a frame"
    ));
    assert!(matches!(wait(Wait::ForQueue, false, 1, false), WaitStep::Again(Wait::ForQueue)));
    assert!(matches!(
        wait(Wait::ForQueue, false, 1, true),
        WaitStep::Done(r) if r == "err timeout waiting for the queue"
    ));
    let ok = Some(Ok("/p".to_string()));
    let failed = Some(Err("e".to_string()));
    assert_eq!(shot(&ok, "w", false), Some("ok /p".to_string()));
    assert_eq!(shot(&failed, "w", false), Some("err e".to_string()));
    assert_eq!(shot(&None, "w", false), None);
    assert_eq!(shot(&ok, "w", true), Some("err timeout capturing w".to_string()));
    let paths = vec!["a.png".to_string(), "b.png".to_string()];
    assert_eq!(rec(false, &ok, &paths, false), None);
    assert_eq!(rec(true, &ok, &paths, false), Some("a.png\nb.png\n".to_string()));
    assert_eq!(rec(true, &failed, &paths, false), Some("err e".to_string()));
    assert_eq!(rec(true, &ok, &paths, true), Some("err timeout recording".to_string()));
    assert_eq!(landed("60", "76.5"), "ok 60 76.5");
    assert_eq!(bad_wheel(), "err wheel <lines>");
    assert!(refuses("err x") && !refuses("ok"));
    assert_eq!((ended("ok"), ended("a\n")), ("ok\n".to_string(), "a\n".to_string()));
}

fn view() -> SlotView {
    SlotView {
        camera: true,
        alive: true,
        open: true,
        ray: true,
        over: true,
        picked: Some(Handle::Axis(1)),
    }
}

fn pointer(down: bool, pressed: bool) -> Pointer {
    Pointer {
        left_down: down,
        left_pressed: pressed,
        ui_has_it: false,
    }
}

#[test]
fn gizmo_modes_are_remembered() {
    let mut g = Gizmo::new();
    assert_eq!(mode(&g), GizmoMode::Translate);
    for m in [GizmoMode::Scale, GizmoMode::Rotate, GizmoMode::Translate] {
        set_mode(&mut g, m);
        assert_eq!(mode(&g), m);
    }
    g.mode = 200;
    assert_eq!(mode(&g), GizmoMode::Translate);
}

#[test]
fn a_drag_stays_with_its_camera() {
    let mut g = Gizmo::new();
    let views = vec![view(); MAX_CAMERAS];
    assert!(update(&mut g, &views, pointer(true, true)).is_empty());
    g.set_target(&CameraHandle(0), 1, Some(5));
    g.set_target(&CameraHandle(2), 1, Some(6));
    let hover = update(&mut g, &views, pointer(false, false));
    assert!(captures_pointer(&g));
    assert_eq!(hover[1], SlotAction::Hide, "no target");
    assert_eq!(
        hover[2],
        SlotAction::Show {
            hovered: Some(Handle::Axis(1)),
            gesture: Gesture::Nothing
        }
    );
    let press = update(&mut g, &views, pointer(true, true));
    assert_eq!(
        press[0],
        SlotAction::Show {
            hovered: Some(Handle::Axis(1)),
            gesture: Gesture::Begin(Handle::Axis(1))
        }
    );
    let bare = SlotAction::Show {
        hovered: None,
        gesture: Gesture::Nothing,
    };
    assert_eq!(press[2], bare, "the first camera has it");
    assert_eq!(
        g.drag,
        Some(Drag {
            camera_slot: 0,
            handle: Handle::Axis(1)
        })
    );
    let mut away = views.clone();
    away[0].over = false;
    away[0].picked = None;
    let follow = update(&mut g, &away, pointer(true, false));
    assert_eq!(
        follow[0],
        SlotAction::Show {
            hovered: Some(Handle::Axis(1)),
            gesture: Gesture::Follow(Handle::Axis(1))
        }
    );
    assert_eq!(follow[2], bare);
    away[0].camera = false;
    away[2].open = false;
    let done = update(&mut g, &away, pointer(false, false));
    assert_eq!((done[0], done[2]), (SlotAction::Leave, SlotAction::Hide));
    assert!(g.drag.is_none() && !captures_pointer(&g));
    g.set_target(&CameraHandle(0), 1, None);
    assert!(g.targets[0].is_none());
}

fn px(v: f32) -> u32 {
    v.to_bits()
}

#[test]
fn the_most_specific_handle_is_picked() {
    let mut r = Reach {
        rings: [px(20.0), px(8.5), px(8.0)],
        center: Some(px(3.0)),
        planes: [None, Some([px(0.3), px(0.55)]), Some([px(0.25), px(0.5)])],
        axes: [Some(px(1.0)), Some(px(1.0)), None],
    };
    assert_eq!(pick(GizmoMode::Rotate, &r), Some(Handle::Axis(2)));
    assert_eq!(pick(GizmoMode::Scale, &r), Some(Handle::Uniform));
    assert_eq!(pick(GizmoMode::Translate, &r), Some(Handle::Plane(2)));
    r.center = Some(px(9.0));
    r.planes = [None; 3];
    assert_eq!(pick(GizmoMode::Scale, &r), Some(Handle::Axis(0)), "the first of equals");
    assert_eq!(pick(GizmoMode::Translate, &r), Some(Handle::Axis(0)));
    r.axes = [Some(f32::NAN.to_bits()), Some(px(9.0)), None];
    r.rings = [px(f32::MAX); 3];
    assert_eq!(pick(GizmoMode::Translate, &r), None);
    assert_eq!(pick(GizmoMode::Rotate, &r), None);
}

#[test]
fn handles_do_what_their_mode_says() {
    assert_eq!(engine_render::gizmo::apply(GizmoMode::Translate, Handle::Axis(1)), Motion::MoveAlong(1));
    assert_eq!(engine_render::gizmo::apply(GizmoMode::Translate, Handle::Plane(0)), Motion::MoveIn(0));
    assert_eq!(engine_render::gizmo::apply(GizmoMode::Rotate, Handle::Axis(2)), Motion::TurnAround(2));
    assert_eq!(engine_render::gizmo::apply(GizmoMode::Scale, Handle::Axis(0)), Motion::ScaleAlong(0));
    assert_eq!(engine_render::gizmo::apply(GizmoMode::Scale, Handle::Uniform), Motion::ScaleAll);
    assert_eq!(engine_render::gizmo::apply(GizmoMode::Rotate, Handle::Uniform), Motion::Nothing);
    assert_eq!(anchor(GizmoMode::Rotate, Handle::Axis(2)), Anchor::RingAngle(2));
    assert_eq!(anchor(GizmoMode::Scale, Handle::Axis(2)), Anchor::AlongAxis(2));
    assert_eq!(anchor(GizmoMode::Scale, Handle::Uniform), Anchor::ScreenDistance);
    assert_eq!(anchor(GizmoMode::Translate, Handle::Plane(1)), Anchor::PlanePoint(1));
    let t = geometry(GizmoMode::Translate, Some(Handle::Plane(1)));
    assert_eq!(t.len(), 9);
    assert!(t.iter().all(|s| s.highlight == (s.solid == Solid::Quad(1))));
    assert_eq!(geometry(GizmoMode::Scale, None).len(), 7);
    assert_eq!(geometry(GizmoMode::Rotate, Some(Handle::Axis(0)))[0].highlight, true);
}

#[test]
fn overlays_draw_what_was_published() {
    let mut all = PublishedOverlays::new();
    let v = OverlayVertex {
        position: [1, 2, 3],
        color: [4; 4],
    };
    let mut cameras = Cameras::new();
    let camera = CameraHandle::new(&mut cameras, 0);
    let render = RenderCamera::new_match_swapchain(camera, [8, 8], &vec![]);
    let empty = render.write_overlay(&cameras, &all, [7; 16], [1, 2, 3]);
    assert_eq!((empty.grid.instance_count, empty.gizmo.instance_count), (0, 0));
    assert_eq!((empty.params.view_proj, empty.params.eye), ([7; 16], [1, 2, 3, 0]));
    assert_eq!(empty.params.grid, [0; 4]);
    all.publish(0, vec![v; 6]);
    all.publish(1, vec![v; VERTEX_CAPACITY + 1]);
    camera.set_grid(&mut cameras, Some([5, 6, 7, 8]));
    let w = render.write_overlay(&cameras, &all, [7; 16], [1, 2, 3]);
    assert_eq!((w.grid.vertex_count, w.grid.instance_count), (3, 1));
    assert_eq!((w.gizmo.vertex_count, w.gizmo.instance_count), (6, 1));
    assert_eq!(w.params.grid, [5, 6, 7, 8]);
    let full = engine_render::overlay::write(&all, 1, [0; 16], [0; 3], None);
    assert_eq!(full.vertices.len(), VERTEX_CAPACITY);
    all.publish(0, vec![]);
    let w = render.write_overlay(&cameras, &all, [7; 16], [1, 2, 3]);
    assert_eq!(w.gizmo.instance_count, 0);
    let r = record([7, 8]);
    assert_eq!(r[0], OverlayCommand::SetViewport { width: 7, height: 8 });
    assert_eq!(r[5], OverlayCommand::Draw { command: 1 });
}

#[test]
fn present_modes_prefer_low_latency() {
    let all = vec![PresentMode::Fifo, PresentMode::Immediate, PresentMode::Mailbox];
    assert_eq!(choose_present_mode(&all), PresentMode::Mailbox);
    assert_eq!(choose_present_mode(&all[..2].to_vec()), PresentMode::Immediate);
    assert_eq!(choose_present_mode(&vec![]), PresentMode::Fifo);
    assert_eq!((min_image_count(3, 4), min_image_count(5, 4)), (4, 5));
}

#[test]
fn the_swapchain_never_waits_on_itself() {
    let mut s = SwapchainRenderer::new(3, PresentMode::Fifo, 2);
    let mut waits = Vec::new();
    for image_index in [0, 1, 1, 2] {
        let semaphore = match s.acquire([8, 8]) {
            AcquireStep::Acquire { semaphore } => semaphore,
            other => panic!("{other:?}"),
        };
        let ok = AcquireOutcome::Acquired {
            image_index,
            is_suboptimal: false,
        };
        let frame = s.acquired(semaphore, ok).unwrap();
        waits.push((semaphore, s.wait_previous_frame()));
        s.submit(frame, None, 7, &vec![], &vec![]);
    }
    assert_eq!(waits, vec![(0, None), (1, Some(0)), (0, None), (1, Some(1))]);
}

#[test]
fn the_swapchain_is_recreated_when_it_must() {
    let mut s = SwapchainRenderer::new(3, PresentMode::Fifo, 2);
    s.set_present_mode(PresentMode::Fifo);
    assert!(!s.needs_recreate);
    s.set_present_mode(PresentMode::Mailbox);
    assert_eq!(s.acquire([0, 8]), AcquireStep::Skip);
    assert_eq!(s.acquire([8, 8]), AcquireStep::Recreate);
    assert!(s.recreated(4));
    assert_eq!(s.image_count(), 4);
    assert_eq!(s.acquire([8, 8]), AcquireStep::Skip, "that frame is over");
    assert_eq!(s.acquire([8, 8]), AcquireStep::Acquire { semaphore: 0 });
    assert!(s.acquired(0, AcquireOutcome::OutOfDate).is_none());
    assert_eq!(s.acquire([8, 8]), AcquireStep::Recreate);
    assert!(!s.recreated(4));
    s.presented(&vec![PresentOutcome::Presented { suboptimal: false }]);
    assert!(!s.needs_recreate);
    s.presented(&vec![PresentOutcome::Presented { suboptimal: true }]);
    assert!(s.needs_recreate);
    s.recreated(4);
    s.presented(&vec![PresentOutcome::OutOfDate]);
    assert!(s.needs_recreate);
    s.recreated(4);
    let ok = AcquireOutcome::Acquired {
        image_index: 1,
        is_suboptimal: true,
    };
    let frame = s.acquired(1, ok).unwrap();
    assert!(s.needs_recreate);
    s.resize();
    let pre = PreBatch {
        command_buffer: 5,
        signals: vec![Semaphore::Other(6)],
    };
    let b = s.submit(frame, Some(pre), 7, &vec![Semaphore::Other(6)], &vec![]);
    assert_eq!((b.len(), b[0].command_buffer, b[1].command_buffer), (2, 5, 7));
    assert_eq!(b[1].waits, vec![Semaphore::ImageAvailable(1), Semaphore::Other(6)]);
    assert_eq!(b[1].signals, vec![Semaphore::RenderFinished(1)]);
}
