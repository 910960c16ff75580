use blender_rs::process::{BlenderEvent, RenderEvent, RenderLog};

#[test]
fn assure_child_stream_to_event_success() {
    // ensure frame works
    let line =
        "Fra:1 Mem:75.82M (Peak 75.82M) | Time:00:29.81 | Rendering 1 / 64 samples".to_owned();
    let mut mock = RenderLog::new(1);
    assert!(RenderLog::well_formed(&line));
    let event = mock.child_stream_to_event(line);
    match event {
        BlenderEvent::Rendering(RenderEvent::Progress { frame, current, total }) => {
            assert_eq!(frame, 1);
            assert_eq!(current.parse::<f32>().unwrap(), 1f32);
            assert_eq!(total.parse::<f32>().unwrap(), 64f32);
        }
        other => panic!("unexpected event {other:?}"),
    }

    let line = "Time:00:29.81".to_owned();
    let event = mock.child_stream_to_event(line.clone());
    assert_eq!(event, BlenderEvent::Info(line));
}

#[test]
fn frame_lines_move_the_current_frame() {
    let mut log = RenderLog::new(1);
    let event = log.child_stream_to_event("Fra:12 Mem:10M | Time:00:01.00 | Rendering 5 / 128 samples\n".to_owned());
    assert_eq!(
        event,
        BlenderEvent::Rendering(RenderEvent::Progress { frame: 12, current: "5".to_owned(), total: "128".to_owned() })
    );
    assert_eq!(log.current_frame, 12);
    let line = "Fra:x | Compositing\n".to_owned();
    let event = log.child_stream_to_event(line.clone());
    assert_eq!(event, BlenderEvent::Unhandled(line));
    assert_eq!(log.current_frame, 12);
}

#[test]
fn saved_line_completes_the_current_frame() {
    let mut log = RenderLog::new(3);
    let event = log.child_stream_to_event("Saved: '/tmp/out/0003.png'\n".to_owned());
    assert_eq!(event, BlenderEvent::Rendering(RenderEvent::Complete { frame: 3, path: "/tmp/out/0003.png".to_owned() }));
}

#[test]
fn other_lines_are_classified() {
    let mut log = RenderLog::new(1);
    let cases: Vec<(&str, fn(String) -> BlenderEvent)> = vec![
        ("EXCEPTION: boom\n", BlenderEvent::Error),
        ("Blender 4.2.0 (hash 123)\n", BlenderEvent::Info),
        ("Read blend: /tmp/a.blend\n", BlenderEvent::Info),
        ("regiondata free error\n", BlenderEvent::Warning),
        ("Color management: display \"sRGB\"\n", BlenderEvent::Info),
        ("Some Warning: careful\n", BlenderEvent::Warning),
        ("Some Error: failed\n", BlenderEvent::Error),
        ("Mem Use: 12M\n", BlenderEvent::Info),
        ("random output\n", BlenderEvent::Unhandled),
    ];
    for (line, expected) in cases {
        assert_eq!(log.child_stream_to_event(line.to_owned()), expected(line.to_owned()), "{line}");
    }
    assert_eq!(log.child_stream_to_event("Blender QUIT".to_owned()), BlenderEvent::Exit);
    // only lines that begin with "Blender " are candidates for the exit notice
    assert_eq!(
        log.child_stream_to_event("BLENDER QUIT".to_owned()),
        BlenderEvent::Unhandled("BLENDER QUIT".to_owned())
    );
    assert_eq!(log.child_stream_to_event("\n".to_owned()), BlenderEvent::Busy);
    assert_eq!(log.current_frame, 1);
}

#[test]
fn malformed_lines_are_recognised() {
    assert!(!RenderLog::well_formed("Fra:1 | Rendering 1 /"));
    assert!(!RenderLog::well_formed("Saved: no quote"));
    assert!(RenderLog::well_formed("Fra:1 | Rendering 1 / 2"));
    assert!(RenderLog::well_formed("Saved: 'x'"));
}

#[test]
fn quit_line_with_its_line_ending_is_exit() {
    let mut log = RenderLog::new(1);
    assert_eq!(log.child_stream_to_event("Blender quit\n".to_owned()), BlenderEvent::Exit);
    assert_eq!(log.child_stream_to_event("Blender quit\r\n".to_owned()), BlenderEvent::Exit);
    assert_eq!(log.child_stream_to_event("Blender QUIT".to_owned()), BlenderEvent::Exit);
    assert_eq!(
        log.child_stream_to_event("Blender 4.2.0\n".to_owned()),
        BlenderEvent::Info("Blender 4.2.0\n".to_owned())
    );
}
