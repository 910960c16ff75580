use blender_rs::error::BlenderError;
use blender_rs::models::{Format, RenderMode, SceneBlock, SceneInfo};

#[test]
fn assure_new_frame_succeed() {
    // matching start and end should provide frame struct
    let mode = RenderMode::new(1, 1);
    assert_eq!(mode, RenderMode::Frame(1));
}

#[test]
fn assure_new_animation_mode_succeed() {
    // non-equal value should produce animation instead of frame
    let mode = RenderMode::new(1, 2);
    assert_eq!(mode, RenderMode::Animation { start: 1, end: 2 });

    // Should be able to correct the animation frame
    let mode = RenderMode::new(2, 1);
    assert_eq!(mode, RenderMode::Animation { start: 1, end: 2 });
}

#[test]
fn assure_negative_animation_number_succeed() {
    let mode = RenderMode::new(-1, -2);
    assert_eq!(mode, RenderMode::Animation { start: -2, end: -1 });
}

#[test]
fn assure_try_new_succeed() {
    let mode = RenderMode::try_new("0", "0");
    assert!(mode.is_ok_and(|m| m.eq(&RenderMode::Frame(0))));

    let mode = RenderMode::try_new("0", "1");
    assert!(mode.is_ok_and(|m| m.eq(&RenderMode::Animation { start: 0, end: 1 })));

    let mode = RenderMode::try_new("zero", "one");
    assert!(mode.is_err());

    let mode = RenderMode::try_new("0", "one");
    assert!(mode.is_err());

    let mode = RenderMode::try_new("zero", "1");
    assert!(mode.is_err());

    let mode = RenderMode::try_new("", "");
    assert!(mode.is_err());

    let mode = RenderMode::try_new("0", "3");
    assert!(mode.is_ok_and(|m| m.eq(&RenderMode::Animation { start: 0, end: 3 })));
}

#[test]
fn render_mode_bounds_in_either_order_agree() {
    assert_eq!(RenderMode::new(7, -3), RenderMode::new(-3, 7));
    assert_eq!(RenderMode::new(-3, 7), RenderMode::Animation { start: -3, end: 7 });
    assert_eq!(RenderMode::new(i32::MIN, i32::MAX), RenderMode::Animation { start: i32::MIN, end: i32::MAX });
}

#[test]
fn render_mode_reads_signs_and_rejects_overflow() {
    assert_eq!(RenderMode::try_new("+5", "-5").unwrap(), RenderMode::Animation { start: -5, end: 5 });
    assert!(matches!(RenderMode::try_new("2147483648", "0"), Err(BlenderError::ParseInt(_))));
    assert!(matches!(RenderMode::try_new(" 1", "2"), Err(BlenderError::ParseInt(_))));
    assert!(matches!(RenderMode::try_new("-", "2"), Err(BlenderError::ParseInt(_))));
}

fn block(name: &str, frame_start: i32, frame_end: i32) -> SceneBlock {
    SceneBlock {
        id_name: name.to_owned(),
        samples: 64,
        width: 1920,
        height: 1080,
        frame_start,
        frame_end,
        fps: 24,
        output: "/tmp/render_".to_owned(),
    }
}

#[test]
fn scene_info_process_keeps_last_scene_settings() {
    let blocks = vec![block("SCScene", 1, 250), block("SCSCOther", 5, 10)];
    let cameras = vec!["CACamera".to_owned(), "CAside CA".to_owned()];
    let info = SceneInfo::process(&blocks, &cameras).unwrap();
    assert_eq!(info.scenes, vec!["Scene".to_owned(), "Other".to_owned()]);
    assert_eq!(info.cameras, vec!["Camera".to_owned(), "side ".to_owned()]);
    assert_eq!(info.frame_start, 5);
    assert_eq!(info.frame_end, 10);
    assert_eq!(info.render_width, 1920);
    assert_eq!(info.render_height, 1080);
    assert_eq!(info.fps, 24);
    assert_eq!(info.sample, 64);
    assert_eq!(info.output, "/tmp/render_");
    assert_eq!(info.selected_scene(), "Scene");
    assert_eq!(info.selected_camera(), "Camera");
}

#[test]
fn scene_info_process_without_scenes_is_empty() {
    let info = SceneInfo::process(&Vec::new(), &Vec::new()).unwrap();
    assert!(info.scenes.is_empty() && info.cameras.is_empty());
    assert_eq!((info.frame_start, info.frame_end, info.render_width, info.render_height), (0, 0, 0, 0));
    assert_eq!(info.selected_scene(), "");
    assert_eq!(info.selected_camera(), "");
}

#[test]
fn format_by_default_is_png() {
    assert_eq!(Format::default(), Format::PNG);
}
