use blender_rs::args::arg_command;
use blender_rs::utils::{config_folder_from, config_location_from, get_blend_config_default_location};
use std::path::PathBuf;

#[test]
fn config_location_is_inside_the_config_folder() {
    let location = config_location_from(Some(PathBuf::from("/home/a/.config"))).unwrap();
    assert_eq!(location, PathBuf::from("/home/a/.config/BlendFarm/BlenderManager.json"));
    assert_eq!(
        config_location_from(None).unwrap_err().kind(),
        std::io::ErrorKind::NotFound
    );
    assert_eq!(config_folder_from(Some(PathBuf::from("/home/a/.config"))).unwrap(), PathBuf::from("/home/a/.config/BlendFarm"));
    assert_eq!(config_folder_from(None).unwrap_err().kind(), std::io::ErrorKind::NotFound);
    let _ = get_blend_config_default_location();
}

#[test]
fn render_command_line() {
    let args = arg_command("/a/test.blend".to_owned(), "/c/render.py".to_owned(), "{}".to_owned());
    assert_eq!(
        args,
        vec!["--factory-startup", "-noaudio", "-b", "/a/test.blend", "-P", "/c/render.py", "--", "-c", "{}"]
    );
}
