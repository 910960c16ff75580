use blender_rs::blender::Blender;
use blender_rs::config::BlenderConfig;
use blender_rs::version::Version;

fn blender(path: &str, major: u64, minor: u64, patch: u64) -> Blender {
    Blender::new(path.to_owned(), Version::new(major, minor, patch))
}

#[test]
fn inserted_blender_is_found_and_replaced() {
    let mut config = BlenderConfig::new("/tmp/blenders".to_owned());
    let first = blender("/a/blender", 4, 2, 0);
    assert!(config.insert_blender(&first).is_none());
    assert_eq!(config.get_blender(&Version::new(4, 2, 0)), Some(&first));
    let second = blender("/b/blender", 4, 2, 0);
    assert_eq!(config.insert_blender(&second), Some(first));
    assert_eq!(config.get_blender(&Version::new(4, 2, 0)), Some(&second));
    assert_eq!(config.get_blenders().len(), 1);
}

#[test]
fn removed_blender_is_gone() {
    let mut config = BlenderConfig::new(String::new());
    let b = blender("/a/blender", 4, 1, 0);
    config.insert_blender(&b);
    config.insert_blender(&blender("/c/blender", 3, 6, 9));
    assert_eq!(config.remove_blender(&b), Some(b.clone()));
    assert_eq!(config.get_blender(&Version::new(4, 1, 0)), None);
    assert_eq!(config.remove_blender(&b), None);
    assert_eq!(config.get_blenders().len(), 1);
}

#[test]
fn partial_lookup_picks_the_newest_match() {
    let mut config = BlenderConfig::new(String::new());
    for b in [blender("a", 4, 2, 1), blender("b", 4, 2, 5), blender("c", 4, 3, 0), blender("d", 3, 6, 0)] {
        config.insert_blender(&b);
    }
    assert_eq!(config.get_blender_partial(4, 2).unwrap().get_version(), &Version::new(4, 2, 5));
    assert_eq!(config.get_blender_partial(4, 0).unwrap().get_version(), &Version::new(4, 3, 0));
    assert!(config.get_blender_partial(5, 0).is_none());
    assert_eq!(
        config.get_latest_blender_available(&Version::new(4, 2, 1)).unwrap().get_executable(),
        "a"
    );
    assert_eq!(
        config.get_latest_blender_available(&Version::new(4, 2, 9)).unwrap().get_executable(),
        "b"
    );
}

#[test]
fn invalid_blenders_are_removed() {
    let mut config = BlenderConfig::new(String::new());
    config.insert_blender(&blender("gone", 4, 0, 0));
    config.insert_blender(&blender("here", 4, 1, 0));
    let present: Vec<bool> = config.get_blenders().iter().map(|b| b.get_executable() == "here").collect();
    config.remove_invalid_blender(&present);
    assert!(config.get_blender(&Version::new(4, 0, 0)).is_none());
    assert!(config.get_blender(&Version::new(4, 1, 0)).is_some());
}

#[test]
fn install_path_can_change() {
    let mut config = BlenderConfig::new("/old".to_owned());
    config.set_install_path("/new".to_owned());
    assert_eq!(config.get_install_path(), "/new");
}
