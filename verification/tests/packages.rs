use blender_rs::category::BlenderCategory;
use blender_rs::error::BlenderCategoryError;
use blender_rs::packages::{Bundle, Custom, DownloadLink, Downloaded, Package};
use blender_rs::portal::Portal;
use blender_rs::utils::{get_extension, get_valid_arch};
use blender_rs::version::Version;
use std::cmp::Ordering;

fn mock_downloadlink() -> DownloadLink {
    let version = Version::new(4, 0, 1);
    let file_name = "test_file.txt".to_owned();
    let download_url = "file:///tmp/blender_rs/".to_owned();
    DownloadLink::new(file_name, download_url, version)
}

fn mock_downloaded() -> Downloaded {
    Downloaded::new(mock_downloadlink(), "/tmp/blender_rs".to_owned())
}

fn mock_bundle() -> Bundle {
    let download = mock_downloaded();
    let path = download.content.clone();
    Bundle::new(download, path)
}

#[test]
fn download_link_assure_new_succeed() {
    let mock = mock_downloadlink();
    assert!(mock.get_version().eq(&Version::new(4, 0, 1)));
}

#[test]
fn download_link_from_takes_the_last_path_segment() {
    let link = DownloadLink::from(
        "https://download.blender.org/release/Blender4.2/blender-4.2.0-linux-x64.tar.xz".to_owned(),
        Version::new(4, 2, 0),
    )
    .unwrap();
    assert_eq!(link.file_name, "blender-4.2.0-linux-x64.tar.xz");
    assert!(DownloadLink::from("data:text/plain,Hello".to_owned(), Version::new(4, 2, 0)).is_err());
}

#[test]
fn bundle_assure_new_succeed() {
    let download = mock_downloaded();
    let executable = String::new();
    let bundle = Bundle::new(download.clone(), executable.clone());
    assert!(bundle.content.eq(&download));
    assert!(bundle.executable.eq(&executable));
}

#[test]
fn bundle_assure_get_version_succeed() {
    let bundle = mock_bundle();
    let result = bundle.get_version();
    assert!(result.eq(bundle.get_version()));
}

#[test]
fn custom_assure_get_version_succeed() {
    let version = Version::new(4, 2, 0);
    let mock = Custom::new(version, "/tmp".to_owned());
    let get_version = mock.get_version();
    assert_eq!(get_version, &version);
}

#[test]
fn downloaded_assure_get_version_succeed() {
    let downloads = mock_downloaded();
    assert!(downloads.get_version().eq(downloads.origin.get_version()));
}

#[test]
fn assure_check_unpacked_succeed() {
    let downloaded = mock_downloaded();
    let bundle = downloaded.clone().check_unpacked(Some("/tmp/blender_rs/blender".to_owned()));
    assert_eq!(bundle.map(|b| b.get_executable().to_owned()), Ok("/tmp/blender_rs/blender".to_owned()));
    assert_eq!(downloaded.clone().check_unpacked(None), Err(downloaded));
}

#[test]
fn assure_extract_succeed() {
    // The archive unpacks beside itself into the folder named after it; once the executable
    // is found there the release is a bundle.
    let link = DownloadLink::new(
        "blender-4.2.0-linux-x64.tar.xz".to_owned(),
        "https://download.blender.org/release/Blender4.2/blender-4.2.0-linux-x64.tar.xz".to_owned(),
        Version::new(4, 2, 0),
    );
    let downloaded = Downloaded::new(link, "/tmp/Blender4.2/blender-4.2.0-linux-x64.tar.xz".to_owned());
    let folder = downloaded.content_folder_name("tar.xz");
    assert_eq!(folder, "blender-4.2.0-linux-x64");
    let executable = format!("/tmp/Blender4.2/{folder}/blender");
    let bundle = downloaded.check_unpacked(Some(executable.clone())).unwrap();
    assert_eq!(bundle.get_executable(), executable);
    assert_eq!(bundle.get_version(), &Version::new(4, 2, 0));
}

#[test]
fn assure_get_extension_succeed() {
    let extension = get_extension("linux");
    assert!(extension.is_ok());
    assert_eq!(get_extension("windows"), Ok("zip".to_owned()));
    assert_eq!(get_extension("macos"), Ok("dmg".to_owned()));
    assert_eq!(get_extension("linux"), Ok("tar.xz".to_owned()));
    assert_eq!(get_extension("freebsd"), Err("freebsd".to_owned()));
    assert_eq!(get_valid_arch("x86_64"), Ok("x64".to_owned()));
    assert_eq!(get_valid_arch("aarch64"), Ok("arm64".to_owned()));
    assert_eq!(get_valid_arch("riscv64"), Err("riscv64".to_owned()));
}

#[test]
fn folder_name_drops_the_extension() {
    let link = DownloadLink::new(
        "blender-4.2.0-linux-x64.tar.xz".to_owned(),
        String::new(),
        Version::new(4, 2, 0),
    );
    let downloaded = Downloaded::new(link, "/tmp/x".to_owned());
    assert_eq!(downloaded.content_folder_name("tar.xz"), "blender-4.2.0-linux-x64");
}

#[test]
fn assure_check_package_succeed() {
    let link = mock_downloadlink();
    let result = Package::check_package(link.clone(), None, None);
    assert_eq!(result.unwrap(), Package::Metadata(link.clone()));
    let result = Package::check_package(link.clone(), Some("/tmp/a".to_owned()), None).unwrap();
    assert!(matches!(result, Package::Downloaded(_)));
    let result = Package::check_package(link, Some("/tmp/a".to_owned()), Some("/tmp/a/blender".to_owned())).unwrap();
    assert!(matches!(result, Package::Bundle(_)));
}

#[test]
fn package_assure_get_version_succeed() {
    let bundle = mock_bundle();
    let package = Package::Bundle(bundle.clone());
    let version = package.get_version();
    assert_eq!(version, bundle.get_version());
}

#[test]
fn assure_invalid_get_version_return_none() {
    let download_link = mock_downloadlink();
    let package = Package::Metadata(download_link.clone());
    let version = package.get_version();
    assert_eq!(version, download_link.get_version());
}

const CATEGORY_PAGE: &str = r#"<html><body>
<a href="blender-4.2.0-linux-x64.tar.xz">blender-4.2.0-linux-x64.tar.xz</a>
<a href="blender-4.2.1-linux-x64.tar.xz">blender-4.2.1-linux-x64.tar.xz</a>
<a href="blender-4.2.1-windows-x64.zip">blender-4.2.1-windows-x64.zip</a>
<a href="blender-4.2.1-linux-arm64.tar.xz">blender-4.2.1-linux-arm64.tar.xz</a>
<a href="blender-2.8.0-linux-x64.tar.xz">blender-2.8.0-linux-x64.tar.xz</a>
</body></html>"#;

#[test]
fn category_page_links_for_this_platform() {
    let base = "https://download.blender.org/release/Blender4.2/";
    let links = BlenderCategory::parse_content(CATEGORY_PAGE, base, "linux", "x86_64").unwrap();
    let mut versions: Vec<Version> = links.iter().map(|l| *l.get_version()).collect();
    versions.sort();
    assert_eq!(versions, vec![Version::new(4, 2, 0), Version::new(4, 2, 1)]);
    for link in &links {
        assert!(link.download_url.starts_with(base));
        assert!(link.download_url.ends_with(&link.file_name));
    }
    assert!(matches!(
        BlenderCategory::parse_content(CATEGORY_PAGE, base, "linux", "mips"),
        Err(BlenderCategoryError::InvalidArch(a)) if a == "mips"
    ));
    assert!(matches!(
        BlenderCategory::parse_content(CATEGORY_PAGE, base, "plan9", "x86_64"),
        Err(BlenderCategoryError::UnsupportedOS(o)) if o == "plan9"
    ));
    assert!(matches!(
        DownloadLink::from("mailto:someone@example.com".to_owned(), Version::new(4, 0, 0)),
        Err(BlenderCategoryError::NotFound)
    ));
}

fn category(major: u64, minor: u64, packages: Vec<Package>) -> BlenderCategory {
    BlenderCategory::new(format!("https://download.blender.org/release/Blender{major}.{minor}/"), major, minor, packages)
}

#[test]
fn category_keeps_one_package_per_version() {
    let a = Package::Metadata(mock_downloadlink());
    let b = Package::Downloaded(mock_downloaded());
    let mut c = category(4, 0, vec![a, b.clone()]);
    assert_eq!(c.get_packages(), vec![&b]);
    assert_eq!(c.get_version(), Version::new(4, 0, 0));
    assert_eq!(c.remove_package(&Version::new(4, 0, 1)), Some(b));
    assert!(c.get_packages().is_empty());
}

#[test]
fn portal_assure_new_succeed() {
    let portal = Portal::new(String::new(), Vec::new());
    assert!(portal.list().is_empty());
    assert!(portal.download_path().eq(""));
}

#[test]
fn assure_get_parent_succeed() {
    let str = Portal::get_parent(5, 2);
    assert_eq!("Blender5.2", str);
    assert_eq!("Blender10.0", Portal::get_parent(10, 0));
}

#[test]
fn portal_listing_and_order() {
    let page = r#"<a href="Blender2.83/">Blender2.83/</a>
<a href="Blender3.6/">Blender3.6/</a>
<a href="Blender4.2/">Blender4.2/</a>
<a href="Blender4.10/">Blender4.10/</a>"#;
    let listing = Portal::parse_listing(page);
    assert_eq!(
        listing,
        vec![("Blender3.6/".to_owned(), 3, 6), ("Blender4.2/".to_owned(), 4, 2), ("Blender4.10/".to_owned(), 4, 10)]
    );
    let sorted = Portal::sort_categories(vec![category(3, 6, vec![]), category(4, 10, vec![]), category(4, 2, vec![])]);
    let order: Vec<Version> = sorted.iter().map(|c| c.get_version()).collect();
    assert_eq!(order, vec![Version::new(4, 10, 0), Version::new(4, 2, 0), Version::new(3, 6, 0)]);
    let portal = Portal::new("/tmp".to_owned(), sorted);
    assert_eq!(portal.get_blender_state_by_version(&Version::new(4, 0, 0)), Some(1));
    assert_eq!(portal.get_blender_state_by_version(&Version::new(4, 10, 3)), Some(0));
    assert_eq!(portal.get_blender_state_by_version(&Version::new(5, 0, 0)), None);
}

#[test]
fn portal_finds_downloaded_archives_in_the_last_category() {
    let downloaded = mock_downloaded();
    let portal = Portal::new(
        "/tmp".to_owned(),
        vec![category(4, 2, vec![]), category(4, 0, vec![Package::Downloaded(downloaded)])],
    );
    assert_eq!(portal.get_downloads().len(), 1);
    assert_eq!(portal.check_compressed_blender_by_file_name("/tmp/blender_rs"), Some("/tmp/blender_rs".to_owned()));
    assert_eq!(portal.check_compressed_blender_by_file_name("/tmp/other"), None);
}

#[test]
fn portal_sort_keeps_equal_versions_in_order() {
    let first = BlenderCategory::new("https://a.example/Blender4.2/".to_owned(), 4, 2, vec![]);
    let second = BlenderCategory::new("https://b.example/Blender4.2/".to_owned(), 4, 2, vec![]);
    let sorted = Portal::sort_categories(vec![category(3, 6, vec![]), first, category(5, 0, vec![]), second]);
    let urls: Vec<&str> = sorted.iter().map(|c| c.base_url()).collect();
    assert_eq!(
        urls,
        vec![
            "https://download.blender.org/release/Blender5.0/",
            "https://a.example/Blender4.2/",
            "https://b.example/Blender4.2/",
            "https://download.blender.org/release/Blender3.6/",
        ]
    );
}

#[test]
fn category_take_and_put_back() {
    let link = mock_downloadlink();
    let mut c = category(4, 0, vec![Package::Metadata(link.clone())]);
    let taken = c.remove_package(&Version::new(4, 0, 1));
    assert_eq!(taken, Some(Package::Metadata(link)));
    assert!(c.get_packages().is_empty());
    let ready = Package::Downloaded(mock_downloaded());
    assert_eq!(c.insert_package(ready.clone()), None);
    assert_eq!(c.get_packages(), vec![&ready]);
}

#[test]
fn categories_order_by_release_and_equal_by_address() {
    assert_eq!(category(4, 2, vec![]).partial_cmp(&category(4, 10, vec![])), Some(Ordering::Less));
    assert_eq!(category(5, 0, vec![]).partial_cmp(&category(4, 10, vec![])), Some(Ordering::Greater));
    assert_eq!(category(4, 2, vec![]).partial_cmp(&category(4, 2, vec![])), Some(Ordering::Equal));
    assert!(category(3, 6, vec![]) < category(4, 0, vec![]));
    let same_page = BlenderCategory::new(
        "https://download.blender.org/release/Blender4.2/".to_owned(),
        9,
        9,
        vec![],
    );
    assert!(same_page == category(4, 2, vec![]));
    assert!(category(4, 2, vec![]) != category(4, 3, vec![]));
}

#[test]
fn category_address_resolves_against_the_index() {
    assert_eq!(
        Portal::category_address("https://download.blender.org/release/", "Blender4.2/"),
        Some("https://download.blender.org/release/Blender4.2/".to_owned())
    );
    assert_eq!(Portal::category_address("not an address", "Blender4.2/"), None);
}

#[test]
fn category_take_and_put_back_ready() {
    let mut c = category(4, 0, vec![Package::Metadata(mock_downloadlink())]);
    assert!(matches!(c.take_package(&Version::new(9, 9, 9)), Err(BlenderCategoryError::NotFound)));
    let taken = c.take_package(&Version::new(4, 0, 1)).unwrap();
    assert_eq!(taken, Package::Metadata(mock_downloadlink()));
    assert!(c.get_packages().is_empty());
    let ready = Package::Bundle(mock_bundle());
    assert!(matches!(c.put_back_ready::<u8>(ready.clone(), None), Err(BlenderCategoryError::NotFound)));
    assert!(c.get_packages().is_empty());
    assert_eq!(c.put_back_ready(ready.clone(), Some(7u8)).unwrap(), 7u8);
    assert_eq!(c.get_packages(), vec![&ready]);
}
