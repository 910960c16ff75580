use std::cmp::Ordering;
use blender_rs::blender::Blender;
use blender_rs::error::BlenderError;
use blender_rs::version::Version;
use std::num::ParseIntError;
use std::path::PathBuf;

fn mock_blender(path: Option<String>, version: Version) -> Blender {
    Blender::new(path.unwrap_or_default(), version)
}

#[test]
fn assure_blender_match_version_succeed() {
    let lvalue = mock_blender(None, Version::new(4, 0, 1));
    let rvalue = mock_blender(None, Version::new(4, 0, 1));
    assert!(&lvalue.eq(&rvalue));

    // older version, lvalue should be greater.
    let rvalue = mock_blender(None, Version::new(3, 6, 9));
    assert!(&lvalue.gt(&rvalue));

    // newer patch, lvalue should be less than.
    let rvalue = mock_blender(None, Version::new(4, 0, 2));
    assert!(&lvalue.lt(&rvalue));
}

#[test]
fn assure_order_works() {
    let newer = Blender::new(String::new(), Version::new(4, 3, 4));
    let older = Blender::new(String::new(), Version::new(4, 2, 4));
    let mut list = vec![newer.clone(), older.clone()];
    list.sort_by(|a, b| a.partial_cmp(b).unwrap());
    assert_eq!(list[0], older);
    assert_eq!(list[1], newer);
}

#[test]
fn assure_handle_parse_succeed() {
    let expect = 4;
    let value = expect.to_string();
    let parse = Blender::handle_parse(&value);
    assert!(parse.is_ok_and(|f| f.eq(&expect)));

    let value = "A";
    let parse = Blender::handle_parse(value);
    assert!(parse.is_err());
}

#[test]
fn assure_display_blender_error_succeed() {
    assert_eq!("Service offline", BlenderError::ServiceOffline.message());
    // test invalid executable
    assert_eq!("Executable invalid", BlenderError::ExecutableInvalid.message());
    let path = PathBuf::new();
    assert_eq!(
        format!("Executable not found at {:?}", path),
        BlenderError::ExecutableNotFound(path.to_string_lossy().into_owned()).message()
    );

    let file_name = "test.txt";
    assert_eq!(
        format!("Invalid file: {file_name}"),
        BlenderError::InvalidFile(file_name.to_owned()).message()
    );

    let parse_int_error: ParseIntError = "a".parse::<i32>().expect_err("Should fail to parse");
    assert_eq!(parse_int_error.to_string(), BlenderError::ParseInt(parse_int_error).message());

    let io_error = std::io::Error::new(std::io::ErrorKind::NotFound, "Not found - unit test");
    assert_eq!(io_error.to_string(), BlenderError::IoError(io_error).message());

    let message = "";
    assert_eq!(
        format!("Render error: {message}"),
        BlenderError::RenderError(message.to_owned()).message()
    );
    assert_eq!(
        format!("Python error: {message}"),
        BlenderError::PythonError(message.to_owned()).message()
    );
}

#[test]
fn executable_not_found_message_quotes_the_path() {
    let message = BlenderError::ExecutableNotFound("/opt/blender \"4\"".to_owned()).message();
    assert_eq!(message, "Executable not found at \"/opt/blender \\\"4\\\"\"");
}

#[test]
fn assure_check_sum_succeed() {
    let a = "test";
    let b = "t3st";
    let a_value = Blender::calculate_checksum(a.as_bytes());
    let b_value = Blender::calculate_checksum(b.as_bytes());
    assert_ne!(a_value, b_value);

    assert_eq!(a_value, Blender::calculate_checksum(a.as_bytes()));
    assert_eq!(a_value, 16183295663280961421);

    assert_eq!(b_value, Blender::calculate_checksum(b.as_bytes()));
    assert_eq!(b_value, 10932941976625646637);
}

#[test]
fn script_is_rewritten_only_when_it_differs() {
    assert!(!Blender::script_outdated(b"import bpy", b"import bpy"));
    assert!(Blender::script_outdated(b"import bpy", b"import bpy "));
}

#[test]
fn assure_valid_version_response() {
    // assure successful result
    let version = Blender::parse_partial_version("4", "3", None);
    assert!(version.is_some());
    let version = Blender::parse_partial_version("3", "0", Some("0"));
    assert!(version.is_some());
    let version = Blender::parse_partial_version("999", "999", Some("999"));
    assert!(version.is_some());

    // if the value is below than 3 - return none, as we do not support blender 3.0 versions and below
    let version = Blender::parse_partial_version("2", "0", None);
    assert!(version.is_none());
    let version = Blender::parse_partial_version("1", "0", None);
    assert!(version.is_none());

    let version = Blender::parse_partial_version("4", "A", None);
    assert!(version.is_none());

    let version = Blender::parse_partial_version("4", "0", Some("B"));
    assert!(version.is_none());
}

#[test]
fn partial_version_fills_missing_patch_with_zero() {
    assert_eq!(Blender::parse_partial_version("4", "3", None), Some(Version::new(4, 3, 0)));
    assert_eq!(Blender::parse_partial_version("+5", "10", Some("7")), Some(Version::new(5, 10, 7)));
}

#[test]
fn check_version_output_reads_the_first_report() {
    let out = "Blender 4.2.1 (hash abc)\nBlender 5.0.0\n";
    let blender = Blender::check_version_output("/opt/blender/blender".to_owned(), out).unwrap();
    assert_eq!(blender.get_version(), &Version::new(4, 2, 1));
    assert_eq!(blender.get_executable(), "/opt/blender/blender");
}

#[test]
fn check_version_output_without_report_is_invalid() {
    let res = Blender::check_version_output("blender".to_owned(), "no version here");
    assert!(matches!(res, Err(BlenderError::ExecutableInvalid)));
}

#[test]
fn blenders_order_by_version_alone() {
    let a = Blender::new("/opt/a/blender".to_owned(), Version::new(4, 0, 1));
    let b = Blender::new("/opt/b/blender".to_owned(), Version::new(4, 0, 1));
    assert_eq!(a.partial_cmp(&b), Some(Ordering::Equal));
    assert!(a != b);
    let older = Blender::new(String::new(), Version::new(3, 6, 9));
    let newer = Blender::new(String::new(), Version::new(4, 0, 2));
    assert!(a > older);
    assert!(a < newer);
}

#[test]
fn version_report_is_read_whole() {
    let b = Blender::check_version_output("/opt/blender".to_owned(), "Blender 4.2.10 LTS\n\tbuild date: 2025\n").unwrap();
    assert_eq!(b.get_version(), &Version::new(4, 2, 10));
    assert_eq!(b.get_executable(), "/opt/blender");
    let b = Blender::check_version_output(String::new(), "Blender 10.11.12").unwrap();
    assert_eq!(b.get_version(), &Version::new(10, 11, 12));
    assert!(matches!(Blender::check_version_output(String::new(), "no version here"), Err(BlenderError::ExecutableInvalid)));
}

#[test]
fn parse_error_message_is_the_std_text() {
    let e = "A".parse::<u64>().unwrap_err();
    assert_eq!(BlenderError::ParseInt(e.clone()).message(), e.to_string());
    assert_eq!(BlenderError::ParseInt(e).message(), "invalid digit found in string");
}
