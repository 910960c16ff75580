use vstd::prelude::*;
use vstd::string::StringExecFns;
use std::path::PathBuf;

verus! {

#[verifier::external_type_specification]
#[verifier::external_body]
pub struct ExPathBuf(PathBuf);

/// `dirs::config_dir`: the user's configuration directory, which depends on the operating
/// system and the environment. Nothing is stated of it.
#[verifier::external_body]
fn user_config_dir() -> Option<PathBuf> {
    dirs::config_dir()
}

/// What `Path::join` gives for the path `base` and the relative name `name`, as the
/// platform the library is built for joins them.
pub uninterp spec fn joined_path_of(base: PathBuf, name: Seq<char>) -> PathBuf;

/// Whether the error's kind (`io::Error::kind`) is `ErrorKind::NotFound`.
pub uninterp spec fn io_error_is_not_found(e: std::io::Error) -> bool;

/// `Path::join`: the result is named by [`joined_path_of`]; what it is depends on the
/// platform and is not stated further.
#[verifier::external_body]
fn join_path(base: &PathBuf, name: &str) -> (res: PathBuf)
    ensures
        res == joined_path_of(*base, name@),
{
    base.join(name)
}

/// `std::io::Error::new` of kind `NotFound` with the message `msg`; its documentation gives
/// that `kind` returns the kind it was made with. The message is not stated.
#[verifier::external_body]
fn not_found_error(msg: &str) -> (res: std::io::Error)
    ensures
        io_error_is_not_found(res),
{
    std::io::Error::new(std::io::ErrorKind::NotFound, msg.to_owned())
}

/// The folder for the library's configuration, under the configuration directory
/// `config_dir` of the user (the `BlendFarm` folder in it); `NotFound` when there is no
/// such directory.
pub fn config_folder_from(config_dir: Option<PathBuf>) -> (res: Result<PathBuf, std::io::Error>)
    ensures
        res is Ok <==> config_dir is Some,
        res matches Ok(p) ==> p == joined_path_of(config_dir->0, "BlendFarm"@),
        res matches Err(e) ==> io_error_is_not_found(e),
{
    match config_dir {
        Some(dir) => Ok(join_path(&dir, "BlendFarm")),
        None => Err(not_found_error("Unable to find config directory!")),
    }
}

/// The folder for the library's configuration: `BlendFarm` in the user's configuration
/// directory. Fails with `NotFound` when the user has none.
pub fn get_config_folder_path() -> (res: Result<PathBuf, std::io::Error>)
    ensures
        res matches Ok(p) ==> exists|d: PathBuf| p == joined_path_of(d, "BlendFarm"@),
        res matches Err(e) ==> io_error_is_not_found(e),
{
    let dir = user_config_dir();
    let res = config_folder_from(dir);
    proof {
        if res is Ok {
            let d = dir->0;
            assert(res->Ok_0 == joined_path_of(d, "BlendFarm"@));
        }
    }
    res
}

/// Where the list of installed Blenders is kept: `BlenderManager.json` in the configuration
/// folder, given the user's configuration directory `config_dir`.
pub fn config_location_from(config_dir: Option<PathBuf>) -> (res: Result<PathBuf, std::io::Error>)
    ensures
        res is Ok <==> config_dir is Some,
        res matches Ok(p) ==> p == joined_path_of(
            joined_path_of(config_dir->0, "BlendFarm"@),
            "BlenderManager.json"@,
        ),
        res matches Err(e) ==> io_error_is_not_found(e),
{
    match config_folder_from(config_dir) {
        Ok(folder) => Ok(join_path(&folder, "BlenderManager.json")),
        Err(e) => Err(e),
    }
}

/// Where the list of installed Blenders is kept: `BlenderManager.json` in the configuration
/// folder. Fails with `NotFound` when the user has no configuration directory.
pub fn get_blend_config_default_location() -> (res: Result<PathBuf, std::io::Error>)
    ensures
        res matches Ok(p) ==> exists|d: PathBuf|
            p == joined_path_of(joined_path_of(d, "BlendFarm"@), "BlenderManager.json"@),
        res matches Err(e) ==> io_error_is_not_found(e),
{
    let dir = user_config_dir();
    let res = config_location_from(dir);
    proof {
        if res is Ok {
            let d = dir->0;
            assert(res->Ok_0 == joined_path_of(joined_path_of(d, "BlendFarm"@), "BlenderManager.json"@));
        }
    }
    res
}

/// The archive extension of Blender releases for the operating system `os` (as
/// `std::env::consts::OS` names it), without the leading period; the name itself when
/// Blender is not released for it.
pub open spec fn extension_spec(os: Seq<char>) -> Result<Seq<char>, Seq<char>> {
    if os == "windows"@ {
        Ok("zip"@)
    } else if os == "macos"@ {
        Ok("dmg"@)
    } else if os == "linux"@ {
        Ok("tar.xz"@)
    } else {
        Err(os)
    }
}

/// The name that Blender releases use for the architecture `arch` (as
/// `std::env::consts::ARCH` names it); the name itself when Blender is not released for it.
pub open spec fn arch_spec(arch: Seq<char>) -> Result<Seq<char>, Seq<char>> {
    if arch == "x86_64"@ {
        Ok("x64"@)
    } else if arch == "aarch64"@ {
        Ok("arm64"@)
    } else {
        Err(arch)
    }
}

/// The archive extension for `os`: `zip` (Windows), `dmg` (macOS) or `tar.xz` (Linux).
pub fn get_extension(os: &str) -> (res: Result<String, String>)
    ensures
        match (res, extension_spec(os@)) {
            (Ok(a), Ok(b)) => a@ == b,
            (Err(a), Err(b)) => a@ == b,
            _ => false,
        },
{
    let o = os.to_owned();
    if o == String::from_str("windows") {
        Ok(String::from_str("zip"))
    } else if o == String::from_str("macos") {
        Ok(String::from_str("dmg"))
    } else if o == String::from_str("linux") {
        Ok(String::from_str("tar.xz"))
    } else {
        Err(o)
    }
}

/// The release name for `arch`: `x64` or `arm64` (Apple silicon).
pub fn get_valid_arch(arch: &str) -> (res: Result<String, String>)
    ensures
        match (res, arch_spec(arch@)) {
            (Ok(a), Ok(b)) => a@ == b,
            (Err(a), Err(b)) => a@ == b,
            _ => false,
        },
{
    let a = arch.to_owned();
    if a == String::from_str("x86_64") {
        Ok(String::from_str("x64"))
    } else if a == String::from_str("aarch64") {
        Ok(String::from_str("arm64"))
    } else {
        Err(a)
    }
}

} // verus!
