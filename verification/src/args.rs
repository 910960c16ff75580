use vstd::prelude::*;
use vstd::string::StringExecFns;

verus! {

/// The command line that starts a render: Blender without add-ons or audio, in the
/// background, on the blend file `blend_path`, running the render script `script_path` with
/// the render configuration (JSON) `config_json` as its argument.
pub open spec fn arg_command_spec(
    blend_path: Seq<char>,
    script_path: Seq<char>,
    config_json: Seq<char>,
) -> Seq<Seq<char>> {
    seq![
        "--factory-startup"@,
        "-noaudio"@,
        "-b"@,
        blend_path,
        "-P"@,
        script_path,
        "--"@,
        "-c"@,
        config_json,
    ]
}

/// The arguments that Blender is started with to render (see [`arg_command_spec`]).
pub fn arg_command(blend_path: String, script_path: String, config_json: String) -> (res: Vec<
    String,
>)
    ensures
        res@.map_values(|s: String| s@) == arg_command_spec(blend_path@, script_path@, config_json@),
{
    let mut v: Vec<String> = Vec::new();
    v.push(String::from_str("--factory-startup"));
    v.push(String::from_str("-noaudio"));
    v.push(String::from_str("-b"));
    v.push(blend_path);
    v.push(String::from_str("-P"));
    v.push(script_path);
    v.push(String::from_str("--"));
    v.push(String::from_str("-c"));
    v.push(config_json);
    assert(v@.map_values(|s: String| s@) =~= arg_command_spec(blend_path@, script_path@, config_json@));
    v
}

} // verus!
