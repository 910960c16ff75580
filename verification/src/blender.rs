use vstd::prelude::*;
use vstd::std_specs::hash::DefaultHasherAdditionalSpecFns;
use std::collections::hash_map::DefaultHasher;
use std::hash::Hasher;
use crate::error::BlenderError;
use crate::search::{captures_all, group, group_at, group_views, regex_captures};
use crate::text::{all_digits, digits_value, is_digit, parse_u64, parsed_u64};
use crate::version::{version_lt, Version};
use std::cmp::Ordering;
use vstd::std_specs::cmp::{PartialEqSpecImpl, PartialOrdSpecImpl};

verus! {

/// An installed Blender: the path to its executable and the version it reports.
///
/// Blenders are ordered by version alone.
#[derive(Debug, Clone)]
pub struct Blender {
    version: Version,
    executable: String,
}

/// The version whose numbers `major`, `minor` and (when given) `patch` denote, when each
/// reads as a number and `major` is at least 3; a missing patch is 0.
pub open spec fn partial_version_spec(
    major: Seq<char>,
    minor: Seq<char>,
    patch: Option<Seq<char>>,
) -> Option<Version> {
    match (parsed_u64(major), parsed_u64(minor)) {
        (Some(ma), Some(mi)) => if ma < 3 {
            None
        } else {
            match patch {
                None => Some(Version { major: ma, minor: mi, patch: 0 }),
                Some(p) => match parsed_u64(p) {
                    Some(pa) => Some(Version { major: ma, minor: mi, patch: pa }),
                    None => None,
                },
            }
        },
        _ => None,
    }
}

/// The pattern by which `blender -v` reports its version.
pub open spec fn version_pattern() -> Seq<char> {
    "Blender (?<major>[0-9]+).(?<minor>[0-9]+).(?<patch>[0-9]+)"@
}

/// The major, minor and patch texts of the first report of a version in `out`, when its
/// three groups took part in the match.
pub open spec fn version_groups(out: Seq<char>) -> Option<Seq<Seq<char>>> {
    let caps = regex_captures(version_pattern(), out);
    if caps.len() == 0 {
        None
    } else {
        match (group(caps[0], 1), group(caps[0], 2), group(caps[0], 3)) {
            (Some(ma), Some(mi), Some(pa)) => Some(seq![ma, mi, pa]),
            _ => None,
        }
    }
}

/// One write of one byte per input byte, as a hasher sees them.
pub open spec fn byte_writes(b: Seq<u8>) -> Seq<Seq<u8>> {
    b.map_values(|x: u8| seq![x])
}

impl View for Blender {
    type V = (Version, Seq<char>);

    open spec fn view(&self) -> (Version, Seq<char>) {
        (self.version_spec(), self.executable_spec())
    }
}

impl Blender {
    /// A copy of this Blender.
    pub fn duplicate(&self) -> (b: Blender)
        ensures
            b@ == self@,
    {
        Blender { version: self.version, executable: self.executable.clone() }
    }

    /// A Blender at `executable` with `version`; nothing is checked.
    pub fn new(executable: String, version: Version) -> (b: Blender)
        ensures
            b.executable_spec() == executable@,
            b.version_spec() == version,
    {
        Blender { version, executable }
    }

    pub closed spec fn executable_spec(&self) -> Seq<char> {
        self.executable@
    }

    pub closed spec fn version_spec(&self) -> Version {
        self.version
    }

    /// The path to the executable.
    pub fn get_executable(&self) -> (res: &str)
        ensures
            res@ == self.executable_spec(),
    {
        self.executable.as_str()
    }

    /// The version.
    pub fn get_version(&self) -> (res: &Version)
        ensures
            *res == self.version_spec(),
    {
        &self.version
    }

    /// A decimal number, or `ParseInt`.
    pub fn handle_parse(value: &str) -> (res: Result<u64, BlenderError>)
        ensures
            res is Ok <==> parsed_u64(value@) is Some,
            res matches Ok(v) ==> parsed_u64(value@) == Some(v),
            res matches Err(e) ==> e is ParseInt,
    {
        match parse_u64(value) {
            Ok(v) => Ok(v),
            Err(e) => Err(BlenderError::ParseInt(e)),
        }
    }

    /// A version from its parts, refusing versions before 3.0.
    pub fn parse_partial_version(major: &str, minor: &str, patch: Option<&str>) -> (res: Option<
        Version,
    >)
        ensures
            res == partial_version_spec(
                major@,
                minor@,
                match patch {
                    Some(p) => Some(p@),
                    None => None,
                },
            ),
    {
        let major: u64 = match parse_u64(major) {
            Ok(v) => {
                if v >= 3 {
                    v
                } else {
                    return None;
                }
            },
            Err(_) => return None,
        };
        let minor: u64 = match parse_u64(minor) {
            Ok(v) => v,
            Err(_) => return None,
        };
        let mut patch_number: u64 = 0;
        if let Some(p) = patch {
            patch_number = match parse_u64(p) {
                Ok(n) => n,
                Err(_) => return None,
            };
        }
        Some(Version::new(major, minor, patch_number))
    }

    /// The Blender at `executable` whose output of `blender -v` is `output`: the first
    /// report `Blender M.m.p` in it gives the version. `ExecutableInvalid` when there is
    /// none; `ParseInt` when one of its numbers does not read.
    pub fn check_version_output(executable: String, output: &str) -> (res: Result<
        Blender,
        BlenderError,
    >)
        ensures
            version_groups(output@) is None ==> res matches Err(BlenderError::ExecutableInvalid),
            version_groups(output@) matches Some(g) ==> {
                &&& res is Ok <==> (parsed_u64(g[0]) is Some && parsed_u64(g[1]) is Some
                    && parsed_u64(g[2]) is Some)
                &&& res matches Ok(b) ==> {
                    &&& b.executable_spec() == executable@
                    &&& b.version_spec() == Version {
                        major: parsed_u64(g[0])->0,
                        minor: parsed_u64(g[1])->0,
                        patch: parsed_u64(g[2])->0,
                    }
                }
                &&& res matches Err(e) ==> e is ParseInt
            },
    {
        let caps = captures_all("Blender (?<major>[0-9]+).(?<minor>[0-9]+).(?<patch>[0-9]+)", output);
        if caps.len() == 0 {
            return Err(BlenderError::ExecutableInvalid);
        }
        proof {
            assert(group_views(caps@[0]@) == regex_captures(version_pattern(), output@)[0]);
        }
        let (g1, g2, g3) = match (group_at(&caps[0], 1), group_at(&caps[0], 2), group_at(&caps[0], 3)) {
            (Some(a), Some(b), Some(c)) => (a, b, c),
            _ => return Err(BlenderError::ExecutableInvalid),
        };
        let major = Self::handle_parse(g1)?;
        let minor = Self::handle_parse(g2)?;
        let patch = Self::handle_parse(g3)?;
        Ok(Blender::new(executable, Version::new(major, minor, patch)))
    }

    /// A checksum of `input`, as the library's default hasher computes it from one write per
    /// byte.
    pub fn calculate_checksum(input: &[u8]) -> (res: u64)
        ensures
            res == DefaultHasher::spec_finish(byte_writes(input@)),
    {
        let mut hash = DefaultHasher::new();
        let mut i: usize = 0;
        while i < input.len()
            invariant
                i <= input.len(),
                hash@ == byte_writes(input@.take(i as int)),
            decreases input.len() - i,
        {
            let one = [input[i]];
            hash.write(&one);
            assert(one@ =~= seq![input@[i as int]]);
            assert(byte_writes(input@.take(i + 1)) =~= byte_writes(input@.take(i as int)).push(
                seq![input@[i as int]],
            ));
            i = i + 1;
        }
        assert(input@.take(input.len() as int) =~= input@);
        hash.finish()
    }

    /// Whether the script that the library ships (`bundled`) must be written over the copy
    /// on disk (`on_disk`): when their checksums differ.
    pub fn script_outdated(bundled: &[u8], on_disk: &[u8]) -> (res: bool)
        ensures
            res == (DefaultHasher::spec_finish(byte_writes(bundled@))
                != DefaultHasher::spec_finish(byte_writes(on_disk@))),
    {
        let source = Self::calculate_checksum(bundled);
        let target = Self::calculate_checksum(on_disk);
        source != target
    }
}

/// Versions before 3.0 are never accepted.
pub proof fn law_partial_version_not_legacy(
    major: Seq<char>,
    minor: Seq<char>,
    patch: Option<Seq<char>>,
)
    ensures
        partial_version_spec(major, minor, patch) matches Some(v) ==> v.major >= 3,
{
}

/// A script on disk that is the same as the shipped one is never rewritten.
pub proof fn law_same_script_is_current(script: Seq<u8>)
    ensures
        !(DefaultHasher::spec_finish(byte_writes(script)) != DefaultHasher::spec_finish(
            byte_writes(script),
        )),
{
}

/// Two Blenders are equal when they have the same version and executable.
impl PartialEq for Blender {
    fn eq(&self, other: &Self) -> (res: bool) {
        self.version.same_as(&other.version) && self.executable == other.executable
    }
}

impl PartialEqSpecImpl for Blender {
    open spec fn obeys_eq_spec() -> bool {
        true
    }

    open spec fn eq_spec(&self, other: &Self) -> bool {
        self@ == other@
    }
}

impl Eq for Blender {
}

/// The order of two versions.
pub open spec fn version_order(a: Version, b: Version) -> Ordering {
    if version_lt(a, b) {
        Ordering::Less
    } else if version_lt(b, a) {
        Ordering::Greater
    } else {
        Ordering::Equal
    }
}

fn compare_versions(a: &Version, b: &Version) -> (res: Ordering)
    ensures
        res == version_order(*a, *b),
{
    if a.older_than(b) {
        Ordering::Less
    } else if b.older_than(a) {
        Ordering::Greater
    } else {
        Ordering::Equal
    }
}

/// Blenders are ordered by their versions; the executables play no part.
impl PartialOrd for Blender {
    fn partial_cmp(&self, other: &Self) -> (res: Option<Ordering>) {
        Some(compare_versions(&self.version, &other.version))
    }
}

impl PartialOrdSpecImpl for Blender {
    open spec fn obeys_partial_cmp_spec() -> bool {
        true
    }

    open spec fn partial_cmp_spec(&self, other: &Self) -> Option<Ordering> {
        Some(version_order(self@.0, other@.0))
    }
}

/// A pattern group named `name` that takes one or more decimal digits, any of `0` to `9`.
pub open spec fn digits_group(name: Seq<char>) -> Seq<char> {
    "(?<"@ + name + ">[0-9]+)"@
}

/// The version report is read as `Blender `, then three groups of one or more digits (any
/// of `0` to `9`, so `0` and numbers of several digits included) separated by one character:
/// every part of the version that Blender prints is read whole.
pub proof fn law_version_report_reads_every_number()
    ensures
        version_pattern() == "Blender "@ + digits_group("major"@) + "."@ + digits_group("minor"@)
            + "."@ + digits_group("patch"@),
{
    reveal_strlit("Blender (?<major>[0-9]+).(?<minor>[0-9]+).(?<patch>[0-9]+)");
    reveal_strlit("Blender ");
    reveal_strlit("(?<");
    reveal_strlit(">[0-9]+)");
    reveal_strlit("major");
    reveal_strlit("minor");
    reveal_strlit("patch");
    reveal_strlit(".");
    assert(version_pattern() =~= "Blender "@ + digits_group("major"@) + "."@ + digits_group(
        "minor"@,
    ) + "."@ + digits_group("patch"@));
}

/// Every number that a digits group takes reads as that number: a non-empty run of decimal
/// digits (a lone `0` included) that fits gives its value.
pub proof fn law_digit_runs_read_as_numbers(d: Seq<char>)
    requires
        d.len() > 0,
        all_digits(d),
        digits_value(d) <= u64::MAX,
    ensures
        parsed_u64(d) == Some(digits_value(d) as u64),
{
    assert(is_digit(d[0]));
}

} // verus!
