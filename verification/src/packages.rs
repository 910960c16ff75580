use vstd::prelude::*;
use crate::address::{last_path_segment, path_file_name};
use crate::error::BlenderCategoryError;
use crate::text::{chars_of, replace_all, replace_chars, string_of};
use crate::version::Version;

verus! {

/// Where a release archive of Blender can be downloaded from.
#[derive(Debug, Clone, PartialEq, Eq)]
pub struct DownloadLink {
    version: Version,
    /// The archive's file name, extension included.
    pub file_name: String,
    pub download_url: String,
}

/// A release archive that has been downloaded to `content`.
#[derive(Debug, Clone, PartialEq, Eq)]
pub struct Downloaded {
    pub origin: DownloadLink,
    pub content: String,
}

/// A downloaded release that has been unpacked; `executable` starts it.
#[derive(Debug, Clone, PartialEq, Eq)]
pub struct Bundle {
    pub content: Downloaded,
    pub executable: String,
}

/// How far a release of Blender has come on this machine.
#[derive(Debug, Clone, PartialEq, Eq)]
pub enum Package {
    /// Only known by its download link.
    Metadata(DownloadLink),
    /// Downloaded, not unpacked.
    Downloaded(Downloaded),
    /// Unpacked and ready to run.
    Bundle(Bundle),
}

/// A Blender at a path that the user gave, with the version it reported.
#[derive(Debug, Clone, PartialEq, Eq)]
pub struct Custom {
    version: Version,
    executable: String,
}

impl Custom {
    pub fn new(version: Version, executable: String) -> (c: Custom)
        ensures
            c.version_spec() == version,
            c.executable_spec() == executable@,
    {
        Custom { version, executable }
    }

    pub closed spec fn version_spec(&self) -> Version {
        self.version
    }

    pub closed spec fn executable_spec(&self) -> Seq<char> {
        self.executable@
    }

    pub fn get_version(&self) -> (res: &Version)
        ensures
            *res == self.version_spec(),
    {
        &self.version
    }

    pub fn get_executable(&self) -> (res: &str)
        ensures
            res@ == self.executable_spec(),
    {
        self.executable.as_str()
    }
}

/// The abstract content of a download link: version, file name, address.
pub type LinkView = (Version, Seq<char>, Seq<char>);

/// The abstract content of a package: its stage, its link, the archive path (empty before
/// download) and the executable path (empty before unpacking).
pub struct PackageView {
    pub stage: int,
    pub link: LinkView,
    pub content: Seq<char>,
    pub executable: Seq<char>,
}

impl View for DownloadLink {
    type V = LinkView;

    closed spec fn view(&self) -> LinkView {
        (self.version, self.file_name@, self.download_url@)
    }
}

impl View for Package {
    type V = PackageView;

    open spec fn view(&self) -> PackageView {
        match self {
            Package::Metadata(l) => PackageView {
                stage: 0,
                link: l@,
                content: Seq::empty(),
                executable: Seq::empty(),
            },
            Package::Downloaded(d) => PackageView {
                stage: 1,
                link: d.origin@,
                content: d.content@,
                executable: Seq::empty(),
            },
            Package::Bundle(b) => PackageView {
                stage: 2,
                link: b.content.origin@,
                content: b.content.content@,
                executable: b.executable@,
            },
        }
    }
}

impl DownloadLink {
    pub closed spec fn version_spec(&self) -> Version {
        self.version
    }

    pub fn new(file_name: String, download_url: String, version: Version) -> (l: DownloadLink)
        ensures
            l@ == (version, file_name@, download_url@),
    {
        DownloadLink { file_name, download_url, version }
    }

    /// The link to `url` for `version`, named by the last segment of the address's path;
    /// `NotFound` when the address has no path segments.
    pub fn from(url: String, version: Version) -> (res: Result<DownloadLink, BlenderCategoryError>)
        ensures
            res is Ok <==> last_path_segment(url@) is Some,
            res matches Ok(l) ==> l@ == (version, last_path_segment(url@)->0, url@),
            res matches Err(e) ==> e is NotFound,
    {
        match path_file_name(url.as_str()) {
            Some(name) => Ok(DownloadLink::new(name, url, version)),
            None => Err(BlenderCategoryError::NotFound),
        }
    }

    pub fn get_version(&self) -> (res: &Version)
        ensures
            *res == self@.0,
    {
        &self.version
    }

    /// The link as downloaded, when the archive was found at `found`; itself otherwise.
    pub fn content_exist(self, found: Option<String>) -> (res: Result<Downloaded, DownloadLink>)
        ensures
            found matches Some(p) ==> (res matches Ok(d) && d.origin@ == self@ && d.content@
                == p@),
            found is None ==> (res matches Err(l) && l@ == self@),
    {
        match found {
            Some(path) => Ok(Downloaded::new(self, path)),
            None => Err(self),
        }
    }
}

/// The name of the folder that an archive named `file_name` unpacks to: the name with
/// every `.` followed by the platform's archive extension taken out.
pub open spec fn folder_name_spec(file_name: Seq<char>, ext: Seq<char>) -> Seq<char> {
    replace_all(file_name, seq!['.'] + ext, Seq::empty())
}

impl Downloaded {
    pub fn new(origin: DownloadLink, content: String) -> (d: Downloaded)
        ensures
            d.origin@ == origin@,
            d.content@ == content@,
    {
        Downloaded { origin, content }
    }

    pub fn get_version(&self) -> (res: &Version)
        ensures
            *res == self.origin@.0,
    {
        self.origin.get_version()
    }

    /// The folder that the archive unpacks to, for the platform extension `ext`.
    pub fn content_folder_name(&self, ext: &str) -> (res: String)
        ensures
            res@ == folder_name_spec(self.origin@.1, ext@),
    {
        let mut pat: Vec<char> = Vec::new();
        pat.push('.');
        let e = chars_of(ext);
        let mut i: usize = 0;
        while i < e.len()
            invariant
                i <= e.len(),
                pat@ == seq!['.'] + e@.take(i as int),
            decreases e.len() - i,
        {
            pat.push(e[i]);
            assert(e@.take(i + 1) =~= e@.take(i as int).push(e@[i as int]));
            i = i + 1;
        }
        assert(e@.take(e.len() as int) =~= e@);
        let name = chars_of(self.origin.file_name.as_str());
        let empty: Vec<char> = Vec::new();
        string_of(replace_chars(&name, &pat, &empty).as_slice())
    }

    /// The release as unpacked, when its executable was found at `executable`; itself
    /// otherwise.
    pub fn check_unpacked(self, executable: Option<String>) -> (res: Result<Bundle, Downloaded>)
        ensures
            executable matches Some(p) ==> (res matches Ok(b) && b.content.origin@ == self.origin@
                && b.content.content@ == self.content@ && b.executable@ == p@),
            executable is None ==> (res matches Err(d) && d.origin@ == self.origin@
                && d.content@ == self.content@),
    {
        match executable {
            Some(p) => Ok(Bundle::new(self, p)),
            None => Err(self),
        }
    }
}

impl Bundle {
    pub fn new(content: Downloaded, executable: String) -> (b: Bundle)
        ensures
            b.content.origin@ == content.origin@,
            b.content.content@ == content.content@,
            b.executable@ == executable@,
    {
        Bundle { content, executable }
    }

    /// The path of the executable.
    pub fn get_executable(&self) -> (res: &str)
        ensures
            res@ == self.executable@,
    {
        self.executable.as_str()
    }

    pub fn get_version(&self) -> (res: &Version)
        ensures
            *res == self.content.origin@.0,
    {
        self.content.get_version()
    }
}

impl Package {
    /// The stage a release has reached: downloaded when its archive was found at `content`,
    /// unpacked when moreover its executable was found at `executable`.
    pub fn check_package(
        link: DownloadLink,
        content: Option<String>,
        executable: Option<String>,
    ) -> (res: Result<Package, BlenderCategoryError>)
        ensures
            res matches Ok(p) && p@.link == link@ && match content {
                None => p@.stage == 0,
                Some(c) => p@.content == c@ && match executable {
                    None => p@.stage == 1,
                    Some(e) => p@.stage == 2 && p@.executable == e@,
                },
            },
    {
        let downloaded = match link.content_exist(content) {
            Ok(d) => d,
            Err(l) => return Ok(Package::Metadata(l)),
        };
        match downloaded.check_unpacked(executable) {
            Ok(bundle) => Ok(Package::Bundle(bundle)),
            Err(d) => Ok(Package::Downloaded(d)),
        }
    }

    pub fn get_version(&self) -> (res: &Version)
        ensures
            *res == self@.link.0,
    {
        match self {
            Package::Metadata(link) => link.get_version(),
            Package::Downloaded(content) => content.get_version(),
            Package::Bundle(bundle) => bundle.get_version(),
        }
    }

    /// The path of the archive, once downloaded.
    pub fn archive_path(&self) -> (res: Option<&str>)
        ensures
            self@.stage == 0 ==> res is None,
            self@.stage != 0 ==> (res matches Some(p) && p@ == self@.content),
    {
        match self {
            Package::Metadata(_) => None,
            Package::Downloaded(d) => Some(d.content.as_str()),
            Package::Bundle(b) => Some(b.content.content.as_str()),
        }
    }
}

} // verus!
