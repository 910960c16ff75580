use vstd::prelude::*;
use crate::address::{join_address, joined_address, last_path_segment};
use crate::error::BlenderCategoryError;
use crate::keyed::{
    has_key, keyed_map, last_wins, lemma_keyed_lookup, lemma_keyed_push, lemma_keyed_remove,
    lemma_keyed_update, unique_keys,
};
use crate::packages::{DownloadLink, LinkView, Package, PackageView};
use crate::search::{captures_all, captures_view, group, group_at, group_views, regex_captures};
use crate::text::{parse_u64, parsed_u64};
use crate::utils::{arch_spec, extension_spec, get_extension, get_valid_arch};
use crate::version::Version;
use std::cmp::Ordering;
use vstd::std_specs::cmp::{PartialEqSpecImpl, PartialOrdSpecImpl};

verus! {

/// The version by which a download link is filed.
pub open spec fn link_key() -> spec_fn(LinkView) -> Version {
    |l: LinkView| l.0
}

/// The version by which a package is filed.
pub open spec fn package_key() -> spec_fn(PackageView) -> Version {
    |p: PackageView| p.link.0
}

/// The pattern of a download link on a release category page: the archive's address, and in
/// it the version, operating system, architecture and extension.
pub open spec fn link_pattern() -> Seq<char> {
    "<a href=\"(?<url>\\w*-(?<major>\\d*).(?<minor>\\d*).(?<patch>\\d*.)-(?<os>\\w.*)-(?<arch>\\w*)\\.(?<ext>.*))\">"@
}

/// The download link that one match of the link pattern gives, when its groups took part in
/// the match, the archive is for operating system `os`, release architecture `arch` and
/// extension `ext`, its numbers read and its major version is at least 3, and its address
/// resolves against `base`.
pub open spec fn link_entry(
    g: Seq<Option<Seq<char>>>,
    base: Seq<char>,
    os: Seq<char>,
    arch: Seq<char>,
    ext: Seq<char>,
) -> Option<LinkView> {
    match (group(g, 1), group(g, 2), group(g, 3), group(g, 4), group(g, 5), group(g, 6), group(g, 7)) {
        (Some(url), Some(ma), Some(mi), Some(pa), Some(o), Some(a), Some(e)) => {
            if e != ext || o != os || a != arch {
                None
            } else {
                match (parsed_u64(ma), parsed_u64(mi), parsed_u64(pa)) {
                    (Some(major), Some(minor), Some(patch)) => if major < 3 {
                        None
                    } else {
                        match joined_address(base, url) {
                            Some(u) => match last_path_segment(u) {
                                Some(name) => Some(
                                    (Version { major, minor, patch }, name, u),
                                ),
                                None => None,
                            },
                            None => None,
                        }
                    },
                    _ => None,
                }
            }
        },
        _ => None,
    }
}

/// The download links that a list of matches gives, by version; a later match replaces an
/// earlier one of the same version.
pub open spec fn links_spec(
    caps: Seq<Seq<Option<Seq<char>>>>,
    base: Seq<char>,
    os: Seq<char>,
    arch: Seq<char>,
    ext: Seq<char>,
) -> Map<Version, LinkView>
    decreases caps.len(),
{
    if caps.len() == 0 {
        Map::empty()
    } else {
        let m = links_spec(caps.drop_last(), base, os, arch, ext);
        match link_entry(caps.last(), base, os, arch, ext) {
            Some(l) => m.insert(l.0, l),
            None => m,
        }
    }
}

/// One release category of the download site (`Blender{major}.{minor}/`), with the
/// packages it offers for this machine, at most one per version.
#[derive(Debug)]
pub struct BlenderCategory {
    base_url: String,
    major: u64,
    minor: u64,
    links: Vec<Package>,
}

fn link_position(list: &Vec<DownloadLink>, version: &Version) -> (res: Option<usize>)
    ensures
        res matches Some(i) ==> i < list.len() && list@[i as int]@.0 == *version,
        res is None ==> !has_key(list@, link_key(), *version),
{
    let mut i: usize = 0;
    while i < list.len()
        invariant
            i <= list.len(),
            forall|k: int| 0 <= k < i ==> list@[k]@.0 != *version,
        decreases list.len() - i,
    {
        if list[i].get_version().same_as(version) {
            return Some(i);
        }
        i = i + 1;
    }
    None
}

fn package_position(list: &Vec<Package>, version: &Version) -> (res: Option<usize>)
    ensures
        res matches Some(i) ==> i < list.len() && list@[i as int]@.link.0 == *version,
        res is None ==> !has_key(list@, package_key(), *version),
{
    let mut i: usize = 0;
    while i < list.len()
        invariant
            i <= list.len(),
            forall|k: int| 0 <= k < i ==> list@[k]@.link.0 != *version,
        decreases list.len() - i,
    {
        if list[i].get_version().same_as(version) {
            return Some(i);
        }
        i = i + 1;
    }
    None
}

/// Files `link` in `list`, replacing the link of the same version.
fn put_link(list: &mut Vec<DownloadLink>, link: DownloadLink)
    requires
        unique_keys(old(list)@, link_key()),
    ensures
        unique_keys(final(list)@, link_key()),
        keyed_map(final(list)@, link_key()) == keyed_map(old(list)@, link_key()).insert(
            link@.0,
            link@,
        ),
{
    let ghost s = list@;
    match link_position(list, link.get_version()) {
        Some(i) => {
            proof {
                lemma_keyed_update(s, link_key(), i as int, link);
            }
            list.set(i, link);
        },
        None => {
            proof {
                lemma_keyed_push(s, link_key(), link);
            }
            list.push(link);
        },
    }
}

impl BlenderCategory {
    #[verifier::type_invariant]
    spec fn inv(&self) -> bool {
        unique_keys(self.links@, package_key())
    }

    /// The packages, by version.
    pub closed spec fn packages(&self) -> Map<Version, PackageView> {
        keyed_map(self.links@, package_key())
    }

    /// The packages in the order in which they are listed.
    pub closed spec fn listed(&self) -> Seq<Package> {
        self.links@
    }

    pub closed spec fn base_url_spec(&self) -> Seq<char> {
        self.base_url@
    }

    pub closed spec fn major_spec(&self) -> u64 {
        self.major
    }

    pub closed spec fn minor_spec(&self) -> u64 {
        self.minor
    }

    /// The category at `base_url` for `major.minor`, offering `links`; of two packages of
    /// the same version the later is kept.
    pub fn new(base_url: String, major: u64, minor: u64, links: Vec<Package>) -> (c: BlenderCategory)
        ensures
            c.base_url_spec() == base_url@,
            c.major_spec() == major,
            c.minor_spec() == minor,
            c.packages() == last_wins(links@, package_key()),
    {
        let mut c = BlenderCategory { base_url, major, minor, links: Vec::new() };
        assert(c.packages() =~= Map::<Version, PackageView>::empty());
        let mut rest = links;
        let ghost all = links@;
        let mut i: usize = 0;
        let n = rest.len();
        while i < n
            invariant
                n == all.len(),
                i <= n,
                rest@ == all.subrange(i as int, n as int),
                c.base_url_spec() == base_url@,
                c.major_spec() == major,
                c.minor_spec() == minor,
                c.packages() == last_wins(all.take(i as int), package_key()),
            decreases n - i,
        {
            let p = rest.remove(0);
            proof {
                assert(p == all[i as int]);
                assert(rest@ =~= all.subrange(i + 1, n as int));
                assert(all.take(i + 1).drop_last() =~= all.take(i as int));
            }
            let _ = c.insert_package(p);
            i = i + 1;
        }
        assert(all.take(n as int) =~= all);
        c
    }

    /// The version of the category: `major.minor.0`.
    pub fn get_version(&self) -> (v: Version)
        ensures
            v == (Version { major: self.major_spec(), minor: self.minor_spec(), patch: 0 }),
    {
        Version::new(self.major, self.minor, 0)
    }

    /// The address of the category page.
    pub fn base_url(&self) -> (res: &str)
        ensures
            res@ == self.base_url_spec(),
    {
        self.base_url.as_str()
    }

    /// Every package, once each.
    pub fn get_packages(&self) -> (res: Vec<&Package>)
        ensures
            res@.map_values(|p: &Package| *p) == self.listed(),
            unique_keys(self.listed(), package_key()),
            keyed_map(self.listed(), package_key()) == self.packages(),
    {
        proof {
            use_type_invariant(self);
        }
        let mut res: Vec<&Package> = Vec::new();
        let mut i: usize = 0;
        while i < self.links.len()
            invariant
                i <= self.links.len(),
                res.len() == i,
                forall|k: int| 0 <= k < i ==> *res@[k] == self.links@[k],
            decreases self.links.len() - i,
        {
            res.push(&self.links[i]);
            i = i + 1;
        }
        assert(res@.map_values(|p: &Package| *p) =~= self.links@);
        res
    }

    /// Files `package`, replacing and returning the package of the same version.
    pub fn insert_package(&mut self, package: Package) -> (res: Option<Package>)
        ensures
            final(self).packages() == old(self).packages().insert(package@.link.0, package@),
            res is Some <==> old(self).packages().dom().contains(package@.link.0),
            res matches Some(p) ==> p@ == old(self).packages()[package@.link.0],
            final(self).base_url_spec() == old(self).base_url_spec(),
            final(self).major_spec() == old(self).major_spec(),
            final(self).minor_spec() == old(self).minor_spec(),
    {
        proof {
            use_type_invariant(&*self);
        }
        let ghost s = self.links@;
        match package_position(&self.links, package.get_version()) {
            Some(i) => {
                proof {
                    lemma_keyed_lookup(s, package_key(), i as int);
                    lemma_keyed_update(s, package_key(), i as int, package);
                }
                let mut v = Vec::new();
                std::mem::swap(&mut v, &mut self.links);
                let mut previous = package;
                std::mem::swap(&mut previous, &mut v[i]);
                self.links = v;
                Some(previous)
            },
            None => {
                proof {
                    lemma_keyed_push(s, package_key(), package);
                }
                let mut v = Vec::new();
                std::mem::swap(&mut v, &mut self.links);
                v.push(package);
                self.links = v;
                None
            },
        }
    }

    /// Takes out and returns the package of `version`.
    pub fn remove_package(&mut self, version: &Version) -> (res: Option<Package>)
        ensures
            final(self).packages() == old(self).packages().remove(*version),
            res is Some <==> old(self).packages().dom().contains(*version),
            res matches Some(p) ==> p@ == old(self).packages()[*version],
            final(self).base_url_spec() == old(self).base_url_spec(),
            final(self).major_spec() == old(self).major_spec(),
            final(self).minor_spec() == old(self).minor_spec(),
    {
        proof {
            use_type_invariant(&*self);
        }
        let ghost s = self.links@;
        match package_position(&self.links, version) {
            Some(i) => {
                proof {
                    lemma_keyed_lookup(s, package_key(), i as int);
                    lemma_keyed_remove(s, package_key(), i as int);
                }
                let mut v = Vec::new();
                std::mem::swap(&mut v, &mut self.links);
                let p = v.remove(i);
                self.links = v;
                Some(p)
            },
            None => {
                assert(old(self).packages().remove(*version) =~= old(self).packages());
                None
            },
        }
    }

    /// Takes out the package of `version`, to make it ready; `NotFound` when the category
    /// offers none of that version.
    pub fn take_package(&mut self, version: &Version) -> (res: Result<Package, BlenderCategoryError>)
        ensures
            res is Ok <==> old(self).packages().dom().contains(*version),
            res matches Ok(p) ==> p@ == old(self).packages()[*version],
            res matches Err(e) ==> e is NotFound,
            final(self).packages() == old(self).packages().remove(*version),
            final(self).base_url_spec() == old(self).base_url_spec(),
            final(self).major_spec() == old(self).major_spec(),
            final(self).minor_spec() == old(self).minor_spec(),
    {
        match self.remove_package(version) {
            Some(p) => Ok(p),
            None => Err(BlenderCategoryError::NotFound),
        }
    }

    /// Files back a package that was made ready, once the Blender in it was found: returns
    /// that Blender. `NotFound` when no Blender was found in it; the package then stays out.
    pub fn put_back_ready<B>(&mut self, ready: Package, blender: Option<B>) -> (res: Result<
        B,
        BlenderCategoryError,
    >)
        ensures
            blender is None ==> (res matches Err(e) && e is NotFound && final(self).packages()
                == old(self).packages()),
            blender matches Some(b) ==> (res matches Ok(r) && r == b && final(self).packages()
                == old(self).packages().insert(ready@.link.0, ready@)),
            final(self).base_url_spec() == old(self).base_url_spec(),
            final(self).major_spec() == old(self).major_spec(),
            final(self).minor_spec() == old(self).minor_spec(),
    {
        match blender {
            Some(b) => {
                let _ = self.insert_package(ready);
                Ok(b)
            },
            None => Err(BlenderCategoryError::NotFound),
        }
    }

    /// The download links that the matches `caps` of the link pattern give for the
    /// operating system `os`, release architecture `arch` and extension `ext`, resolved
    /// against `base_url`; at most one per version, a later match replacing an earlier one.
    pub fn links_from_captures(
        caps: &Vec<Vec<Option<String>>>,
        base_url: &str,
        os: &str,
        arch: &str,
        ext: &str,
    ) -> (res: Vec<DownloadLink>)
        ensures
            unique_keys(res@, link_key()),
            keyed_map(res@, link_key()) == links_spec(
                captures_view(caps@),
                base_url@,
                os@,
                arch@,
                ext@,
            ),
    {
        let mut res: Vec<DownloadLink> = Vec::new();
        let ghost cv = captures_view(caps@);
        assert(keyed_map(res@, link_key()) =~= Map::<Version, LinkView>::empty());
        let mut i: usize = 0;
        while i < caps.len()
            invariant
                i <= caps.len(),
                cv == captures_view(caps@),
                unique_keys(res@, link_key()),
                keyed_map(res@, link_key()) == links_spec(
                    cv.take(i as int),
                    base_url@,
                    os@,
                    arch@,
                    ext@,
                ),
            decreases caps.len() - i,
        {
            let g = &caps[i];
            proof {
                assert(cv.take(i + 1).drop_last() =~= cv.take(i as int));
                assert(cv.take(i + 1).last() == cv[i as int]);
                assert(cv[i as int] == group_views(g@));
            }
            let entry = Self::link_of(g, base_url, os, arch, ext);
            match entry {
                Some(link) => {
                    put_link(&mut res, link);
                },
                None => {},
            }
            i = i + 1;
        }
        assert(cv.take(caps.len() as int) =~= cv);
        res
    }

    /// The download link of one match, see [`link_entry`].
    fn link_of(g: &Vec<Option<String>>, base_url: &str, os: &str, arch: &str, ext: &str) -> (res:
        Option<DownloadLink>)
        ensures
            match (res, link_entry(group_views(g@), base_url@, os@, arch@, ext@)) {
                (Some(l), Some(e)) => l@ == e,
                (None, None) => true,
                _ => false,
            },
    {
        let (url, major, minor, patch, g_os, g_arch, g_ext) = match (
            group_at(g, 1),
            group_at(g, 2),
            group_at(g, 3),
            group_at(g, 4),
            group_at(g, 5),
            group_at(g, 6),
            group_at(g, 7),
        ) {
            (Some(u), Some(ma), Some(mi), Some(pa), Some(o), Some(a), Some(e)) => (
                u,
                ma,
                mi,
                pa,
                o,
                a,
                e,
            ),
            _ => return None,
        };
        if g_ext.to_owned() != ext.to_owned() || g_os.to_owned() != os.to_owned()
            || g_arch.to_owned() != arch.to_owned() {
            return None;
        }
        let major = match parse_u64(major) {
            Ok(v) => v,
            Err(_) => return None,
        };
        let minor = match parse_u64(minor) {
            Ok(v) => v,
            Err(_) => return None,
        };
        let patch = match parse_u64(patch) {
            Ok(v) => v,
            Err(_) => return None,
        };
        if major < 3 {
            return None;
        }
        let url = match join_address(base_url, url) {
            Some(u) => u,
            None => return None,
        };
        match DownloadLink::from(url, Version::new(major, minor, patch)) {
            Ok(link) => Some(link),
            Err(_) => None,
        }
    }

    /// The download links that the category page `content` at `base_url` offers for the
    /// operating system `os` and architecture `arch` (as `std::env::consts` names them).
    /// `InvalidArch` when Blender is not released for the architecture, `UnsupportedOS` when
    /// it is not released for the operating system.
    pub fn parse_content(content: &str, base_url: &str, os: &str, arch: &str) -> (res: Result<
        Vec<DownloadLink>,
        BlenderCategoryError,
    >)
        ensures
            arch_spec(arch@) is Err ==> (res matches Err(BlenderCategoryError::InvalidArch(a))
                && a@ == arch@),
            arch_spec(arch@) is Ok && extension_spec(os@) is Err ==> (res matches Err(
                BlenderCategoryError::UnsupportedOS(o),
            ) && o@ == os@),
            (arch_spec(arch@) is Ok && extension_spec(os@) is Ok) ==> (res matches Ok(links)
                && unique_keys(links@, link_key()) && keyed_map(links@, link_key()) == links_spec(
                regex_captures(link_pattern(), content@),
                base_url@,
                os@,
                arch_spec(arch@)->Ok_0,
                extension_spec(os@)->Ok_0,
            )),
            res matches Ok(links) ==> forall|i: int|
                #![trigger links@[i]]
                0 <= i < links.len() ==> exists|k: int|
                    0 <= k < regex_captures(link_pattern(), content@).len() && gives_link_for(
                        #[trigger] regex_captures(link_pattern(), content@)[k],
                        base_url@,
                        os@,
                        arch_spec(arch@)->Ok_0,
                        extension_spec(os@)->Ok_0,
                        links@[i]@,
                    ),
            res matches Ok(links) ==> forall|k: int, l: LinkView|
                0 <= k < regex_captures(link_pattern(), content@).len() && #[trigger] gives_link_for(
                    regex_captures(link_pattern(), content@)[k],
                    base_url@,
                    os@,
                    arch_spec(arch@)->Ok_0,
                    extension_spec(os@)->Ok_0,
                    l,
                ) && l.0.major >= 3 && last_path_segment(l.2) == Some(l.1) ==> exists|i: int|
                    0 <= i < links.len() && (#[trigger] links@[i]@).0 == l.0,
    {
        let current_arch = match get_valid_arch(arch) {
            Ok(a) => a,
            Err(e) => return Err(BlenderCategoryError::InvalidArch(e)),
        };
        let valid_ext = match get_extension(os) {
            Ok(e) => e,
            Err(e) => return Err(BlenderCategoryError::UnsupportedOS(e)),
        };
        let caps = captures_all(
            "<a href=\"(?<url>\\w*-(?<major>\\d*).(?<minor>\\d*).(?<patch>\\d*.)-(?<os>\\w.*)-(?<arch>\\w*)\\.(?<ext>.*))\">",
            content,
        );
        let links = Self::links_from_captures(
            &caps,
            base_url,
            os,
            current_arch.as_str(),
            valid_ext.as_str(),
        );
        proof {
            let cv = regex_captures(link_pattern(), content@);
            law_links_are_for_this_platform(cv, base_url@, os@, current_arch@, valid_ext@);
            assert forall|i: int| #![trigger links@[i]] 0 <= i < links.len() implies exists|k: int|
                0 <= k < regex_captures(link_pattern(), content@).len() && gives_link_for(
                    #[trigger] regex_captures(link_pattern(), content@)[k],
                    base_url@,
                    os@,
                    arch_spec(arch@)->Ok_0,
                    extension_spec(os@)->Ok_0,
                    links@[i]@,
                ) by {
                lemma_keyed_lookup(links@, link_key(), i);
                let v = links@[i]@.0;
                assert(links_spec(cv, base_url@, os@, current_arch@, valid_ext@).dom().contains(v));
            }
            assert forall|k: int, l: LinkView|
                0 <= k < regex_captures(link_pattern(), content@).len() && #[trigger] gives_link_for(
                    regex_captures(link_pattern(), content@)[k],
                    base_url@,
                    os@,
                    arch_spec(arch@)->Ok_0,
                    extension_spec(os@)->Ok_0,
                    l,
                ) && l.0.major >= 3 && last_path_segment(l.2) == Some(l.1) implies exists|i: int|
                    0 <= i < links.len() && (#[trigger] links@[i]@).0 == l.0 by {
                law_platform_links_are_kept(cv, base_url@, os@, current_arch@, valid_ext@, k, l);
                assert(has_key(links@, link_key(), l.0));
            }
        }
        Ok(links)
    }
}

/// Two categories are the same page when their addresses are equal.
impl PartialEq for BlenderCategory {
    fn eq(&self, other: &Self) -> (res: bool) {
        self.base_url == other.base_url
    }
}

impl PartialEqSpecImpl for BlenderCategory {
    open spec fn obeys_eq_spec() -> bool {
        true
    }

    open spec fn eq_spec(&self, other: &Self) -> bool {
        self.base_url_spec() == other.base_url_spec()
    }
}

/// The order of two categories by release: major version, then minor version.
pub open spec fn release_order(a: BlenderCategory, b: BlenderCategory) -> Option<Ordering> {
    if a.major_spec() < b.major_spec() {
        Some(Ordering::Less)
    } else if a.major_spec() > b.major_spec() {
        Some(Ordering::Greater)
    } else if a.minor_spec() < b.minor_spec() {
        Some(Ordering::Less)
    } else if a.minor_spec() > b.minor_spec() {
        Some(Ordering::Greater)
    } else {
        Some(Ordering::Equal)
    }
}

/// Categories are ordered by release (see [`release_order`]).
impl PartialOrd for BlenderCategory {
    fn partial_cmp(&self, other: &Self) -> (res: Option<Ordering>) {
        if self.major < other.major {
            Some(Ordering::Less)
        } else if self.major > other.major {
            Some(Ordering::Greater)
        } else if self.minor < other.minor {
            Some(Ordering::Less)
        } else if self.minor > other.minor {
            Some(Ordering::Greater)
        } else {
            Some(Ordering::Equal)
        }
    }
}

impl PartialOrdSpecImpl for BlenderCategory {
    open spec fn obeys_partial_cmp_spec() -> bool {
        true
    }

    open spec fn partial_cmp_spec(&self, other: &Self) -> Option<Ordering> {
        release_order(*self, *other)
    }
}

/// Every download link found on a category page is for a release of version 3 or later,
/// and is named by the last segment of its address.
pub proof fn law_links_are_modern(
    caps: Seq<Seq<Option<Seq<char>>>>,
    base: Seq<char>,
    os: Seq<char>,
    arch: Seq<char>,
    ext: Seq<char>,
)
    ensures
        forall|v: Version| #[trigger]
            links_spec(caps, base, os, arch, ext).dom().contains(v) ==> {
                let l = links_spec(caps, base, os, arch, ext)[v];
                &&& v.major >= 3
                &&& l.0 == v
                &&& last_path_segment(l.2) == Some(l.1)
            },
    decreases caps.len(),
{
    if caps.len() > 0 {
        law_links_are_modern(caps.drop_last(), base, os, arch, ext);
    }
}

/// The match `g` of the link pattern is for operating system `os`, architecture `arch` and
/// extension `ext`, and gives the link `l`: its numbers are `l`'s version and its address,
/// resolved against `base`, is `l`'s address.
pub open spec fn gives_link_for(
    g: Seq<Option<Seq<char>>>,
    base: Seq<char>,
    os: Seq<char>,
    arch: Seq<char>,
    ext: Seq<char>,
    l: LinkView,
) -> bool {
    &&& group(g, 5) == Some(os)
    &&& group(g, 6) == Some(arch)
    &&& group(g, 7) == Some(ext)
    &&& group(g, 2) matches Some(ma) && parsed_u64(ma) == Some(l.0.major)
    &&& group(g, 3) matches Some(mi) && parsed_u64(mi) == Some(l.0.minor)
    &&& group(g, 4) matches Some(pa) && parsed_u64(pa) == Some(l.0.patch)
    &&& group(g, 1) matches Some(u) && joined_address(base, u) == Some(l.2)
}

/// Every download link read from a category page comes from one match of the link pattern
/// whose operating system, architecture and extension groups are exactly the ones asked for:
/// its version is the numbers of that match and its address is the match's address resolved
/// against the page. A link for another architecture (or system, or archive kind) is never
/// taken.
pub proof fn law_links_are_for_this_platform(
    caps: Seq<Seq<Option<Seq<char>>>>,
    base: Seq<char>,
    os: Seq<char>,
    arch: Seq<char>,
    ext: Seq<char>,
)
    ensures
        forall|v: Version| #[trigger]
            links_spec(caps, base, os, arch, ext).dom().contains(v) ==> links_spec(
                caps,
                base,
                os,
                arch,
                ext,
            )[v].0 == v && exists|k: int|
                0 <= k < caps.len() && gives_link_for(
                    #[trigger] caps[k],
                    base,
                    os,
                    arch,
                    ext,
                    links_spec(caps, base, os, arch, ext)[v],
                ),
    decreases caps.len(),
{
    if caps.len() > 0 {
        let init = caps.drop_last();
        law_links_are_for_this_platform(init, base, os, arch, ext);
        let m = links_spec(init, base, os, arch, ext);
        let full = links_spec(caps, base, os, arch, ext);
        assert forall|v: Version| #[trigger] full.dom().contains(v) implies full[v].0 == v
            && exists|k: int|
            0 <= k < caps.len() && gives_link_for(#[trigger] caps[k], base, os, arch, ext, full[v]) by {
            let last = caps.last();
            match link_entry(last, base, os, arch, ext) {
                Some(l) => {
                    if v == l.0 {
                        assert(full[v] == l);
                        assert(caps[caps.len() - 1] == last);
                        assert(gives_link_for(caps[caps.len() - 1], base, os, arch, ext, full[v]));
                    } else {
                        assert(m.dom().contains(v) && full[v] == m[v]);
                        let k = choose|k: int|
                            0 <= k < init.len() && gives_link_for(#[trigger] init[k], base, os, arch, ext, m[v]);
                        assert(caps[k] == init[k]);
                    }
                },
                None => {
                    assert(full == m);
                    let k = choose|k: int|
                        0 <= k < init.len() && gives_link_for(#[trigger] init[k], base, os, arch, ext, m[v]);
                    assert(caps[k] == init[k]);
                },
            }
        }
    }
}

/// No download link for this platform is lost: every match of the link pattern that is for
/// the operating system, architecture and extension asked for, whose numbers read with a
/// major version of at least 3 and whose address resolves to one with a file name, leaves a
/// link of its version in the result.
pub proof fn law_platform_links_are_kept(
    caps: Seq<Seq<Option<Seq<char>>>>,
    base: Seq<char>,
    os: Seq<char>,
    arch: Seq<char>,
    ext: Seq<char>,
    k: int,
    l: LinkView,
)
    requires
        0 <= k < caps.len(),
        gives_link_for(caps[k], base, os, arch, ext, l),
        l.0.major >= 3,
        last_path_segment(l.2) == Some(l.1),
    ensures
        links_spec(caps, base, os, arch, ext).dom().contains(l.0),
    decreases caps.len(),
{
    let init = caps.drop_last();
    if k == caps.len() - 1 {
        assert(caps.last() == caps[k]);
        assert(link_entry(caps.last(), base, os, arch, ext) == Some(l));
    } else {
        assert(init[k] == caps[k]);
        law_platform_links_are_kept(init, base, os, arch, ext, k, l);
    }
}

/// Taking out the package of a version and filing a package of the same version in its place
/// leaves every other package as it was.
pub proof fn law_take_and_put_back(
    before: BlenderCategory,
    taken: BlenderCategory,
    after: BlenderCategory,
    version: Version,
    package: PackageView,
)
    requires
        taken.packages() == before.packages().remove(version),
        package.link.0 == version,
        after.packages() == taken.packages().insert(version, package),
    ensures
        after.packages() == before.packages().insert(version, package),
        after.packages().dom().contains(version),
        forall|v: Version|
            v != version ==> (#[trigger] after.packages().dom().contains(v)
                == before.packages().dom().contains(v)),
{
    assert(after.packages() =~= before.packages().insert(version, package));
}

} // verus!
