use vstd::prelude::*;
use vstd::string::StringExecFns;
use crate::category::BlenderCategory;
use crate::packages::Package;
use crate::address::{join_address, joined_address};
use crate::search::{captures_all, captures_view, group, group_at, group_views, regex_captures};
use crate::text::{decimal, parse_u64, parsed_u64};
use crate::version::{version_le, version_lt, Version};

verus! {

/// The version of a release category: `major.minor.0`.
pub open spec fn category_version(c: BlenderCategory) -> Version {
    Version { major: c.major_spec(), minor: c.minor_spec(), patch: 0 }
}

/// `a` is not older than `b`, as categories are ordered (by major, then minor version).
pub open spec fn not_older(a: BlenderCategory, b: BlenderCategory) -> bool {
    version_le(category_version(b), category_version(a))
}

/// Newest category first.
pub open spec fn newest_first(s: Seq<BlenderCategory>) -> bool {
    forall|i: int, j: int| 0 <= i < j < s.len() ==> not_older(#[trigger] s[i], #[trigger] s[j])
}

/// `res` holds the categories of `list`, each once, with categories of the same version in
/// the order in which `list` gives them: `from[k]` is the position in `list` of `res[k]`.
pub open spec fn stable_order(
    res: Seq<BlenderCategory>,
    list: Seq<BlenderCategory>,
    from: Seq<int>,
) -> bool {
    &&& from.len() == res.len()
    &&& res.len() == list.len()
    &&& forall|k: int|
        0 <= k < res.len() ==> 0 <= #[trigger] from[k] < list.len() && res[k] == list[from[k]]
    &&& forall|a: int, b: int| 0 <= a < b < res.len() ==> #[trigger] from[a] != #[trigger] from[b]
    &&& forall|a: int, b: int|
        0 <= a < b < res.len() && category_version(#[trigger] res[a]) == category_version(
            #[trigger] res[b],
        ) ==> from[a] < from[b]
}

/// A category that a lookup for `v` accepts: same major version, and same minor version
/// unless `v`'s minor version is 0.
pub open spec fn category_matches(c: BlenderCategory, v: Version) -> bool {
    c.major_spec() == v.major && (v.minor == 0 || c.minor_spec() == v.minor)
}

/// The pattern of a release category on the release index page.
pub open spec fn listing_pattern() -> Seq<char> {
    "<a href=\"(?<url>.*)\">Blender(?<major>[3-9]|\\d{1,}).(?<minor>\\d*)/</a>"@
}

/// The category that one match of the listing pattern gives (address, major, minor),
/// when its groups took part in the match, its numbers read and its major version is at
/// least 3.
pub open spec fn listing_entry(g: Seq<Option<Seq<char>>>) -> Option<(Seq<char>, u64, u64)> {
    match (group(g, 1), group(g, 2), group(g, 3)) {
        (Some(url), Some(ma), Some(mi)) => match (parsed_u64(ma), parsed_u64(mi)) {
            (Some(major), Some(minor)) => if major >= 3 {
                Some((url, major, minor))
            } else {
                None
            },
            _ => None,
        },
        _ => None,
    }
}

/// The categories that a list of matches gives, in order.
pub open spec fn listing_spec(caps: Seq<Seq<Option<Seq<char>>>>) -> Seq<(Seq<char>, u64, u64)>
    decreases caps.len(),
{
    if caps.len() == 0 {
        Seq::empty()
    } else {
        match listing_entry(caps.last()) {
            Some(e) => listing_spec(caps.drop_last()).push(e),
            None => listing_spec(caps.drop_last()),
        }
    }
}

/// The release categories of the download site, and where releases are installed.
#[derive(Debug)]
pub struct Portal {
    list: Vec<BlenderCategory>,
    download_path: String,
}

impl Portal {
    pub closed spec fn categories(&self) -> Seq<BlenderCategory> {
        self.list@
    }

    pub closed spec fn download_path_spec(&self) -> Seq<char> {
        self.download_path@
    }

    pub fn new(download_path: String, list: Vec<BlenderCategory>) -> (p: Portal)
        ensures
            p.categories() == list@,
            p.download_path_spec() == download_path@,
    {
        Portal { list, download_path }
    }

    /// The categories, in order.
    pub fn list(&self) -> (res: &Vec<BlenderCategory>)
        ensures
            res@ == self.categories(),
    {
        &self.list
    }

    /// Where releases are installed.
    pub fn download_path(&self) -> (res: &str)
        ensures
            res@ == self.download_path_spec(),
    {
        self.download_path.as_str()
    }

    /// The name of a category folder: `Blender{major}.{minor}`.
    pub fn get_parent(major: u64, minor: u64) -> (res: String)
        ensures
            res@ == "Blender"@ + decimal(major as nat) + "."@ + decimal(minor as nat),
    {
        let mut s = String::from_str("Blender");
        let a = crate::text::decimal_string(major);
        s.append(a.as_str());
        s.append(".");
        let b = crate::text::decimal_string(minor);
        s.append(b.as_str());
        s
    }

    /// The address of the category page that the release index at `parent` links to as
    /// `href`, or `None` when it does not resolve.
    pub fn category_address(parent: &str, href: &str) -> (res: Option<String>)
        ensures
            res is Some <==> joined_address(parent@, href@) is Some,
            res matches Some(u) ==> joined_address(parent@, href@) == Some(u@),
    {
        join_address(parent, href)
    }

    /// The categories that the matches `caps` of the listing pattern give, in order.
    pub fn listing_from_captures(caps: &Vec<Vec<Option<String>>>) -> (res: Vec<(String, u64, u64)>)
        ensures
            res@.map_values(|e: (String, u64, u64)| (e.0@, e.1, e.2)) == listing_spec(
                captures_view(caps@),
            ),
    {
        let ghost cv = captures_view(caps@);
        let mut res: Vec<(String, u64, u64)> = Vec::new();
        let mut i: usize = 0;
        while i < caps.len()
            invariant
                i <= caps.len(),
                cv == captures_view(caps@),
                res@.map_values(|e: (String, u64, u64)| (e.0@, e.1, e.2)) == listing_spec(
                    cv.take(i as int),
                ),
            decreases caps.len() - i,
        {
            let g = &caps[i];
            proof {
                assert(cv.take(i + 1).drop_last() =~= cv.take(i as int));
                assert(cv.take(i + 1).last() == group_views(g@));
            }
            let ghost before = res@;
            match (group_at(g, 1), group_at(g, 2), group_at(g, 3)) {
                (Some(url), Some(ma), Some(mi)) => {
                    match (parse_u64(ma), parse_u64(mi)) {
                        (Ok(major), Ok(minor)) => {
                            if major >= 3 {
                                let url = url.to_owned();
                                res.push((url, major, minor));
                                assert(res@.map_values(|e: (String, u64, u64)| (e.0@, e.1, e.2))
                                    =~= before.map_values(|e: (String, u64, u64)| (e.0@, e.1, e.2)).push(
                                    (url@, major, minor),
                                ));
                            }
                        },
                        _ => {},
                    }
                },
                _ => {},
            }
            i = i + 1;
        }
        assert(cv.take(caps.len() as int) =~= cv);
        res
    }

    /// The release categories that the release index page `content` lists.
    pub fn parse_listing(content: &str) -> (res: Vec<(String, u64, u64)>)
        ensures
            res@.map_values(|e: (String, u64, u64)| (e.0@, e.1, e.2)) == listing_spec(
                regex_captures(listing_pattern(), content@),
            ),
    {
        let caps = captures_all(
            "<a href=\"(?<url>.*)\">Blender(?<major>[3-9]|\\d{1,}).(?<minor>\\d*)/</a>",
            content,
        );
        Self::listing_from_captures(&caps)
    }

    /// `list` ordered newest category first; categories of the same version keep the order
    /// in which `list` gives them.
    pub fn sort_categories(list: Vec<BlenderCategory>) -> (res: Vec<BlenderCategory>)
        ensures
            newest_first(res@),
            res@.to_multiset() == list@.to_multiset(),
            exists|from: Seq<int>| stable_order(res@, list@, from),
    {
        broadcast use vstd::seq_lib::group_to_multiset_ensures;

        let ghost all = list@;
        let mut rest = list;
        let mut res: Vec<BlenderCategory> = Vec::new();
        let ghost mut from: Seq<int> = Seq::empty();
        let mut i: usize = 0;
        let n = rest.len();
        while i < n
            invariant
                n == all.len(),
                i <= n,
                rest@ == all.subrange(i as int, n as int),
                newest_first(res@),
                res@.to_multiset() == all.take(i as int).to_multiset(),
                res.len() == i,
                from.len() == i,
                forall|k: int| 0 <= k < i ==> 0 <= #[trigger] from[k] < i && res@[k] == all[from[k]],
                forall|a: int, b: int| 0 <= a < b < i ==> #[trigger] from[a] != #[trigger] from[b],
                forall|a: int, b: int|
                    0 <= a < b < i && category_version(#[trigger] res@[a]) == category_version(
                        #[trigger] res@[b],
                    ) ==> from[a] < from[b],
            decreases n - i,
        {
            let x = rest.remove(0);
            proof {
                assert(rest@ =~= all.subrange(i + 1, n as int));
                assert(all.take(i + 1) =~= all.take(i as int).push(x));
            }
            let xv = x.get_version();
            let mut p: usize = 0;
            while p < res.len() && !res[p].get_version().older_than(&xv)
                invariant
                    p <= res.len(),
                    xv == category_version(x),
                    forall|k: int| 0 <= k < p ==> not_older(#[trigger] res@[k], x),
                decreases res.len() - p,
            {
                p = p + 1;
            }
            let ghost before = res@;
            let ghost before_from = from;
            res.insert(p, x);
            proof {
                from = before_from.insert(p as int, i as int);
                vstd::seq_lib::to_multiset_insert(before, p as int, x);
                vstd::seq_lib::to_multiset_build(all.take(i as int), x);
                assert forall|q: int| p <= q < before.len() implies version_lt(
                    category_version(#[trigger] before[q]),
                    xv,
                ) by {
                    if q > p {
                        assert(not_older(before[p as int], before[q]));
                    }
                }
                assert forall|a: int, b: int| 0 <= a < b < res@.len() implies not_older(
                    #[trigger] res@[a],
                    #[trigger] res@[b],
                ) by {
                    if b < p {
                        assert(res@[a] == before[a] && res@[b] == before[b]);
                    } else if b == p {
                        assert(res@[a] == before[a]);
                    } else if a == p {
                        assert(res@[b] == before[b - 1]);
                    } else if a < p {
                        assert(res@[a] == before[a] && res@[b] == before[b - 1]);
                    } else {
                        assert(res@[a] == before[a - 1] && res@[b] == before[b - 1]);
                    }
                }
                assert forall|k: int| 0 <= k < i + 1 implies 0 <= #[trigger] from[k] < i + 1
                    && res@[k] == all[from[k]] by {
                    if k < p {
                        assert(from[k] == before_from[k] && res@[k] == before[k]);
                    } else if k > p {
                        assert(from[k] == before_from[k - 1] && res@[k] == before[k - 1]);
                    }
                }
                assert forall|a: int, b: int| 0 <= a < b < i + 1 implies #[trigger] from[a]
                    != #[trigger] from[b] by {
                    if a != p && b != p {
                        let a0 = if a < p { a } else { a - 1 };
                        let b0 = if b < p { b } else { b - 1 };
                        assert(from[a] == before_from[a0] && from[b] == before_from[b0]);
                    } else if a == p {
                        assert(from[b] == before_from[b - 1]);
                    } else {
                        assert(from[a] == before_from[a]);
                    }
                }
                assert forall|a: int, b: int|
                    0 <= a < b < i + 1 && category_version(#[trigger] res@[a]) == category_version(
                        #[trigger] res@[b],
                    ) implies from[a] < from[b] by {
                    if a != p && b != p {
                        let a0 = if a < p { a } else { a - 1 };
                        let b0 = if b < p { b } else { b - 1 };
                        assert(from[a] == before_from[a0] && from[b] == before_from[b0]);
                        assert(res@[a] == before[a0] && res@[b] == before[b0]);
                    } else if a == p {
                        assert(res@[b] == before[b - 1]);
                        assert(version_lt(category_version(before[b - 1]), xv));
                    } else {
                        assert(from[a] == before_from[a]);
                    }
                }
            }
            i = i + 1;
        }
        assert(all.take(n as int) =~= all);
        assert(stable_order(res@, all, from));
        res
    }

    /// The category that a download of `version` uses: of those with the same major version
    /// (and minor version, unless `version`'s is 0), the oldest; the first listed among
    /// equals.
    pub fn get_blender_state_by_version(&self, version: &Version) -> (res: Option<usize>)
        ensures
            res matches Some(r) ==> self.categories()[r as int].major_spec() == version.major && (
            version.minor != 0 ==> self.categories()[r as int].minor_spec() == version.minor),
            res is None ==> forall|i: int|
                0 <= i < self.categories().len() ==> !(#[trigger] self.categories()[i].major_spec()
                    == version.major && (version.minor == 0 || self.categories()[i].minor_spec()
                    == version.minor)),
            res is None ==> forall|i: int|
                0 <= i < self.categories().len() ==> !category_matches(
                    #[trigger] self.categories()[i],
                    *version,
                ),
            res matches Some(r) ==> {
                &&& r < self.categories().len()
                &&& category_matches(self.categories()[r as int], *version)
                &&& forall|j: int|
                    0 <= j < self.categories().len() && category_matches(
                        #[trigger] self.categories()[j],
                        *version,
                    ) ==> version_le(
                        category_version(self.categories()[r as int]),
                        category_version(self.categories()[j]),
                    )
                &&& forall|j: int|
                    0 <= j < r && category_matches(#[trigger] self.categories()[j], *version)
                        ==> version_lt(
                        category_version(self.categories()[r as int]),
                        category_version(self.categories()[j]),
                    )
            },
    {
        let mut result: Option<usize> = None;
        let mut i: usize = 0;
        while i < self.list.len()
            invariant
                i <= self.list.len(),
                result is None ==> forall|k: int|
                    0 <= k < i ==> !category_matches(#[trigger] self.list@[k], *version),
                result matches Some(r) ==> {
                    &&& r < i
                    &&& category_matches(self.list@[r as int], *version)
                    &&& forall|j: int|
                        0 <= j < i && category_matches(#[trigger] self.list@[j], *version)
                            ==> version_le(
                            category_version(self.list@[r as int]),
                            category_version(self.list@[j]),
                        )
                    &&& forall|j: int|
                        0 <= j < r && category_matches(#[trigger] self.list@[j], *version)
                            ==> version_lt(
                            category_version(self.list@[r as int]),
                            category_version(self.list@[j]),
                        )
                },
            decreases self.list.len() - i,
        {
            let current = self.list[i].get_version();
            if current.major == version.major && (version.minor == 0 || current.minor
                == version.minor) {
                match result {
                    Some(r) => {
                        if !self.list[r].get_version().not_newer_than(&current) {
                            result = Some(i);
                        }
                    },
                    None => {
                        result = Some(i);
                    },
                }
            }
            i = i + 1;
        }
        result
    }

    /// The category at `index`, to work on.
    pub fn category_mut(&mut self, index: usize) -> (res: &mut BlenderCategory)
        requires
            index < old(self).categories().len(),
        ensures
            *res == old(self).categories()[index as int],
            final(self).categories() == old(self).categories().update(index as int, *final(res)),
            final(self).download_path_spec() == old(self).download_path_spec(),
    {
        &mut self.list[index]
    }

    /// Every package of every category, category by category.
    pub fn get_downloads(&self) -> (res: Vec<&Package>)
        ensures
            res@.map_values(|p: &Package| *p) == self.categories().map_values(
                |c: BlenderCategory| c.listed(),
            ).flatten(),
    {
        let ghost f = |c: BlenderCategory| c.listed();
        let mut result: Vec<&Package> = Vec::new();
        let mut i: usize = 0;
        while i < self.list.len()
            invariant
                i <= self.list.len(),
                result@.map_values(|p: &Package| *p) == self.list@.take(i as int).map_values(
                    f,
                ).flatten(),
                f == (|c: BlenderCategory| c.listed()),
            decreases self.list.len() - i,
        {
            let col = self.list[i].get_packages();
            let ghost before = result@;
            let mut k: usize = 0;
            while k < col.len()
                invariant
                    k <= col.len(),
                    result@ == before + col@.take(k as int),
                decreases col.len() - k,
            {
                result.push(col[k]);
                assert(col@.take(k + 1) =~= col@.take(k as int).push(col@[k as int]));
                k = k + 1;
            }
            proof {
                assert(col@.take(col.len() as int) =~= col@);
                let m = |p: &Package| *p;
                assert((before + col@).map_values(m) =~= before.map_values(m) + col@.map_values(m));
                assert(self.list@.take(i + 1).map_values(f) =~= self.list@.take(i as int).map_values(
                    f,
                ).push(self.list@[i as int].listed()));
                self.list@.take(i as int).map_values(f).lemma_flatten_push(self.list@[i as int].listed());
            }
            i = i + 1;
        }
        assert(self.list@.take(self.list.len() as int) =~= self.list@);
        result
    }

    /// The path of a downloaded archive named `zip_file_name`. Only the last category is
    /// searched; of its packages the first downloaded one whose archive path is the name is
    /// returned.
    pub fn check_compressed_blender_by_file_name(&self, zip_file_name: &str) -> (res: Option<
        String,
    >)
        ensures
            self.categories().len() == 0 ==> res is None,
            self.categories().len() > 0 ==> {
                let pk = self.categories().last().listed();
                &&& res is None ==> forall|k: int|
                    0 <= k < pk.len() ==> #[trigger] pk[k]@.stage == 0 || pk[k]@.content
                        != zip_file_name@
                &&& res matches Some(path) ==> {
                    path@ == zip_file_name@ && exists|k: int|
                        0 <= k < pk.len() && #[trigger] pk[k]@.stage != 0 && pk[k]@.content
                            == zip_file_name@ && forall|j: int|
                            0 <= j < k ==> #[trigger] pk[j]@.stage == 0 || pk[j]@.content
                                != zip_file_name@
                }
            },
    {
        if self.list.len() == 0 {
            return None;
        }
        let last = &self.list[self.list.len() - 1];
        let packages = last.get_packages();
        let target = zip_file_name.to_owned();
        let ghost pk = last.listed();
        assert(packages@.map_values(|p: &Package| *p) == pk);
        let mut k: usize = 0;
        while k < packages.len()
            invariant
                k <= packages.len(),
                self.categories().len() > 0,
                pk == self.categories().last().listed(),
                packages@.map_values(|p: &Package| *p) == pk,
                target@ == zip_file_name@,
                forall|j: int| 0 <= j < k ==> #[trigger] pk[j]@.stage == 0 || pk[j]@.content
                    != zip_file_name@,
            decreases packages.len() - k,
        {
            assert(pk[k as int] == *packages@[k as int]);
            match packages[k].archive_path() {
                Some(path) => {
                    let owned = path.to_owned();
                    if owned == target {
                        assert(pk[k as int]@.stage != 0 && pk[k as int]@.content == zip_file_name@);
                        return Some(owned);
                    }
                },
                None => {},
            }
            k = k + 1;
        }
        None
    }
}

/// Every category that the release index lists is of major version 3 or later.
pub proof fn law_listing_is_modern(caps: Seq<Seq<Option<Seq<char>>>>)
    ensures
        forall|k: int| 0 <= k < listing_spec(caps).len() ==> #[trigger] listing_spec(caps)[k].1 >= 3,
    decreases caps.len(),
{
    if caps.len() > 0 {
        let prev = listing_spec(caps.drop_last());
        law_listing_is_modern(caps.drop_last());
        match listing_entry(caps.last()) {
            Some(e) => {
                assert forall|k: int| 0 <= k < prev.push(e).len() implies #[trigger] prev.push(e)[k].1
                    >= 3 by {
                    if k < prev.len() {
                        assert(prev.push(e)[k] == prev[k]);
                    }
                }
            },
            None => {},
        }
    }
}

} // verus!
