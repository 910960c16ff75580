use vstd::prelude::*;
use crate::blender::Blender;
use crate::version::{version_le, Version};

verus! {

/// The installed Blenders, at most one per version, and where new ones are installed.
#[derive(Debug)]
pub struct BlenderConfig {
    blenders: Vec<Blender>,
    install_path: String,
}

/// No two entries of `s` have the same version.
pub open spec fn distinct_versions(s: Seq<Blender>) -> bool {
    forall|i: int, j: int|
        0 <= i < s.len() && 0 <= j < s.len() && i != j ==> #[trigger] s[i]@.0 != #[trigger] s[j]@.0
}

/// Some entry of `s` has version `v`.
pub open spec fn has_version(s: Seq<Blender>, v: Version) -> bool {
    exists|i: int| 0 <= i < s.len() && #[trigger] s[i]@.0 == v
}

/// The installed Blenders as a map from version to executable path.
pub open spec fn entries_map(s: Seq<Blender>) -> Map<Version, Seq<char>> {
    Map::new(
        |v: Version| has_version(s, v),
        |v: Version| s[choose|i: int| 0 <= i < s.len() && #[trigger] s[i]@.0 == v]@.1,
    )
}

/// A version that a partial lookup for `major` (and `minor`, unless it is 0) accepts.
pub open spec fn partial_match(v: Version, major: u64, minor: u64) -> bool {
    v.major == major && (minor == 0 || v.minor == minor)
}

proof fn lemma_lookup(s: Seq<Blender>, i: int)
    requires
        distinct_versions(s),
        0 <= i < s.len(),
    ensures
        entries_map(s).dom().contains(s[i]@.0),
        entries_map(s)[s[i]@.0] == s[i]@.1,
{
    let v = s[i]@.0;
    assert(has_version(s, v));
    let k = choose|k: int| 0 <= k < s.len() && #[trigger] s[k]@.0 == v;
    assert(k == i);
}

proof fn lemma_push(s: Seq<Blender>, b: Blender)
    requires
        distinct_versions(s),
        !has_version(s, b@.0),
    ensures
        distinct_versions(s.push(b)),
        entries_map(s.push(b)) == entries_map(s).insert(b@.0, b@.1),
{
    let t = s.push(b);
    assert(forall|i: int| 0 <= i < s.len() ==> t[i] == s[i]);
    assert forall|i: int, j: int|
        0 <= i < t.len() && 0 <= j < t.len() && i != j implies #[trigger] t[i]@.0 != #[trigger] t[j]@.0 by {
        if i < s.len() && j < s.len() {
        } else if i < s.len() {
            assert(s[i]@.0 != b@.0);
        } else if j < s.len() {
            assert(s[j]@.0 != b@.0);
        }
    }
    assert forall|v: Version| #[trigger] has_version(t, v) == (has_version(s, v) || v == b@.0) by {
        if has_version(s, v) {
            let k = choose|k: int| 0 <= k < s.len() && #[trigger] s[k]@.0 == v;
            assert(t[k]@.0 == v);
        }
        if v == b@.0 {
            assert(t[s.len() as int]@.0 == v);
        }
        if has_version(t, v) {
            let k = choose|k: int| 0 <= k < t.len() && #[trigger] t[k]@.0 == v;
            if k < s.len() {
                assert(s[k]@.0 == v);
            }
        }
    }
    assert forall|v: Version| #[trigger] entries_map(t).dom().contains(v) implies entries_map(
        t,
    )[v] == entries_map(s).insert(b@.0, b@.1)[v] by {
        let k = choose|k: int| 0 <= k < t.len() && #[trigger] t[k]@.0 == v;
        lemma_lookup(t, k);
        if k < s.len() {
            lemma_lookup(s, k);
        }
    }
    assert(entries_map(t) =~= entries_map(s).insert(b@.0, b@.1));
}

proof fn lemma_update(s: Seq<Blender>, i: int, b: Blender)
    requires
        distinct_versions(s),
        0 <= i < s.len(),
        s[i]@.0 == b@.0,
    ensures
        distinct_versions(s.update(i, b)),
        entries_map(s.update(i, b)) == entries_map(s).insert(b@.0, b@.1),
{
    let t = s.update(i, b);
    assert forall|v: Version| #[trigger] has_version(t, v) == has_version(s, v) by {
        if has_version(s, v) {
            let k = choose|k: int| 0 <= k < s.len() && #[trigger] s[k]@.0 == v;
            assert(t[k]@.0 == v);
        }
        if has_version(t, v) {
            let k = choose|k: int| 0 <= k < t.len() && #[trigger] t[k]@.0 == v;
            assert(s[k]@.0 == v);
        }
    }
    assert forall|v: Version| #[trigger] entries_map(t).dom().contains(v) implies entries_map(
        t,
    )[v] == entries_map(s).insert(b@.0, b@.1)[v] by {
        let k = choose|k: int| 0 <= k < t.len() && #[trigger] t[k]@.0 == v;
        lemma_lookup(t, k);
        if k != i {
            lemma_lookup(s, k);
        }
    }
    assert(entries_map(s).dom().contains(b@.0)) by {
        lemma_lookup(s, i);
    }
    assert(entries_map(t) =~= entries_map(s).insert(b@.0, b@.1));
}

proof fn lemma_remove(s: Seq<Blender>, i: int)
    requires
        distinct_versions(s),
        0 <= i < s.len(),
    ensures
        distinct_versions(s.remove(i)),
        entries_map(s.remove(i)) == entries_map(s).remove(s[i]@.0),
{
    let t = s.remove(i);
    let w = s[i]@.0;
    assert forall|k: int| 0 <= k < t.len() implies #[trigger] t[k] == (if k < i {
        s[k]
    } else {
        s[k + 1]
    }) by {}
    assert forall|v: Version| #[trigger] has_version(t, v) == (has_version(s, v) && v != w) by {
        if has_version(t, v) {
            let k = choose|k: int| 0 <= k < t.len() && #[trigger] t[k]@.0 == v;
            if k < i {
                assert(s[k]@.0 == v);
            } else {
                assert(s[k + 1]@.0 == v);
            }
        }
        if has_version(s, v) && v != w {
            let k = choose|k: int| 0 <= k < s.len() && #[trigger] s[k]@.0 == v;
            if k < i {
                assert(t[k]@.0 == v);
            } else {
                assert(k != i);
                assert(t[k - 1]@.0 == v);
            }
        }
    }
    assert forall|v: Version| #[trigger] entries_map(t).dom().contains(v) implies entries_map(
        t,
    )[v] == entries_map(s)[v] by {
        let k = choose|k: int| 0 <= k < t.len() && #[trigger] t[k]@.0 == v;
        lemma_lookup(t, k);
        if k < i {
            lemma_lookup(s, k);
        } else {
            lemma_lookup(s, k + 1);
        }
    }
    assert(entries_map(t) =~= entries_map(s).remove(w));
}

impl BlenderConfig {
    #[verifier::type_invariant]
    spec fn inv(&self) -> bool {
        distinct_versions(self.blenders@)
    }

    /// The installed Blenders, by version.
    pub closed spec fn installed(&self) -> Map<Version, Seq<char>> {
        entries_map(self.blenders@)
    }

    /// The installed Blenders, in the order in which they are listed.
    pub closed spec fn listed(&self) -> Seq<Blender> {
        self.blenders@
    }

    /// Where new Blenders are installed.
    pub closed spec fn install_path_spec(&self) -> Seq<char> {
        self.install_path@
    }

    /// A configuration with no Blender installed, installing to `install_path`.
    pub fn new(install_path: String) -> (c: BlenderConfig)
        ensures
            c.installed() == Map::<Version, Seq<char>>::empty(),
            c.install_path_spec() == install_path@,
    {
        let c = BlenderConfig { blenders: Vec::new(), install_path };
        assert(c.installed() =~= Map::<Version, Seq<char>>::empty());
        c
    }

    /// Where new Blenders are installed.
    pub fn get_install_path(&self) -> (res: &str)
        ensures
            res@ == self.install_path_spec(),
    {
        self.install_path.as_str()
    }

    /// Installs to `new_path` from now on.
    pub fn set_install_path(&mut self, new_path: String)
        ensures
            final(self).install_path_spec() == new_path@,
            final(self).installed() == old(self).installed(),
    {
        proof {
            use_type_invariant(&*self);
        }
        self.install_path = new_path;
    }

    /// The index of the entry with version `version`.
    fn index_of(&self, version: &Version) -> (res: Option<usize>)
        ensures
            res matches Some(i) ==> i < self.blenders.len() && self.blenders@[i as int]@.0
                == *version,
            res is None ==> !has_version(self.blenders@, *version),
    {
        let mut i: usize = 0;
        while i < self.blenders.len()
            invariant
                i <= self.blenders.len(),
                forall|k: int| 0 <= k < i ==> self.blenders@[k]@.0 != *version,
            decreases self.blenders.len() - i,
        {
            if self.blenders[i].get_version().same_as(version) {
                return Some(i);
            }
            i = i + 1;
        }
        None
    }

    /// The Blender of exactly `version`.
    pub fn get_blender(&self, version: &Version) -> (res: Option<&Blender>)
        ensures
            res is Some <==> self.installed().dom().contains(*version),
            res matches Some(b) ==> b@ == (*version, self.installed()[*version]),
    {
        proof {
            use_type_invariant(self);
        }
        match self.index_of(version) {
            Some(i) => {
                proof {
                    lemma_lookup(self.blenders@, i as int);
                }
                Some(&self.blenders[i])
            },
            None => None,
        }
    }

    /// The newest Blender of `major`, and of `minor` unless `minor` is 0.
    pub fn get_blender_partial(&self, major: u64, minor: u64) -> (res: Option<&Blender>)
        ensures
            res matches Some(b) ==> b@.0.major == major && (minor != 0 ==> b@.0.minor == minor),
            res is None ==> forall|v: Version| #[trigger]
                self.installed().dom().contains(v) ==> !(v.major == major && (minor == 0
                    || v.minor == minor)),
            res is None ==> forall|v: Version| #[trigger]
                self.installed().dom().contains(v) ==> !partial_match(v, major, minor),
            res matches Some(b) ==> {
                &&& self.installed().dom().contains(b@.0)
                &&& self.installed()[b@.0] == b@.1
                &&& partial_match(b@.0, major, minor)
                &&& forall|v: Version| #[trigger]
                    self.installed().dom().contains(v) && partial_match(v, major, minor)
                        ==> version_le(v, b@.0)
            },
    {
        proof {
            use_type_invariant(self);
        }
        let mut best: Option<usize> = None;
        let mut i: usize = 0;
        while i < self.blenders.len()
            invariant
                i <= self.blenders.len(),
                distinct_versions(self.blenders@),
                best is None ==> forall|k: int|
                    0 <= k < i ==> !partial_match(#[trigger] self.blenders@[k]@.0, major, minor),
                best matches Some(bi) ==> {
                    &&& bi < i
                    &&& partial_match(self.blenders@[bi as int]@.0, major, minor)
                    &&& forall|k: int|
                        0 <= k < i && partial_match(#[trigger] self.blenders@[k]@.0, major, minor)
                            ==> version_le(self.blenders@[k]@.0, self.blenders@[bi as int]@.0)
                },
            decreases self.blenders.len() - i,
        {
            let current = self.blenders[i].get_version();
            if current.major == major && (minor == 0 || current.minor == minor) {
                match best {
                    Some(bi) => {
                        if !self.blenders[bi].get_version().not_newer_than(current) {
                        } else {
                            best = Some(i);
                        }
                    },
                    None => {
                        best = Some(i);
                    },
                }
            }
            i = i + 1;
        }
        match best {
            Some(bi) => {
                proof {
                    lemma_lookup(self.blenders@, bi as int);
                    assert forall|v: Version| #[trigger]
                        self.installed().dom().contains(v) && partial_match(
                            v,
                            major,
                            minor,
                        ) implies version_le(v, self.blenders@[bi as int]@.0) by {
                        let k = choose|k: int|
                            0 <= k < self.blenders@.len() && #[trigger] self.blenders@[k]@.0 == v;
                    }
                }
                Some(&self.blenders[bi])
            },
            None => {
                proof {
                    assert forall|v: Version| #[trigger]
                        self.installed().dom().contains(v) implies !partial_match(
                            v,
                            major,
                            minor,
                        ) by {
                        let k = choose|k: int|
                            0 <= k < self.blenders@.len() && #[trigger] self.blenders@[k]@.0 == v;
                    }
                }
                None
            },
        }
    }

    /// The Blender of exactly `version` when installed, otherwise the newest one of the same
    /// major and minor version (any minor when it is 0).
    pub fn get_latest_blender_available(&self, version: &Version) -> (res: Option<&Blender>)
        ensures
            res matches Some(b) ==> b@.0.major == version.major && (version.minor != 0
                ==> b@.0.minor == version.minor),
            self.installed().dom().contains(*version) ==> (res matches Some(b) && b@ == (
                *version,
                self.installed()[*version],
            )),
            !self.installed().dom().contains(*version) ==> {
                &&& res is None ==> forall|v: Version| #[trigger]
                    self.installed().dom().contains(v) ==> !partial_match(
                        v,
                        version.major,
                        version.minor,
                    )
                &&& res matches Some(b) ==> {
                    &&& self.installed().dom().contains(b@.0)
                    &&& self.installed()[b@.0] == b@.1
                    &&& partial_match(b@.0, version.major, version.minor)
                    &&& forall|v: Version| #[trigger]
                        self.installed().dom().contains(v) && partial_match(
                            v,
                            version.major,
                            version.minor,
                        ) ==> version_le(v, b@.0)
                }
            },
    {
        match self.get_blender(version) {
            Some(b) => Some(b),
            None => self.get_blender_partial(version.major, version.minor),
        }
    }

    /// Every installed Blender, once each.
    pub fn get_blenders(&self) -> (res: Vec<&Blender>)
        ensures
            res@.map_values(|b: &Blender| *b) == self.listed(),
            distinct_versions(self.listed()),
            entries_map(self.listed()) == self.installed(),
            forall|i: int| 0 <= i < res.len() ==> {
                &&& self.installed().dom().contains(#[trigger] res@[i]@.0)
                &&& self.installed()[res@[i]@.0] == res@[i]@.1
            },
            forall|v: Version| #[trigger]
                self.installed().dom().contains(v) ==> exists|i: int|
                    0 <= i < res.len() && #[trigger] res@[i]@.0 == v,
    {
        proof {
            use_type_invariant(self);
        }
        let mut res: Vec<&Blender> = Vec::new();
        let mut i: usize = 0;
        while i < self.blenders.len()
            invariant
                i <= self.blenders.len(),
                res.len() == i,
                forall|k: int| 0 <= k < i ==> *res@[k] == self.blenders@[k],
            decreases self.blenders.len() - i,
        {
            res.push(&self.blenders[i]);
            i = i + 1;
        }
        proof {
            assert(res@.map_values(|b: &Blender| *b) =~= self.blenders@);
            assert forall|k: int| 0 <= k < res.len() implies {
                &&& self.installed().dom().contains(#[trigger] res@[k]@.0)
                &&& self.installed()[res@[k]@.0] == res@[k]@.1
            } by {
                lemma_lookup(self.blenders@, k);
            }
            assert forall|v: Version| #[trigger]
                self.installed().dom().contains(v) implies exists|k: int|
                    0 <= k < res.len() && #[trigger] res@[k]@.0 == v by {
                let k = choose|k: int|
                    0 <= k < self.blenders@.len() && #[trigger] self.blenders@[k]@.0 == v;
                assert(res@[k]@.0 == v);
            }
        }
        res
    }

    /// Keeps the Blenders whose executable is present: `present[i]` tells it of the `i`-th
    /// entry of [`BlenderConfig::get_blenders`].
    pub fn remove_invalid_blender(&mut self, present: &Vec<bool>)
        requires
            present.len() == old(self).listed().len(),
        ensures
            final(self).install_path_spec() == old(self).install_path_spec(),
            final(self).installed().dom().subset_of(old(self).installed().dom()),
            forall|v: Version| #[trigger]
                final(self).installed().dom().contains(v) ==> final(self).installed()[v]
                    == old(self).installed()[v],
            forall|i: int|
                0 <= i < present.len() ==> (#[trigger] present@[i] <==> final(self).installed().dom().contains(old(self).listed()[i]@.0)),
    {
        proof {
            use_type_invariant(&*self);
        }
        let ghost old_s = self.blenders@;
        let mut kept: Vec<Blender> = Vec::new();
        let ghost mut origin: Seq<int> = Seq::empty();
        let mut i: usize = 0;
        while i < self.blenders.len()
            invariant
                i <= self.blenders.len(),
                present.len() == self.blenders.len(),
                old_s == self.blenders@,
                distinct_versions(old_s),
                distinct_versions(kept@),
                origin.len() == kept.len(),
                forall|k: int|
                    0 <= k < kept.len() ==> 0 <= #[trigger] origin[k] < i && present@[origin[k]]
                        && kept@[k]@ == old_s[origin[k]]@,
                forall|j: int|
                    0 <= j < i ==> (#[trigger] present@[j] <==> has_version(kept@, old_s[j]@.0)),
            decreases self.blenders.len() - i,
        {
            let ghost prev = kept@;
            let ghost prev_origin = origin;
            proof {
                assert(!has_version(prev, old_s[i as int]@.0)) by {
                    if has_version(prev, old_s[i as int]@.0) {
                        let k = choose|k: int| 0 <= k < prev.len() && #[trigger] prev[k]@.0 == old_s[i as int]@.0;
                        assert(origin[k] != i);
                        assert(old_s[origin[k]]@.0 == old_s[i as int]@.0);
                    }
                }
            }
            if present[i] {
                let b = self.blenders[i].duplicate();
                proof {
                    lemma_push(prev, b);
                }
                kept.push(b);
                proof {
                    origin = origin.push(i as int);
                    assert forall|j: int| 0 <= j < i + 1 implies (#[trigger] present@[j]
                        <==> has_version(kept@, old_s[j]@.0)) by {
                        if j < i {
                            if has_version(prev, old_s[j]@.0) {
                                let k = choose|k: int| 0 <= k < prev.len() && #[trigger] prev[k]@.0 == old_s[j]@.0;
                                assert(kept@[k]@.0 == old_s[j]@.0);
                            }
                            if has_version(kept@, old_s[j]@.0) && !has_version(prev, old_s[j]@.0) {
                                let k = choose|k: int| 0 <= k < kept@.len() && #[trigger] kept@[k]@.0 == old_s[j]@.0;
                                if k < prev.len() {
                                    assert(prev[k]@.0 == old_s[j]@.0);
                                } else {
                                    assert(old_s[i as int]@.0 == old_s[j]@.0);
                                }
                            }
                        } else {
                            assert(kept@[prev.len() as int]@.0 == old_s[j]@.0);
                        }
                    }
                    assert forall|k: int| 0 <= k < kept.len() implies 0 <= #[trigger] origin[k] < i + 1
                        && present@[origin[k]] && kept@[k]@ == old_s[origin[k]]@ by {
                        if k < prev.len() {
                            assert(origin[k] == prev_origin[k]);
                            assert(kept@[k] == prev[k]);
                        }
                    }
                }
            }
            i = i + 1;
        }
        self.blenders = kept;
        proof {
            assert forall|v: Version| #[trigger]
                entries_map(kept@).dom().contains(v) implies entries_map(old_s).dom().contains(v)
                && entries_map(kept@)[v] == entries_map(old_s)[v] by {
                let k = choose|k: int| 0 <= k < kept@.len() && #[trigger] kept@[k]@.0 == v;
                lemma_lookup(kept@, k);
                lemma_lookup(old_s, origin[k]);
            }
            assert forall|j: int| 0 <= j < present.len() implies (#[trigger] present@[j]
                <==> entries_map(kept@).dom().contains(old_s[j]@.0)) by {}
        }
    }

    /// Removes the Blender of `blender`'s version and returns it.
    pub fn remove_blender(&mut self, blender: &Blender) -> (res: Option<Blender>)
        ensures
            final(self).installed() == old(self).installed().remove(blender@.0),
            final(self).install_path_spec() == old(self).install_path_spec(),
            res is Some <==> old(self).installed().dom().contains(blender@.0),
            res matches Some(b) ==> b@ == (blender@.0, old(self).installed()[blender@.0]),
    {
        proof {
            use_type_invariant(&*self);
        }
        match self.index_of(blender.get_version()) {
            Some(i) => {
                let ghost s = self.blenders@;
                proof {
                    lemma_lookup(s, i as int);
                    lemma_remove(s, i as int);
                }
                let mut v = Vec::new();
                std::mem::swap(&mut v, &mut self.blenders);
                let removed = v.remove(i);
                self.blenders = v;
                Some(removed)
            },
            None => {
                proof {
                    assert(old(self).installed().remove(blender@.0) =~= old(self).installed());
                }
                None
            },
        }
    }

    /// Records `blender`, replacing and returning the entry of the same version if any.
    pub fn insert_blender(&mut self, blender: &Blender) -> (res: Option<Blender>)
        ensures
            final(self).installed() == old(self).installed().insert(blender@.0, blender@.1),
            final(self).install_path_spec() == old(self).install_path_spec(),
            res is Some <==> old(self).installed().dom().contains(blender@.0),
            res matches Some(b) ==> b@ == (blender@.0, old(self).installed()[blender@.0]),
    {
        proof {
            use_type_invariant(&*self);
        }
        let b = blender.duplicate();
        match self.index_of(blender.get_version()) {
            Some(i) => {
                let ghost s = self.blenders@;
                proof {
                    lemma_lookup(s, i as int);
                    lemma_update(s, i as int, b);
                }
                let mut v = Vec::new();
                std::mem::swap(&mut v, &mut self.blenders);
                let mut old_entry = b;
                std::mem::swap(&mut old_entry, &mut v[i]);
                assert(v@ == s.update(i as int, b));
                self.blenders = v;
                Some(old_entry)
            },
            None => {
                let ghost s = self.blenders@;
                proof {
                    lemma_push(s, b);
                }
                let mut v = Vec::new();
                std::mem::swap(&mut v, &mut self.blenders);
                v.push(b);
                self.blenders = v;
                None
            },
        }
    }
}

/// A Blender that was just recorded is found by its version, with its executable.
pub proof fn law_recorded_blender_is_found(
    before: BlenderConfig,
    after: BlenderConfig,
    blender: Blender,
)
    requires
        after.installed() == before.installed().insert(blender@.0, blender@.1),
    ensures
        after.installed().dom().contains(blender@.0),
        after.installed()[blender@.0] == blender@.1,
        forall|v: Version|
            v != blender@.0 ==> (#[trigger] after.installed().dom().contains(v)
                == before.installed().dom().contains(v)),
{
}

/// A Blender that was just removed is no longer found, and the others stay.
pub proof fn law_removed_blender_is_gone(
    before: BlenderConfig,
    after: BlenderConfig,
    blender: Blender,
)
    requires
        after.installed() == before.installed().remove(blender@.0),
    ensures
        !after.installed().dom().contains(blender@.0),
        forall|v: Version|
            v != blender@.0 && #[trigger] before.installed().dom().contains(v) ==> after.installed().dom().contains(v)
                && after.installed()[v] == before.installed()[v],
{
}

/// Recording a Blender of a version that was not installed and removing it again leaves
/// the installed Blenders as they were.
pub proof fn law_insert_then_remove_restores(
    before: BlenderConfig,
    middle: BlenderConfig,
    after: BlenderConfig,
    blender: Blender,
)
    requires
        !before.installed().dom().contains(blender@.0),
        middle.installed() == before.installed().insert(blender@.0, blender@.1),
        after.installed() == middle.installed().remove(blender@.0),
    ensures
        after.installed() == before.installed(),
{
    assert(after.installed() =~= before.installed());
}

} // verus!
