//! The source registry: every external source the project's pods build
//! from or depend on, catalogued by a deterministic alias, with an
//! optional library key and a mount flag.

use vstd::prelude::*;

use crate::compose::{ServiceEntryV, SourceRef, SourceRefV, src_eq};
use crate::errors::Error;
use crate::ext::spec_alias;
use crate::pod::{Pod, PodV};
use crate::util::{spec_join, join};

verus! {

/// One catalogued external source.
#[derive(Debug, Clone, PartialEq)]
pub struct Repo {
    /// The human-readable identifier derived from the source.
    pub alias: String,
    /// The library key the source was declared under, if it is a library.
    pub lib_key: Option<String>,
    /// The source as the pod declared it.
    pub source: SourceRef,
    /// Where the source is mounted inside containers that use it.
    pub mount_dir: String,
    /// Whether a local clone is present and should be volume-mounted.
    pub mounted: bool,
}

/// The view of a `Repo`.
pub struct RepoV {
    pub alias: Seq<char>,
    pub lib_key: Option<Seq<char>>,
    pub source: SourceRefV,
    pub mount_dir: Seq<char>,
    pub mounted: bool,
}

impl View for Repo {
    type V = RepoV;

    open spec fn view(&self) -> RepoV {
        RepoV {
            alias: self.alias@,
            lib_key: match &self.lib_key {
                Some(k) => Some(k@),
                None => None,
            },
            source: self.source@,
            mount_dir: self.mount_dir@,
            mounted: self.mounted,
        }
    }
}

impl Repo {
    /// The name of this source's alias.
    pub fn alias(&self) -> (r: &str)
        ensures
            r@ == self@.alias,
    {
        self.alias.as_str()
    }

    /// Where this source's local clone lives under the given source
    /// directory: `<src_dir>/<alias>`.
    pub fn path(&self, src_dir: &str) -> (r: String)
        ensures
            r@ == spec_join(src_dir@, self@.alias),
    {
        join(src_dir, self.alias.as_str())
    }

    /// Copy this entry; the copy has the same view.
    pub fn duplicate(&self) -> (r: Repo)
        ensures
            r@ == self@,
    {
        Repo {
            alias: self.alias.clone(),
            lib_key: match &self.lib_key {
                Some(k) => Some(k.clone()),
                None => None,
            },
            source: self.source.duplicate(),
            mount_dir: self.mount_dir.clone(),
            mounted: self.mounted,
        }
    }
}

/// The first catalogued source with the given alias, if any.
pub open spec fn spec_find_by_alias(rs: Seq<RepoV>, alias: Seq<char>) -> Option<RepoV>
    decreases rs.len(),
{
    if rs.len() == 0 {
        None
    } else if rs[0].alias == alias {
        Some(rs[0])
    } else {
        spec_find_by_alias(rs.drop_first(), alias)
    }
}

/// The first catalogued source with the given library key, if any.
pub open spec fn spec_find_by_lib_key(rs: Seq<RepoV>, key: Seq<char>) -> Option<RepoV>
    decreases rs.len(),
{
    if rs.len() == 0 {
        None
    } else if rs[0].lib_key == Some(key) {
        Some(rs[0])
    } else {
        spec_find_by_lib_key(rs.drop_first(), key)
    }
}

/// The first catalogued source declared with the given source
/// reference, if any.
pub open spec fn spec_find_by_source(rs: Seq<RepoV>, src: SourceRefV) -> Option<RepoV>
    decreases rs.len(),
{
    if rs.len() == 0 {
        None
    } else if src_eq(rs[0].source, src) {
        Some(rs[0])
    } else {
        spec_find_by_source(rs.drop_first(), src)
    }
}

/// The registry with the first source of the given alias marked mounted
/// or unmounted.
pub open spec fn spec_set_mounted(rs: Seq<RepoV>, alias: Seq<char>, mounted: bool) -> Seq<RepoV>
    decreases rs.len(),
{
    if rs.len() == 0 {
        rs
    } else if rs[0].alias == alias {
        seq![RepoV { mounted, ..rs[0] }] + rs.drop_first()
    } else {
        seq![rs[0]] + spec_set_mounted(rs.drop_first(), alias, mounted)
    }
}

/// Marking a source mounted or unmounted keeps every entry in place.
pub proof fn lemma_set_mounted_len(rs: Seq<RepoV>, alias: Seq<char>, mounted: bool)
    ensures
        spec_set_mounted(rs, alias, mounted).len() == rs.len(),
    decreases rs.len(),
{
    if rs.len() > 0 && !(rs[0].alias == alias) {
        lemma_set_mounted_len(rs.drop_first(), alias, mounted);
    }
}

/// One source registered into the registry: its alias is derived, and
/// an alias already present keeps its first registration.
pub open spec fn spec_register(
    rs: Seq<RepoV>,
    source: SourceRefV,
    lib_key: Option<Seq<char>>,
    mount_dir: Seq<char>,
) -> Option<Seq<RepoV>> {
    match spec_alias(source) {
        None => None,
        Some(a) => if spec_find_by_alias(rs, a) is Some {
            Some(rs)
        } else {
            Some(
                rs.push(
                    RepoV { alias: a, lib_key, source, mount_dir, mounted: false },
                ),
            )
        },
    }
}

/// The container directory a service's build source is mounted at.
pub open spec fn spec_mount_dir_of(svc: crate::compose::ServiceV) -> Seq<char> {
    match svc.source_mount_dir {
        Some(d) => d,
        None => "/app"@,
    }
}

/// A service's library dependencies registered in declaration order.
pub open spec fn spec_register_libs(
    rs: Seq<RepoV>,
    libs: Seq<crate::compose::LibDepV>,
) -> Option<Seq<RepoV>>
    decreases libs.len(),
{
    if libs.len() == 0 {
        Some(rs)
    } else {
        match spec_register(rs, libs[0].source, Some(libs[0].key), libs[0].mount_at) {
            None => None,
            Some(rs1) => spec_register_libs(rs1, libs.drop_first()),
        }
    }
}

/// One service's sources registered: a remote build context first, then
/// its library dependencies.
pub open spec fn spec_register_service(
    rs: Seq<RepoV>,
    svc: crate::compose::ServiceV,
) -> Option<Seq<RepoV>> {
    let after_build = match svc.build {
        Some(b) => match b {
            SourceRefV::Git { url } => spec_register(rs, b, None, spec_mount_dir_of(svc)),
            SourceRefV::Dir { path } => Some(rs),
        },
        None => Some(rs),
    };
    match after_build {
        None => None,
        Some(rs1) => match svc.libs {
            Some(libs) => spec_register_libs(rs1, libs),
            None => Some(rs1),
        },
    }
}

/// A pod's services registered in document order.
pub open spec fn spec_register_services(
    rs: Seq<RepoV>,
    svcs: Seq<ServiceEntryV>,
) -> Option<Seq<RepoV>>
    decreases svcs.len(),
{
    if svcs.len() == 0 {
        Some(rs)
    } else {
        match spec_register_service(rs, svcs[0].service) {
            None => None,
            Some(rs1) => spec_register_services(rs1, svcs.drop_first()),
        }
    }
}

/// All pods' declared sources registered in declaration order, scanning
/// each pod's base document.
pub open spec fn spec_register_pods(rs: Seq<RepoV>, pods: Seq<PodV>) -> Option<Seq<RepoV>>
    decreases pods.len(),
{
    if pods.len() == 0 {
        Some(rs)
    } else {
        match spec_register_services(rs, pods[0].base.services) {
            None => None,
            Some(rs1) => spec_register_pods(rs1, pods.drop_first()),
        }
    }
}

/// The registry a pod list gives rise to, when every declared source
/// yields an alias.
pub open spec fn spec_repos_of(pods: Seq<PodV>) -> Option<Seq<RepoV>> {
    spec_register_pods(Seq::empty(), pods)
}

/// No two catalogued sources share an alias.
pub open spec fn spec_unique_aliases(rs: Seq<RepoV>) -> bool {
    forall|i: int, j: int| 0 <= i < j < rs.len() ==> rs[i].alias != rs[j].alias
}

proof fn lemma_find_none_means_absent(rs: Seq<RepoV>, alias: Seq<char>)
    requires
        spec_find_by_alias(rs, alias) is None,
    ensures
        forall|i: int| 0 <= i < rs.len() ==> rs[i].alias != alias,
    decreases rs.len(),
{
    if rs.len() > 0 {
        lemma_find_none_means_absent(rs.drop_first(), alias);
        assert forall|i: int| 0 <= i < rs.len() implies rs[i].alias != alias by {
            if i > 0 {
                assert(rs.drop_first()[i - 1] == rs[i]);
            }
        }
    }
}

proof fn lemma_register_keeps_unique(
    rs: Seq<RepoV>,
    source: SourceRefV,
    lib_key: Option<Seq<char>>,
    mount_dir: Seq<char>,
)
    requires
        spec_unique_aliases(rs),
    ensures
        spec_register(rs, source, lib_key, mount_dir) matches Some(rs1) ==> spec_unique_aliases(
            rs1,
        ),
{
    match spec_alias(source) {
        None => {},
        Some(a) => {
            if spec_find_by_alias(rs, a) is None {
                lemma_find_none_means_absent(rs, a);
                let rs1 = rs.push(
                    RepoV { alias: a, lib_key, source, mount_dir, mounted: false },
                );
                assert forall|i: int, j: int|
                    0 <= i < j < rs1.len() implies rs1[i].alias != rs1[j].alias by {
                    if j < rs.len() {
                        assert(rs1[i] == rs[i] && rs1[j] == rs[j]);
                    } else {
                        assert(rs1[i] == rs[i] && rs1[j].alias == a);
                    }
                }
            }
        },
    }
}

proof fn lemma_register_libs_keeps_unique(rs: Seq<RepoV>, libs: Seq<crate::compose::LibDepV>)
    requires
        spec_unique_aliases(rs),
    ensures
        spec_register_libs(rs, libs) matches Some(rs1) ==> spec_unique_aliases(rs1),
    decreases libs.len(),
{
    if libs.len() > 0 {
        lemma_register_keeps_unique(rs, libs[0].source, Some(libs[0].key), libs[0].mount_at);
        match spec_register(rs, libs[0].source, Some(libs[0].key), libs[0].mount_at) {
            None => {},
            Some(rs1) => {
                lemma_register_libs_keeps_unique(rs1, libs.drop_first());
            },
        }
    }
}

proof fn lemma_register_service_keeps_unique(rs: Seq<RepoV>, svc: crate::compose::ServiceV)
    requires
        spec_unique_aliases(rs),
    ensures
        spec_register_service(rs, svc) matches Some(rs1) ==> spec_unique_aliases(rs1),
{
    match svc.build {
        Some(b) => {
            if b is Git {
                lemma_register_keeps_unique(rs, b, None, spec_mount_dir_of(svc));
            }
        },
        None => {},
    }
    let after_build = match svc.build {
        Some(b) => match b {
            SourceRefV::Git { url } => spec_register(rs, b, None, spec_mount_dir_of(svc)),
            SourceRefV::Dir { path } => Some(rs),
        },
        None => Some(rs),
    };
    match after_build {
        None => {},
        Some(rs1) => {
            match svc.libs {
                Some(libs) => {
                    lemma_register_libs_keeps_unique(rs1, libs);
                },
                None => {},
            }
        },
    }
}

proof fn lemma_register_services_keeps_unique(rs: Seq<RepoV>, svcs: Seq<ServiceEntryV>)
    requires
        spec_unique_aliases(rs),
    ensures
        spec_register_services(rs, svcs) matches Some(rs1) ==> spec_unique_aliases(rs1),
    decreases svcs.len(),
{
    if svcs.len() > 0 {
        lemma_register_service_keeps_unique(rs, svcs[0].service);
        match spec_register_service(rs, svcs[0].service) {
            None => {},
            Some(rs1) => {
                lemma_register_services_keeps_unique(rs1, svcs.drop_first());
            },
        }
    }
}

proof fn lemma_register_pods_keeps_unique(rs: Seq<RepoV>, pods: Seq<PodV>)
    requires
        spec_unique_aliases(rs),
    ensures
        spec_register_pods(rs, pods) matches Some(rs1) ==> spec_unique_aliases(rs1),
    decreases pods.len(),
{
    if pods.len() > 0 {
        lemma_register_services_keeps_unique(rs, pods[0].base.services);
        match spec_register_services(rs, pods[0].base.services) {
            None => {},
            Some(rs1) => {
                lemma_register_pods_keeps_unique(rs1, pods.drop_first());
            },
        }
    }
}

/// The alias is a source's identity: a registry built from a project's
/// pods never catalogues two sources under one alias.
pub proof fn lemma_repo_aliases_unique(pods: Seq<PodV>)
    ensures
        spec_repos_of(pods) matches Some(rs) ==> spec_unique_aliases(rs),
{
    lemma_register_pods_keeps_unique(Seq::empty(), pods);
}

/// The collection of external sources catalogued for a project.
#[derive(Debug, Clone, PartialEq)]
pub struct Repos {
    pub repos: Vec<Repo>,
}

impl View for Repos {
    type V = Seq<RepoV>;

    open spec fn view(&self) -> Seq<RepoV> {
        self.repos@.map_values(|r: Repo| r@)
    }
}

impl Repos {
    /// Register one source, keeping the first registration of an alias.
    fn register(repos: &mut Vec<Repo>, source: &SourceRef, lib_key: Option<&String>, mount_dir: &str)
        -> (r: Result<(), Error>)
        ensures
            match spec_register(
                old(repos)@.map_values(|x: Repo| x@),
                source@,
                match lib_key {
                    Some(k) => Some(k@),
                    None => None,
                },
                mount_dir@,
            ) {
                Some(rs) => r is Ok && final(repos)@.map_values(|x: Repo| x@) == rs,
                None => r is Err && (r matches Err(e) && e is AliasDerivationFailure)
                    && *final(repos) == *old(repos),
            },
    {
        let ghost pre = repos@.map_values(|x: Repo| x@);
        match source.human_alias() {
            Err(e) => Err(e),
            Ok(alias) => {
                let found = Repos::find_index_by_alias(repos, alias.as_str());
                match found {
                    Some(_) => Ok(()),
                    None => {
                        repos.push(
                            Repo {
                                alias,
                                lib_key: match lib_key {
                                    Some(k) => Some(k.clone()),
                                    None => None,
                                },
                                source: source.duplicate(),
                                mount_dir: mount_dir.to_owned(),
                                mounted: false,
                            },
                        );
                        proof {
                            assert(repos@.map_values(|x: Repo| x@) =~= pre.push(
                                repos@.last()@,
                            ));
                        }
                        Ok(())
                    },
                }
            },
        }
    }

    /// The index of the first entry with the given alias, if any.
    fn find_index_by_alias(repos: &Vec<Repo>, alias: &str) -> (r: Option<usize>)
        ensures
            match r {
                Some(i) => i < repos@.len() && repos@[i as int]@.alias == alias@
                    && spec_find_by_alias(repos@.map_values(|x: Repo| x@), alias@) == Some(
                    repos@[i as int]@,
                ),
                None => spec_find_by_alias(repos@.map_values(|x: Repo| x@), alias@) is None,
            },
    {
        let ghost rv = repos@.map_values(|x: Repo| x@);
        let mut i: usize = 0;
        proof {
            assert(rv.skip(0) =~= rv);
        }
        while i < repos.len()
            invariant
                0 <= i <= repos@.len(),
                rv == repos@.map_values(|x: Repo| x@),
                rv.len() == repos@.len(),
                spec_find_by_alias(rv, alias@) == spec_find_by_alias(rv.skip(i as int), alias@),
            decreases repos.len() - i,
        {
            proof {
                assert(rv.skip(i as int)[0] == rv[i as int]);
                assert(rv.skip(i as int).drop_first() =~= rv.skip(i as int + 1));
            }
            if crate::util::str_eq(repos[i].alias.as_str(), alias) {
                return Some(i);
            }
            i = i + 1;
        }
        proof {
            assert(rv.skip(i as int).len() == 0);
        }
        None
    }

    /// Catalogue every source the given pods declare: each service's
    /// remote build context, then its library dependencies, pods in
    /// order, first registration of an alias winning.
    pub fn new(pods: &Vec<Pod>) -> (r: Result<Repos, Error>)
        ensures
            match spec_repos_of(pods@.map_values(|p: Pod| p@)) {
                Some(rs) => r matches Ok(repos) && repos@ == rs,
                None => r matches Err(e) && e is AliasDerivationFailure,
            },
    {
        let ghost podsv = pods@.map_values(|p: Pod| p@);
        let ghost goal = spec_repos_of(podsv);
        let mut repos: Vec<Repo> = Vec::new();
        let mut i: usize = 0;
        proof {
            assert(podsv.skip(0) =~= podsv);
            assert(repos@.map_values(|x: Repo| x@) =~= Seq::<RepoV>::empty());
        }
        while i < pods.len()
            invariant
                0 <= i <= pods@.len(),
                podsv == pods@.map_values(|p: Pod| p@),
                podsv.len() == pods@.len(),
                goal == spec_repos_of(podsv),
                spec_register_pods(repos@.map_values(|x: Repo| x@), podsv.skip(i as int)) == goal,
            decreases pods.len() - i,
        {
            proof {
                assert(podsv.skip(i as int)[0] == podsv[i as int]);
                assert(podsv.skip(i as int).drop_first() =~= podsv.skip(i as int + 1));
                assert(podsv[i as int] == pods@[i as int]@);
            }
            let pod = &pods[i];
            let ghost svcs = pod@.base.services;
            let mut j: usize = 0;
            proof {
                assert(svcs.skip(0) =~= svcs);
            }
            while j < pod.base.services.len()
                invariant
                    0 <= j <= pod.base.services@.len(),
                    svcs == pod@.base.services,
                    svcs.len() == pod.base.services@.len(),
                    goal == spec_repos_of(podsv),
                    podsv == pods@.map_values(|p: Pod| p@),
                    i < pods@.len(),
                    podsv.len() == pods@.len(),
                    pod == pods@[i as int],
                    match spec_register_services(
                        repos@.map_values(|x: Repo| x@),
                        svcs.skip(j as int),
                    ) {
                        Some(rs1) => spec_register_pods(rs1, podsv.skip(i as int + 1)) == goal,
                        None => goal is None,
                    },
                decreases pod.base.services.len() - j,
            {
                proof {
                    assert(svcs.skip(j as int)[0] == svcs[j as int]);
                    assert(svcs.skip(j as int).drop_first() =~= svcs.skip(j as int + 1));
                    assert(svcs[j as int] == pod.base.services@[j as int]@);
                }
                let svc = &pod.base.services[j].service;
                match &svc.build {
                    Some(b) => match b {
                        SourceRef::Git { url: _ } => {
                            let mount_dir = match &svc.source_mount_dir {
                                Some(d) => d.as_str(),
                                None => "/app",
                            };
                            match Repos::register(&mut repos, b, None, mount_dir) {
                                Ok(()) => (),
                                Err(e) => {
                                    return Err(e);
                                },
                            }
                        },
                        SourceRef::Dir { path: _ } => (),
                    },
                    None => (),
                }
                match &svc.libs {
                    Some(libs) => {
                        let ghost libsv = svc@.libs->Some_0;
                        let mut k: usize = 0;
                        proof {
                            assert(libsv.skip(0) =~= libsv);
                        }
                        while k < libs.len()
                            invariant
                                0 <= k <= libs@.len(),
                                libsv == libs@.map_values(|x: crate::compose::LibDep| x@),
                                libsv.len() == libs@.len(),
                                goal == spec_repos_of(podsv),
                                i < pods@.len(),
                                j < svcs.len(),
                                podsv.len() == pods@.len(),
                                svcs == pods@[i as int]@.base.services,
                                podsv == pods@.map_values(|p: Pod| p@),
                                match spec_register_libs(
                                    repos@.map_values(|x: Repo| x@),
                                    libsv.skip(k as int),
                                ) {
                                    Some(rs2) => match spec_register_services(
                                        rs2,
                                        svcs.skip(j as int + 1),
                                    ) {
                                        Some(rs1) => spec_register_pods(
                                            rs1,
                                            podsv.skip(i as int + 1),
                                        ) == goal,
                                        None => goal is None,
                                    },
                                    None => goal is None,
                                },
                            decreases libs.len() - k,
                        {
                            proof {
                                assert(libsv.skip(k as int)[0] == libsv[k as int]);
                                assert(libsv.skip(k as int).drop_first() =~= libsv.skip(
                                    k as int + 1,
                                ));
                                assert(libsv[k as int] == libs@[k as int]@);
                            }
                            let lib = &libs[k];
                            match Repos::register(
                                &mut repos,
                                &lib.source,
                                Some(&lib.key),
                                lib.mount_at.as_str(),
                            ) {
                                Ok(()) => (),
                                Err(e) => {
                                    return Err(e);
                                },
                            }
                            k = k + 1;
                        }
                        proof {
                            assert(libsv.skip(k as int).len() == 0);
                        }
                    },
                    None => (),
                }
                j = j + 1;
            }
            proof {
                assert(svcs.skip(j as int).len() == 0);
            }
            i = i + 1;
        }
        proof {
            assert(podsv.skip(i as int).len() == 0);
        }
        Ok(Repos { repos })
    }

    /// The catalogued source with the given alias, if any.
    pub fn find_by_alias(&self, alias: &str) -> (r: Option<&Repo>)
        ensures
            match r {
                Some(rep) => spec_find_by_alias(self@, alias@) == Some(rep@),
                None => spec_find_by_alias(self@, alias@) is None,
            },
    {
        match Repos::find_index_by_alias(&self.repos, alias) {
            Some(i) => Some(&self.repos[i]),
            None => None,
        }
    }

    /// The catalogued source declared under the given library key, if any.
    pub fn find_by_lib_key(&self, key: &str) -> (r: Option<&Repo>)
        ensures
            match r {
                Some(rep) => spec_find_by_lib_key(self@, key@) == Some(rep@),
                None => spec_find_by_lib_key(self@, key@) is None,
            },
    {
        let mut i: usize = 0;
        proof {
            assert(self@.skip(0) =~= self@);
        }
        while i < self.repos.len()
            invariant
                0 <= i <= self.repos@.len(),
                self@.len() == self.repos@.len(),
                spec_find_by_lib_key(self@, key@) == spec_find_by_lib_key(
                    self@.skip(i as int),
                    key@,
                ),
            decreases self.repos.len() - i,
        {
            proof {
                assert(self@.skip(i as int)[0] == self@[i as int]);
                assert(self@.skip(i as int).drop_first() =~= self@.skip(i as int + 1));
            }
            match &self.repos[i].lib_key {
                Some(k) => {
                    if crate::util::str_eq(k.as_str(), key) {
                        return Some(&self.repos[i]);
                    }
                },
                None => (),
            }
            i = i + 1;
        }
        proof {
            assert(self@.skip(i as int).len() == 0);
        }
        None
    }

    /// The catalogued source declared with the given source reference,
    /// if any.
    pub fn find_by_source(&self, src: &SourceRef) -> (r: Option<&Repo>)
        ensures
            match r {
                Some(rep) => spec_find_by_source(self@, src@) == Some(rep@),
                None => spec_find_by_source(self@, src@) is None,
            },
    {
        let mut i: usize = 0;
        proof {
            assert(self@.skip(0) =~= self@);
        }
        while i < self.repos.len()
            invariant
                0 <= i <= self.repos@.len(),
                self@.len() == self.repos@.len(),
                spec_find_by_source(self@, src@) == spec_find_by_source(
                    self@.skip(i as int),
                    src@,
                ),
            decreases self.repos.len() - i,
        {
            proof {
                assert(self@.skip(i as int)[0] == self@[i as int]);
                assert(self@.skip(i as int).drop_first() =~= self@.skip(i as int + 1));
            }
            if self.repos[i].source.same_as(src) {
                return Some(&self.repos[i]);
            }
            i = i + 1;
        }
        proof {
            assert(self@.skip(i as int).len() == 0);
        }
        None
    }

    /// Mark the first source of the given alias mounted or unmounted;
    /// the result says whether such a source exists.
    pub fn set_mounted(&mut self, alias: &str, mounted: bool) -> (found: bool)
        ensures
            final(self)@ == spec_set_mounted(old(self)@, alias@, mounted),
            found == (spec_find_by_alias(old(self)@, alias@) is Some),
    {
        let ghost rv = self@;
        let mut out: Vec<Repo> = Vec::new();
        let mut i: usize = 0;
        let mut found = false;
        proof {
            assert(rv.skip(0) =~= rv);
            assert(out@.map_values(|x: Repo| x@) =~= Seq::<RepoV>::empty());
        }
        while i < self.repos.len()
            invariant
                0 <= i <= self.repos@.len(),
                rv == self@,
                rv.len() == self.repos@.len(),
                out@.len() == i,
                !found ==> out@.map_values(|x: Repo| x@) == rv.take(i as int)
                    && spec_set_mounted(rv, alias@, mounted) == rv.take(i as int)
                    + spec_set_mounted(rv.skip(i as int), alias@, mounted)
                    && spec_find_by_alias(rv, alias@) == spec_find_by_alias(
                    rv.skip(i as int),
                    alias@,
                ),
                found ==> out@.map_values(|x: Repo| x@) == spec_set_mounted(
                    rv,
                    alias@,
                    mounted,
                ).take(i as int) && spec_set_mounted(rv, alias@, mounted).skip(i as int)
                    == rv.skip(i as int) && spec_find_by_alias(rv, alias@) is Some,
            decreases self.repos.len() - i,
        {
            proof {
                assert(rv.skip(i as int)[0] == rv[i as int]);
                assert(rv.skip(i as int).drop_first() =~= rv.skip(i as int + 1));
                lemma_set_mounted_len(rv, alias@, mounted);
            }
            let rep = &self.repos[i];
            if !found && crate::util::str_eq(rep.alias.as_str(), alias) {
                let mut nr = rep.duplicate();
                nr.mounted = mounted;
                out.push(nr);
                found = true;
                proof {
                    let full = spec_set_mounted(rv, alias@, mounted);
                    assert(full =~= rv.take(i as int) + (seq![
                        RepoV { mounted, ..rv[i as int] },
                    ] + rv.skip(i as int + 1)));
                    assert(out@.map_values(|x: Repo| x@) =~= full.take(i as int + 1));
                    assert(full.skip(i as int + 1) =~= rv.skip(i as int + 1));
                }
            } else {
                out.push(rep.duplicate());
                proof {
                    if found {
                        let full = spec_set_mounted(rv, alias@, mounted);
                        assert(full.skip(i as int)[0] == rv.skip(i as int)[0]);
                        assert(out@.map_values(|x: Repo| x@) =~= full.take(i as int + 1));
                        assert(full.skip(i as int + 1) =~= rv.skip(i as int + 1));
                    } else {
                        assert(out@.map_values(|x: Repo| x@) =~= rv.take(i as int + 1));
                        assert(spec_set_mounted(rv.skip(i as int), alias@, mounted) == seq![
                            rv[i as int],
                        ] + spec_set_mounted(rv.skip(i as int + 1), alias@, mounted));
                        assert(rv.take(i as int) + spec_set_mounted(
                            rv.skip(i as int),
                            alias@,
                            mounted,
                        ) =~= rv.take(i as int + 1) + spec_set_mounted(
                            rv.skip(i as int + 1),
                            alias@,
                            mounted,
                        ));
                    }
                }
            }
            i = i + 1;
        }
        proof {
            lemma_set_mounted_len(rv, alias@, mounted);
            if !found {
                assert(rv.skip(i as int).len() == 0);
                assert(spec_set_mounted(rv.skip(i as int), alias@, mounted) =~= Seq::<
                    RepoV,
                >::empty());
                assert(out@.map_values(|x: Repo| x@) =~= spec_set_mounted(rv, alias@, mounted));
            } else {
                assert(out@.map_values(|x: Repo| x@) =~= spec_set_mounted(rv, alias@, mounted));
            }
        }
        self.repos = out;
        found
    }

    /// Copy this registry; the copy has the same view.
    pub fn duplicate(&self) -> (r: Repos)
        ensures
            r@ == self@,
    {
        let mut out: Vec<Repo> = Vec::new();
        let mut i: usize = 0;
        while i < self.repos.len()
            invariant
                0 <= i <= self.repos@.len(),
                out@.len() == i,
                forall|j: int| 0 <= j < i ==> out@[j]@ == self.repos@[j]@,
            decreases self.repos.len() - i,
        {
            out.push(self.repos[i].duplicate());
            i = i + 1;
        }
        let r = Repos { repos: out };
        proof {
            assert(r@ =~= self@);
        }
        r
    }
}

} // verus!
