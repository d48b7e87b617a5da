//! The project orchestrator: discovery of pods and overrides from
//! directory listings, project-wide state, and the merge → standalone →
//! transform → write planning for both output modes.
//!
//! The orchestrator computes, for every pod, where its materialized
//! document goes and what it holds; carrying the plan to disk — deleting
//! the prior output tree, creating directories, writing files — is the
//! surrounding binary's part.

use vstd::prelude::*;
use vstd::string::StringExecFns;

use crate::compose::{ComposeFile, ComposeFileV, spec_standalone_file};
use crate::default_tags::{DefaultTags, TagEntryV};
use crate::errors::Error;
use crate::plugins::{Manager, Operation, Transform, spec_pipeline, spec_transform,
    lemma_pipeline_is_transform};
use crate::pod::{Override, Pod, PodType, PodV, spec_merged};
use crate::repos::{Repos, RepoV, spec_repos_of, spec_set_mounted, spec_find_by_alias};
use crate::util::{
    DirEntry, DirEntryV, spec_file_name, spec_join, spec_sort_names, spec_stem_of_name,
    spec_has_suffix, spec_dec_str, file_name_of, join, sort_strings, stem_of_name, has_suffix,
    u16_to_string,
};

verus! {

/// The view of a `Project`.
pub struct ProjectV {
    pub name: Seq<char>,
    pub root_dir: Seq<char>,
    pub src_dir: Seq<char>,
    pub output_dir: Seq<char>,
    pub pods: Seq<PodV>,
    pub overrides: Seq<Seq<char>>,
    pub repos: Seq<RepoV>,
    pub default_tags: Option<Seq<TagEntryV>>,
    pub plugins: Option<Seq<Transform>>,
}

/// A project: a directory containing a `pods` subdirectory, loaded once
/// per invocation.
#[derive(Debug, Clone, PartialEq)]
pub struct Project {
    pub name: String,
    pub root_dir: String,
    pub src_dir: String,
    pub output_dir: String,
    pub pods: Vec<Pod>,
    pub overrides: Vec<Override>,
    pub repos: Repos,
    pub default_tags: Option<DefaultTags>,
    pub plugins: Option<Manager>,
}

impl View for Project {
    type V = ProjectV;

    open spec fn view(&self) -> ProjectV {
        ProjectV {
            name: self.name@,
            root_dir: self.root_dir@,
            src_dir: self.src_dir@,
            output_dir: self.output_dir@,
            pods: self.pods@.map_values(|p: Pod| p@),
            overrides: self.overrides@.map_values(|o: Override| o@),
            repos: self.repos@,
            default_tags: match &self.default_tags {
                Some(t) => Some(t@),
                None => None,
            },
            plugins: match &self.plugins {
                Some(m) => Some(m@),
                None => None,
            },
        }
    }
}

/// A well-formed project: pod and override names are each unique, and
/// exactly one transform pipeline is wired.
pub open spec fn spec_project_wf(p: ProjectV) -> bool {
    &&& (forall|i: int, j: int|
        0 <= i < j < p.pods.len() ==> p.pods[i].name != p.pods[j].name)
    &&& (forall|i: int, j: int|
        0 <= i < j < p.overrides.len() ==> p.overrides[i] != p.overrides[j])
    &&& p.plugins == Some(spec_pipeline())
}

/// The pod names a sorted listing of the pods directory yields: each
/// `*.yml` file's stem, those ending in the reserved `.config` suffix
/// excluded.
pub open spec fn spec_pod_names(files: Seq<Seq<char>>) -> Seq<Seq<char>>
    decreases files.len(),
{
    if files.len() == 0 {
        Seq::empty()
    } else {
        let rest = spec_pod_names(files.drop_first());
        let f = files[0];
        if spec_has_suffix(f, ".yml"@) && !spec_has_suffix(spec_stem_of_name(f), ".config"@) {
            seq![spec_stem_of_name(f)] + rest
        } else {
            rest
        }
    }
}

/// The names of the directories in a listing, in listing order.
pub open spec fn spec_dir_names(entries: Seq<DirEntryV>) -> Seq<Seq<char>>
    decreases entries.len(),
{
    if entries.len() == 0 {
        Seq::empty()
    } else {
        let rest = spec_dir_names(entries.drop_first());
        if entries[0].is_dir {
            seq![entries[0].name] + rest
        } else {
            rest
        }
    }
}

/// The pod names defined by a pods-directory listing, in sorted order:
/// the stems of the `*.yml` files, reserved `.config` names excluded.
pub fn find_pod_names(files: Vec<String>) -> (r: Vec<String>)
    ensures
        r.deep_view() == spec_pod_names(spec_sort_names(files.deep_view())),
{
    let sorted = sort_strings(files);
    let ghost sv = sorted.deep_view();
    let ghost goal = spec_pod_names(sv);
    let mut out: Vec<String> = Vec::new();
    let mut i: usize = 0;
    proof {
        assert(sv.skip(0) =~= sv);
        assert(out.deep_view() =~= Seq::<Seq<char>>::empty());
        assert(out.deep_view() + spec_pod_names(sv.skip(0)) =~= goal);
    }
    while i < sorted.len()
        invariant
            0 <= i <= sorted@.len(),
            sv == sorted.deep_view(),
            sv.len() == sorted@.len(),
            out.deep_view() + spec_pod_names(sv.skip(i as int)) == goal,
        decreases sorted.len() - i,
    {
        proof {
            assert(sv.skip(i as int)[0] == sv[i as int]);
            assert(sv.skip(i as int).drop_first() =~= sv.skip(i as int + 1));
            assert(sv[i as int] == sorted@[i as int]@);
        }
        let name = &sorted[i];
        if has_suffix(name.as_str(), ".yml") {
            let stem = stem_of_name(name.as_str());
            if !has_suffix(stem.as_str(), ".config") {
                let ghost pre = out.deep_view();
                out.push(stem);
                proof {
                    assert(out.deep_view() =~= pre.push(spec_stem_of_name(sv[i as int])));
                    assert(pre.push(spec_stem_of_name(sv[i as int])) + spec_pod_names(
                        sv.skip(i as int + 1),
                    ) =~= pre + spec_pod_names(sv.skip(i as int)));
                }
            }
        }
        i = i + 1;
    }
    proof {
        assert(sv.skip(i as int).len() == 0);
        assert(spec_pod_names(sv.skip(i as int)) =~= Seq::<Seq<char>>::empty());
        assert(out.deep_view() =~= goal);
    }
    out
}

/// The overrides defined by a listing of the overrides directory: one
/// per subdirectory, in sorted name order.
pub fn find_overrides(entries: Vec<DirEntry>) -> (r: Vec<Override>)
    ensures
        r@.map_values(|o: Override| o@) == spec_sort_names(
            spec_dir_names(entries@.map_values(|e: DirEntry| e@)),
        ),
{
    let ghost ev = entries@.map_values(|e: DirEntry| e@);
    let mut names: Vec<String> = Vec::new();
    let mut i: usize = 0;
    proof {
        assert(ev.skip(0) =~= ev);
        assert(names.deep_view() =~= Seq::<Seq<char>>::empty());
        assert(names.deep_view() + spec_dir_names(ev.skip(0)) =~= spec_dir_names(ev));
    }
    while i < entries.len()
        invariant
            0 <= i <= entries@.len(),
            ev == entries@.map_values(|e: DirEntry| e@),
            ev.len() == entries@.len(),
            names.deep_view() + spec_dir_names(ev.skip(i as int)) == spec_dir_names(ev),
        decreases entries.len() - i,
    {
        proof {
            assert(ev.skip(i as int)[0] == ev[i as int]);
            assert(ev.skip(i as int).drop_first() =~= ev.skip(i as int + 1));
            assert(ev[i as int] == entries@[i as int]@);
        }
        if entries[i].is_dir {
            let ghost pre = names.deep_view();
            names.push(entries[i].name.clone());
            proof {
                assert(names.deep_view() =~= pre.push(ev[i as int].name));
                assert(pre.push(ev[i as int].name) + spec_dir_names(ev.skip(i as int + 1))
                    =~= pre + spec_dir_names(ev.skip(i as int)));
            }
        }
        i = i + 1;
    }
    proof {
        assert(ev.skip(i as int).len() == 0);
        assert(spec_dir_names(ev.skip(i as int)) =~= Seq::<Seq<char>>::empty());
        assert(names.deep_view() =~= spec_dir_names(ev));
    }
    let sorted = sort_strings(names);
    let mut out: Vec<Override> = Vec::new();
    let mut k: usize = 0;
    while k < sorted.len()
        invariant
            0 <= k <= sorted@.len(),
            out@.len() == k,
            forall|j: int| 0 <= j < k ==> out@[j]@ == sorted.deep_view()[j],
        decreases sorted.len() - k,
    {
        out.push(Override::new(sorted[k].clone()));
        k = k + 1;
    }
    proof {
        assert(out@.map_values(|o: Override| o@) =~= sorted.deep_view());
    }
    out
}

/// One file of a materialization plan: where it goes, relative to the
/// plan's root, and the document it holds.
#[derive(Debug, Clone, PartialEq)]
pub struct OutFile {
    pub rel_path: String,
    pub file: ComposeFile,
}

/// The view of an `OutFile`.
pub struct OutFileV {
    pub rel_path: Seq<char>,
    pub file: ComposeFileV,
}

impl View for OutFile {
    type V = OutFileV;

    open spec fn view(&self) -> OutFileV {
        OutFileV { rel_path: self.rel_path@, file: self.file@ }
    }
}

/// The plan `output` hands back: delete `dir` if it exists, then write
/// every file under it.
#[derive(Debug, Clone, PartialEq)]
pub struct OutputPlan {
    pub dir: String,
    pub files: Vec<OutFile>,
}

/// The plan `export` hands back: create `dir`, which must not exist,
/// and write every file under it.  `warn_missing_default_tags` asks the
/// caller to warn that exported artifacts get no further chance to
/// receive tags.
#[derive(Debug, Clone, PartialEq)]
pub struct ExportPlan {
    pub dir: String,
    pub files: Vec<OutFile>,
    pub warn_missing_default_tags: bool,
}

/// Where a pod's materialized document goes, relative to the plan root:
/// `tasks/<name>.yml` for a task under export, `<name>.yml` otherwise.
pub open spec fn spec_rel_path(op: Operation, pod: PodV) -> Seq<char> {
    let fname = pod.name + ".yml"@;
    if op is Export && pod.pod_type is Task {
        "tasks/"@ + fname
    } else {
        fname
    }
}

/// What the pipeline makes of one pod under an override: merged with
/// the override layer, made standalone against the pods directory, and
/// run through the transforms.
pub open spec fn spec_materialized(
    p: ProjectV,
    ovr: Seq<char>,
    op: Operation,
    pod: PodV,
) -> Option<ComposeFileV> {
    spec_transform(
        spec_standalone_file(spec_merged(pod, ovr), spec_join(p.root_dir, "pods"@)),
        p.repos,
        p.src_dir,
        p.default_tags,
        op,
    )
}

/// The whole plan for a run of pods: every pod materialized, in
/// declaration order, each at its relative path; a failing pod aborts
/// the whole materialization.
pub open spec fn spec_plan_files(
    p: ProjectV,
    ovr: Seq<char>,
    op: Operation,
    pods: Seq<PodV>,
) -> Option<Seq<OutFileV>>
    decreases pods.len(),
{
    if pods.len() == 0 {
        Some(Seq::empty())
    } else {
        match spec_materialized(p, ovr, op, pods[0]) {
            None => None,
            Some(doc) => match spec_plan_files(p, ovr, op, pods.drop_first()) {
                None => None,
                Some(rest) => Some(
                    seq![OutFileV { rel_path: spec_rel_path(op, pods[0]), file: doc }] + rest,
                ),
            },
        }
    }
}

/// Repeated materialization with unchanged inputs plans identical
/// artifacts: the plan is a function of the project, the override and
/// the operation alone.
pub proof fn lemma_output_idempotent(p1: ProjectV, p2: ProjectV, o1: Seq<char>, o2: Seq<char>)
    requires
        p1 == p2,
        o1 == o2,
    ensures
        spec_plan_files(p1, o1, Operation::Output, p1.pods) == spec_plan_files(
            p2,
            o2,
            Operation::Output,
            p2.pods,
        ),
{
}

/// Under export a task-typed pod is placed under `tasks/`, a
/// service-typed pod at the root; under output both are placed flat.
pub proof fn lemma_task_placement(pod: PodV)
    ensures
        pod.pod_type is Task ==> spec_rel_path(Operation::Export, pod) == "tasks/"@ + pod.name
            + ".yml"@,
        pod.pod_type is Service ==> spec_rel_path(Operation::Export, pod) == pod.name + ".yml"@,
        spec_rel_path(Operation::Output, pod) == pod.name + ".yml"@,
{
}

impl Project {
    /// Assemble a project from its directories, pods and overrides.
    /// The name defaults to the root directory's final component; the
    /// source registry is built from the pods' declared sources; the
    /// transform pipeline is wired before any materialization.
    pub fn from_dirs(
        root_dir: &str,
        src_dir: &str,
        output_dir: &str,
        pods: Vec<Pod>,
        overrides: Vec<Override>,
    ) -> (r: Result<Project, Error>)
        requires
            forall|i: int, j: int|
                0 <= i < j < pods@.len() ==> pods@[i]@.name != pods@[j]@.name,
            forall|i: int, j: int|
                0 <= i < j < overrides@.len() ==> overrides@[i]@ != overrides@[j]@,
        ensures
            match r {
                Ok(p) => spec_project_wf(p@) && spec_file_name(root_dir@) == Some(p@.name)
                    && p@.root_dir == root_dir@ && p@.src_dir == src_dir@ && p@.output_dir
                    == output_dir@ && p@.pods == pods@.map_values(|x: Pod| x@) && p@.overrides
                    == overrides@.map_values(|o: Override| o@) && Some(p@.repos) == spec_repos_of(
                    pods@.map_values(|x: Pod| x@),
                ) && p@.default_tags is None,
                Err(e) => e is AliasDerivationFailure && (spec_file_name(root_dir@) is None
                    || spec_repos_of(pods@.map_values(|x: Pod| x@)) is None),
            },
    {
        let name = match file_name_of(root_dir) {
            Some(n) => n,
            None => {
                return Err(Error::AliasDerivationFailure { source: root_dir.to_owned() });
            },
        };
        let repos = match Repos::new(&pods) {
            Ok(rs) => rs,
            Err(e) => {
                return Err(e);
            },
        };
        let proj = Project {
            name,
            root_dir: root_dir.to_owned(),
            src_dir: src_dir.to_owned(),
            output_dir: output_dir.to_owned(),
            pods,
            overrides,
            repos,
            default_tags: None,
            plugins: Some(Manager::new()),
        };
        Ok(proj)
    }

    /// The directories a test project named after an `examples/`
    /// subdirectory uses: the example itself as root, and a token-named
    /// directory under `target/test_output` for sources and output.
    pub fn from_example_dirs(name: &str, token: u16) -> (r: (String, String, String))
        ensures
            r.0@ == "examples/"@ + name@,
            r.2@ == "target/test_output/"@ + name@ + seq!['-'] + spec_dec_str(token as int),
            r.1@ == r.2@ + seq!['/'] + "src"@,
    {
        let root = "examples/".to_owned().concat(name);
        let out = "target/test_output/".to_owned().concat(name).concat("-").concat(
            u16_to_string(token).as_str(),
        );
        let src = out.clone().concat("/").concat("src");
        proof {
            reveal_strlit("-");
            reveal_strlit("/");
            assert(out@ =~= "target/test_output/"@ + name@ + seq!['-'] + spec_dec_str(
                token as int,
            ));
            assert(src@ =~= out@ + seq!['/'] + "src"@);
        }
        (root, src, out)
    }

    /// The name of this project.
    pub fn name(&self) -> (r: &str)
        ensures
            r@ == self@.name,
    {
        self.name.as_str()
    }

    /// Replace the project's name.  Do this before the first
    /// materialization.
    pub fn set_name(&mut self, name: &str)
        ensures
            final(self)@ == (ProjectV { name: name@, ..old(self)@ }),
    {
        self.name = name.to_owned();
    }

    /// The root directory of this project.
    pub fn root_dir(&self) -> (r: &str)
        ensures
            r@ == self@.root_dir,
    {
        self.root_dir.as_str()
    }

    /// The directory cloned sources live under.
    pub fn src_dir(&self) -> (r: &str)
        ensures
            r@ == self@.src_dir,
    {
        self.src_dir.as_str()
    }

    /// The directory materialized output is written under.
    pub fn output_dir(&self) -> (r: &str)
        ensures
            r@ == self@.output_dir,
    {
        self.output_dir.as_str()
    }

    /// The directory the pods are defined in, relative to which the
    /// documents' paths are interpreted.
    pub fn pods_dir(&self) -> (r: String)
        ensures
            r@ == spec_join(self@.root_dir, "pods"@),
    {
        join(self.root_dir.as_str(), "pods")
    }

    /// The directory `output` writes pods under.
    pub fn output_pods_dir(&self) -> (r: String)
        ensures
            r@ == spec_join(self@.output_dir, "pods"@),
    {
        join(self.output_dir.as_str(), "pods")
    }

    /// Every pod of this project, in declaration order.
    pub fn pods(&self) -> (r: &Vec<Pod>)
        ensures
            r@.map_values(|x: Pod| x@) == self@.pods,
    {
        &self.pods
    }

    /// The named pod, if any.
    pub fn pod(&self, name: &str) -> (r: Option<&Pod>)
        ensures
            match r {
                Some(p) => crate::act_on::spec_find_pod(self@.pods, name@) matches Some(i) && p@
                    == self@.pods[i],
                None => crate::act_on::spec_find_pod(self@.pods, name@) is None,
            },
    {
        match crate::act_on::find_pod_index(&self.pods, name) {
            Some(i) => Some(&self.pods[i]),
            None => None,
        }
    }

    /// Every override of this project, in declaration order.
    pub fn overrides(&self) -> (r: &Vec<Override>)
        ensures
            r@.map_values(|o: Override| o@) == self@.overrides,
    {
        &self.overrides
    }

    /// The named override, if any.
    pub fn ovr(&self, name: &str) -> (r: Option<&Override>)
        ensures
            match r {
                Some(o) => self@.overrides.contains(o@) && o@ == name@,
                None => !self@.overrides.contains(name@),
            },
    {
        let ghost ov = self@.overrides;
        let mut i: usize = 0;
        while i < self.overrides.len()
            invariant
                0 <= i <= self.overrides@.len(),
                ov == self@.overrides,
                ov.len() == self.overrides@.len(),
                forall|j: int| 0 <= j < i ==> ov[j] != name@,
            decreases self.overrides.len() - i,
        {
            proof {
                assert(ov[i as int] == self.overrides@[i as int]@);
            }
            if crate::util::str_eq(self.overrides[i].name.as_str(), name) {
                return Some(&self.overrides[i]);
            }
            i = i + 1;
        }
        proof {
            assert forall|j: int| 0 <= j < ov.len() implies ov[j] != name@ by {}
        }
        None
    }

    /// The source registry of this project.
    pub fn repos(&self) -> (r: &Repos)
        ensures
            r@ == self@.repos,
    {
        &self.repos
    }

    /// Mark a catalogued source mounted or unmounted; the result says
    /// whether the alias names a source.
    pub fn set_repo_mounted(&mut self, alias: &str, mounted: bool) -> (found: bool)
        ensures
            final(self)@ == (ProjectV {
                repos: spec_set_mounted(old(self)@.repos, alias@, mounted),
                ..old(self)@
            }),
            found == (spec_find_by_alias(old(self)@.repos, alias@) is Some),
    {
        self.repos.set_mounted(alias, mounted)
    }

    /// The default-tag policy, if one was configured.
    pub fn default_tags(&self) -> (r: Option<&DefaultTags>)
        ensures
            match r {
                Some(t) => self@.default_tags == Some(t@),
                None => self@.default_tags is None,
            },
    {
        match &self.default_tags {
            Some(t) => Some(t),
            None => None,
        }
    }

    /// Configure the default-tag policy.  Do this before the first
    /// materialization.
    pub fn set_default_tags(&mut self, tags: DefaultTags)
        ensures
            final(self)@ == (ProjectV { default_tags: Some(tags@), ..old(self)@ }),
    {
        self.default_tags = Some(tags);
    }

    /// The transform pipeline of this project.
    pub fn plugins(&self) -> (r: &Manager)
        requires
            self@.plugins is Some,
        ensures
            Some(r@) == self@.plugins,
    {
        match &self.plugins {
            Some(m) => m,
            None => unreached(),
        }
    }

    /// Materialize every pod for the chosen override: merge its layers,
    /// make the document standalone, run the transform pipeline for the
    /// operation, and place it at its relative path.
    pub fn output_helper(&self, ovr: &Override, op: Operation) -> (r: Result<Vec<OutFile>, Error>)
        requires
            spec_project_wf(self@),
        ensures
            match spec_plan_files(self@, ovr@, op, self@.pods) {
                Some(fs) => r matches Ok(v) && v@.map_values(|f: OutFile| f@) == fs,
                None => r matches Err(e) && e is TransformFailure,
            },
    {
        let ghost pv = self@;
        let ghost podsv = self@.pods;
        let ghost goal = spec_plan_files(pv, ovr@, op, podsv);
        let pods_dir = self.pods_dir();
        let mut out: Vec<OutFile> = Vec::new();
        let mut i: usize = 0;
        proof {
            assert(podsv.skip(0) =~= podsv);
            assert(out@.map_values(|f: OutFile| f@) =~= Seq::<OutFileV>::empty());
        }
        while i < self.pods.len()
            invariant
                0 <= i <= self.pods@.len(),
                pv == self@,
                podsv == self@.pods,
                podsv.len() == self.pods@.len(),
                spec_project_wf(pv),
                pods_dir@ == spec_join(pv.root_dir, "pods"@),
                goal == spec_plan_files(pv, ovr@, op, podsv),
                match spec_plan_files(pv, ovr@, op, podsv.skip(i as int)) {
                    Some(rest) => goal == Some(out@.map_values(|f: OutFile| f@) + rest),
                    None => goal is None,
                },
            decreases self.pods.len() - i,
        {
            proof {
                assert(podsv.skip(i as int)[0] == podsv[i as int]);
                assert(podsv.skip(i as int).drop_first() =~= podsv.skip(i as int + 1));
                assert(podsv[i as int] == self.pods@[i as int]@);
            }
            let pod = &self.pods[i];
            let mut file = pod.merged_file(ovr);
            file.make_standalone(pods_dir.as_str());
            let tags: Option<&DefaultTags> = match &self.default_tags {
                Some(t) => Some(t),
                None => None,
            };
            let res = self.plugins().transform(
                op,
                &self.repos,
                self.src_dir.as_str(),
                tags,
                &mut file,
            );
            proof {
                lemma_pipeline_is_transform(
                    spec_standalone_file(spec_merged(podsv[i as int], ovr@), pods_dir@),
                    pv.repos,
                    pv.src_dir,
                    pv.default_tags,
                    op,
                );
            }
            match res {
                Ok(()) => (),
                Err(e) => {
                    proof {
                        assert(spec_materialized(pv, ovr@, op, podsv[i as int]) is None);
                        assert(goal is None);
                    }
                    return Err(e);
                },
            }
            let fname = pod.name.clone().concat(".yml");
            let is_task = match pod.pod_type {
                PodType::Task => true,
                PodType::Service => false,
            };
            let is_export = match op {
                Operation::Export => true,
                Operation::Output => false,
            };
            let rel_path = if is_export && is_task {
                "tasks/".to_owned().concat(fname.as_str())
            } else {
                fname
            };
            proof {
                assert(rel_path@ == spec_rel_path(op, podsv[i as int]));
            }
            let ghost pre = out@.map_values(|f: OutFile| f@);
            out.push(OutFile { rel_path, file });
            proof {
                assert(out@.map_values(|f: OutFile| f@) =~= pre.push(out@.last()@));
                let doc = spec_materialized(pv, ovr@, op, podsv[i as int])->Some_0;
                assert(pre.push(out@.last()@) + spec_plan_files(
                    pv,
                    ovr@,
                    op,
                    podsv.skip(i as int + 1),
                )->Some_0 =~= pre + (seq![
                    OutFileV { rel_path: spec_rel_path(op, podsv[i as int]), file: doc },
                ] + spec_plan_files(pv, ovr@, op, podsv.skip(i as int + 1))->Some_0));
            }
            i = i + 1;
        }
        proof {
            assert(podsv.skip(i as int).len() == 0);
            assert(spec_plan_files(pv, ovr@, op, podsv.skip(i as int)) == Some(Seq::<
                OutFileV,
            >::empty()));
            assert(out@.map_values(|f: OutFile| f@) + Seq::<OutFileV>::empty() =~= out@.map_values(
                |f: OutFile| f@,
            ));
        }
        Ok(out)
    }

    /// Plan the local materialization: delete the prior output pod tree
    /// and regenerate it whole, every pod flat under the output pods
    /// directory.
    pub fn output(&self, ovr: &Override) -> (r: Result<OutputPlan, Error>)
        requires
            spec_project_wf(self@),
        ensures
            match spec_plan_files(self@, ovr@, Operation::Output, self@.pods) {
                Some(fs) => r matches Ok(plan) && plan.dir@ == spec_join(
                    self@.output_dir,
                    "pods"@,
                ) && plan.files@.map_values(|f: OutFile| f@) == fs,
                None => r matches Err(e) && e is TransformFailure,
            },
    {
        let files = match self.output_helper(ovr, Operation::Output) {
            Ok(fs) => fs,
            Err(e) => {
                return Err(e);
            },
        };
        Ok(OutputPlan { dir: self.output_pods_dir(), files })
    }

    /// Plan the portable export: refuse an existing destination
    /// outright, and otherwise materialize every pod for the export
    /// operation, tasks under `tasks/`.  With no default-tag policy the
    /// plan carries a warning, since exported artifacts get no further
    /// chance to receive tags.
    pub fn export(&self, ovr: &Override, export_dir: &str, dest_exists: bool) -> (r: Result<
        ExportPlan,
        Error,
    >)
        requires
            spec_project_wf(self@),
        ensures
            dest_exists ==> (r matches Err(e) && (e matches Error::DestinationExists { path }
                && path@ == export_dir@)),
            !dest_exists ==> match spec_plan_files(self@, ovr@, Operation::Export, self@.pods) {
                Some(fs) => r matches Ok(plan) && plan.dir@ == export_dir@
                    && plan.files@.map_values(|f: OutFile| f@) == fs
                    && plan.warn_missing_default_tags == (self@.default_tags is None),
                None => r matches Err(e) && e is TransformFailure,
            },
    {
        if dest_exists {
            return Err(Error::DestinationExists { path: export_dir.to_owned() });
        }
        let warn = match &self.default_tags {
            Some(_) => false,
            None => true,
        };
        let files = match self.output_helper(ovr, Operation::Export) {
            Ok(fs) => fs,
            Err(e) => {
                return Err(e);
            },
        };
        Ok(ExportPlan { dir: export_dir.to_owned(), files, warn_missing_default_tags: warn })
    }
}

} // verus!
