//! The transform pipeline: an ordered, fixed list of document
//! transforms, each selected and parameterized by the operation being
//! performed.  The source transform rewrites build contexts and injects
//! volume mounts according to the source registry; the tag transform
//! fills in missing image tags from the default-tag policy.

use vstd::prelude::*;
use vstd::string::StringExecFns;

use crate::compose::{
    ComposeFile, ComposeFileV, LibDep, LibDepV, Service, ServiceEntry, ServiceEntryV, ServiceV,
    SourceRef, SourceRefV, Volume, VolumeV, Image, ImageV, duplicate_libs,
};
use crate::default_tags::{DefaultTags, TagEntryV, spec_tag_lookup};
use crate::errors::Error;
use crate::repos::{Repos, RepoV, spec_find_by_source};
use crate::util::{spec_is_absolute, spec_join, is_absolute};

verus! {

/// What a materialization is for: `Output` builds artifacts for
/// immediate local use, `Export` builds a frozen, portable snapshot.
#[derive(Debug, Clone, Copy, PartialEq, Eq, Structural)]
pub enum Operation {
    Output,
    Export,
}

/// The transforms the pipeline can run, as a closed set of tags.
#[derive(Debug, Clone, Copy, PartialEq, Eq, Structural)]
pub enum Transform {
    /// Rewrite build contexts and inject source mounts from the registry.
    Sources,
    /// Default missing image tags from the project's tag policy.
    DefaultTags,
}

/// The volumes the source transform adds for a service's library
/// dependencies under `Output`: one local-clone mount per dependency
/// whose registered source is mounted.
pub open spec fn spec_lib_volumes(
    libs: Seq<LibDepV>,
    repos: Seq<RepoV>,
    src_dir: Seq<char>,
) -> Seq<VolumeV>
    decreases libs.len(),
{
    if libs.len() == 0 {
        Seq::empty()
    } else {
        let rest = spec_lib_volumes(libs.drop_first(), repos, src_dir);
        match spec_find_by_source(repos, libs[0].source) {
            Some(rep) => if rep.mounted {
                seq![
                    VolumeV {
                        host: Some(spec_join(src_dir, rep.alias)),
                        container: libs[0].mount_at,
                    },
                ] + rest
            } else {
                rest
            },
            None => rest,
        }
    }
}

/// Whether some library mount of this run would resolve to a relative
/// local path — a programming error the transform rejects.
pub open spec fn spec_libs_blocked(
    libs: Seq<LibDepV>,
    repos: Seq<RepoV>,
    src_dir: Seq<char>,
) -> bool
    decreases libs.len(),
{
    if libs.len() == 0 {
        false
    } else {
        let head = match spec_find_by_source(repos, libs[0].source) {
            Some(rep) => rep.mounted && !spec_is_absolute(spec_join(src_dir, rep.alias)),
            None => false,
        };
        head || spec_libs_blocked(libs.drop_first(), repos, src_dir)
    }
}

/// Whether this service's transform would need a local mount at a
/// relative path.
pub open spec fn spec_service_blocked(
    svc: ServiceV,
    repos: Seq<RepoV>,
    src_dir: Seq<char>,
    op: Operation,
) -> bool {
    op is Output && ({
        let build_blocked = match svc.build {
            Some(b) => match spec_find_by_source(repos, b) {
                Some(rep) => rep.mounted && !spec_is_absolute(spec_join(src_dir, rep.alias)),
                None => false,
            },
            None => false,
        };
        let libs_blocked = match svc.libs {
            Some(l) => spec_libs_blocked(l, repos, src_dir),
            None => false,
        };
        build_blocked || libs_blocked
    })
}

/// The source transform on one service.  Under `Export` a build context
/// with a registered source is pointed back at the original remote
/// reference and no mount is injected; under `Output` a mounted source
/// becomes a local build context plus a volume mount, and each mounted
/// library dependency contributes a volume mount.
pub open spec fn spec_sources_service(
    svc: ServiceV,
    repos: Seq<RepoV>,
    src_dir: Seq<char>,
    op: Operation,
) -> ServiceV {
    let bres = match svc.build {
        Some(b) => match spec_find_by_source(repos, b) {
            Some(rep) => if op is Export {
                (Some(rep.source), Seq::<VolumeV>::empty())
            } else if rep.mounted {
                (
                    Some(SourceRefV::Dir { path: spec_join(src_dir, rep.alias) }),
                    seq![
                        VolumeV {
                            host: Some(spec_join(src_dir, rep.alias)),
                            container: rep.mount_dir,
                        },
                    ],
                )
            } else {
                (svc.build, Seq::<VolumeV>::empty())
            },
            None => (svc.build, Seq::<VolumeV>::empty()),
        },
        None => (svc.build, Seq::<VolumeV>::empty()),
    };
    let libvols = if op is Output {
        match svc.libs {
            Some(l) => spec_lib_volumes(l, repos, src_dir),
            None => Seq::<VolumeV>::empty(),
        }
    } else {
        Seq::<VolumeV>::empty()
    };
    let added = bres.1 + libvols;
    ServiceV {
        build: bres.0,
        volumes: if added.len() == 0 {
            svc.volumes
        } else {
            match svc.volumes {
                Some(v) => Some(v + added),
                None => Some(added),
            }
        },
        ..svc
    }
}

/// The source transform on a document: every service rewritten, unless
/// some service would need a mount at a relative local path.
pub open spec fn spec_sources_file(
    f: ComposeFileV,
    repos: Seq<RepoV>,
    src_dir: Seq<char>,
    op: Operation,
) -> Option<ComposeFileV> {
    if exists|i: int|
        0 <= i < f.services.len() && spec_service_blocked(
            f.services[i].service,
            repos,
            src_dir,
            op,
        ) {
        None
    } else {
        Some(
            ComposeFileV {
                services: f.services.map_values(
                    |e: ServiceEntryV|
                        ServiceEntryV {
                            name: e.name,
                            service: spec_sources_service(e.service, repos, src_dir, op),
                        },
                ),
            },
        )
    }
}

/// The tag transform on one service: an image written without a tag
/// takes the policy's tag for its repository, when the policy has one.
pub open spec fn spec_tags_service(svc: ServiceV, tags: Seq<TagEntryV>) -> ServiceV {
    match svc.image {
        Some(img) => if img.tag is None {
            match spec_tag_lookup(tags, img.repo) {
                Some(t) => ServiceV { image: Some(ImageV { repo: img.repo, tag: Some(t) }), ..svc },
                None => svc,
            }
        } else {
            svc
        },
        None => svc,
    }
}

/// The tag transform on a document; with no policy configured it leaves
/// the document alone.  It applies identically under both operations.
pub open spec fn spec_tags_file(f: ComposeFileV, tags: Option<Seq<TagEntryV>>) -> ComposeFileV {
    match tags {
        None => f,
        Some(ts) => ComposeFileV {
            services: f.services.map_values(
                |e: ServiceEntryV|
                    ServiceEntryV { name: e.name, service: spec_tags_service(e.service, ts) },
            ),
        },
    }
}

/// One transform applied to a document.
pub open spec fn spec_apply(
    t: Transform,
    f: ComposeFileV,
    repos: Seq<RepoV>,
    src_dir: Seq<char>,
    tags: Option<Seq<TagEntryV>>,
    op: Operation,
) -> Option<ComposeFileV> {
    match t {
        Transform::Sources => spec_sources_file(f, repos, src_dir, op),
        Transform::DefaultTags => Some(spec_tags_file(f, tags)),
    }
}

/// A run of transforms applied in order; a failing transform aborts the
/// run.
pub open spec fn spec_apply_all(
    ts: Seq<Transform>,
    f: ComposeFileV,
    repos: Seq<RepoV>,
    src_dir: Seq<char>,
    tags: Option<Seq<TagEntryV>>,
    op: Operation,
) -> Option<ComposeFileV>
    decreases ts.len(),
{
    if ts.len() == 0 {
        Some(f)
    } else {
        match spec_apply(ts[0], f, repos, src_dir, tags, op) {
            None => None,
            Some(f1) => spec_apply_all(ts.drop_first(), f1, repos, src_dir, tags, op),
        }
    }
}

/// The fixed pipeline: sources first, then tag defaulting, so the tag
/// transform observes the source transform's mutations.
pub open spec fn spec_pipeline() -> Seq<Transform> {
    seq![Transform::Sources, Transform::DefaultTags]
}

/// What the whole pipeline makes of a document.
pub open spec fn spec_transform(
    f: ComposeFileV,
    repos: Seq<RepoV>,
    src_dir: Seq<char>,
    tags: Option<Seq<TagEntryV>>,
    op: Operation,
) -> Option<ComposeFileV> {
    match spec_sources_file(f, repos, src_dir, op) {
        None => None,
        Some(f1) => Some(spec_tags_file(f1, tags)),
    }
}

/// Running the fixed pipeline is running the source transform and then
/// the tag transform.
pub proof fn lemma_pipeline_is_transform(
    f: ComposeFileV,
    repos: Seq<RepoV>,
    src_dir: Seq<char>,
    tags: Option<Seq<TagEntryV>>,
    op: Operation,
)
    ensures
        spec_apply_all(spec_pipeline(), f, repos, src_dir, tags, op) == spec_transform(
            f,
            repos,
            src_dir,
            tags,
            op,
        ),
{
    let ts = spec_pipeline();
    assert(ts.len() == 2);
    assert(ts[0] == Transform::Sources);
    assert(ts.drop_first() =~= seq![Transform::DefaultTags]);
    assert(ts.drop_first()[0] == Transform::DefaultTags);
    assert(ts.drop_first().drop_first() =~= Seq::<Transform>::empty());
    let ts1 = ts.drop_first();
    match spec_sources_file(f, repos, src_dir, op) {
        None => {
            assert(spec_apply_all(ts, f, repos, src_dir, tags, op) is None);
        },
        Some(f1) => {
            let f2 = spec_tags_file(f1, tags);
            assert(spec_apply(ts1[0], f1, repos, src_dir, tags, op) == Some(f2));
            assert(spec_apply_all(ts1, f1, repos, src_dir, tags, op) == spec_apply_all(
                ts1.drop_first(),
                f2,
                repos,
                src_dir,
                tags,
                op,
            ));
            assert(spec_apply_all(ts1.drop_first(), f2, repos, src_dir, tags, op) == Some(f2));
        },
    }
}

/// The two operations diverge on a service that builds from a mounted
/// registered source: under `Output` the build context becomes the local
/// clone path and a volume entry mounts it, while under `Export` the
/// build context is the original remote reference and the volumes are
/// exactly those the service already had.
pub proof fn lemma_operation_divergence(
    svc: ServiceV,
    repos: Seq<RepoV>,
    src_dir: Seq<char>,
    rep: RepoV,
)
    requires
        svc.build matches Some(b) && spec_find_by_source(repos, b) == Some(rep),
        rep.mounted,
        svc.libs is None,
    ensures
        ({
            let out = spec_sources_service(svc, repos, src_dir, Operation::Output);
            let mount = VolumeV {
                host: Some(spec_join(src_dir, rep.alias)),
                container: rep.mount_dir,
            };
            &&& out.build == Some(SourceRefV::Dir { path: spec_join(src_dir, rep.alias) })
            &&& out.volumes matches Some(vs) && vs.len() > 0 && vs.last() == mount
        }),
        ({
            let oute = spec_sources_service(svc, repos, src_dir, Operation::Export);
            &&& oute.build == Some(rep.source)
            &&& oute.volumes == svc.volumes
        }),
{
    let mount = VolumeV { host: Some(spec_join(src_dir, rep.alias)), container: rep.mount_dir };
    let out = spec_sources_service(svc, repos, src_dir, Operation::Output);
    assert(out.volumes matches Some(vs) && vs.len() > 0 && vs.last() == mount) by {
        let added = seq![mount] + Seq::<VolumeV>::empty();
        assert(added.len() == 1 && added.last() == mount);
        match svc.volumes {
            Some(v) => {
                assert((v + added).last() == mount);
            },
            None => {},
        }
    }
    let oute = spec_sources_service(svc, repos, src_dir, Operation::Export);
    assert(oute.volumes == svc.volumes) by {
        let addede = Seq::<VolumeV>::empty() + Seq::<VolumeV>::empty();
        assert(addede.len() == 0);
    }
}

/// The source transform on one service, or the relative local path it
/// rejects.
fn sources_service(svc: &Service, repos: &Repos, src_dir: &str, op: Operation) -> (r: Result<
    Service,
    Error,
>)
    ensures
        if spec_service_blocked(svc@, repos@, src_dir@, op) {
            r matches Err(e) && e is TransformFailure
        } else {
            r matches Ok(s) && s@ == spec_sources_service(svc@, repos@, src_dir@, op)
        },
{
    let is_export = match op {
        Operation::Export => true,
        Operation::Output => false,
    };
    let mut added: Vec<Volume> = Vec::new();
    let build_new: Option<SourceRef> = match &svc.build {
        Some(b) => {
            proof {
                assert(svc@.build == Some(b@));
            }
            match repos.find_by_source(b) {
                Some(rep) => {
                    if is_export {
                        Some(rep.source.duplicate())
                    } else if rep.mounted {
                        let lp = rep.path(src_dir);
                        if !is_absolute(lp.as_str()) {
                            proof {
                                assert(spec_service_blocked(svc@, repos@, src_dir@, op));
                            }
                            return Err(Error::TransformFailure { reason: lp });
                        }
                        added.push(
                            Volume { host: Some(lp.clone()), container: rep.mount_dir.clone() },
                        );
                        proof {
                            assert(added@.map_values(|x: Volume| x@) =~= seq![
                                VolumeV {
                                    host: Some(spec_join(src_dir@, rep@.alias)),
                                    container: rep@.mount_dir,
                                },
                            ]);
                        }
                        Some(SourceRef::Dir { path: lp })
                    } else {
                        Some(b.duplicate())
                    }
                },
                None => Some(b.duplicate()),
            }
        },
        None => None,
    };
    let ghost build_vols = added@.map_values(|x: Volume| x@);
    match &svc.libs {
        Some(libs) => {
            if !is_export {
                let ghost libsv = libs@.map_values(|x: LibDep| x@);
                let mut k: usize = 0;
                proof {
                    assert(libsv.skip(0) =~= libsv);
                    assert(op is Output);
                    assert(svc@.libs == Some(libsv));
                }
                while k < libs.len()
                    invariant
                        0 <= k <= libs@.len(),
                        libsv == libs@.map_values(|x: LibDep| x@),
                        libsv.len() == libs@.len(),
                        op is Output,
                        svc@.libs == Some(libsv),
                        spec_libs_blocked(libsv, repos@, src_dir@) == spec_libs_blocked(
                            libsv.skip(k as int),
                            repos@,
                            src_dir@,
                        ),
                        added@.map_values(|x: Volume| x@) + spec_lib_volumes(
                            libsv.skip(k as int),
                            repos@,
                            src_dir@,
                        ) == build_vols + spec_lib_volumes(libsv, repos@, src_dir@),
                    decreases libs.len() - k,
                {
                    proof {
                        assert(libsv.skip(k as int)[0] == libsv[k as int]);
                        assert(libsv.skip(k as int).drop_first() =~= libsv.skip(k as int + 1));
                        assert(libsv[k as int] == libs@[k as int]@);
                    }
                    let lib = &libs[k];
                    match repos.find_by_source(&lib.source) {
                        Some(rep) => {
                            if rep.mounted {
                                let lp = rep.path(src_dir);
                                if !is_absolute(lp.as_str()) {
                                    proof {
                                        assert(svc@.libs == Some(libsv));
                                        assert(op is Output);
                                        assert(spec_libs_blocked(
                                            libsv.skip(k as int),
                                            repos@,
                                            src_dir@,
                                        ));
                                        assert(spec_service_blocked(svc@, repos@, src_dir@, op));
                                    }
                                    return Err(Error::TransformFailure { reason: lp });
                                }
                                let ghost pre = added@.map_values(|x: Volume| x@);
                                added.push(
                                    Volume { host: Some(lp), container: lib.mount_at.clone() },
                                );
                                proof {
                                    assert(added@.map_values(|x: Volume| x@) =~= pre.push(
                                        added@.last()@,
                                    ));
                                    assert(pre.push(added@.last()@) + spec_lib_volumes(
                                        libsv.skip(k as int + 1),
                                        repos@,
                                        src_dir@,
                                    ) =~= pre + spec_lib_volumes(
                                        libsv.skip(k as int),
                                        repos@,
                                        src_dir@,
                                    ));
                                }
                            }
                        },
                        None => (),
                    }
                    k = k + 1;
                }
                proof {
                    assert(libsv.skip(k as int).len() == 0);
                    assert(spec_lib_volumes(libsv.skip(k as int), repos@, src_dir@) =~= Seq::<
                        VolumeV,
                    >::empty());
                    assert(added@.map_values(|x: Volume| x@) =~= build_vols + spec_lib_volumes(
                        libsv,
                        repos@,
                        src_dir@,
                    ));
                }
            }
        },
        None => (),
    }
    let volumes_new: Option<Vec<Volume>> = if added.len() == 0 {
        match &svc.volumes {
            Some(v) => Some(crate::compose::duplicate_volumes(v)),
            None => None,
        }
    } else {
        match &svc.volumes {
            Some(v) => {
                let mut out = crate::compose::duplicate_volumes(v);
                let ghost outpre = out@.map_values(|x: Volume| x@);
                let mut t: usize = 0;
                while t < added.len()
                    invariant
                        0 <= t <= added@.len(),
                        out@.map_values(|x: Volume| x@) == outpre + added@.map_values(
                            |x: Volume| x@,
                        ).take(t as int),
                    decreases added.len() - t,
                {
                    let ghost cur = out@.map_values(|x: Volume| x@);
                    out.push(added[t].duplicate());
                    proof {
                        assert(out@.map_values(|x: Volume| x@) =~= cur.push(
                            added@[t as int]@,
                        ));
                        assert(added@.map_values(|x: Volume| x@).take(t as int + 1)
                            =~= added@.map_values(|x: Volume| x@).take(t as int).push(
                            added@[t as int]@,
                        ));
                        assert(out@.map_values(|x: Volume| x@) =~= outpre + added@.map_values(
                            |x: Volume| x@,
                        ).take(t as int + 1));
                    }
                    t = t + 1;
                }
                proof {
                    assert(added@.map_values(|x: Volume| x@).take(added@.len() as int)
                        =~= added@.map_values(|x: Volume| x@));
                }
                Some(out)
            },
            None => Some(added),
        }
    };
    let r = Service {
        image: match &svc.image {
            Some(i) => Some(i.duplicate()),
            None => None,
        },
        build: build_new,
        volumes: volumes_new,
        libs: match &svc.libs {
            Some(l) => Some(duplicate_libs(l)),
            None => None,
        },
        source_mount_dir: match &svc.source_mount_dir {
            Some(d) => Some(d.clone()),
            None => None,
        },
    };
    Ok(r)
}

/// The source transform on a whole document, or the failure it rejects
/// the document with.
pub fn sources_file(f: &ComposeFile, repos: &Repos, src_dir: &str, op: Operation) -> (r: Result<
    ComposeFile,
    Error,
>)
    ensures
        match spec_sources_file(f@, repos@, src_dir@, op) {
            Some(nf) => r matches Ok(out) && out@ == nf,
            None => r matches Err(e) && e is TransformFailure,
        },
{
    let ghost sv = f@.services;
    let mut out: Vec<ServiceEntry> = Vec::new();
    let mut i: usize = 0;
    while i < f.services.len()
        invariant
            0 <= i <= f.services@.len(),
            sv == f@.services,
            sv.len() == f.services@.len(),
            out@.len() == i,
            forall|j: int|
                0 <= j < i ==> !#[trigger] spec_service_blocked(sv[j].service, repos@, src_dir@, op),
            forall|j: int|
                0 <= j < i ==> #[trigger] out@[j]@ == (ServiceEntryV {
                    name: sv[j].name,
                    service: spec_sources_service(sv[j].service, repos@, src_dir@, op),
                }),
        decreases f.services.len() - i,
    {
        let entry = &f.services[i];
        proof {
            assert(sv[i as int] == f.services@[i as int]@);
        }
        match sources_service(&entry.service, repos, src_dir, op) {
            Ok(s) => {
                out.push(ServiceEntry { name: entry.name.clone(), service: s });
            },
            Err(e) => {
                assert(spec_service_blocked(sv[i as int].service, repos@, src_dir@, op));
                return Err(e);
            },
        }
        i = i + 1;
    }
    let r = ComposeFile { services: out };
    proof {
        assert forall|j: int| 0 <= j < sv.len() implies !spec_service_blocked(
            sv[j].service,
            repos@,
            src_dir@,
            op,
        ) by {}
        assert(!exists|j: int|
            0 <= j < sv.len() && spec_service_blocked(sv[j].service, repos@, src_dir@, op));
        assert(r@.services =~= spec_sources_file(f@, repos@, src_dir@, op)->Some_0.services);
    }
    Ok(r)
}

/// The tag transform on one service.
fn tags_service(svc: &Service, tags: &DefaultTags) -> (r: Service)
    ensures
        r@ == spec_tags_service(svc@, tags@),
{
    let image_new: Option<Image> = match &svc.image {
        Some(img) => match &img.tag {
            Some(t) => Some(img.duplicate()),
            None => match tags.tag_for(img.repo.as_str()) {
                Some(t) => Some(Image { repo: img.repo.clone(), tag: Some(t) }),
                None => Some(img.duplicate()),
            },
        },
        None => None,
    };
    Service {
        image: image_new,
        build: match &svc.build {
            Some(b) => Some(b.duplicate()),
            None => None,
        },
        volumes: match &svc.volumes {
            Some(v) => Some(crate::compose::duplicate_volumes(v)),
            None => None,
        },
        libs: match &svc.libs {
            Some(l) => Some(duplicate_libs(l)),
            None => None,
        },
        source_mount_dir: match &svc.source_mount_dir {
            Some(d) => Some(d.clone()),
            None => None,
        },
    }
}

/// The tag transform on a whole document.
pub fn tags_file(f: &ComposeFile, tags: Option<&DefaultTags>) -> (r: ComposeFile)
    ensures
        r@ == spec_tags_file(
            f@,
            match tags {
                Some(t) => Some(t@),
                None => None,
            },
        ),
{
    match tags {
        None => f.duplicate(),
        Some(dt) => {
            let ghost sv = f@.services;
            let mut out: Vec<ServiceEntry> = Vec::new();
            let mut i: usize = 0;
            while i < f.services.len()
                invariant
                    0 <= i <= f.services@.len(),
                    sv == f@.services,
                    sv.len() == f.services@.len(),
                    out@.len() == i,
                    forall|j: int|
                        0 <= j < i ==> out@[j]@ == (ServiceEntryV {
                            name: sv[j].name,
                            service: spec_tags_service(sv[j].service, dt@),
                        }),
                decreases f.services.len() - i,
            {
                let entry = &f.services[i];
                proof {
                    assert(sv[i as int] == f.services@[i as int]@);
                }
                out.push(
                    ServiceEntry {
                        name: entry.name.clone(),
                        service: tags_service(&entry.service, dt),
                    },
                );
                i = i + 1;
            }
            let r = ComposeFile { services: out };
            proof {
                assert(r@.services =~= spec_tags_file(f@, Some(dt@)).services);
            }
            r
        },
    }
}

/// The ordered list of transforms wired for a project.  The list is
/// fixed: plugins are a closed set, not loaded at run time.
#[derive(Debug, Clone, PartialEq)]
pub struct Manager {
    pub transforms: Vec<Transform>,
}

impl View for Manager {
    type V = Seq<Transform>;

    open spec fn view(&self) -> Seq<Transform> {
        self.transforms@
    }
}

impl Manager {
    /// Wire the fixed pipeline: the source transform, then the
    /// tag-defaulting transform.
    pub fn new() -> (r: Manager)
        ensures
            r@ == spec_pipeline(),
    {
        let mut transforms: Vec<Transform> = Vec::new();
        transforms.push(Transform::Sources);
        transforms.push(Transform::DefaultTags);
        proof {
            assert(transforms@ =~= spec_pipeline());
        }
        Manager { transforms }
    }

    /// Run every transform over the document in place, in order, so
    /// later transforms observe earlier mutations.  A failing transform
    /// aborts the run with its error; the document is then unusable.
    pub fn transform(
        &self,
        op: Operation,
        repos: &Repos,
        src_dir: &str,
        tags: Option<&DefaultTags>,
        file: &mut ComposeFile,
    ) -> (r: Result<(), Error>)
        ensures
            match spec_apply_all(
                self@,
                old(file)@,
                repos@,
                src_dir@,
                match tags {
                    Some(t) => Some(t@),
                    None => None,
                },
                op,
            ) {
                Some(nf) => r is Ok && final(file)@ == nf,
                None => r matches Err(e) && e is TransformFailure,
            },
    {
        let ghost tsv = self@;
        let ghost tagsv: Option<Seq<TagEntryV>> = match tags {
            Some(t) => Some(t@),
            None => None,
        };
        let ghost goal = spec_apply_all(tsv, old(file)@, repos@, src_dir@, tagsv, op);
        let mut i: usize = 0;
        proof {
            assert(tsv.skip(0) =~= tsv);
        }
        while i < self.transforms.len()
            invariant
                0 <= i <= self.transforms@.len(),
                tsv == self@,
                tsv.len() == self.transforms@.len(),
                tagsv == (match tags {
                    Some(t) => Some(t@),
                    None => None,
                }),
                goal == spec_apply_all(tsv, old(file)@, repos@, src_dir@, tagsv, op),
                goal == spec_apply_all(tsv.skip(i as int), file@, repos@, src_dir@, tagsv, op),
            decreases self.transforms.len() - i,
        {
            proof {
                assert(tsv.skip(i as int)[0] == tsv[i as int]);
                assert(tsv.skip(i as int).drop_first() =~= tsv.skip(i as int + 1));
            }
            match self.transforms[i] {
                Transform::Sources => {
                    match sources_file(file, repos, src_dir, op) {
                        Ok(nf) => {
                            *file = nf;
                        },
                        Err(e) => {
                            proof {
                                assert(spec_apply(
                                    tsv[i as int],
                                    file@,
                                    repos@,
                                    src_dir@,
                                    tagsv,
                                    op,
                                ) is None);
                                assert(goal is None);
                            }
                            return Err(e);
                        },
                    }
                },
                Transform::DefaultTags => {
                    let nf = tags_file(file, tags);
                    *file = nf;
                },
            }
            i = i + 1;
        }
        proof {
            assert(tsv.skip(i as int).len() == 0);
        }
        Ok(())
    }
}

} // verus!
