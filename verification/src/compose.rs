//! The compose document model the crate works on: services with images,
//! build contexts, volumes and library dependencies, grouped into files.
//!
//! A document here holds exactly what the materialization pipeline reads
//! and rewrites; reading it from YAML and writing it back out belong to
//! the surrounding binary.  Each type has a mathematical view, and the
//! layered-merge and standalone rewrites are specified over those views:
//! maps merge by key, scalars replace, lists replace wholesale.

use vstd::prelude::*;
use vstd::string::StrSliceExecFns;
use vstd::string::StringExecFns;

use crate::util::{spec_join, join};

verus! {

/// Where a service's code comes from: a remote git URL (possibly with a
/// `#fragment` naming a branch) or a local directory path.
#[derive(Debug, Clone, PartialEq)]
pub enum SourceRef {
    Git { url: String },
    Dir { path: String },
}

/// The view of a `SourceRef`.
pub enum SourceRefV {
    Git { url: Seq<char> },
    Dir { path: Seq<char> },
}

impl View for SourceRef {
    type V = SourceRefV;

    open spec fn view(&self) -> SourceRefV {
        match self {
            SourceRef::Git { url } => SourceRefV::Git { url: url@ },
            SourceRef::Dir { path } => SourceRefV::Dir { path: path@ },
        }
    }
}

impl SourceRef {
    /// Copy this reference; the copy has the same view.
    pub fn duplicate(&self) -> (r: SourceRef)
        ensures
            r@ == self@,
    {
        match self {
            SourceRef::Git { url } => SourceRef::Git { url: url.clone() },
            SourceRef::Dir { path } => SourceRef::Dir { path: path.clone() },
        }
    }

    /// The reference as the string it was written as.
    pub fn as_text(&self) -> (r: &str)
        ensures
            match self@ {
                SourceRefV::Git { url } => r@ == url,
                SourceRefV::Dir { path } => r@ == path,
            },
    {
        match self {
            SourceRef::Git { url } => url.as_str(),
            SourceRef::Dir { path } => path.as_str(),
        }
    }

    /// Whether two references are written identically.
    pub fn same_as(&self, other: &SourceRef) -> (r: bool)
        ensures
            r == src_eq(self@, other@),
    {
        match (self, other) {
            (SourceRef::Git { url: a }, SourceRef::Git { url: b }) => crate::util::str_eq(
                a.as_str(),
                b.as_str(),
            ),
            (SourceRef::Dir { path: a }, SourceRef::Dir { path: b }) => crate::util::str_eq(
                a.as_str(),
                b.as_str(),
            ),
            _ => false,
        }
    }

    /// Classify a written source: anything that looks like a git remote —
    /// a URL scheme or an scp-style `git@` form — is remote, the rest is
    /// a local directory path.
    pub fn parse(text: &str) -> (r: SourceRef)
        ensures
            r@ == spec_parse_source(text@),
    {
        if crate::util::has_prefix(text, "http://") || crate::util::has_prefix(text, "https://")
            || crate::util::has_prefix(text, "git://") || crate::util::has_prefix(text, "ssh://")
            || crate::util::has_prefix(text, "git@") {
            SourceRef::Git { url: text.to_owned() }
        } else {
            SourceRef::Dir { path: text.to_owned() }
        }
    }
}

/// Whether two source-reference views are written identically.
pub open spec fn src_eq(a: SourceRefV, b: SourceRefV) -> bool {
    match (a, b) {
        (SourceRefV::Git { url: x }, SourceRefV::Git { url: y }) => x == y,
        (SourceRefV::Dir { path: x }, SourceRefV::Dir { path: y }) => x == y,
        _ => false,
    }
}

/// How a written source is classified into remote and local.
pub open spec fn spec_parse_source(text: Seq<char>) -> SourceRefV {
    if crate::util::spec_has_prefix(text, "http://"@) || crate::util::spec_has_prefix(
        text,
        "https://"@,
    ) || crate::util::spec_has_prefix(text, "git://"@) || crate::util::spec_has_prefix(
        text,
        "ssh://"@,
    ) || crate::util::spec_has_prefix(text, "git@"@) {
        SourceRefV::Git { url: text }
    } else {
        SourceRefV::Dir { path: text }
    }
}

/// A container image: a repository name and an optional tag.
#[derive(Debug, Clone, PartialEq)]
pub struct Image {
    pub repo: String,
    pub tag: Option<String>,
}

/// The view of an `Image`.
pub struct ImageV {
    pub repo: Seq<char>,
    pub tag: Option<Seq<char>>,
}

impl View for Image {
    type V = ImageV;

    open spec fn view(&self) -> ImageV {
        ImageV {
            repo: self.repo@,
            tag: match &self.tag {
                Some(t) => Some(t@),
                None => None,
            },
        }
    }
}

/// The index of the `:` separating a written image from its tag: the
/// last colon, unless a `/` stands after it (a registry port is not a
/// tag separator).
pub open spec fn spec_tag_colon(s: Seq<char>, i: int) -> Option<int>
    decreases i + 1,
{
    if i < 0 {
        None
    } else if s[i] == ':' {
        Some(i)
    } else if s[i] == '/' {
        None
    } else {
        spec_tag_colon(s, i - 1)
    }
}

/// How a written image splits into repository and tag.
pub open spec fn spec_parse_image(s: Seq<char>) -> ImageV {
    match spec_tag_colon(s, s.len() - 1) {
        Some(i) => ImageV { repo: s.take(i), tag: Some(s.skip(i + 1)) },
        None => ImageV { repo: s, tag: None },
    }
}

proof fn lemma_tag_colon_bounds(s: Seq<char>, i: int)
    ensures
        spec_tag_colon(s, i) matches Some(c) ==> 0 <= c <= i,
    decreases i + 1,
{
    if i >= 0 && s[i] != ':' && s[i] != '/' {
        lemma_tag_colon_bounds(s, i - 1);
    }
}

impl Image {
    /// Copy this image; the copy has the same view.
    pub fn duplicate(&self) -> (r: Image)
        ensures
            r@ == self@,
    {
        Image {
            repo: self.repo.clone(),
            tag: match &self.tag {
                Some(t) => Some(t.clone()),
                None => None,
            },
        }
    }

    /// Split a written image into repository and optional tag at the
    /// last colon after the last slash.
    pub fn parse(text: &str) -> (r: Image)
        ensures
            r@ == spec_parse_image(text@),
    {
        let len = text.unicode_len();
        let mut i: usize = len;
        while i > 0
            invariant
                0 <= i <= len,
                len == text@.len(),
                spec_tag_colon(text@, len - 1) == spec_tag_colon(text@, i - 1),
            decreases i,
        {
            let c = text.get_char(i - 1);
            if c == ':' {
                proof {
                    lemma_tag_colon_bounds(text@, len - 1);
                }
                return Image {
                    repo: text.substring_char(0, i - 1).to_owned(),
                    tag: Some(text.substring_char(i, len).to_owned()),
                };
            }
            if c == '/' {
                proof {
                    assert(spec_tag_colon(text@, i - 1) is None);
                    assert(text@.take(len as int) =~= text@);
                }
                return Image { repo: text.substring_char(0, len).to_owned(), tag: None };
            }
            i = i - 1;
        }
        proof {
            assert(spec_tag_colon(text@, len - 1) is None);
            assert(text@.take(len as int) =~= text@);
        }
        Image { repo: text.substring_char(0, len).to_owned(), tag: None }
    }

    /// The image written back as `repo` or `repo:tag`.
    pub fn as_text(&self) -> (r: String)
        ensures
            match self@.tag {
                Some(t) => r@ == self@.repo + seq![':'] + t,
                None => r@ == self@.repo,
            },
    {
        match &self.tag {
            Some(t) => {
                let r = self.repo.clone().concat(":").concat(t.as_str());
                proof {
                    reveal_strlit(":");
                    assert(r@ =~= self@.repo + seq![':'] + t@);
                }
                r
            },
            None => self.repo.clone(),
        }
    }
}

/// A volume entry: an optional host path mounted at a container path.
#[derive(Debug, Clone, PartialEq)]
pub struct Volume {
    pub host: Option<String>,
    pub container: String,
}

/// The view of a `Volume`.
pub struct VolumeV {
    pub host: Option<Seq<char>>,
    pub container: Seq<char>,
}

impl View for Volume {
    type V = VolumeV;

    open spec fn view(&self) -> VolumeV {
        VolumeV {
            host: match &self.host {
                Some(h) => Some(h@),
                None => None,
            },
            container: self.container@,
        }
    }
}

impl Volume {
    /// Copy this volume; the copy has the same view.
    pub fn duplicate(&self) -> (r: Volume)
        ensures
            r@ == self@,
    {
        Volume {
            host: match &self.host {
                Some(h) => Some(h.clone()),
                None => None,
            },
            container: self.container.clone(),
        }
    }
}

/// A library dependency a service declares: a lookup key, the library's
/// source, and where the library is mounted inside the container.
#[derive(Debug, Clone, PartialEq)]
pub struct LibDep {
    pub key: String,
    pub source: SourceRef,
    pub mount_at: String,
}

/// The view of a `LibDep`.
pub struct LibDepV {
    pub key: Seq<char>,
    pub source: SourceRefV,
    pub mount_at: Seq<char>,
}

impl View for LibDep {
    type V = LibDepV;

    open spec fn view(&self) -> LibDepV {
        LibDepV { key: self.key@, source: self.source@, mount_at: self.mount_at@ }
    }
}

impl LibDep {
    /// Copy this dependency; the copy has the same view.
    pub fn duplicate(&self) -> (r: LibDep)
        ensures
            r@ == self@,
    {
        LibDep {
            key: self.key.clone(),
            source: self.source.duplicate(),
            mount_at: self.mount_at.clone(),
        }
    }
}

/// One service of a pod.  Every field is optional so that the same shape
/// serves both base definitions and override layers; `None` means the
/// layer leaves the field alone.
#[derive(Debug, Clone, PartialEq)]
pub struct Service {
    pub image: Option<Image>,
    pub build: Option<SourceRef>,
    pub volumes: Option<Vec<Volume>>,
    pub libs: Option<Vec<LibDep>>,
    pub source_mount_dir: Option<String>,
}

/// The view of a `Service`.
pub struct ServiceV {
    pub image: Option<ImageV>,
    pub build: Option<SourceRefV>,
    pub volumes: Option<Seq<VolumeV>>,
    pub libs: Option<Seq<LibDepV>>,
    pub source_mount_dir: Option<Seq<char>>,
}

impl View for Service {
    type V = ServiceV;

    open spec fn view(&self) -> ServiceV {
        ServiceV {
            image: match &self.image {
                Some(i) => Some(i@),
                None => None,
            },
            build: match &self.build {
                Some(b) => Some(b@),
                None => None,
            },
            volumes: match &self.volumes {
                Some(v) => Some(v@.map_values(|x: Volume| x@)),
                None => None,
            },
            libs: match &self.libs {
                Some(l) => Some(l@.map_values(|x: LibDep| x@)),
                None => None,
            },
            source_mount_dir: match &self.source_mount_dir {
                Some(d) => Some(d@),
                None => None,
            },
        }
    }
}

/// Copy a volume list; the copy has the same view.
pub fn duplicate_volumes(v: &Vec<Volume>) -> (r: Vec<Volume>)
    ensures
        r@.map_values(|x: Volume| x@) == v@.map_values(|x: Volume| x@),
{
    let mut out: Vec<Volume> = Vec::new();
    let mut i: usize = 0;
    while i < v.len()
        invariant
            0 <= i <= v.len(),
            out@.len() == i,
            forall|j: int| 0 <= j < i ==> out@[j]@ == v@[j]@,
        decreases v.len() - i,
    {
        out.push(v[i].duplicate());
        i = i + 1;
    }
    proof {
        assert(out@.map_values(|x: Volume| x@) =~= v@.map_values(|x: Volume| x@));
    }
    out
}

/// Copy a dependency list; the copy has the same view.
pub fn duplicate_libs(v: &Vec<LibDep>) -> (r: Vec<LibDep>)
    ensures
        r@.map_values(|x: LibDep| x@) == v@.map_values(|x: LibDep| x@),
{
    let mut out: Vec<LibDep> = Vec::new();
    let mut i: usize = 0;
    while i < v.len()
        invariant
            0 <= i <= v.len(),
            out@.len() == i,
            forall|j: int| 0 <= j < i ==> out@[j]@ == v@[j]@,
        decreases v.len() - i,
    {
        out.push(v[i].duplicate());
        i = i + 1;
    }
    proof {
        assert(out@.map_values(|x: LibDep| x@) =~= v@.map_values(|x: LibDep| x@));
    }
    out
}

impl Service {
    /// Copy this service; the copy has the same view.
    pub fn duplicate(&self) -> (r: Service)
        ensures
            r@ == self@,
    {
        let r = Service {
            image: match &self.image {
                Some(i) => Some(i.duplicate()),
                None => None,
            },
            build: match &self.build {
                Some(b) => Some(b.duplicate()),
                None => None,
            },
            volumes: match &self.volumes {
                Some(v) => Some(duplicate_volumes(v)),
                None => None,
            },
            libs: match &self.libs {
                Some(l) => Some(duplicate_libs(l)),
                None => None,
            },
            source_mount_dir: match &self.source_mount_dir {
                Some(d) => Some(d.clone()),
                None => None,
            },
        };
        r
    }
}

/// A named service inside a compose file.
#[derive(Debug, Clone, PartialEq)]
pub struct ServiceEntry {
    pub name: String,
    pub service: Service,
}

/// The view of a `ServiceEntry`.
pub struct ServiceEntryV {
    pub name: Seq<char>,
    pub service: ServiceV,
}

impl View for ServiceEntry {
    type V = ServiceEntryV;

    open spec fn view(&self) -> ServiceEntryV {
        ServiceEntryV { name: self.name@, service: self.service@ }
    }
}

impl ServiceEntry {
    /// Copy this entry; the copy has the same view.
    pub fn duplicate(&self) -> (r: ServiceEntry)
        ensures
            r@ == self@,
    {
        ServiceEntry { name: self.name.clone(), service: self.service.duplicate() }
    }
}

/// One compose document: an ordered list of named services.
#[derive(Debug, Clone, PartialEq)]
pub struct ComposeFile {
    pub services: Vec<ServiceEntry>,
}

/// The view of a `ComposeFile`.
pub struct ComposeFileV {
    pub services: Seq<ServiceEntryV>,
}

impl View for ComposeFile {
    type V = ComposeFileV;

    open spec fn view(&self) -> ComposeFileV {
        ComposeFileV { services: self.services@.map_values(|e: ServiceEntry| e@) }
    }
}

/// The first service of the given name, if any.
pub open spec fn spec_lookup(s: Seq<ServiceEntryV>, name: Seq<char>) -> Option<ServiceV>
    decreases s.len(),
{
    if s.len() == 0 {
        None
    } else if s[0].name == name {
        Some(s[0].service)
    } else {
        spec_lookup(s.drop_first(), name)
    }
}

/// Whether a service of the given name is present.
pub open spec fn spec_has_service(s: Seq<ServiceEntryV>, name: Seq<char>) -> bool {
    spec_lookup(s, name) is Some
}

impl ComposeFile {
    /// Copy this document; the copy has the same view.
    pub fn duplicate(&self) -> (r: ComposeFile)
        ensures
            r@ == self@,
    {
        let mut out: Vec<ServiceEntry> = Vec::new();
        let mut i: usize = 0;
        while i < self.services.len()
            invariant
                0 <= i <= self.services.len(),
                out@.len() == i,
                forall|j: int| 0 <= j < i ==> out@[j]@ == self.services@[j]@,
            decreases self.services.len() - i,
        {
            out.push(self.services[i].duplicate());
            i = i + 1;
        }
        let r = ComposeFile { services: out };
        proof {
            assert(r@.services =~= self@.services);
        }
        r
    }

    /// The index of the first service of the given name, if any.
    pub fn find_service(&self, name: &str) -> (r: Option<usize>)
        ensures
            match r {
                Some(i) => i < self.services@.len() && self.services@[i as int]@.name == name@
                    && spec_lookup(self@.services, name@) == Some(self.services@[i as int]@.service),
                None => spec_lookup(self@.services, name@) is None,
            },
    {
        let mut i: usize = 0;
        proof {
            assert(self@.services.skip(0) =~= self@.services);
        }
        while i < self.services.len()
            invariant
                0 <= i <= self.services@.len(),
                self@.services.len() == self.services@.len(),
                spec_lookup(self@.services, name@) == spec_lookup(
                    self@.services.skip(i as int),
                    name@,
                ),
            decreases self.services.len() - i,
        {
            proof {
                assert(self@.services.skip(i as int)[0] == self@.services[i as int]);
                assert(self@.services.skip(i as int).drop_first() =~= self@.services.skip(
                    i as int + 1,
                ));
            }
            if crate::util::str_eq(self.services[i].name.as_str(), name) {
                return Some(i);
            }
            i = i + 1;
        }
        proof {
            assert(self@.services.skip(i as int).len() == 0);
        }
        None
    }
}

/// Field-by-field merge of one service layer over another: a field the
/// override layer sets replaces the base field outright (lists included),
/// a field it leaves out is inherited from the base.
pub open spec fn spec_merge_service(base: ServiceV, over: ServiceV) -> ServiceV {
    ServiceV {
        image: if over.image is Some {
            over.image
        } else {
            base.image
        },
        build: if over.build is Some {
            over.build
        } else {
            base.build
        },
        volumes: if over.volumes is Some {
            over.volumes
        } else {
            base.volumes
        },
        libs: if over.libs is Some {
            over.libs
        } else {
            base.libs
        },
        source_mount_dir: if over.source_mount_dir is Some {
            over.source_mount_dir
        } else {
            base.source_mount_dir
        },
    }
}

/// The services of the override layer that name no base service, in
/// layer order.
pub open spec fn spec_extra_services(
    over: Seq<ServiceEntryV>,
    base: Seq<ServiceEntryV>,
) -> Seq<ServiceEntryV>
    decreases over.len(),
{
    if over.len() == 0 {
        Seq::empty()
    } else {
        let rest = spec_extra_services(over.drop_first(), base);
        if spec_has_service(base, over[0].name) {
            rest
        } else {
            seq![over[0]] + rest
        }
    }
}

proof fn lemma_extra_services_split(
    a: Seq<ServiceEntryV>,
    b: Seq<ServiceEntryV>,
    base: Seq<ServiceEntryV>,
)
    ensures
        spec_extra_services(a + b, base) == spec_extra_services(a, base) + spec_extra_services(
            b,
            base,
        ),
    decreases a.len(),
{
    if a.len() == 0 {
        assert(a + b =~= b);
        assert(spec_extra_services(a, base) + spec_extra_services(b, base) =~= spec_extra_services(
            b,
            base,
        ));
    } else {
        assert((a + b).drop_first() =~= a.drop_first() + b);
        assert((a + b)[0] == a[0]);
        lemma_extra_services_split(a.drop_first(), b, base);
        if !spec_has_service(base, a[0].name) {
            assert(seq![a[0]] + (spec_extra_services(a.drop_first(), base) + spec_extra_services(
                b,
                base,
            )) =~= (seq![a[0]] + spec_extra_services(a.drop_first(), base)) + spec_extra_services(
                b,
                base,
            ));
        }
    }
}

/// One base service merged with its override layer, when the layer
/// names it.
pub open spec fn spec_merge_entry(e: ServiceEntryV, over: Seq<ServiceEntryV>) -> ServiceEntryV {
    match spec_lookup(over, e.name) {
        Some(o) => ServiceEntryV { name: e.name, service: spec_merge_service(e.service, o) },
        None => e,
    }
}

/// The layered merge of two documents: base services merged field-wise
/// with their override layer (matched by name), followed by the
/// override-only services.
pub open spec fn spec_merge_files(base: ComposeFileV, over: ComposeFileV) -> ComposeFileV {
    ComposeFileV {
        services: base.services.map_values(
            |e: ServiceEntryV| spec_merge_entry(e, over.services),
        ) + spec_extra_services(over.services, base.services),
    }
}

/// Merge one service layer over another field by field.
pub fn merge_service(base: &Service, over: &Service) -> (r: Service)
    ensures
        r@ == spec_merge_service(base@, over@),
{
    Service {
        image: match &over.image {
            Some(i) => Some(i.duplicate()),
            None => match &base.image {
                Some(i) => Some(i.duplicate()),
                None => None,
            },
        },
        build: match &over.build {
            Some(b) => Some(b.duplicate()),
            None => match &base.build {
                Some(b) => Some(b.duplicate()),
                None => None,
            },
        },
        volumes: match &over.volumes {
            Some(v) => Some(duplicate_volumes(v)),
            None => match &base.volumes {
                Some(v) => Some(duplicate_volumes(v)),
                None => None,
            },
        },
        libs: match &over.libs {
            Some(l) => Some(duplicate_libs(l)),
            None => match &base.libs {
                Some(l) => Some(duplicate_libs(l)),
                None => None,
            },
        },
        source_mount_dir: match &over.source_mount_dir {
            Some(d) => Some(d.clone()),
            None => match &base.source_mount_dir {
                Some(d) => Some(d.clone()),
                None => None,
            },
        },
    }
}

impl ComposeFile {
    /// Merge an override layer over this document: base services keep
    /// their order and take the layer's fields where set, and services
    /// only the layer names are appended in layer order.
    pub fn merge_with(&self, over: &ComposeFile) -> (r: ComposeFile)
        ensures
            r@ == spec_merge_files(self@, over@),
    {
        let ghost bv = self@.services;
        let ghost ov = over@.services;
        let mut out: Vec<ServiceEntry> = Vec::new();
        let mut i: usize = 0;
        while i < self.services.len()
            invariant
                0 <= i <= self.services@.len(),
                bv == self@.services,
                ov == over@.services,
                bv.len() == self.services@.len(),
                out@.len() == i,
                forall|j: int| 0 <= j < i ==> out@[j]@ == spec_merge_entry(bv[j], ov),
            decreases self.services.len() - i,
        {
            let entry = &self.services[i];
            proof {
                assert(bv[i as int] == self.services@[i as int]@);
            }
            match over.find_service(entry.name.as_str()) {
                Some(j) => {
                    let merged = merge_service(&entry.service, &over.services[j].service);
                    proof {
                        assert(ov[j as int] == over.services@[j as int]@);
                        assert(spec_lookup(ov, bv[i as int].name) == Some(ov[j as int].service));
                    }
                    out.push(ServiceEntry { name: entry.name.clone(), service: merged });
                    proof {
                        assert(out@[i as int]@ == spec_merge_entry(bv[i as int], ov));
                    }
                },
                None => {
                    out.push(entry.duplicate());
                    proof {
                        assert(spec_lookup(ov, bv[i as int].name) is None);
                        assert(out@[i as int]@ == spec_merge_entry(bv[i as int], ov));
                    }
                },
            }
            i = i + 1;
        }
        let ghost mapped = bv.map_values(|e: ServiceEntryV| spec_merge_entry(e, ov));
        proof {
            assert(out@.map_values(|e: ServiceEntry| e@) =~= mapped);
        }
        let mut k: usize = 0;
        proof {
            assert(ov.take(0) =~= Seq::<ServiceEntryV>::empty());
            assert(out@.map_values(|e: ServiceEntry| e@) =~= mapped + spec_extra_services(
                ov.take(0),
                bv,
            ));
        }
        while k < over.services.len()
            invariant
                0 <= k <= over.services@.len(),
                bv == self@.services,
                ov == over@.services,
                ov.len() == over.services@.len(),
                mapped == bv.map_values(|e: ServiceEntryV| spec_merge_entry(e, ov)),
                out@.map_values(|e: ServiceEntry| e@) == mapped + spec_extra_services(
                    ov.take(k as int),
                    bv,
                ),
            decreases over.services.len() - k,
        {
            let entry = &over.services[k];
            proof {
                assert(ov[k as int] == over.services@[k as int]@);
                let x = ov[k as int];
                assert(seq![x][0] == x);
                assert(seq![x].drop_first() =~= Seq::<ServiceEntryV>::empty());
                assert(spec_extra_services(Seq::<ServiceEntryV>::empty(), bv)
                    =~= Seq::<ServiceEntryV>::empty());
                if spec_has_service(bv, x.name) {
                    assert(spec_extra_services(seq![x], bv) =~= Seq::<ServiceEntryV>::empty());
                } else {
                    assert(spec_extra_services(seq![x], bv) =~= seq![x] + Seq::<
                        ServiceEntryV,
                    >::empty());
                    assert(spec_extra_services(seq![x], bv) =~= seq![x]);
                }
                assert(ov.take(k + 1) =~= ov.take(k as int) + seq![x]);
                lemma_extra_services_split(ov.take(k as int), seq![x], bv);
            }
            match self.find_service(entry.name.as_str()) {
                Some(_) => {
                    proof {
                        assert(spec_has_service(bv, ov[k as int].name));
                        assert(spec_extra_services(seq![ov[k as int]], bv)
                            =~= Seq::<ServiceEntryV>::empty());
                        assert(spec_extra_services(ov.take(k + 1), bv) == spec_extra_services(
                            ov.take(k as int),
                            bv,
                        ) + spec_extra_services(seq![ov[k as int]], bv));
                        assert(out@.map_values(|e: ServiceEntry| e@) =~= mapped
                            + spec_extra_services(ov.take(k + 1), bv));
                    }
                },
                None => {
                    let ghost outpre = out@;
                    out.push(entry.duplicate());
                    proof {
                        assert(!spec_has_service(bv, ov[k as int].name));
                        assert(spec_extra_services(ov.take(k + 1), bv) == spec_extra_services(
                            ov.take(k as int),
                            bv,
                        ) + seq![ov[k as int]]);
                        assert(out@.map_values(|e: ServiceEntry| e@) =~= outpre.map_values(
                            |e: ServiceEntry| e@,
                        ).push(ov[k as int]));
                        assert(out@.map_values(|e: ServiceEntry| e@) =~= mapped
                            + spec_extra_services(ov.take(k + 1), bv));
                    }
                },
            }
            k = k + 1;
        }
        proof {
            assert(ov.take(ov.len() as int) =~= ov);
        }
        let r = ComposeFile { services: out };
        proof {
            assert(r@.services =~= spec_merge_files(self@, over@).services);
        }
        r
    }
}

/// A build source made independent of the pods directory: a relative
/// local path is joined under it, everything else is left alone.
pub open spec fn spec_standalone_source(src: SourceRefV, base: Seq<char>) -> SourceRefV {
    match src {
        SourceRefV::Git { url } => SourceRefV::Git { url },
        SourceRefV::Dir { path } => SourceRefV::Dir { path: spec_join(base, path) },
    }
}

/// A volume made independent of the pods directory.
pub open spec fn spec_standalone_volume(v: VolumeV, base: Seq<char>) -> VolumeV {
    VolumeV {
        host: match v.host {
            Some(h) => Some(spec_join(base, h)),
            None => None,
        },
        container: v.container,
    }
}

/// A service with every directory-relative filesystem reference rewritten
/// to stand on its own.
pub open spec fn spec_standalone_service(s: ServiceV, base: Seq<char>) -> ServiceV {
    ServiceV {
        image: s.image,
        build: match s.build {
            Some(b) => Some(spec_standalone_source(b, base)),
            None => None,
        },
        volumes: match s.volumes {
            Some(v) => Some(v.map_values(|x: VolumeV| spec_standalone_volume(x, base))),
            None => None,
        },
        libs: s.libs,
        source_mount_dir: s.source_mount_dir,
    }
}

/// A document with every service made standalone.
pub open spec fn spec_standalone_file(f: ComposeFileV, base: Seq<char>) -> ComposeFileV {
    ComposeFileV {
        services: f.services.map_values(
            |e: ServiceEntryV|
                ServiceEntryV { name: e.name, service: spec_standalone_service(e.service, base) },
        ),
    }
}

fn standalone_volumes(v: &Vec<Volume>, base: &str) -> (r: Vec<Volume>)
    ensures
        r@.map_values(|x: Volume| x@) == v@.map_values(|x: Volume| x@).map_values(
            |x: VolumeV| spec_standalone_volume(x, base@),
        ),
{
    let mut out: Vec<Volume> = Vec::new();
    let mut i: usize = 0;
    while i < v.len()
        invariant
            0 <= i <= v.len(),
            out@.len() == i,
            forall|j: int| 0 <= j < i ==> out@[j]@ == spec_standalone_volume(v@[j]@, base@),
        decreases v.len() - i,
    {
        let vol = &v[i];
        let nv = Volume {
            host: match &vol.host {
                Some(h) => Some(join(base, h.as_str())),
                None => None,
            },
            container: vol.container.clone(),
        };
        out.push(nv);
        i = i + 1;
    }
    proof {
        assert(out@.map_values(|x: Volume| x@) =~= v@.map_values(|x: Volume| x@).map_values(
            |x: VolumeV| spec_standalone_volume(x, base@),
        ));
    }
    out
}

fn standalone_service(s: &Service, base: &str) -> (r: Service)
    ensures
        r@ == spec_standalone_service(s@, base@),
{
    Service {
        image: match &s.image {
            Some(i) => Some(i.duplicate()),
            None => None,
        },
        build: match &s.build {
            Some(b) => match b {
                SourceRef::Git { url } => Some(SourceRef::Git { url: url.clone() }),
                SourceRef::Dir { path } => Some(
                    SourceRef::Dir { path: join(base, path.as_str()) },
                ),
            },
            None => None,
        },
        volumes: match &s.volumes {
            Some(v) => Some(standalone_volumes(v, base)),
            None => None,
        },
        libs: match &s.libs {
            Some(l) => Some(duplicate_libs(l)),
            None => None,
        },
        source_mount_dir: match &s.source_mount_dir {
            Some(d) => Some(d.clone()),
            None => None,
        },
    }
}

impl ComposeFile {
    /// Rewrite every directory-relative filesystem reference so the
    /// document no longer depends on where the pods directory stood.
    pub fn make_standalone(&mut self, pods_dir: &str)
        ensures
            final(self)@ == spec_standalone_file(old(self)@, pods_dir@),
    {
        let mut out: Vec<ServiceEntry> = Vec::new();
        let mut i: usize = 0;
        while i < self.services.len()
            invariant
                0 <= i <= self.services@.len(),
                out@.len() == i,
                forall|j: int|
                    0 <= j < i ==> out@[j]@ == (ServiceEntryV {
                        name: self.services@[j]@.name,
                        service: spec_standalone_service(self.services@[j]@.service, pods_dir@),
                    }),
            decreases self.services.len() - i,
        {
            let entry = &self.services[i];
            out.push(
                ServiceEntry {
                    name: entry.name.clone(),
                    service: standalone_service(&entry.service, pods_dir),
                },
            );
            i = i + 1;
        }
        self.services = out;
        proof {
            assert(self@.services =~= spec_standalone_file(old(self)@, pods_dir@).services);
        }
    }
}

} // verus!
