//! Target resolution: turning a command's operand list into concrete
//! pods and services.  Resolution is late-bound — it runs against the
//! project's live pod list on every call, in operand order, and a name
//! that matches nothing yields an error in its place without aborting
//! the rest.

use vstd::prelude::*;

use crate::compose::spec_has_service;
use crate::errors::Error;
use crate::pod::{Pod, PodV};
use crate::project::Project;

verus! {

/// What a command acts on: every pod and service of the project, or an
/// ordered, possibly repeating list of names.
#[derive(Debug, Clone, PartialEq)]
pub enum ActOn {
    /// Act upon all the pods and services of the project.
    All,
    /// Act upon only the named pods and services.
    Named(Vec<String>),
}

/// The view of an `ActOn`.
pub enum ActOnV {
    All,
    Named(Seq<Seq<char>>),
}

impl View for ActOn {
    type V = ActOnV;

    open spec fn view(&self) -> ActOnV {
        match self {
            ActOn::All => ActOnV::All,
            ActOn::Named(names) => ActOnV::Named(names.deep_view()),
        }
    }
}

/// One resolved target: a whole pod, or one service of a pod, each
/// naming the pod by its index in the project's pod list.
#[derive(Debug, Clone, PartialEq)]
pub enum PodOrService {
    Pod { index: usize },
    Service { index: usize, service: String },
}

/// The view of a `PodOrService`.
pub enum PodOrServiceV {
    Pod { index: int },
    Service { index: int, service: Seq<char> },
}

impl View for PodOrService {
    type V = PodOrServiceV;

    open spec fn view(&self) -> PodOrServiceV {
        match self {
            PodOrService::Pod { index } => PodOrServiceV::Pod { index: *index as int },
            PodOrService::Service { index, service } => PodOrServiceV::Service {
                index: *index as int,
                service: service@,
            },
        }
    }
}

/// The index of the first pod with the given name, if any.
pub open spec fn spec_find_pod(pods: Seq<PodV>, name: Seq<char>) -> Option<int>
    decreases pods.len(),
{
    if pods.len() == 0 {
        None
    } else if pods[0].name == name {
        Some(0)
    } else {
        match spec_find_pod(pods.drop_first(), name) {
            Some(i) => Some(i + 1),
            None => None,
        }
    }
}

/// The index of the first pod whose base document has a service of the
/// given name, if any.
pub open spec fn spec_find_service_pod(pods: Seq<PodV>, name: Seq<char>) -> Option<int>
    decreases pods.len(),
{
    if pods.len() == 0 {
        None
    } else if spec_has_service(pods[0].base.services, name) {
        Some(0)
    } else {
        match spec_find_service_pod(pods.drop_first(), name) {
            Some(i) => Some(i + 1),
            None => None,
        }
    }
}

/// How a single name resolves: the first pod of that name, else the
/// first pod with a service of that name, else nothing.
pub open spec fn spec_resolve(pods: Seq<PodV>, name: Seq<char>) -> Option<PodOrServiceV> {
    match spec_find_pod(pods, name) {
        Some(i) => Some(PodOrServiceV::Pod { index: i }),
        None => match spec_find_service_pod(pods, name) {
            Some(i) => Some(PodOrServiceV::Service { index: i, service: name }),
            None => None,
        },
    }
}

/// The index of the first pod with the given name, if any.
pub fn find_pod_index(pods: &Vec<Pod>, name: &str) -> (r: Option<usize>)
    ensures
        match r {
            Some(i) => spec_find_pod(pods@.map_values(|p: Pod| p@), name@) == Some(i as int)
                && i < pods@.len(),
            None => spec_find_pod(pods@.map_values(|p: Pod| p@), name@) is None,
        },
{
    let ghost pv = pods@.map_values(|p: Pod| p@);
    let mut i: usize = 0;
    proof {
        assert(pv.skip(0) =~= pv);
    }
    while i < pods.len()
        invariant
            0 <= i <= pods@.len(),
            pv == pods@.map_values(|p: Pod| p@),
            pv.len() == pods@.len(),
            match spec_find_pod(pv.skip(i as int), name@) {
                Some(k) => spec_find_pod(pv, name@) == Some(k + i),
                None => spec_find_pod(pv, name@) is None,
            },
        decreases pods.len() - i,
    {
        proof {
            assert(pv.skip(i as int)[0] == pv[i as int]);
            assert(pv.skip(i as int).drop_first() =~= pv.skip(i as int + 1));
            assert(pv[i as int] == pods@[i as int]@);
        }
        if crate::util::str_eq(pods[i].name.as_str(), name) {
            return Some(i);
        }
        i = i + 1;
    }
    proof {
        assert(pv.skip(i as int).len() == 0);
    }
    None
}

fn find_service_pod_index(pods: &Vec<Pod>, name: &str) -> (r: Option<usize>)
    ensures
        match r {
            Some(i) => spec_find_service_pod(pods@.map_values(|p: Pod| p@), name@) == Some(
                i as int,
            ) && i < pods@.len(),
            None => spec_find_service_pod(pods@.map_values(|p: Pod| p@), name@) is None,
        },
{
    let ghost pv = pods@.map_values(|p: Pod| p@);
    let mut i: usize = 0;
    proof {
        assert(pv.skip(0) =~= pv);
    }
    while i < pods.len()
        invariant
            0 <= i <= pods@.len(),
            pv == pods@.map_values(|p: Pod| p@),
            pv.len() == pods@.len(),
            match spec_find_service_pod(pv.skip(i as int), name@) {
                Some(k) => spec_find_service_pod(pv, name@) == Some(k + i),
                None => spec_find_service_pod(pv, name@) is None,
            },
        decreases pods.len() - i,
    {
        proof {
            assert(pv.skip(i as int)[0] == pv[i as int]);
            assert(pv.skip(i as int).drop_first() =~= pv.skip(i as int + 1));
            assert(pv[i as int] == pods@[i as int]@);
        }
        if pods[i].base.find_service(name).is_some() {
            return Some(i);
        }
        i = i + 1;
    }
    proof {
        assert(pv.skip(i as int).len() == 0);
    }
    None
}

impl Project {
    /// Resolve one name against this project: the pod of that name, or
    /// the pod holding a service of that name, or a name-carrying
    /// error.
    pub fn pod_or_service_or_err(&self, name: &str) -> (r: Result<PodOrService, Error>)
        ensures
            match spec_resolve(self@.pods, name@) {
                Some(v) => r matches Ok(x) && x@ == v,
                None => r matches Err(e) && (e matches Error::NameResolutionFailure { name: n }
                    && n@ == name@),
            },
    {
        match find_pod_index(self.pods(), name) {
            Some(i) => Ok(PodOrService::Pod { index: i }),
            None => match find_service_pod_index(self.pods(), name) {
                Some(i) => Ok(PodOrService::Service { index: i, service: name.to_owned() }),
                None => Err(Error::NameResolutionFailure { name: name.to_owned() }),
            },
        }
    }
}

impl ActOn {
    /// The operand list as a target: no names at all means everything.
    pub fn from_names(names: Vec<String>) -> (r: ActOn)
        ensures
            names@.len() == 0 ==> r is All,
            names@.len() > 0 ==> (r matches ActOn::Named(ns) && ns.deep_view()
                == names.deep_view()),
    {
        if names.len() == 0 {
            ActOn::All
        } else {
            ActOn::Named(names)
        }
    }

    /// Resolve this target against a project, afresh: `All` yields every
    /// pod in declaration order; a name list yields one resolution per
    /// name, in order and with repeats kept, an unknown name yielding
    /// its error in place without stopping the rest.
    pub fn pods_or_services(&self, project: &Project) -> (r: Vec<Result<PodOrService, Error>>)
        ensures
            self@ matches ActOnV::All ==> r@.len() == project@.pods.len() && forall|i: int|
                0 <= i < r@.len() ==> (#[trigger] r@[i] matches Ok(x) && x@ == (PodOrServiceV::Pod {
                    index: i,
                })),
            self@ matches ActOnV::Named(ns) ==> r@.len() == ns.len() && forall|i: int|
                0 <= i < r@.len() ==> match spec_resolve(project@.pods, #[trigger] ns[i]) {
                    Some(v) => r@[i] matches Ok(x) && x@ == v,
                    None => r@[i] matches Err(e) && (e
                        matches Error::NameResolutionFailure { name: n } && n@ == ns[i]),
                },
    {
        let mut out: Vec<Result<PodOrService, Error>> = Vec::new();
        match self {
            ActOn::All => {
                let n = project.pods().len();
                let ghost plen = project@.pods.len();
                let mut i: usize = 0;
                proof {
                    assert(plen == n);
                }
                while i < n
                    invariant
                        0 <= i <= n,
                        n == plen,
                        out@.len() == i,
                        forall|j: int|
                            0 <= j < i ==> (#[trigger] out@[j] matches Ok(x) && x@
                                == (PodOrServiceV::Pod { index: j })),
                    decreases n - i,
                {
                    out.push(Ok(PodOrService::Pod { index: i }));
                    i = i + 1;
                }
            },
            ActOn::Named(names) => {
                let mut i: usize = 0;
                while i < names.len()
                    invariant
                        0 <= i <= names@.len(),
                        out@.len() == i,
                        forall|j: int|
                            0 <= j < i ==> match spec_resolve(
                                project@.pods,
                                #[trigger] names.deep_view()[j],
                            ) {
                                Some(v) => out@[j] matches Ok(x) && x@ == v,
                                None => out@[j] matches Err(e) && (e
                                    matches Error::NameResolutionFailure { name: n } && n@
                                    == names.deep_view()[j]),
                            },
                    decreases names.len() - i,
                {
                    proof {
                        assert(names.deep_view()[i as int] == names@[i as int]@);
                    }
                    out.push(project.pod_or_service_or_err(names[i].as_str()));
                    i = i + 1;
                }
            },
        }
        out
    }
}

} // verus!
