//! Pods and overrides: a pod is a named group of services backed by a
//! base document plus per-override layers; an override is a named
//! deployment target.

use vstd::prelude::*;

use crate::compose::{ComposeFile, ComposeFileV, spec_merge_files};

verus! {

/// How a pod's output is placed: services run continuously, tasks are
/// one-shot and exported under a `tasks/` subdirectory.
#[derive(Debug, Clone, Copy, PartialEq, Eq, Structural)]
pub enum PodType {
    Service,
    Task,
}

/// A named deployment target (development, test, production, ...).
#[derive(Debug, Clone, PartialEq)]
pub struct Override {
    pub name: String,
}

impl View for Override {
    type V = Seq<char>;

    open spec fn view(&self) -> Seq<char> {
        self.name@
    }
}

impl Override {
    /// Make an override of the given name.
    pub fn new(name: String) -> (r: Override)
        ensures
            r@ == name@,
    {
        Override { name }
    }

    /// The name of this override.
    pub fn name(&self) -> (r: &str)
        ensures
            r@ == self@,
    {
        self.name.as_str()
    }
}

/// One override layer of a pod: the partial document that applies under
/// the named override.
#[derive(Debug, Clone, PartialEq)]
pub struct PodLayer {
    pub ovr_name: String,
    pub file: ComposeFile,
}

/// The view of a `PodLayer`.
pub struct PodLayerV {
    pub ovr_name: Seq<char>,
    pub file: ComposeFileV,
}

impl View for PodLayer {
    type V = PodLayerV;

    open spec fn view(&self) -> PodLayerV {
        PodLayerV { ovr_name: self.ovr_name@, file: self.file@ }
    }
}

/// A named group of services: a base document plus zero or more
/// override layers, and a placement type.
#[derive(Debug, Clone, PartialEq)]
pub struct Pod {
    pub name: String,
    pub pod_type: PodType,
    pub base: ComposeFile,
    pub layers: Vec<PodLayer>,
}

/// The view of a `Pod`.
pub struct PodV {
    pub name: Seq<char>,
    pub pod_type: PodType,
    pub base: ComposeFileV,
    pub layers: Seq<PodLayerV>,
}

impl View for Pod {
    type V = PodV;

    open spec fn view(&self) -> PodV {
        PodV {
            name: self.name@,
            pod_type: self.pod_type,
            base: self.base@,
            layers: self.layers@.map_values(|l: PodLayer| l@),
        }
    }
}

/// The layer a pod holds for the named override, if any.
pub open spec fn spec_layer_for(layers: Seq<PodLayerV>, ovr: Seq<char>) -> Option<ComposeFileV>
    decreases layers.len(),
{
    if layers.len() == 0 {
        None
    } else if layers[0].ovr_name == ovr {
        Some(layers[0].file)
    } else {
        spec_layer_for(layers.drop_first(), ovr)
    }
}

/// A pod's merged document under the named override: the base merged
/// with the override's layer when one exists, the base alone otherwise.
pub open spec fn spec_merged(pod: PodV, ovr: Seq<char>) -> ComposeFileV {
    match spec_layer_for(pod.layers, ovr) {
        Some(layer) => spec_merge_files(pod.base, layer),
        None => pod.base,
    }
}

impl Pod {
    /// Make a pod from its parts.
    pub fn new(name: String, pod_type: PodType, base: ComposeFile, layers: Vec<PodLayer>) -> (r:
        Pod)
        ensures
            r@.name == name@,
            r@.pod_type == pod_type,
            r@.base == base@,
            r@.layers == layers@.map_values(|l: PodLayer| l@),
    {
        Pod { name, pod_type, base, layers }
    }

    /// The name of this pod.
    pub fn name(&self) -> (r: &str)
        ensures
            r@ == self@.name,
    {
        self.name.as_str()
    }

    /// How this pod's output is placed.
    pub fn pod_type(&self) -> (r: PodType)
        ensures
            r == self@.pod_type,
    {
        self.pod_type
    }

    /// This pod's document under the given override: the base merged
    /// with the matching layer, recomputed on every call and never
    /// cached.
    pub fn merged_file(&self, ovr: &Override) -> (r: ComposeFile)
        ensures
            r@ == spec_merged(self@, ovr@),
    {
        let mut i: usize = 0;
        proof {
            assert(self@.layers.skip(0) =~= self@.layers);
        }
        while i < self.layers.len()
            invariant
                0 <= i <= self.layers@.len(),
                self@.layers.len() == self.layers@.len(),
                spec_layer_for(self@.layers, ovr@) == spec_layer_for(
                    self@.layers.skip(i as int),
                    ovr@,
                ),
            decreases self.layers.len() - i,
        {
            proof {
                assert(self@.layers.skip(i as int)[0] == self@.layers[i as int]);
                assert(self@.layers.skip(i as int).drop_first() =~= self@.layers.skip(
                    i as int + 1,
                ));
            }
            if crate::util::str_eq(self.layers[i].ovr_name.as_str(), ovr.name.as_str()) {
                return self.base.merge_with(&self.layers[i].file);
            }
            i = i + 1;
        }
        proof {
            assert(self@.layers.skip(i as int).len() == 0);
        }
        self.base.duplicate()
    }
}

} // verus!
