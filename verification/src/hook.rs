//! Hook planning: which lifecycle scripts run for an event, and in
//! what order.  An event's scripts live in `<hooks_dir>/<event>.d`:
//! its regular files whose name does not start with `.` and ends in
//! `.hook`, run in lexicographic path order.  Listing the directory and
//! launching the scripts belong to the surrounding binary.

use vstd::prelude::*;
use vstd::string::StringExecFns;

use crate::util::{
    DirEntry, DirEntryV, spec_has_prefix, spec_has_suffix, spec_join, spec_sort_names, has_prefix,
    has_suffix, join, sort_strings,
};

verus! {

/// Keeps track of where hook scripts live and which of them an event
/// runs.
#[derive(Debug, Clone, PartialEq)]
pub struct HookManager {
    pub hooks_dir: String,
}

impl View for HookManager {
    type V = Seq<char>;

    open spec fn view(&self) -> Seq<char> {
        self.hooks_dir@
    }
}

/// Whether a directory entry is a hook script: a regular file whose
/// name does not start with `.` and ends in `.hook`.
pub open spec fn spec_is_hook(e: DirEntryV) -> bool {
    e.is_file && !spec_has_prefix(e.name, "."@) && spec_has_suffix(e.name, ".hook"@)
}

/// The names of the hook scripts in a listing, in listing order.
pub open spec fn spec_hook_names(entries: Seq<DirEntryV>) -> Seq<Seq<char>>
    decreases entries.len(),
{
    if entries.len() == 0 {
        Seq::empty()
    } else {
        let rest = spec_hook_names(entries.drop_first());
        if spec_is_hook(entries[0]) {
            seq![entries[0].name] + rest
        } else {
            rest
        }
    }
}

impl HookManager {
    /// A manager running hooks from the given directory.
    pub fn new(hooks_dir: String) -> (r: HookManager)
        ensures
            r@ == hooks_dir@,
    {
        HookManager { hooks_dir }
    }

    /// The directory whose files are the given event's hooks:
    /// `<hooks_dir>/<event>.d`.
    pub fn scripts_dir(&self, hook_name: &str) -> (r: String)
        ensures
            r@ == spec_join(self@, hook_name@ + ".d"@),
    {
        let d = hook_name.to_owned().concat(".d");
        join(self.hooks_dir.as_str(), d.as_str())
    }

    /// The scripts the given event runs, as full paths in execution
    /// order: the listing's hook scripts, sorted lexicographically by
    /// name.  An absent directory is an empty listing, not an error.
    pub fn select_scripts(&self, hook_name: &str, entries: &Vec<DirEntry>) -> (r: Vec<String>)
        ensures
            r.deep_view() == spec_sort_names(
                spec_hook_names(entries@.map_values(|e: DirEntry| e@)),
            ).map_values(|n: Seq<char>| spec_join(spec_join(self@, hook_name@ + ".d"@), n)),
    {
        let ghost ev = entries@.map_values(|e: DirEntry| e@);
        let mut names: Vec<String> = Vec::new();
        let mut i: usize = 0;
        proof {
            assert(ev.skip(0) =~= ev);
            assert(names.deep_view() =~= Seq::<Seq<char>>::empty());
            assert(names.deep_view() + spec_hook_names(ev.skip(0)) =~= spec_hook_names(ev));
        }
        while i < entries.len()
            invariant
                0 <= i <= entries@.len(),
                ev == entries@.map_values(|e: DirEntry| e@),
                ev.len() == entries@.len(),
                names.deep_view() + spec_hook_names(ev.skip(i as int)) == spec_hook_names(ev),
            decreases entries.len() - i,
        {
            proof {
                assert(ev.skip(i as int)[0] == ev[i as int]);
                assert(ev.skip(i as int).drop_first() =~= ev.skip(i as int + 1));
                assert(ev[i as int] == entries@[i as int]@);
            }
            let e = &entries[i];
            if e.is_file && !has_prefix(e.name.as_str(), ".") && has_suffix(
                e.name.as_str(),
                ".hook",
            ) {
                let ghost pre = names.deep_view();
                names.push(e.name.clone());
                proof {
                    assert(names.deep_view() =~= pre.push(ev[i as int].name));
                    assert(pre.push(ev[i as int].name) + spec_hook_names(ev.skip(i as int + 1))
                        =~= pre + spec_hook_names(ev.skip(i as int)));
                }
            }
            i = i + 1;
        }
        proof {
            assert(ev.skip(i as int).len() == 0);
            assert(spec_hook_names(ev.skip(i as int)) =~= Seq::<Seq<char>>::empty());
            assert(names.deep_view() =~= spec_hook_names(ev));
        }
        let sorted = sort_strings(names);
        let d_dir = self.scripts_dir(hook_name);
        let mut out: Vec<String> = Vec::new();
        let mut k: usize = 0;
        while k < sorted.len()
            invariant
                0 <= k <= sorted@.len(),
                d_dir@ == spec_join(self@, hook_name@ + ".d"@),
                out@.len() == k,
                forall|j: int|
                    0 <= j < k ==> out.deep_view()[j] == spec_join(d_dir@, sorted.deep_view()[j]),
            decreases sorted.len() - k,
        {
            proof {
                assert(sorted.deep_view()[k as int] == sorted@[k as int]@);
            }
            let ghost pre = out.deep_view();
            out.push(join(d_dir.as_str(), sorted[k].as_str()));
            proof {
                assert(out.deep_view() =~= pre.push(out@.last()@));
            }
            k = k + 1;
        }
        proof {
            assert(out.deep_view() =~= sorted.deep_view().map_values(
                |n: Seq<char>| spec_join(spec_join(self@, hook_name@ + ".d"@), n),
            ));
        }
        out
    }
}

} // verus!
