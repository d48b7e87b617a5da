//! Alias derivation for source references: a short, filesystem- and
//! CLI-safe identifier derived deterministically from a git URL or a
//! local path, so the same source always maps to the same clone
//! directory.

use vstd::prelude::*;
use vstd::string::StringExecFns;

use crate::compose::{SourceRef, SourceRefV};
use crate::errors::Error;
use crate::util::{spec_file_stem, file_stem_of};

verus! {

/// Whether the `url` crate parses this text as an absolute URL.
pub uninterp spec fn url_parse_ok(s: Seq<char>) -> bool;

/// The path component the `url` crate gives this text.
pub uninterp spec fn url_path(s: Seq<char>) -> Seq<char>;

/// The fragment (the part after `#`, if any) the `url` crate gives this text.
pub uninterp spec fn url_fragment(s: Seq<char>) -> Option<Seq<char>>;

/// Relies on `url::Url::parse`, `Url::path` and `Url::fragment`: parsing
/// either fails or yields a path and an optional fragment, all three a
/// function of the input text alone.
#[verifier::external_body]
fn parse_url_parts(s: &str) -> (r: Option<(String, Option<String>)>)
    ensures
        r is Some <==> url_parse_ok(s@),
        r matches Some((p, f)) ==> p@ == url_path(s@) && (match f {
            Some(fr) => url_fragment(s@) == Some(fr@),
            None => url_fragment(s@) is None,
        }),
{
    match url::Url::parse(s) {
        Ok(u) => {
            let frag = match u.fragment() {
                Some(x) => Some(x.to_string()),
                None => None,
            };
            Some((u.path().to_string(), frag))
        },
        Err(_) => None,
    }
}

/// The alias of a git URL: the stem of the URL path's final segment,
/// with `_<fragment>` appended when the URL carries a fragment; `None`
/// when the URL does not parse or its path has no usable segment.
pub open spec fn spec_git_alias(u: Seq<char>) -> Option<Seq<char>> {
    if !url_parse_ok(u) {
        None
    } else {
        match spec_file_stem(url_path(u)) {
            None => None,
            Some(stem) => match url_fragment(u) {
                None => Some(stem),
                Some(f) => Some(stem + seq!['_'] + f),
            },
        }
    }
}

/// The alias of a source reference: for a git URL as `spec_git_alias`,
/// for a local path the stem of its final component.
pub open spec fn spec_alias(src: SourceRefV) -> Option<Seq<char>> {
    match src {
        SourceRefV::Git { url } => spec_git_alias(url),
        SourceRefV::Dir { path } => spec_file_stem(path),
    }
}

impl SourceRef {
    /// A short, easy-to-type alias for this source, suitable for a
    /// command-line argument or a clone-directory name.
    pub fn human_alias(&self) -> (r: Result<String, Error>)
        ensures
            match spec_alias(self@) {
                Some(a) => r matches Ok(s) && s@ == a,
                None => r matches Err(e) && e is AliasDerivationFailure,
            },
    {
        match self {
            SourceRef::Git { url } => {
                match parse_url_parts(url.as_str()) {
                    None => Err(Error::AliasDerivationFailure { source: url.clone() }),
                    Some((path, frag)) => match file_stem_of(path.as_str()) {
                        None => Err(Error::AliasDerivationFailure { source: url.clone() }),
                        Some(stem) => match frag {
                            None => Ok(stem),
                            Some(f) => {
                                let r = stem.concat("_").concat(f.as_str());
                                proof {
                                    reveal_strlit("_");
                                    assert(r@ =~= spec_git_alias(url@)->Some_0);
                                }
                                Ok(r)
                            },
                        },
                    },
                }
            },
            SourceRef::Dir { path } => match file_stem_of(path.as_str()) {
                None => Err(Error::AliasDerivationFailure { source: path.clone() }),
                Some(stem) => Ok(stem),
            },
        }
    }
}

/// Deriving an alias is deterministic: one source reference always
/// yields one alias, however often it is derived.
pub proof fn lemma_alias_deterministic(a: SourceRefV, b: SourceRefV)
    requires
        a == b,
    ensures
        spec_alias(a) == spec_alias(b),
{
}

/// A git URL that parses and carries a fragment gets the fragment
/// appended to the path stem after an underscore.
pub proof fn lemma_alias_appends_fragment(u: Seq<char>, stem: Seq<char>, f: Seq<char>)
    requires
        url_parse_ok(u),
        spec_file_stem(url_path(u)) == Some(stem),
        url_fragment(u) == Some(f),
    ensures
        spec_git_alias(u) == Some(stem + seq!['_'] + f),
{
}

/// A git URL that parses and carries no fragment yields the path stem
/// alone.
pub proof fn lemma_alias_without_fragment(u: Seq<char>, stem: Seq<char>)
    requires
        url_parse_ok(u),
        spec_file_stem(url_path(u)) == Some(stem),
        url_fragment(u) is None,
    ensures
        spec_git_alias(u) == Some(stem),
{
}

} // verus!
