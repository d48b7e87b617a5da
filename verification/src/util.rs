//! Path and string helpers: joining paths, taking file names and stems,
//! prefix/suffix tests, lexicographic ordering and sorting of names.
//!
//! Paths are plain strings with `/` separators.  Every helper has an
//! exact specification over the string's view, so the rest of the crate
//! can reason about the paths it builds.

use vstd::prelude::*;
use vstd::multiset::Multiset;
use vstd::string::StrSliceExecFns;
use vstd::string::StringExecFns;

verus! {

/// A path is absolute when it starts with `/`.
pub open spec fn spec_is_absolute(p: Seq<char>) -> bool {
    p.len() > 0 && p[0] == '/'
}

/// Whether `p` names an absolute path.
pub fn is_absolute(p: &str) -> (r: bool)
    ensures
        r == spec_is_absolute(p@),
{
    p.unicode_len() > 0 && p.get_char(0) == '/'
}

/// Joining `rel` onto `base`: an absolute `rel` stands alone, an empty
/// `base` contributes nothing, and otherwise exactly one `/` separates
/// the two parts.
pub open spec fn spec_join(base: Seq<char>, rel: Seq<char>) -> Seq<char> {
    if spec_is_absolute(rel) {
        rel
    } else if base.len() == 0 {
        rel
    } else if base[base.len() - 1] == '/' {
        base + rel
    } else {
        base + seq!['/'] + rel
    }
}

/// Join two path fragments with a single `/` separator.
pub fn join(base: &str, rel: &str) -> (r: String)
    ensures
        r@ == spec_join(base@, rel@),
{
    if is_absolute(rel) {
        rel.to_owned()
    } else if base.unicode_len() == 0 {
        rel.to_owned()
    } else if base.get_char(base.unicode_len() - 1) == '/' {
        base.to_owned().concat(rel)
    } else {
        let r = base.to_owned().concat("/").concat(rel);
        proof {
            reveal_strlit("/");
            assert(r@ =~= base@ + seq!['/'] + rel@);
        }
        r
    }
}

/// Whether `p` is an initial segment of `s`.
pub open spec fn spec_has_prefix(s: Seq<char>, p: Seq<char>) -> bool {
    p.len() <= s.len() && s.take(p.len() as int) == p
}

/// Whether `x` is a final segment of `s`.
pub open spec fn spec_has_suffix(s: Seq<char>, x: Seq<char>) -> bool {
    x.len() <= s.len() && s.skip(s.len() - x.len()) == x
}

/// Test whether `s` starts with `p`.
pub fn has_prefix(s: &str, p: &str) -> (r: bool)
    ensures
        r == spec_has_prefix(s@, p@),
{
    let n = p.unicode_len();
    if n > s.unicode_len() {
        return false;
    }
    let mut i: usize = 0;
    while i < n
        invariant
            0 <= i <= n <= s@.len(),
            n == p@.len(),
            forall|j: int| 0 <= j < i ==> s@[j] == p@[j],
        decreases n - i,
    {
        if s.get_char(i) != p.get_char(i) {
            assert(s@.take(n as int)[i as int] != p@[i as int]);
            return false;
        }
        i = i + 1;
    }
    proof {
        assert(s@.take(n as int) =~= p@);
    }
    true
}

/// Test whether `s` ends with `x`.
pub fn has_suffix(s: &str, x: &str) -> (r: bool)
    ensures
        r == spec_has_suffix(s@, x@),
{
    let n = x.unicode_len();
    let sn = s.unicode_len();
    if n > sn {
        return false;
    }
    let off = sn - n;
    let mut i: usize = 0;
    while i < n
        invariant
            0 <= i <= n <= sn,
            sn == s@.len(),
            n == x@.len(),
            off == sn - n,
            forall|j: int| 0 <= j < i ==> s@[off + j] == x@[j],
        decreases n - i,
    {
        if s.get_char(off + i) != x.get_char(i) {
            assert(s@.skip(off as int)[i as int] != x@[i as int]);
            return false;
        }
        i = i + 1;
    }
    proof {
        assert(s@.skip(off as int) =~= x@);
    }
    true
}

/// The length of `p` once trailing `/` characters are dropped.
pub open spec fn spec_trim_end(p: Seq<char>) -> int
    decreases p.len(),
{
    if p.len() > 0 && p[p.len() - 1] == '/' {
        spec_trim_end(p.drop_last())
    } else {
        p.len() as int
    }
}

proof fn lemma_trim_end_bounds(p: Seq<char>)
    ensures
        0 <= spec_trim_end(p) <= p.len(),
    decreases p.len(),
{
    if p.len() > 0 && p[p.len() - 1] == '/' {
        lemma_trim_end_bounds(p.drop_last());
    }
}

/// Where the last path component of `p` starts, scanning back from `end`:
/// the position just after the last `/` strictly before `end`.
pub open spec fn spec_comp_start(p: Seq<char>, end: int) -> int
    decreases end,
{
    if end <= 0 {
        0
    } else if p[end - 1] == '/' {
        end
    } else {
        spec_comp_start(p, end - 1)
    }
}

/// The final path component of `p`: what remains between the last `/`
/// and any trailing slashes.  `None` when nothing usable remains —
/// an empty component, `.` or `..`.
pub open spec fn spec_file_name(p: Seq<char>) -> Option<Seq<char>> {
    let end = spec_trim_end(p);
    let start = spec_comp_start(p, end);
    let c = p.subrange(start, end);
    if c.len() == 0 || c == seq!['.'] || c == seq!['.', '.'] {
        None
    } else {
        Some(c)
    }
}

/// The position just after the last `.` of `n` at an index of 1 or more,
/// searching at or below `i`; `None` when there is no such dot.
pub open spec fn spec_last_dot(n: Seq<char>, i: int) -> Option<int>
    decreases i,
{
    if i < 1 {
        None
    } else if n[i] == '.' {
        Some(i)
    } else {
        spec_last_dot(n, i - 1)
    }
}

proof fn lemma_last_dot_bounds(n: Seq<char>, i: int)
    ensures
        spec_last_dot(n, i) matches Some(d) ==> 1 <= d <= i,
    decreases i,
{
    if i >= 1 && n[i] != '.' {
        lemma_last_dot_bounds(n, i - 1);
    }
}

/// A file name without its extension: everything before the last `.`,
/// unless the only dot leads the name.
pub open spec fn spec_stem_of_name(n: Seq<char>) -> Seq<char> {
    match spec_last_dot(n, n.len() - 1) {
        Some(i) => n.take(i),
        None => n,
    }
}

/// The stem of the final path component of `p`.
pub open spec fn spec_file_stem(p: Seq<char>) -> Option<Seq<char>> {
    match spec_file_name(p) {
        Some(n) => Some(spec_stem_of_name(n)),
        None => None,
    }
}

/// The final path component of the path `s`, or `None` when the path has
/// no usable final component (a root path, `.` or `..`).
pub fn file_name_of(s: &str) -> (r: Option<String>)
    ensures
        match r {
            Some(n) => spec_file_name(s@) == Some(n@),
            None => spec_file_name(s@) is None,
        },
{
    let len = s.unicode_len();
    let mut end: usize = len;
    proof {
        assert(s@.take(len as int) =~= s@);
    }
    while end > 0 && s.get_char(end - 1) == '/'
        invariant
            0 <= end <= len,
            len == s@.len(),
            spec_trim_end(s@) == spec_trim_end(s@.take(end as int)),
        decreases end,
    {
        proof {
            assert(s@.take(end as int).drop_last() =~= s@.take(end - 1));
        }
        end = end - 1;
    }
    proof {
        if end > 0 {
            assert(spec_trim_end(s@.take(end as int)) == end);
        } else {
            assert(s@.take(0) =~= Seq::<char>::empty());
        }
        lemma_trim_end_bounds(s@);
    }
    let ghost e = end as int;
    assert(spec_trim_end(s@) == e);
    let mut start: usize = end;
    while start > 0 && s.get_char(start - 1) != '/'
        invariant
            0 <= start <= end,
            len == s@.len(),
            end <= len,
            spec_comp_start(s@, e) == spec_comp_start(s@, start as int),
        decreases start,
    {
        start = start - 1;
    }
    assert(spec_comp_start(s@, e) == start);
    let c = s.substring_char(start, end);
    let clen = c.unicode_len();
    if clen == 0 {
        return None;
    }
    if clen == 1 && c.get_char(0) == '.' {
        proof {
            assert(c@ =~= seq!['.']);
        }
        return None;
    }
    if clen == 2 && c.get_char(0) == '.' && c.get_char(1) == '.' {
        proof {
            assert(c@ =~= seq!['.', '.']);
        }
        return None;
    }
    proof {
        assert(c@ != seq!['.'] && c@ != seq!['.', '.']) by {
            if c@ == seq!['.'] {
                assert(c@.len() == 1 && c@[0] == '.');
            }
            if c@ == seq!['.', '.'] {
                assert(c@.len() == 2 && c@[0] == '.' && c@[1] == '.');
            }
        }
    }
    Some(c.to_owned())
}

/// The stem of a file name: the name up to its last dot, where a dot that
/// leads the name does not count as a separator.
pub fn stem_of_name(n: &str) -> (r: String)
    ensures
        r@ == spec_stem_of_name(n@),
{
    let len = n.unicode_len();
    let mut i: usize = len;
    while i > 1
        invariant
            0 <= i <= len,
            len == n@.len(),
            spec_last_dot(n@, len - 1) == spec_last_dot(n@, i - 1),
        decreases i,
    {
        if n.get_char(i - 1) == '.' {
            proof {
                lemma_last_dot_bounds(n@, len - 1);
            }
            return n.substring_char(0, i - 1).to_owned();
        }
        i = i - 1;
    }
    proof {
        assert(spec_last_dot(n@, len - 1) is None);
        assert(n@.take(len as int) =~= n@);
    }
    n.substring_char(0, len).to_owned()
}

/// The stem of the final path component of `s`, or `None` when the path
/// has no usable final component.
pub fn file_stem_of(s: &str) -> (r: Option<String>)
    ensures
        match r {
            Some(n) => spec_file_stem(s@) == Some(n@),
            None => spec_file_stem(s@) is None,
        },
{
    match file_name_of(s) {
        None => None,
        Some(name) => Some(stem_of_name(name.as_str())),
    }
}

/// One entry of a directory listing, as the surrounding binary reads it.
#[derive(Debug, Clone, PartialEq)]
pub struct DirEntry {
    pub name: String,
    pub is_file: bool,
    pub is_dir: bool,
}

/// The view of a `DirEntry`.
pub struct DirEntryV {
    pub name: Seq<char>,
    pub is_file: bool,
    pub is_dir: bool,
}

impl View for DirEntry {
    type V = DirEntryV;

    open spec fn view(&self) -> DirEntryV {
        DirEntryV { name: self.name@, is_file: self.is_file, is_dir: self.is_dir }
    }
}

/// The decimal digits of `n`, most significant first.
pub open spec fn spec_digit_char(d: int) -> char {
    if d == 0 {
        '0'
    } else if d == 1 {
        '1'
    } else if d == 2 {
        '2'
    } else if d == 3 {
        '3'
    } else if d == 4 {
        '4'
    } else if d == 5 {
        '5'
    } else if d == 6 {
        '6'
    } else if d == 7 {
        '7'
    } else if d == 8 {
        '8'
    } else {
        '9'
    }
}

/// How `n` is written in decimal.
pub open spec fn spec_dec_str(n: int) -> Seq<char>
    decreases n,
{
    if n < 10 {
        seq![spec_digit_char(n)]
    } else {
        spec_dec_str(n / 10) + seq![spec_digit_char(n % 10)]
    }
}

fn digit_str(d: u16) -> (r: &'static str)
    requires
        d < 10,
    ensures
        r@ == seq![spec_digit_char(d as int)],
{
    proof {
        reveal_strlit("0");
        reveal_strlit("1");
        reveal_strlit("2");
        reveal_strlit("3");
        reveal_strlit("4");
        reveal_strlit("5");
        reveal_strlit("6");
        reveal_strlit("7");
        reveal_strlit("8");
        reveal_strlit("9");
    }
    let r = match d {
        0 => "0",
        1 => "1",
        2 => "2",
        3 => "3",
        4 => "4",
        5 => "5",
        6 => "6",
        7 => "7",
        8 => "8",
        _ => "9",
    };
    proof {
        assert(r@ =~= seq![spec_digit_char(d as int)]);
    }
    r
}

/// Write `n` in decimal.
pub fn u16_to_string(n: u16) -> (r: String)
    ensures
        r@ == spec_dec_str(n as int),
    decreases n,
{
    if n < 10 {
        digit_str(n).to_owned()
    } else {
        let r = u16_to_string(n / 10).concat(digit_str(n % 10));
        proof {
            assert(r@ =~= spec_dec_str(n as int));
        }
        r
    }
}

/// Test whether two strings hold the same characters.
pub fn str_eq(a: &str, b: &str) -> (r: bool)
    ensures
        r == (a@ == b@),
{
    let an = a.unicode_len();
    if an != b.unicode_len() {
        return false;
    }
    let mut i: usize = 0;
    while i < an
        invariant
            0 <= i <= an,
            an == a@.len(),
            an == b@.len(),
            forall|j: int| 0 <= j < i ==> a@[j] == b@[j],
        decreases an - i,
    {
        if a.get_char(i) != b.get_char(i) {
            return false;
        }
        i = i + 1;
    }
    proof {
        assert(a@ =~= b@);
    }
    true
}

/// Lexicographic order on names, by character code.
pub open spec fn lex_le(a: Seq<char>, b: Seq<char>) -> bool
    decreases a.len(),
{
    if a.len() == 0 {
        true
    } else if b.len() == 0 {
        false
    } else if (a[0] as u32) < (b[0] as u32) {
        true
    } else if (a[0] as u32) > (b[0] as u32) {
        false
    } else {
        lex_le(a.drop_first(), b.drop_first())
    }
}

/// Any two names are ordered one way or the other.
pub proof fn lemma_lex_le_total(a: Seq<char>, b: Seq<char>)
    ensures
        lex_le(a, b) || lex_le(b, a),
    decreases a.len(),
{
    if a.len() > 0 && b.len() > 0 && a[0] as u32 == b[0] as u32 {
        lemma_lex_le_total(a.drop_first(), b.drop_first());
    }
}

/// The order chains: a name at or below a second, itself at or below a
/// third, is at or below the third.
pub proof fn lemma_lex_le_trans(a: Seq<char>, b: Seq<char>, c: Seq<char>)
    requires
        lex_le(a, b),
        lex_le(b, c),
    ensures
        lex_le(a, c),
    decreases a.len(),
{
    if a.len() > 0 {
        if (a[0] as u32) == (b[0] as u32) && (b[0] as u32) == (c[0] as u32) {
            lemma_lex_le_trans(a.drop_first(), b.drop_first(), c.drop_first());
        }
    }
}

proof fn lemma_lex_le_skip(a: Seq<char>, b: Seq<char>, i: int)
    requires
        0 <= i <= a.len(),
        i <= b.len(),
        forall|j: int| 0 <= j < i ==> a[j] == b[j],
    ensures
        lex_le(a, b) == lex_le(a.skip(i), b.skip(i)),
    decreases i,
{
    if i > 0 {
        assert(a.drop_first().skip(i - 1) =~= a.skip(i));
        assert(b.drop_first().skip(i - 1) =~= b.skip(i));
        assert(forall|j: int|
            0 <= j < i - 1 ==> a.drop_first()[j] == b.drop_first()[j]);
        lemma_lex_le_skip(a.drop_first(), b.drop_first(), i - 1);
    } else {
        assert(a.skip(0) =~= a);
        assert(b.skip(0) =~= b);
    }
}

/// Decide `lex_le` on two names.
pub fn str_le(a: &str, b: &str) -> (r: bool)
    ensures
        r == lex_le(a@, b@),
{
    let an = a.unicode_len();
    let bn = b.unicode_len();
    let mut i: usize = 0;
    loop
        invariant
            0 <= i <= an,
            i <= bn,
            an == a@.len(),
            bn == b@.len(),
            forall|j: int| 0 <= j < i ==> a@[j] == b@[j],
        decreases an - i,
    {
        proof {
            lemma_lex_le_skip(a@, b@, i as int);
        }
        if i >= an {
            assert(a@.skip(i as int).len() == 0);
            return true;
        }
        if i >= bn {
            assert(b@.skip(i as int).len() == 0);
            assert(a@.skip(i as int).len() > 0);
            return false;
        }
        let ca = a.get_char(i) as u32;
        let cb = b.get_char(i) as u32;
        proof {
            assert(a@.skip(i as int)[0] == a@[i as int]);
            assert(b@.skip(i as int)[0] == b@[i as int]);
        }
        if ca < cb {
            return true;
        }
        if ca > cb {
            return false;
        }
        assert(a@[i as int] == b@[i as int]) by {
            assert(a@[i as int] as u32 == b@[i as int] as u32);
        }
        i = i + 1;
    }
}

/// Characters with one code are one character.
proof fn lemma_char_code_injective(c: char, d: char)
    requires
        c as u32 == d as u32,
    ensures
        c == d,
{
}

/// The order predicates on two names are never both strict: the order
/// is antisymmetric.
pub proof fn lemma_lex_le_antisym(a: Seq<char>, b: Seq<char>)
    requires
        lex_le(a, b),
        lex_le(b, a),
    ensures
        a == b,
    decreases a.len(),
{
    if a.len() == 0 {
        assert(b.len() == 0);
        assert(a =~= b);
    } else {
        assert(b.len() > 0);
        assert(a[0] as u32 == b[0] as u32);
        lemma_char_code_injective(a[0], b[0]);
        lemma_lex_le_antisym(a.drop_first(), b.drop_first());
        assert forall|j: int| 0 <= j < a.len() implies a[j] == b[j] by {
            if j > 0 {
                assert(a.drop_first()[j - 1] == b.drop_first()[j - 1]);
            }
        }
        assert(a =~= b);
    }
}

/// The lexicographic order as a relation value.
pub open spec fn name_leq() -> spec_fn(Seq<char>, Seq<char>) -> bool {
    |a: Seq<char>, b: Seq<char>| lex_le(a, b)
}

/// The lexicographic order is a total ordering on names.
pub proof fn lemma_name_leq_total_ordering()
    ensures
        vstd::relations::total_ordering(name_leq()),
{
    let leq = name_leq();
    assert forall|x: Seq<char>| #[trigger] leq(x, x) by {
        lemma_lex_le_total(x, x);
    }
    assert forall|x: Seq<char>, y: Seq<char>| #[trigger] leq(x, y) && #[trigger] leq(y, x)
        implies x == y by {
        lemma_lex_le_antisym(x, y);
    }
    assert forall|x: Seq<char>, y: Seq<char>, z: Seq<char>|
        #[trigger] leq(x, y) && #[trigger] leq(y, z) implies leq(x, z) by {
        lemma_lex_le_trans(x, y, z);
    }
    assert forall|x: Seq<char>, y: Seq<char>| #[trigger] leq(x, y) || #[trigger] leq(y, x) by {
        lemma_lex_le_total(x, y);
    }
}

/// A run of names in lexicographic order.
pub open spec fn spec_sorted_names(s: Seq<Seq<char>>) -> bool {
    forall|i: int, j: int| 0 <= i < j < s.len() ==> lex_le(s[i], s[j])
}

/// Names rearranged into lexicographic order.
pub open spec fn spec_sort_names(s: Seq<Seq<char>>) -> Seq<Seq<char>> {
    s.sort_by(name_leq())
}

/// Sort names lexicographically.  The result is ordered and holds
/// exactly the given names, multiplicity included.
pub fn sort_strings(v: Vec<String>) -> (r: Vec<String>)
    ensures
        spec_sorted_names(r.deep_view()),
        r.deep_view() == spec_sort_names(v.deep_view()),
        r.deep_view().to_multiset() == v.deep_view().to_multiset(),
{
    broadcast use vstd::seq_lib::group_to_multiset_ensures;

    let mut rem = v;
    let mut out: Vec<String> = Vec::new();
    let ghost orig = rem.deep_view();
    proof {
        assert(out.deep_view() =~= Seq::<Seq<char>>::empty());
        assert(out.deep_view().to_multiset().add(rem.deep_view().to_multiset()) =~= orig.to_multiset());
    }
    while rem.len() > 0
        invariant
            out.deep_view().to_multiset().add(rem.deep_view().to_multiset()) == orig.to_multiset(),
            spec_sorted_names(out.deep_view()),
            forall|i: int, j: int|
                0 <= i < out.deep_view().len() && 0 <= j < rem.deep_view().len() ==> lex_le(
                    out.deep_view()[i],
                    rem.deep_view()[j],
                ),
        decreases rem.len(),
    {
        let mut m: usize = 0;
        let mut k: usize = 1;
        proof {
            lemma_lex_le_total(rem.deep_view()[0], rem.deep_view()[0]);
        }
        while k < rem.len()
            invariant
                0 <= m < k <= rem.len(),
                rem.len() > 0,
                forall|j: int| 0 <= j < k ==> lex_le(rem.deep_view()[m as int], rem.deep_view()[j]),
            decreases rem.len() - k,
        {
            let le = str_le(rem[k].as_str(), rem[m].as_str());
            proof {
                assert(rem.deep_view()[k as int] == rem@[k as int]@);
                assert(rem.deep_view()[m as int] == rem@[m as int]@);
            }
            if le {
                proof {
                    assert forall|j: int| 0 <= j < k + 1 implies lex_le(
                        rem.deep_view()[k as int],
                        rem.deep_view()[j],
                    ) by {
                        if j == k {
                            lemma_lex_le_total(rem.deep_view()[k as int], rem.deep_view()[k as int]);
                        }
                        if j < k {
                            lemma_lex_le_trans(
                                rem.deep_view()[k as int],
                                rem.deep_view()[m as int],
                                rem.deep_view()[j],
                            );
                        }
                    }
                }
                m = k;
            } else {
                proof {
                    lemma_lex_le_total(rem.deep_view()[m as int], rem.deep_view()[k as int]);
                }
            }
            k = k + 1;
        }
        let ghost pre = rem.deep_view();
        let x = rem.remove(m);
        proof {
            assert(rem.deep_view() =~= pre.remove(m as int));
            assert(x.deep_view() == pre[m as int]);
        }
        let ghost outpre = out.deep_view();
        out.push(x);
        proof {
            broadcast use vstd::multiset::group_multiset_axioms;

            let e = pre[m as int];
            assert(out.deep_view() =~= outpre.push(e));
            vstd::seq_lib::to_multiset_build(outpre, e);
            vstd::seq_lib::to_multiset_remove(pre, m as int);
            vstd::seq_lib::to_multiset_contains(pre, e);
            assert(pre.contains(e));
            assert(out.deep_view().to_multiset().add(rem.deep_view().to_multiset())
                =~= outpre.to_multiset().add(pre.to_multiset()));
        }
    }
    proof {
        assert(rem.deep_view().to_multiset() =~= Multiset::<Seq<char>>::empty()) by {
            assert(rem.deep_view() =~= Seq::<Seq<char>>::empty());
        }
        assert(out.deep_view().to_multiset() =~= orig.to_multiset());
        lemma_name_leq_total_ordering();
        v.deep_view().lemma_sort_by_ensures(name_leq());
        assert forall|i: int, j: int|
            0 <= i < j < out.deep_view().len() implies name_leq()(
            out.deep_view()[i],
            out.deep_view()[j],
        ) by {}
        vstd::seq_lib::lemma_sorted_unique(out.deep_view(), spec_sort_names(v.deep_view()), name_leq());
    }
    out
}

} // verus!
