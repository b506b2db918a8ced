//! Paths as text, and the names that the planner tries for an artifact.
//!
//! A path is a sequence of characters whose components are separated by
//! `/`. Its file name is what follows the last separator. Paths are read
//! as they stand: a caller that wants `a//b/` read as `a/b` hands over
//! `a/b`.

use vstd::prelude::*;
use vstd::hash_set::StringHashSet;
use crate::text::{
    concat_text, decimal, decimal_text, find_last, last_index_of, lemma_decimal_injective,
    lemma_last_index_of,
};

verus! {

/// What follows the last separator of `path`.
pub open spec fn file_name(path: Seq<char>) -> Seq<char> {
    path.subrange(last_index_of(path, '/') + 1, path.len() as int)
}

/// The directory that holds `path`: nothing where `path` names no file,
/// the empty text where it has a single component.
pub open spec fn parent(path: Seq<char>) -> Option<Seq<char>> {
    let cut = last_index_of(path, '/');
    if cut + 1 == path.len() {
        None
    } else if cut < 0 {
        Some(Seq::empty())
    } else if cut == 0 {
        Some(path.subrange(0, 1))
    } else {
        Some(path.subrange(0, cut))
    }
}

/// Whether `name` is `.` or `..`, which stand for a directory and name
/// no file.
pub open spec fn is_dots(name: Seq<char>) -> bool {
    name =~= seq!['.'] || name =~= seq!['.', '.']
}

/// The file name of `path` without its extension. A name that only
/// starts with a dot has no extension, and the names `.` and `..` have
/// no stem.
pub open spec fn file_stem(path: Seq<char>) -> Seq<char> {
    let name = file_name(path);
    let dot = last_index_of(name, '.');
    if is_dots(name) {
        Seq::empty()
    } else if dot <= 0 {
        name
    } else {
        name.subrange(0, dot)
    }
}

/// What stands before a file name in the directory `dir`.
pub open spec fn dir_prefix(dir: Seq<char>) -> Seq<char> {
    if dir.len() == 0 || dir.last() == '/' {
        dir
    } else {
        dir.push('/')
    }
}

/// The path of the file `name` in the directory `dir`.
pub open spec fn join(dir: Seq<char>, name: Seq<char>) -> Seq<char> {
    dir_prefix(dir) + name
}

/// The text of an optional string.
pub open spec fn text_of(text: Option<String>) -> Option<Seq<char>> {
    match text {
        Some(text) => Some(text@),
        None => None,
    }
}

/// The texts of a sequence of strings, one for one.
pub open spec fn text_views(texts: Seq<String>) -> Seq<Seq<char>> {
    Seq::new(texts.len(), |i: int| texts[i]@)
}

/// The directory that holds `path`.
pub fn parent_of(path: &str) -> (dir: Option<String>)
    ensures
        text_of(dir) == parent(path@),
{
    proof {
        lemma_last_index_of(path@, '/');
    }
    let length: usize = path.unicode_len();
    match find_last(path, '/') {
        None => {
            if length == 0 {
                None
            } else {
                Some(String::new())
            }
        },
        Some(cut) => {
            if cut + 1 == length {
                None
            } else if cut == 0 {
                Some(String::from_str(path.substring_char(0, 1)))
            } else {
                Some(String::from_str(path.substring_char(0, cut)))
            }
        },
    }
}

fn check_dots(name: &str) -> (dots: bool)
    ensures
        dots == is_dots(name@),
{
    let length: usize = name.unicode_len();
    if length == 1 {
        name.get_char(0) == '.'
    } else if length == 2 {
        name.get_char(0) == '.' && name.get_char(1) == '.'
    } else {
        false
    }
}

/// The file name of `path` without its extension.
pub fn file_stem_of(path: &str) -> (stem: String)
    ensures
        stem@ == file_stem(path@),
{
    proof {
        lemma_last_index_of(path@, '/');
    }
    let length: usize = path.unicode_len();
    let start: usize = match find_last(path, '/') {
        Some(cut) => cut + 1,
        None => 0,
    };
    let name = path.substring_char(start, length);
    proof {
        lemma_last_index_of(name@, '.');
    }
    if check_dots(name) {
        return String::new();
    }
    match find_last(name, '.') {
        Some(dot) => {
            if dot > 0 {
                String::from_str(name.substring_char(0, dot))
            } else {
                String::from_str(name)
            }
        },
        None => String::from_str(name),
    }
}

/// The path of the file `name` in the directory `dir`.
pub fn join_path(dir: &str, name: &str) -> (path: String)
    ensures
        path@ == join(dir@, name@),
{
    let length: usize = dir.unicode_len();
    if length == 0 {
        assert(dir@ + name@ =~= name@);
        String::from_str(name)
    } else if dir.get_char(length - 1) == '/' {
        concat_text(dir, name)
    } else {
        proof {
            reveal_strlit("/");
            assert("/"@ =~= seq!['/']);
            assert(dir@ + "/"@ =~= dir@.push('/'));
        }
        let mut path = concat_text(dir, "/");
        path.append(name);
        path
    }
}

/// One artifact to be named: the directory it goes to, the stem of the
/// input's file name, the suffix of its role, and its kind.
pub struct Target {
    pub dir: Seq<char>,
    pub stem: Seq<char>,
    pub suffix: Seq<char>,
    pub is_lut: bool,
}

/// The extension of a kind of artifact.
pub open spec fn extension(is_lut: bool) -> Seq<char> {
    if is_lut {
        "png"@
    } else {
        "ktx2"@
    }
}

/// What the attempt numbered `attempt` adds to a name: nothing at first,
/// then `_0`, `_1` and so on.
pub open spec fn numbering(attempt: nat) -> Seq<char> {
    if attempt == 0 {
        Seq::empty()
    } else {
        seq!['_'] + decimal((attempt - 1) as nat)
    }
}

/// A candidate's path up to its numbering.
pub open spec fn candidate_head(target: Target) -> Seq<char> {
    dir_prefix(target.dir) + target.stem + seq!['_'] + target.suffix
}

/// A candidate's path after its numbering.
pub open spec fn candidate_tail(target: Target) -> Seq<char> {
    seq!['.'] + extension(target.is_lut)
}

/// The path that the attempt numbered `attempt` tries for `target`.
pub open spec fn candidate_path(target: Target, attempt: nat) -> Seq<char> {
    candidate_head(target) + numbering(attempt) + candidate_tail(target)
}

/// Different attempts try different paths.
pub proof fn lemma_candidates_differ(target: Target, first: nat, second: nat)
    requires
        first != second,
    ensures
        candidate_path(target, first) != candidate_path(target, second),
{
    let head = candidate_head(target);
    let tail = candidate_tail(target);
    let a = numbering(first);
    let b = numbering(second);
    if candidate_path(target, first) == candidate_path(target, second) {
        let whole = head + a + tail;
        let other = head + b + tail;
        assert(whole.len() == head.len() + a.len() + tail.len());
        assert(other.len() == head.len() + b.len() + tail.len());
        assert(a.len() == b.len());
        assert(whole.subrange(head.len() as int, (head.len() + a.len()) as int) =~= a);
        assert(other.subrange(head.len() as int, (head.len() + b.len()) as int) =~= b);
        assert(a == b);
        if first == 0 || second == 0 {
            assert(a.len() == 0);
            assert(b.len() == 0);
        } else {
            let x = decimal((first - 1) as nat);
            let y = decimal((second - 1) as nat);
            assert(a.subrange(1, a.len() as int) =~= x);
            assert(b.subrange(1, b.len() as int) =~= y);
            lemma_decimal_injective((first - 1) as nat, (second - 1) as nat);
        }
    }
}

/// Where every one of the first `count` attempts is taken, `used` holds
/// at least `count` paths.
proof fn lemma_taken_attempts_fit(used: Set<Seq<char>>, target: Target, count: nat)
    requires
        used.finite(),
        forall|attempt: nat| attempt < count ==> used.contains(#[trigger] candidate_path(target, attempt)),
    ensures
        count <= used.len(),
    decreases count,
{
    if count > 0 {
        let last = candidate_path(target, (count - 1) as nat);
        assert(used.contains(last));
        let rest = used.remove(last);
        assert forall|attempt: nat| attempt < count - 1 implies rest.contains(
            #[trigger] candidate_path(target, attempt),
        ) by {
            lemma_candidates_differ(target, attempt, (count - 1) as nat);
        }
        lemma_taken_attempts_fit(rest, target, (count - 1) as nat);
    }
}

/// Whether `attempt` is the first attempt whose path is not in `used`.
pub open spec fn is_first_free(used: Set<Seq<char>>, target: Target, attempt: nat) -> bool {
    &&& !used.contains(candidate_path(target, attempt))
    &&& forall|earlier: nat|
        earlier < attempt ==> used.contains(#[trigger] candidate_path(target, earlier))
}

/// The first attempt whose path is not in `used`.
pub open spec fn first_free(used: Set<Seq<char>>, target: Target) -> nat {
    choose|attempt: nat| is_first_free(used, target, attempt)
}

/// The path that `target` gets: that of the first attempt not in `used`.
pub open spec fn fresh_path(used: Set<Seq<char>>, target: Target) -> Seq<char> {
    candidate_path(target, first_free(used, target))
}

/// At most one attempt is the first free one.
proof fn lemma_first_free_unique(used: Set<Seq<char>>, target: Target, a: nat, b: nat)
    requires
        is_first_free(used, target, a),
        is_first_free(used, target, b),
    ensures
        a == b,
{
    if a < b {
        assert(used.contains(candidate_path(target, a)));
    } else if b < a {
        assert(used.contains(candidate_path(target, b)));
    }
}

proof fn lemma_search_ends(used: Set<Seq<char>>, target: Target, from: nat)
    requires
        used.finite(),
        forall|attempt: nat| attempt < from ==> used.contains(#[trigger] candidate_path(target, attempt)),
    ensures
        exists|attempt: nat| is_first_free(used, target, attempt),
    decreases used.len() - from,
{
    lemma_taken_attempts_fit(used, target, from);
    if used.contains(candidate_path(target, from)) {
        lemma_taken_attempts_fit(used, target, from + 1);
        lemma_search_ends(used, target, from + 1);
    } else {
        assert(is_first_free(used, target, from));
    }
}

/// The search for a free name always ends: among finitely many paths
/// in use there is a first free attempt, it is at most their number,
/// and its path is not in use.
pub proof fn lemma_first_free(used: Set<Seq<char>>, target: Target)
    requires
        used.finite(),
    ensures
        is_first_free(used, target, first_free(used, target)),
        first_free(used, target) <= used.len(),
        !used.contains(fresh_path(used, target)),
{
    lemma_search_ends(used, target, 0);
    lemma_taken_attempts_fit(used, target, first_free(used, target));
}

/// The paths that are in use: a set of texts, of which there are
/// always finitely many.
pub struct UsedPaths {
    paths: StringHashSet,
}

impl View for UsedPaths {
    type V = Set<Seq<char>>;

    closed spec fn view(&self) -> Set<Seq<char>> {
        self.paths@
    }
}

impl UsedPaths {
    #[verifier::type_invariant]
    spec fn is_finite(self) -> bool {
        self.paths@.finite()
    }

    /// No path in use.
    pub fn new() -> (used: UsedPaths)
        ensures
            used@ == Set::<Seq<char>>::empty(),
    {
        UsedPaths { paths: StringHashSet::new() }
    }

    fn with(self, path: String) -> (used: UsedPaths)
        ensures
            used@ == self@.insert(path@),
    {
        proof {
            use_type_invariant(&self);
        }
        let mut paths = self.paths;
        paths.insert(path);
        UsedPaths { paths }
    }

    /// Takes `path` into use. Says whether it was free before.
    pub fn insert(&mut self, path: String) -> (fresh: bool)
        ensures
            final(self)@ == old(self)@.insert(path@),
            fresh == !old(self)@.contains(path@),
    {
        let fresh = !self.contains(path.as_str());
        // The set is taken out and put back whole, so that it is never
        // borrowed while it changes.
        let mut taken = UsedPaths::new();
        std::mem::swap(self, &mut taken);
        *self = taken.with(path);
        fresh
    }

    /// Whether `path` is in use.
    pub fn contains(&self, path: &str) -> (found: bool)
        ensures
            found == self@.contains(path@),
    {
        self.paths.contains(path)
    }

    /// The number of paths in use.
    pub fn len(&self) -> (count: usize)
        ensures
            count == self@.len(),
            self@.finite(),
    {
        proof {
            use_type_invariant(self);
        }
        self.paths.len()
    }
}

fn candidate(output_dir: &str, file_stem: &str, suffix: &str, is_lut: bool, attempt: u64) -> (path: String)
    ensures
        path@ == candidate_path(
            Target { dir: output_dir@, stem: file_stem@, suffix: suffix@, is_lut },
            attempt as nat,
        ),
{
    proof {
        reveal_strlit("_");
        reveal_strlit(".");
        assert("_"@ =~= seq!['_']);
        assert("."@ =~= seq!['.']);
    }
    let mut name = concat_text(file_stem, "_");
    name.append(suffix);
    if attempt > 0 {
        name.append("_");
        let number = decimal_text(attempt - 1);
        name.append(number.as_str());
    }
    name.append(".");
    name.append(if is_lut { "png" } else { "ktx2" });
    let path = join_path(output_dir, name.as_str());
    assert(path@ =~= candidate_path(
        Target { dir: output_dir@, stem: file_stem@, suffix: suffix@, is_lut },
        attempt as nat,
    ));
    path
}

/// Names an artifact in `output_dir`: `{file_stem}_{suffix}` with the
/// extension of its kind, numbered `_0`, `_1`, ... where that path is
/// already in `used`. The path goes into `used`. The search always ends,
/// so the result is never `None`.
pub fn create_output_path(
    output_dir: &str,
    file_stem: &str,
    suffix: &str,
    used: &mut UsedPaths,
    is_lut: bool,
) -> (path: Option<String>)
    ensures
        text_of(path) == Some(
            fresh_path(
                old(used)@,
                Target { dir: output_dir@, stem: file_stem@, suffix: suffix@, is_lut },
            ),
        ),
        !old(used)@.contains(path.unwrap()@),
        final(used)@ == old(used)@.insert(path.unwrap()@),
        final(used)@.finite(),
{
    let ghost target = Target { dir: output_dir@, stem: file_stem@, suffix: suffix@, is_lut };
    let size: usize = used.len();
    let mut attempt: u64 = 0;
    loop
        invariant
            used@ == old(used)@,
            used@.finite(),
            used@.len() == size,
            target == (Target { dir: output_dir@, stem: file_stem@, suffix: suffix@, is_lut }),
            attempt <= size,
            forall|earlier: nat|
                earlier < attempt ==> used@.contains(#[trigger] candidate_path(target, earlier)),
        decreases size - attempt,
    {
        let path = candidate(output_dir, file_stem, suffix, is_lut, attempt);
        if !used.contains(path.as_str()) {
            proof {
                assert(is_first_free(used@, target, attempt as nat));
                lemma_first_free(used@, target);
                lemma_first_free_unique(used@, target, attempt as nat, first_free(used@, target));
            }
            used.insert(path.clone());
            return Some(path);
        }
        proof {
            lemma_taken_attempts_fit(used@, target, (attempt + 1) as nat);
        }
        attempt = attempt + 1;
    }
}

} // verus!
