use vstd::prelude::*;
use vstd::string::*;

verus! {

/// Whether `a` and `b` hold the same characters.
pub fn str_eq(a: &str, b: &str) -> (r: bool)
    ensures
        r == (a@ == b@),
{
    let n = a.unicode_len();
    if n != b.unicode_len() {
        return false;
    }
    let mut i: usize = 0;
    while i < n
        invariant
            n == a@.len(),
            n == b@.len(),
            i <= n,
            forall|j: int| 0 <= j < i ==> a@[j] == b@[j],
        decreases n - i,
    {
        if a.get_char(i) != b.get_char(i) {
            return false;
        }
        i = i + 1;
    }
    assert(a@ =~= b@);
    true
}

/// Whether some element of `v` holds the characters of `s`.
pub open spec fn contains_str(v: Seq<Seq<char>>, s: Seq<char>) -> bool {
    exists|i: int| 0 <= i < v.len() && v[i] == s
}

/// Whether `v` holds an element equal to `s`.
pub fn vec_contains(v: &Vec<String>, s: &str) -> (r: bool)
    ensures
        r == contains_str(v.deep_view(), s@),
{
    let mut i: usize = 0;
    while i < v.len()
        invariant
            i <= v.len(),
            forall|j: int| 0 <= j < i ==> v.deep_view()[j] != s@,
        decreases v.len() - i,
    {
        if str_eq(v[i].as_str(), s) {
            assert(v.deep_view()[i as int] == s@);
            return true;
        }
        i = i + 1;
    }
    false
}

/// A copy of `v`, element by element.
pub fn copy_strings(v: &Vec<String>) -> (r: Vec<String>)
    ensures
        r.deep_view() == v.deep_view(),
{
    let mut r: Vec<String> = Vec::new();
    let mut i: usize = 0;
    while i < v.len()
        invariant
            i <= v.len(),
            r.deep_view() == v.deep_view().subrange(0, i as int),
        decreases v.len() - i,
    {
        let ghost before = r.deep_view();
        r.push(v[i].clone());
        assert(r.deep_view() =~= before.push(v.deep_view()[i as int]));
        assert(v.deep_view().subrange(0, i + 1) =~= before.push(v.deep_view()[i as int]));
        i = i + 1;
    }
    assert(v.deep_view().subrange(0, v.len() as int) =~= v.deep_view());
    r
}

/// The path `name` relative to `dir`: `name` itself when it is absolute or
/// `dir` is empty, else `dir` and `name` with one `/` between them.
pub open spec fn joined(dir: Seq<char>, name: Seq<char>) -> Seq<char> {
    if name.len() > 0 && name[0] == '/' {
        name
    } else if dir.len() == 0 {
        name
    } else if dir[dir.len() - 1] == '/' {
        dir + name
    } else {
        dir + seq!['/'] + name
    }
}

/// Joins `name` onto the directory `dir`, as [`joined`] describes.
pub fn join_path(dir: &str, name: &str) -> (r: String)
    ensures
        r@ == joined(dir@, name@),
{
    let name_len = name.unicode_len();
    let dir_len = dir.unicode_len();
    if name_len > 0 && name.get_char(0) == '/' {
        name.to_owned()
    } else if dir_len == 0 {
        name.to_owned()
    } else if dir.get_char(dir_len - 1) == '/' {
        let r = dir.to_owned();
        r.concat(name)
    } else {
        let r = dir.to_owned();
        let r = r.concat("/");
        proof {
            reveal_strlit("/");
        }
        let r = r.concat(name);
        r
    }
}

/// The first index at which `present` holds, if any.
pub open spec fn first_present(present: Seq<bool>) -> Option<int> {
    if exists|i: int| 0 <= i < present.len() && present[i] {
        Some(
            choose|i: int|
                0 <= i < present.len() && present[i] && forall|j: int| 0 <= j < i ==> !present[j],
        )
    } else {
        None
    }
}

/// There is exactly one first index where some index holds.
pub proof fn lemma_first_present(present: Seq<bool>, k: int)
    requires
        0 <= k < present.len(),
        present[k],
        forall|j: int| 0 <= j < k ==> !present[j],
    ensures
        first_present(present) == Some(k),
{
    let w = choose|i: int|
        0 <= i < present.len() && present[i] && forall|j: int| 0 <= j < i ==> !present[j];
    assert(0 <= w < present.len() && present[w] && forall|j: int| 0 <= j < w ==> !present[j]);
    if w < k {
        assert(!present[w]);
    }
    if k < w {
        assert(!present[k]);
    }
}

/// What a first-match search over `dirs` for `name` finds, given for each
/// directory whether `name` is present in it.
pub open spec fn first_match(dirs: Seq<Seq<char>>, name: Seq<char>, present: Seq<bool>) -> Option<
    Seq<char>,
> {
    match first_present(present) {
        Some(i) => Some(joined(dirs[i], name)),
        None => None,
    }
}

/// Searches `dirs` in order: the path of `name` in the first directory for
/// which `present` says it is there, if any.
pub fn find_in_dirs(dirs: &Vec<String>, name: &str, present: &Vec<bool>) -> (r: Option<String>)
    requires
        present@.len() == dirs@.len(),
    ensures
        r.is_some() == first_match(dirs.deep_view(), name@, present@).is_some(),
        r is Some ==> r->0@ == first_match(dirs.deep_view(), name@, present@)->0,
{
    let mut i: usize = 0;
    while i < dirs.len()
        invariant
            present@.len() == dirs@.len(),
            i <= dirs.len(),
            forall|j: int| 0 <= j < i ==> !present@[j],
        decreases dirs.len() - i,
    {
        if present[i] {
            proof {
                lemma_first_present(present@, i as int);
            }
            return Some(join_path(dirs[i].as_str(), name));
        }
        i = i + 1;
    }
    None
}

} // verus!
