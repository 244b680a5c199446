use vstd::prelude::*;

use crate::config::DynamicLinkingConfig;
use crate::error::AutowrapError;
use crate::paths::{contains_str, copy_strings, find_in_dirs, first_match, vec_contains};

verus! {

/// The declared library names that the skip-set does not hold, in order.
pub open spec fn without_skipped(names: Seq<Seq<char>>, config: DynamicLinkingConfig) -> Seq<
    Seq<char>,
>
    decreases names.len(),
{
    if names.len() == 0 {
        seq![]
    } else {
        let rest = without_skipped(names.drop_last(), config);
        if config.skips(names.last()) {
            rest
        } else {
            rest.push(names.last())
        }
    }
}

/// The names a closure starts from: the declared names outside the skip-set,
/// then the configured extra libraries.
pub open spec fn initial_needed(declared: Seq<Seq<char>>, config: DynamicLinkingConfig) -> Seq<
    Seq<char>,
> {
    without_skipped(declared, config) + config.extra_libraries.deep_view()
}

/// The outcome of a search, from the policy, whether the name is in the
/// skip-set, and whether it was found; `None` when the search is fatal.
pub open spec fn lookup_outcome(skip_unknown: bool, skipped: bool, found: bool) -> Option<
    LookupOutcome,
> {
    if !found {
        if skip_unknown {
            Some(LookupOutcome::Dropped)
        } else {
            None
        }
    } else if skipped {
        Some(LookupOutcome::SkipEmbedding)
    } else {
        Some(LookupOutcome::Embed)
    }
}

/// A library in the skip-set is never embedded; once found it is still
/// resolved and its own dependencies are followed.
pub proof fn skipped_library_is_not_embedded(skip_unknown: bool, found: bool)
    ensures
        lookup_outcome(skip_unknown, true, found) != Some(LookupOutcome::Embed),
        found ==> lookup_outcome(skip_unknown, true, found) == Some(LookupOutcome::SkipEmbedding),
{
}

/// A library found on no search path is dropped when unknown libraries are
/// skipped, and is fatal when they are not.
pub proof fn unknown_library_policy(skipped: bool)
    ensures
        lookup_outcome(true, skipped, false) == Some(LookupOutcome::Dropped),
        lookup_outcome(false, skipped, false) is None,
{
}

/// Searches the library search path in order for `library_name`, given for
/// each search directory whether it holds a file of that name: the path in
/// the first directory that does.
pub fn find_library(
    library_search_paths: &Vec<String>,
    library_name: &str,
    is_file: &Vec<bool>,
) -> (r: Option<String>)
    requires
        is_file@.len() == library_search_paths@.len(),
    ensures
        r.is_some() == first_match(library_search_paths.deep_view(), library_name@, is_file@).is_some(),
        r is Some ==> r->0@ == first_match(
            library_search_paths.deep_view(),
            library_name@,
            is_file@,
        )->0,
{
    find_in_dirs(library_search_paths, library_name, is_file)
}

/// What happened to a library name after its search.
#[derive(Debug, Clone, Copy, PartialEq, Eq)]
pub enum LookupOutcome {
    /// Found and to be embedded; its dependencies are to be followed.
    Embed,
    /// Found but in the skip-set: not embedded, dependencies still followed.
    SkipEmbedding,
    /// Not found, and unknown libraries are dropped.
    Dropped,
}

/// Breadth-first, name-deduplicated resolution of a library closure.
///
/// The caller drives it: it takes a name from [`LibraryClosure::next_library`],
/// searches [`LibraryClosure::search_paths`] for it, reports the search with
/// [`LibraryClosure::record_lookup`], and on a found library reports its
/// resource directory, its own needed libraries and the search directories its
/// pack brings.
pub struct LibraryClosure {
    queue: Vec<String>,
    head: usize,
    resolved: Vec<String>,
    library_dirs: Vec<String>,
    search_paths: Vec<String>,
    skip_libraries: Vec<String>,
    skip_unknown_libraries: bool,
}

impl LibraryClosure {
    /// Names still waiting in the work queue, front first.
    pub closed spec fn pending(&self) -> Seq<Seq<char>> {
        self.queue.deep_view().subrange(self.head as int, self.queue.len() as int)
    }

    /// Names already resolved, in the order they were found.
    pub closed spec fn resolved_names(&self) -> Seq<Seq<char>> {
        self.resolved.deep_view()
    }

    /// The resource library directories emitted so far, in discovery order.
    pub closed spec fn library_dirs_view(&self) -> Seq<Seq<char>> {
        self.library_dirs.deep_view()
    }

    /// The live library search path.
    pub closed spec fn search_paths_view(&self) -> Seq<Seq<char>> {
        self.search_paths.deep_view()
    }

    /// Whether the closure's skip-set holds `name`.
    pub closed spec fn skips(&self, name: Seq<char>) -> bool {
        contains_str(self.skip_libraries.deep_view(), name)
    }

    /// Whether names found on no search path are dropped.
    pub closed spec fn skips_unknown(&self) -> bool {
        self.skip_unknown_libraries
    }

    pub closed spec fn wf(&self) -> bool {
        &&& self.head <= self.queue.len()
        &&& self.resolved.deep_view().no_duplicates()
        &&& self.library_dirs.deep_view().no_duplicates()
    }

    /// Starts a closure from an artifact's declared needed libraries.
    pub fn new(
        config: &DynamicLinkingConfig,
        declared: &Vec<String>,
        library_search_paths: Vec<String>,
    ) -> (r: LibraryClosure)
        ensures
            r.wf(),
            r.pending() == initial_needed(declared.deep_view(), *config),
            r.resolved_names().len() == 0,
            r.library_dirs_view().len() == 0,
            r.search_paths_view() == library_search_paths.deep_view(),
            forall|n: Seq<char>| r.skips(n) == config.skips(n),
            r.skips_unknown() == config.skip_unknown_libraries,
    {
        let mut queue: Vec<String> = Vec::new();
        let mut i: usize = 0;
        while i < declared.len()
            invariant
                i <= declared.len(),
                queue.deep_view() == without_skipped(
                    declared.deep_view().subrange(0, i as int),
                    *config,
                ),
            decreases declared.len() - i,
        {
            let ghost before = queue.deep_view();
            assert(declared.deep_view().subrange(0, i + 1).drop_last() =~= declared.deep_view().subrange(0, i as int));
            if !config.is_skipped(declared[i].as_str()) {
                queue.push(declared[i].clone());
                assert(queue.deep_view() =~= before.push(declared.deep_view()[i as int]));
            }
            i = i + 1;
        }
        assert(declared.deep_view().subrange(0, declared.len() as int) =~= declared.deep_view());
        let mut j: usize = 0;
        let ghost base = queue.deep_view();
        while j < config.extra_libraries.len()
            invariant
                j <= config.extra_libraries.len(),
                queue.deep_view() == base + config.extra_libraries.deep_view().subrange(0, j as int),
            decreases config.extra_libraries.len() - j,
        {
            let ghost before = queue.deep_view();
            queue.push(config.extra_libraries[j].clone());
            assert(queue.deep_view() =~= before.push(config.extra_libraries.deep_view()[j as int]));
            assert(base + config.extra_libraries.deep_view().subrange(0, j + 1) =~= (base
                + config.extra_libraries.deep_view().subrange(0, j as int)).push(
                config.extra_libraries.deep_view()[j as int],
            ));
            j = j + 1;
        }
        assert(config.extra_libraries.deep_view().subrange(0, config.extra_libraries.len() as int)
            =~= config.extra_libraries.deep_view());
        let r = LibraryClosure {
            queue,
            head: 0,
            resolved: Vec::new(),
            library_dirs: Vec::new(),
            search_paths: library_search_paths,
            skip_libraries: copy_strings(&config.skip_libraries),
            skip_unknown_libraries: config.skip_unknown_libraries,
        };
        assert(r.pending() =~= r.queue.deep_view());
        assert(r.resolved.deep_view() =~= Seq::<Seq<char>>::empty());
        assert(r.library_dirs.deep_view() =~= Seq::<Seq<char>>::empty());
        r
    }

    /// Takes names from the front of the work queue until one that is not yet
    /// resolved; `None` once the queue is empty.
    pub fn next_library(&mut self) -> (r: Option<String>)
        requires
            old(self).wf(),
        ensures
            final(self).wf(),
            final(self).resolved_names() == old(self).resolved_names(),
            final(self).library_dirs_view() == old(self).library_dirs_view(),
            final(self).search_paths_view() == old(self).search_paths_view(),
            forall|n: Seq<char>| final(self).skips(n) == old(self).skips(n),
            final(self).skips_unknown() == old(self).skips_unknown(),
            r is None ==> final(self).pending().len() == 0 && forall|j: int|
                0 <= j < old(self).pending().len() ==> contains_str(
                    old(self).resolved_names(),
                    old(self).pending()[j],
                ),
            r is Some ==> exists|k: int|
                0 <= k < old(self).pending().len() && old(self).pending()[k] == r->0@
                    && !contains_str(old(self).resolved_names(), r->0@) && (forall|j: int|
                    0 <= j < k ==> contains_str(old(self).resolved_names(), old(self).pending()[j]))
                    && final(self).pending() == old(self).pending().subrange(
                    k + 1,
                    old(self).pending().len() as int,
                ),
    {
        let ghost start = self.head as int;
        while self.head < self.queue.len()
            invariant
                self.wf(),
                start <= self.head,
                self.queue == old(self).queue,
                self.resolved == old(self).resolved,
                self.library_dirs == old(self).library_dirs,
                self.search_paths == old(self).search_paths,
                self.skip_libraries == old(self).skip_libraries,
                self.skip_unknown_libraries == old(self).skip_unknown_libraries,
                start == old(self).head,
                forall|j: int|
                    start <= j < self.head ==> contains_str(
                        self.resolved.deep_view(),
                        self.queue.deep_view()[j],
                    ),
            decreases self.queue.len() - self.head,
        {
            let i = self.head;
            self.head = i + 1;
            if !vec_contains(&self.resolved, self.queue[i].as_str()) {
                let name = self.queue[i].clone();
                proof {
                    let k = i - start;
                    assert(old(self).pending()[k] == self.queue.deep_view()[i as int]);
                    assert forall|j: int| 0 <= j < k implies contains_str(
                        old(self).resolved_names(),
                        old(self).pending()[j],
                    ) by {
                        assert(old(self).pending()[j] == self.queue.deep_view()[start + j]);
                    }
                    assert(self.pending() =~= old(self).pending().subrange(
                        k + 1,
                        old(self).pending().len() as int,
                    ));
                }
                return Some(name);
            }
        }
        proof {
            assert(self.pending() =~= Seq::<Seq<char>>::empty());
            assert forall|j: int| 0 <= j < old(self).pending().len() implies contains_str(
                old(self).resolved_names(),
                old(self).pending()[j],
            ) by {
                assert(old(self).pending()[j] == self.queue.deep_view()[start + j]);
            }
        }
        None
    }

    /// The live library search path, in search order.
    pub fn search_paths(&self) -> (r: &Vec<String>)
        ensures
            r.deep_view() == self.search_paths_view(),
    {
        &self.search_paths
    }

    /// Records the search for `name`: `found` says whether some search
    /// directory held it. A found name becomes resolved. A name found on no
    /// search path is dropped when the policy says so, and fatal otherwise.
    pub fn record_lookup(&mut self, name: &str, found: bool) -> (r: Result<
        LookupOutcome,
        AutowrapError,
    >)
        requires
            old(self).wf(),
        ensures
            final(self).wf(),
            final(self).pending() == old(self).pending(),
            final(self).library_dirs_view() == old(self).library_dirs_view(),
            final(self).search_paths_view() == old(self).search_paths_view(),
            forall|n: Seq<char>| final(self).skips(n) == old(self).skips(n),
            final(self).skips_unknown() == old(self).skips_unknown(),
            r is Ok <==> lookup_outcome(old(self).skips_unknown(), old(self).skips(name@), found)
                is Some,
            r is Ok ==> lookup_outcome(old(self).skips_unknown(), old(self).skips(name@), found)
                == Some(r->Ok_0),
            r is Err ==> (r matches Err(AutowrapError::LibraryNotFound(s)) && s@ == name@),
            !found ==> final(self).resolved_names() == old(self).resolved_names(),
            found && !old(self).skips(name@) ==> r == Ok::<LookupOutcome, AutowrapError>(
                LookupOutcome::Embed,
            ),
            found && old(self).skips(name@) ==> r == Ok::<LookupOutcome, AutowrapError>(
                LookupOutcome::SkipEmbedding,
            ),
            found && contains_str(old(self).resolved_names(), name@) ==> final(self).resolved_names()
                == old(self).resolved_names(),
            found && !contains_str(old(self).resolved_names(), name@)
                ==> final(self).resolved_names() == old(self).resolved_names().push(name@),
    {
        if !found {
            if self.skip_unknown_libraries {
                return Ok(LookupOutcome::Dropped);
            } else {
                return Err(AutowrapError::LibraryNotFound(name.to_owned()));
            }
        }
        if !vec_contains(&self.resolved, name) {
            let ghost before = self.resolved.deep_view();
            self.resolved.push(name.to_owned());
            proof {
                assert(self.resolved.deep_view() =~= before.push(name@));
                assert forall|a: int, b: int|
                    0 <= a < b < self.resolved.deep_view().len() implies self.resolved.deep_view()[a]
                    != self.resolved.deep_view()[b] by {
                    if b == before.len() {
                        assert(before[a] != name@);
                    }
                }
            }
        }
        if vec_contains(&self.skip_libraries, name) {
            Ok(LookupOutcome::SkipEmbedding)
        } else {
            Ok(LookupOutcome::Embed)
        }
    }

    /// Records the resource directory of an embedded library; returns whether
    /// it was new. A directory is emitted at most once.
    pub fn record_library_dir(&mut self, dir: String) -> (r: bool)
        requires
            old(self).wf(),
        ensures
            final(self).wf(),
            final(self).pending() == old(self).pending(),
            final(self).resolved_names() == old(self).resolved_names(),
            final(self).search_paths_view() == old(self).search_paths_view(),
            forall|n: Seq<char>| final(self).skips(n) == old(self).skips(n),
            final(self).skips_unknown() == old(self).skips_unknown(),
            r == !contains_str(old(self).library_dirs_view(), dir@),
            r ==> final(self).library_dirs_view() == old(self).library_dirs_view().push(dir@),
            !r ==> final(self).library_dirs_view() == old(self).library_dirs_view(),
    {
        if vec_contains(&self.library_dirs, dir.as_str()) {
            return false;
        }
        let ghost before = self.library_dirs.deep_view();
        let ghost d = dir@;
        self.library_dirs.push(dir);
        proof {
            assert(self.library_dirs.deep_view() =~= before.push(d));
            assert forall|a: int, b: int|
                0 <= a < b < self.library_dirs.deep_view().len() implies self.library_dirs.deep_view()[a]
                != self.library_dirs.deep_view()[b] by {
                if b == before.len() {
                    assert(before[a] != d);
                }
            }
        }
        true
    }

    /// Appends a found library's own needed libraries to the back of the
    /// work queue.
    pub fn enqueue(&mut self, names: &Vec<String>)
        requires
            old(self).wf(),
        ensures
            final(self).wf(),
            final(self).pending() == old(self).pending() + names.deep_view(),
            final(self).resolved_names() == old(self).resolved_names(),
            final(self).library_dirs_view() == old(self).library_dirs_view(),
            final(self).search_paths_view() == old(self).search_paths_view(),
            forall|n: Seq<char>| final(self).skips(n) == old(self).skips(n),
            final(self).skips_unknown() == old(self).skips_unknown(),
    {
        let mut i: usize = 0;
        while i < names.len()
            invariant
                self.wf(),
                i <= names.len(),
                self.head == old(self).head,
                self.resolved == old(self).resolved,
                self.library_dirs == old(self).library_dirs,
                self.search_paths == old(self).search_paths,
                self.skip_libraries == old(self).skip_libraries,
                self.skip_unknown_libraries == old(self).skip_unknown_libraries,
                self.queue.deep_view() == old(self).queue.deep_view() + names.deep_view().subrange(
                    0,
                    i as int,
                ),
            decreases names.len() - i,
        {
            let ghost before = self.queue.deep_view();
            self.queue.push(names[i].clone());
            assert(self.queue.deep_view() =~= before.push(names.deep_view()[i as int]));
            assert(old(self).queue.deep_view() + names.deep_view().subrange(0, i + 1) =~= before.push(
                names.deep_view()[i as int],
            ));
            i = i + 1;
        }
        assert(names.deep_view().subrange(0, names.len() as int) =~= names.deep_view());
        assert(self.pending() =~= old(self).pending() + names.deep_view());
    }

    /// Appends a directory, brought by an already-packed dependency, to the
    /// live search path.
    pub fn add_search_path(&mut self, dir: String)
        requires
            old(self).wf(),
        ensures
            final(self).wf(),
            final(self).pending() == old(self).pending(),
            final(self).resolved_names() == old(self).resolved_names(),
            final(self).library_dirs_view() == old(self).library_dirs_view(),
            final(self).search_paths_view() == old(self).search_paths_view().push(dir@),
            forall|n: Seq<char>| final(self).skips(n) == old(self).skips(n),
            final(self).skips_unknown() == old(self).skips_unknown(),
    {
        let ghost before = self.search_paths.deep_view();
        let ghost d = dir@;
        self.search_paths.push(dir);
        assert(self.search_paths.deep_view() =~= before.push(d));
    }

    /// The emitted resource library directories, in discovery order.
    pub fn into_library_dirs(self) -> (r: Vec<String>)
        ensures
            r.deep_view() == self.library_dirs_view(),
    {
        self.library_dirs
    }
}

/// A closure never resolves the same library name twice and never emits the
/// same resource directory twice, however many dependency edges lead to them.
pub proof fn closure_never_repeats(c: &LibraryClosure)
    requires
        c.wf(),
    ensures
        c.resolved_names().no_duplicates(),
        c.library_dirs_view().no_duplicates(),
{
}

} // verus!
