use vstd::prelude::*;
use vstd::string::*;

use crate::config::RewrapConfig;
use crate::error::AutowrapError;
use crate::paths::{join_path, joined};

verus! {

/// The interpreter path relative to a link-dependency root: the absolute
/// `interpreter` without its leading `/`.
pub fn relative_interpreter(interpreter: &str) -> (r: Result<String, AutowrapError>)
    ensures
        r is Ok <==> (interpreter@.len() > 0 && interpreter@[0] == '/'),
        r is Ok ==> r->Ok_0@ == interpreter@.drop_first(),
        r is Err ==> (r matches Err(AutowrapError::InterpreterNotAbsolute(s)) && s@
            == interpreter@),
{
    let n = interpreter.unicode_len();
    if n > 0 && interpreter.get_char(0) == '/' {
        let rest = interpreter.substring_char(1, n);
        assert(interpreter@.subrange(1, n as int) =~= interpreter@.drop_first());
        Ok(rest.to_owned())
    } else {
        Err(AutowrapError::InterpreterNotAbsolute(interpreter.to_owned()))
    }
}

/// Rewrapping an already-packed artifact: not implemented, so it fails
/// whether or not a rewrap policy is configured.
pub fn autowrap_rewrap(config: &Option<RewrapConfig>, source_path: &str) -> (r: Result<
    bool,
    AutowrapError,
>)
    ensures
        r matches Err(AutowrapError::RewrapNotImplemented(s)) && s@ == source_path@,
{
    Err(AutowrapError::RewrapNotImplemented(source_path.to_owned()))
}

/// The link-dependency roots in search order: the recipe itself first when
/// it depends on itself, then the configured roots.
pub fn link_dependencies(recipe_path: &str, self_dependency: bool, configured: &Vec<String>) -> (r:
    Vec<String>)
    ensures
        r.deep_view() == (if self_dependency {
            seq![recipe_path@]
        } else {
            Seq::<Seq<char>>::empty()
        }) + configured.deep_view(),
{
    let mut r: Vec<String> = Vec::new();
    if self_dependency {
        r.push(recipe_path.to_owned());
    }
    let ghost base = r.deep_view();
    assert(base =~= (if self_dependency {
        seq![recipe_path@]
    } else {
        Seq::<Seq<char>>::empty()
    }));
    let mut i: usize = 0;
    while i < configured.len()
        invariant
            i <= configured.len(),
            r.deep_view() == base + configured.deep_view().subrange(0, i as int),
        decreases configured.len() - i,
    {
        let ghost before = r.deep_view();
        r.push(configured[i].clone());
        assert(r.deep_view() =~= before.push(configured.deep_view()[i as int]));
        assert(base + configured.deep_view().subrange(0, i + 1) =~= before.push(
            configured.deep_view()[i as int],
        ));
        i = i + 1;
    }
    assert(configured.deep_view().subrange(0, configured.len() as int) =~= configured.deep_view());
    r
}

/// One argument of a wrapped script's invocation.
#[derive(Debug, Clone, PartialEq, Eq)]
pub enum InvocationArg {
    /// A literal argument.
    Literal(String),
    /// The path of the script's own resource.
    ScriptResource,
    /// Every argument given when the wrapped script is run.
    Rest,
}

/// The arguments after the command: the shebang's argument when there is a
/// non-empty one, then the script, then the run-time arguments.
pub fn script_invocation(arg: &Option<String>) -> (r: Vec<InvocationArg>)
    ensures
        (arg matches Some(a) && a@.len() > 0) ==> r@.len() == 3 && (r@[0] matches InvocationArg::Literal(
            s,
        ) && s@ == arg->0@) && r@[1] == InvocationArg::ScriptResource && r@[2]
            == InvocationArg::Rest,
        !(arg matches Some(a) && a@.len() > 0) ==> r@.len() == 2 && r@[0]
            == InvocationArg::ScriptResource && r@[1] == InvocationArg::Rest,
{
    let mut r: Vec<InvocationArg> = Vec::new();
    match arg {
        Some(a) => {
            if a.as_str().unicode_len() > 0 {
                r.push(InvocationArg::Literal(a.as_str().to_owned()));
            }
        },
        None => {},
    }
    r.push(InvocationArg::ScriptResource);
    r.push(InvocationArg::Rest);
    r
}

/// Accepts an entry of a link dependency's environment directory only when
/// it is a symlink.
pub fn require_symlink(path: &str, is_symlink: bool) -> (r: Result<(), AutowrapError>)
    ensures
        r is Ok <==> is_symlink,
        r is Err ==> (r matches Err(AutowrapError::NotASymlink(s)) && s@ == path@),
{
    if is_symlink {
        Ok(())
    } else {
        Err(AutowrapError::NotASymlink(path.to_owned()))
    }
}

/// The `bin` directories of the roots for which `bin_is_dir` holds, in order.
pub open spec fn bin_dirs(roots: Seq<Seq<char>>, bin_is_dir: Seq<bool>) -> Seq<Seq<char>>
    decreases roots.len(),
{
    if roots.len() == 0 || bin_is_dir.len() != roots.len() {
        seq![]
    } else {
        let rest = bin_dirs(roots.drop_last(), bin_is_dir.drop_last());
        if bin_is_dir.last() {
            rest.push(joined(roots.last(), seq!['b', 'i', 'n']))
        } else {
            rest
        }
    }
}

/// The command search path: the targets of every root's `PATH` symlinks, in
/// root order, then the `bin` directory of each root that has one.
pub fn command_search_paths(
    path_targets: Vec<String>,
    roots: &Vec<String>,
    bin_is_dir: &Vec<bool>,
) -> (r: Vec<String>)
    requires
        bin_is_dir@.len() == roots@.len(),
    ensures
        r.deep_view() == path_targets.deep_view() + bin_dirs(roots.deep_view(), bin_is_dir@),
{
    let mut r = path_targets;
    let ghost base = r.deep_view();
    let mut i: usize = 0;
    assert(roots.deep_view().subrange(0, 0) =~= Seq::<Seq<char>>::empty());
    assert(base + Seq::<Seq<char>>::empty() =~= base);
    while i < roots.len()
        invariant
            i <= roots.len(),
            bin_is_dir@.len() == roots@.len(),
            r.deep_view() == base + bin_dirs(
                roots.deep_view().subrange(0, i as int),
                bin_is_dir@.subrange(0, i as int),
            ),
        decreases roots.len() - i,
    {
        proof {
            assert(roots.deep_view().subrange(0, i + 1).drop_last() =~= roots.deep_view().subrange(0, i as int));
            assert(bin_is_dir@.subrange(0, i + 1).drop_last() =~= bin_is_dir@.subrange(0, i as int));
        }
        if bin_is_dir[i] {
            let ghost before = r.deep_view();
            let bin = join_path(roots[i].as_str(), "bin");
            proof {
                reveal_strlit("bin");
                assert("bin"@ =~= seq!['b', 'i', 'n']);
            }
            r.push(bin);
            assert(r.deep_view() =~= before.push(joined(roots.deep_view()[i as int], seq!['b', 'i', 'n'])));
        }
        i = i + 1;
    }
    assert(roots.deep_view().subrange(0, roots.len() as int) =~= roots.deep_view());
    assert(bin_is_dir@.subrange(0, roots.len() as int) =~= bin_is_dir@);
    r
}

} // verus!
