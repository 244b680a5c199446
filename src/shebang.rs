use vstd::prelude::*;
use vstd::string::*;

use crate::error::AutowrapError;

verus! {

/// Unicode `White_Space`, the characters that `str::trim` removes.
pub open spec fn is_white_space(c: char) -> bool {
    let u = c as u32;
    (0x09 <= u <= 0x0D) || u == 0x20 || u == 0x85 || u == 0xA0 || u == 0x1680 || (0x2000 <= u
        <= 0x200A) || u == 0x2028 || u == 0x2029 || u == 0x202F || u == 0x205F || u == 0x3000
}

/// ASCII whitespace: space, tab, line feed, form feed, carriage return.
pub open spec fn is_ascii_white_space(c: char) -> bool {
    c == ' ' || c == '\t' || c == '\n' || c == '\x0C' || c == '\r'
}

/// A path separator, `/` or `\`.
pub open spec fn is_separator(c: char) -> bool {
    c == '/' || c == '\\'
}

pub open spec fn trim_start(s: Seq<char>) -> Seq<char>
    decreases s.len(),
{
    if s.len() > 0 && is_white_space(s[0]) {
        trim_start(s.drop_first())
    } else {
        s
    }
}

pub open spec fn trim_end(s: Seq<char>) -> Seq<char>
    decreases s.len(),
{
    if s.len() > 0 && is_white_space(s.last()) {
        trim_end(s.drop_last())
    } else {
        s
    }
}

/// `s` without leading and trailing white space.
pub open spec fn trim(s: Seq<char>) -> Seq<char> {
    trim_end(trim_start(s))
}

/// `i` is the first index of ASCII white space in `s`.
pub open spec fn first_ascii_space_at(s: Seq<char>, i: int) -> bool {
    0 <= i < s.len() && is_ascii_white_space(s[i]) && forall|j: int|
        0 <= j < i ==> !is_ascii_white_space(s[j])
}

/// `s` split at its first ASCII white space, each side trimmed; without such
/// a character, `s` itself and an empty rest.
pub open spec fn split_first_space(s: Seq<char>) -> (Seq<char>, Seq<char>) {
    if exists|i: int| first_ascii_space_at(s, i) {
        let i = choose|i: int| first_ascii_space_at(s, i);
        (trim(s.subrange(0, i)), trim(s.subrange(i + 1, s.len() as int)))
    } else {
        (s, seq![])
    }
}

/// `i` is the last index of a separator in `s`.
pub open spec fn last_separator_at(s: Seq<char>, i: int) -> bool {
    0 <= i < s.len() && is_separator(s[i]) && forall|j: int| i < j < s.len() ==> !is_separator(s[j])
}

/// What follows the last separator of `s`; `s` itself without a separator.
pub open spec fn base_name(s: Seq<char>) -> Seq<char> {
    if exists|i: int| last_separator_at(s, i) {
        let i = choose|i: int| last_separator_at(s, i);
        s.subrange(i + 1, s.len() as int)
    } else {
        s
    }
}

/// The command name and the optional argument of the interpreter line that
/// follows `#!`; `None` when an `env` line names no command. The line is
/// trimmed and split at its first ASCII white space into a command path and
/// one argument string. Under `env`, the first word of the argument is the
/// command and no argument is kept.
pub open spec fn shebang_of(line: Seq<char>) -> Option<(Seq<char>, Option<Seq<char>>)> {
    let parts = split_first_space(trim(line));
    let name = base_name(parts.0);
    let arg = parts.1;
    if name == seq!['e', 'n', 'v'] {
        if arg.len() == 0 {
            None
        } else {
            Some((split_first_space(arg).0, None))
        }
    } else {
        Some(
            (
                name,
                if arg.len() == 0 {
                    None
                } else {
                    Some(arg)
                },
            ),
        )
    }
}

/// The command name [`shebang_of`] gives for `line`.
pub open spec fn shebang_command_of(line: Seq<char>) -> Seq<char> {
    match shebang_of(line) {
        Some((name, _)) => name,
        None => seq![],
    }
}

/// The argument [`shebang_of`] gives for `line`.
pub open spec fn shebang_arg_of(line: Seq<char>) -> Option<Seq<char>> {
    match shebang_of(line) {
        Some((_, arg)) => arg,
        None => None,
    }
}

/// The interpreter a script names.
#[derive(Debug, Clone, PartialEq, Eq)]
pub struct ShebangCommand {
    /// The base name of the command, searched on the command search path.
    pub command_name: String,
    /// The one argument passed before the script, if any.
    pub arg: Option<String>,
}

fn is_white_space_char(c: char) -> (r: bool)
    ensures
        r == is_white_space(c),
{
    let u = c as u32;
    (0x09 <= u && u <= 0x0D) || u == 0x20 || u == 0x85 || u == 0xA0 || u == 0x1680 || (0x2000 <= u
        && u <= 0x200A) || u == 0x2028 || u == 0x2029 || u == 0x202F || u == 0x205F || u == 0x3000
}

/// The bounds, within `lo..hi` of `s`, of that range trimmed.
fn trim_bounds(s: &str, lo: usize, hi: usize) -> (r: (usize, usize))
    requires
        lo <= hi <= s@.len(),
    ensures
        lo <= r.0 <= r.1 <= hi,
        s@.subrange(r.0 as int, r.1 as int) == trim(s@.subrange(lo as int, hi as int)),
{
    let mut a = lo;
    while a < hi && is_white_space_char(s.get_char(a))
        invariant
            lo <= a <= hi <= s@.len(),
            trim_start(s@.subrange(lo as int, hi as int)) == trim_start(
                s@.subrange(a as int, hi as int),
            ),
        decreases hi - a,
    {
        assert(s@.subrange(a as int, hi as int).drop_first() =~= s@.subrange(a + 1, hi as int));
        a = a + 1;
    }
    assert(trim_start(s@.subrange(a as int, hi as int)) == s@.subrange(a as int, hi as int));
    let mut b = hi;
    while b > a && is_white_space_char(s.get_char(b - 1))
        invariant
            lo <= a <= b <= hi <= s@.len(),
            trim(s@.subrange(lo as int, hi as int)) == trim_end(s@.subrange(a as int, b as int)),
        decreases b - a,
    {
        assert(s@.subrange(a as int, b as int).drop_last() =~= s@.subrange(a as int, b - 1));
        b = b - 1;
    }
    (a, b)
}

/// The first index of ASCII white space in `lo..hi` of `s`, if any.
fn find_ascii_space(s: &str, lo: usize, hi: usize) -> (r: Option<usize>)
    requires
        lo <= hi <= s@.len(),
    ensures
        r is Some ==> lo <= r->0 < hi && first_ascii_space_at(
            s@.subrange(lo as int, hi as int),
            r->0 - lo,
        ),
        r is None ==> !exists|i: int| first_ascii_space_at(s@.subrange(lo as int, hi as int), i),
{
    let ghost t = s@.subrange(lo as int, hi as int);
    let mut i = lo;
    while i < hi
        invariant
            lo <= i <= hi <= s@.len(),
            t == s@.subrange(lo as int, hi as int),
            forall|j: int| 0 <= j < i - lo ==> !is_ascii_white_space(t[j]),
        decreases hi - i,
    {
        let c = s.get_char(i);
        if c == ' ' || c == '\t' || c == '\n' || c == '\x0C' || c == '\r' {
            assert(t[i - lo] == c);
            return Some(i);
        }
        i = i + 1;
    }
    assert forall|k: int| !first_ascii_space_at(t, k) by {
        if 0 <= k < t.len() {
            assert(!is_ascii_white_space(t[k]));
        }
    }
    None
}

proof fn lemma_first_ascii_space_unique(s: Seq<char>, k: int)
    requires
        first_ascii_space_at(s, k),
    ensures
        (choose|i: int| first_ascii_space_at(s, i)) == k,
{
    let w = choose|i: int| first_ascii_space_at(s, i);
    assert(first_ascii_space_at(s, w));
    if w < k {
        assert(!is_ascii_white_space(s[w]));
    }
    if k < w {
        assert(!is_ascii_white_space(s[k]));
    }
}

/// The bounds of the first word of `lo..hi` of `s` and of the trimmed rest,
/// as [`split_first_space`] describes.
fn split_bounds(s: &str, lo: usize, hi: usize) -> (r: (usize, usize, usize, usize))
    requires
        lo <= hi <= s@.len(),
    ensures
        lo <= r.0 <= r.1 <= hi,
        r.2 <= r.3 <= hi,
        s@.subrange(r.0 as int, r.1 as int) == split_first_space(
            s@.subrange(lo as int, hi as int),
        ).0,
        s@.subrange(r.2 as int, r.3 as int) == split_first_space(
            s@.subrange(lo as int, hi as int),
        ).1,
{
    let ghost t = s@.subrange(lo as int, hi as int);
    match find_ascii_space(s, lo, hi) {
        Some(i) => {
            proof {
                lemma_first_ascii_space_unique(t, i - lo);
                assert(t.subrange(0, i - lo) =~= s@.subrange(lo as int, i as int));
                assert(t.subrange(i - lo + 1, t.len() as int) =~= s@.subrange(i + 1, hi as int));
            }
            let (a, b) = trim_bounds(s, lo, i);
            let (c, d) = trim_bounds(s, i + 1, hi);
            (a, b, c, d)
        },
        None => {
            assert(s@.subrange(hi as int, hi as int) =~= Seq::<char>::empty());
            (lo, hi, hi, hi)
        },
    }
}

/// The start of the base name within `lo..hi` of `s`.
fn base_name_start(s: &str, lo: usize, hi: usize) -> (r: usize)
    requires
        lo <= hi <= s@.len(),
    ensures
        lo <= r <= hi,
        s@.subrange(r as int, hi as int) == base_name(s@.subrange(lo as int, hi as int)),
{
    let ghost t = s@.subrange(lo as int, hi as int);
    let mut i = hi;
    while i > lo
        invariant
            lo <= i <= hi <= s@.len(),
            t == s@.subrange(lo as int, hi as int),
            forall|j: int| i - lo <= j < t.len() ==> !is_separator(t[j]),
        decreases i - lo,
    {
        let c = s.get_char(i - 1);
        if c == '/' || c == '\\' {
            proof {
                let k = i - 1 - lo;
                assert(t[k] == c);
                assert(last_separator_at(t, k));
                let w = choose|x: int| last_separator_at(t, x);
                assert(last_separator_at(t, w));
                if w < k {
                    assert(!is_separator(t[k]));
                }
                if k < w {
                    assert(!is_separator(t[w]));
                }
                assert(t.subrange(k + 1, t.len() as int) =~= s@.subrange(i as int, hi as int));
            }
            return i;
        }
        i = i - 1;
    }
    assert forall|k: int| !last_separator_at(t, k) by {
        if 0 <= k < t.len() {
            assert(!is_separator(t[k]));
        }
    }
    i
}

/// Whether `lo..hi` of `s` reads `env`.
fn is_env(s: &str, lo: usize, hi: usize) -> (r: bool)
    requires
        lo <= hi <= s@.len(),
    ensures
        r == (s@.subrange(lo as int, hi as int) == seq!['e', 'n', 'v']),
{
    if hi - lo != 3 {
        assert(seq!['e', 'n', 'v'].len() == 3);
        return false;
    }
    let r = s.get_char(lo) == 'e' && s.get_char(lo + 1) == 'n' && s.get_char(lo + 2) == 'v';
    proof {
        let t = s@.subrange(lo as int, hi as int);
        if r {
            assert(t =~= seq!['e', 'n', 'v']);
        } else {
            if t == seq!['e', 'n', 'v'] {
                assert(t[0] == 'e' && t[1] == 'n' && t[2] == 'v');
            }
        }
    }
    r
}

/// Parses the interpreter line of a script: the text after `#!` up to and
/// including the end of the first line.
pub fn parse_shebang_line(line: &str) -> (r: Result<ShebangCommand, AutowrapError>)
    ensures
        r is Ok <==> shebang_of(line@) is Some,
        r is Ok ==> r->Ok_0.command_name@ == shebang_command_of(line@),
        r is Ok ==> (match (r->Ok_0.arg, shebang_arg_of(line@)) {
            (Some(a), Some(b)) => a@ == b,
            (None, None) => true,
            _ => false,
        }),
        r is Err ==> r == Err::<ShebangCommand, AutowrapError>(AutowrapError::MissingEnvCommand),
{
    let n = line.unicode_len();
    let (t0, t1) = trim_bounds(line, 0, n);
    assert(line@.subrange(0, n as int) =~= line@);
    let (c0, c1, a0, a1) = split_bounds(line, t0, t1);
    let b0 = base_name_start(line, c0, c1);
    if is_env(line, b0, c1) {
        if a0 == a1 {
            return Err(AutowrapError::MissingEnvCommand);
        }
        let (w0, w1, _, _) = split_bounds(line, a0, a1);
        let name = line.substring_char(w0, w1).to_owned();
        Ok(ShebangCommand { command_name: name, arg: None })
    } else {
        let name = line.substring_char(b0, c1).to_owned();
        let arg = if a0 == a1 {
            None
        } else {
            Some(line.substring_char(a0, a1).to_owned())
        };
        Ok(ShebangCommand { command_name: name, arg })
    }
}

} // verus!
