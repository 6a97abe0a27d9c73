//! Paths, as text.

use vstd::prelude::*;

use crate::error::CliError;

verus! {

/// What the file system says about a path: its canonical form, where it has one, and the
/// current directory.
#[derive(Debug)]
pub struct Location {
    pub canonical: Option<String>,
    pub cwd: String,
}

/// `path` starts at the root.
pub open spec fn is_rooted(path: Seq<char>) -> bool {
    path.len() > 0 && path[0] == '/'
}

/// `path` below `base`: a separator goes between them where `base` does not end in one.
pub open spec fn joined(base: Seq<char>, path: Seq<char>) -> Seq<char> {
    if base.len() == 0 || base.last() == '/' {
        base + path
    } else {
        base + "/"@ + path
    }
}

/// `path` made absolute: its canonical form if it has one, else `path` itself if it starts at
/// the root, else `path` below the current directory.
pub open spec fn absolute(path: Seq<char>, at: Location) -> Seq<char> {
    match at.canonical {
        Some(c) => c@,
        None => if is_rooted(path) {
            path
        } else {
            joined(at.cwd@, path)
        },
    }
}

/// Puts `path`, which does not start at the root, below `base`.
pub fn join(base: &str, path: &str) -> (r: String)
    requires
        !is_rooted(path@),
    ensures
        r@ == joined(base@, path@),
{
    let n = base.unicode_len();
    let mut r = base.to_owned();
    if n > 0 && base.get_char(n - 1) != '/' {
        r.append("/");
    }
    r.append(path);
    r
}

/// Makes a path absolute.
pub fn absolutise(path: &str, at: &Location) -> (r: String)
    ensures
        r@ == absolute(path@, *at),
{
    match &at.canonical {
        Some(c) => c.clone(),
        None => if path.unicode_len() > 0 && path.get_char(0) == '/' {
            path.to_owned()
        } else {
            join(at.cwd.as_str(), path)
        },
    }
}

/// The path that `std::path::Path::parent` gives for `path`, on a Unix system.
pub uninterp spec fn parent_of(path: Seq<char>) -> Option<Seq<char>>;

/// `std::path::Path::parent` returns the path without its final component, and nothing where
/// there is no such component.
#[verifier::external_body]
fn parent(path: &str) -> (r: Option<String>)
    ensures
        r is Some <==> parent_of(path@) is Some,
        r matches Some(p) ==> parent_of(path@) == Some(p@),
{
    std::path::Path::new(path).parent().and_then(|p| p.to_str()).map(|p| p.to_owned())
}

/// The directory of the daemon's state, once the directory of its socket is known.
pub fn state_dir(parent: Option<String>) -> (r: Result<String, CliError>)
    ensures
        match parent {
            Some(p) => r is Ok && r->Ok_0@ == p@,
            None => r is Err && r->Err_0 == CliError::NoStateDir,
        },
{
    match parent {
        Some(p) => Ok(p),
        None => Err(CliError::NoStateDir),
    }
}

/// The directory of the daemon's state: the one that holds its socket.
pub fn watchwoman_state_dir(socket: &str) -> (r: Result<String, CliError>)
    ensures
        match parent_of(socket@) {
            Some(p) => r is Ok && r->Ok_0@ == p,
            None => r is Err && r->Err_0 == CliError::NoStateDir,
        },
{
    state_dir(parent(socket))
}

/// The index at which the final component of the first `n` characters of `path` begins.
pub open spec fn name_start(path: Seq<char>, n: int) -> int
    decreases n,
{
    if n <= 0 || path[n - 1] == '/' {
        n
    } else {
        name_start(path, n - 1)
    }
}

/// The index of the last dot in the final component of the first `n` characters of `path`; the
/// length of `path` where there is none.
pub open spec fn last_dot(path: Seq<char>, n: int) -> int
    decreases n,
{
    if n <= 0 || path[n - 1] == '/' {
        path.len() as int
    } else if path[n - 1] == '.' {
        n - 1
    } else {
        last_dot(path, n - 1)
    }
}

/// `path` ends in the name of a file that does not start with a dot.
pub open spec fn is_named(path: Seq<char>) -> bool {
    path.len() > 0 && path.last() != '/' && path[name_start(path, path.len() as int)] != '.'
}

/// `path` without the extension of its final component: without its last dot and what follows.
pub open spec fn without_extension(path: Seq<char>) -> Seq<char> {
    path.take(last_dot(path, path.len() as int))
}

/// The path that `std::path::Path::with_extension` gives for `path` and `extension`, on a Unix
/// system.
pub uninterp spec fn extended(path: Seq<char>, extension: Seq<char>) -> Seq<char>;

/// `std::path::Path::with_extension` gives a path another extension, or one where it has none.
/// The extension is what follows the last dot of the file name, unless that dot is its first
/// character. Of paths that end otherwise than in such a name (in a separator, a hidden file,
/// `.` or `..`), only that the result depends on the two arguments is claimed. It panics where
/// the extension holds a separator.
#[verifier::external_body]
fn with_extension(path: &str, extension: &str) -> (r: String)
    requires
        !extension@.contains('/'),
    ensures
        r@ == extended(path@, extension@),
        is_named(path@) && extension@.len() > 0 ==> r@ == without_extension(path@) + "."@
            + extension@,
{
    std::path::Path::new(path).with_extension(extension).to_string_lossy().into_owned()
}

/// The log of a daemon that is started on `socket`: the socket's path with the extension `log`.
pub fn daemon_log(socket: &str) -> (r: String)
    ensures
        r@ == extended(socket@, "log"@),
        is_named(socket@) ==> r@ == without_extension(socket@) + "."@ + "log"@,
{
    proof {
        reveal_strlit("log");
    }
    with_extension(socket, "log")
}

/// A path below a directory begins with the directory and ends with the path. What stands
/// between them is one separator, or nothing where the directory ends in one or is empty.
pub proof fn joined_holds_both(base: Seq<char>, path: Seq<char>)
    ensures
        base.is_prefix_of(joined(base, path)),
        joined(base, path).skip(joined(base, path).len() - path.len()) == path,
        base.len() == 0 || base.last() == '/' ==> joined(base, path).len() == base.len()
            + path.len(),
        base.len() > 0 && base.last() != '/' ==> joined(base, path).len() == base.len() + 1
            + path.len() && joined(base, path)[base.len() as int] == '/',
{
    reveal_strlit("/");
    assert(joined(base, path).take(base.len() as int) =~= base);
    assert(joined(base, path).skip(joined(base, path).len() - path.len()) =~= path);
}

/// It does not matter whether a path is put below a directory at once or piece by piece.
pub proof fn joining_is_associative(a: Seq<char>, b: Seq<char>, c: Seq<char>)
    requires
        b.len() > 0,
    ensures
        joined(joined(a, b), c) == joined(a, joined(b, c)),
{
    reveal_strlit("/");
    let s = "/"@;
    let x = if a.len() == 0 || a.last() == '/' {
        a
    } else {
        a + s
    };
    let y = if b.last() == '/' {
        b
    } else {
        b + s
    };
    assert(joined(a, b) == x + b);
    assert(joined(b, c) == y + c);
    assert(joined(a, joined(b, c)) == x + (y + c));
    assert((x + b).last() == b.last());
    assert(x + (b + s) =~= (x + b) + s);
    assert(joined(x + b, c) == (x + y) + c);
    assert((x + y) + c =~= x + (y + c));
}

/// Where a path has a canonical form, that is the absolute path, whatever else is known. Where it
/// has none, a path that starts at the root is kept as it is, wherever the client runs, and any
/// other is put below the current directory.
pub proof fn absolute_prefers_the_canonical_form(path: Seq<char>, at: Location)
    ensures
        at.canonical matches Some(c) ==> absolute(path, at) == c@,
        at.canonical is None && path.len() > 0 && path[0] == '/' ==> absolute(path, at) == path,
        at.canonical is None && (path.len() == 0 || path[0] != '/') ==> {
            &&& at.cwd@.is_prefix_of(absolute(path, at))
            &&& absolute(path, at).skip(absolute(path, at).len() - path.len()) == path
            &&& absolute(path, at) == joined(at.cwd@, path)
        },
{
    joined_holds_both(at.cwd@, path);
}

/// The extension of a file is what follows the last dot of its name. A name without a dot has
/// none, and dots in the names of directories do not count.
pub proof fn extension_is_the_end_of_the_name(
    dir: Seq<char>,
    stem: Seq<char>,
    extension: Seq<char>,
)
    requires
        dir.len() == 0 || dir.last() == '/',
        stem.len() > 0,
        stem[0] != '.',
        !stem.contains('/'),
        !extension.contains('/'),
        !extension.contains('.'),
    ensures
        is_named(dir + stem),
        is_named(dir + stem + seq!['.'] + extension),
        without_extension(dir + stem + seq!['.'] + extension) == dir + stem,
        !stem.contains('.') ==> without_extension(dir + stem) == dir + stem,
{
    let bare = dir + stem;
    let full = bare + seq!['.'] + extension;
    assert forall|i: int| 0 <= i < stem.len() implies stem[i] != '/' by {
        assert(stem.contains(stem[i]));
    }
    assert forall|i: int| 0 <= i < extension.len() implies extension[i] != '/' && extension[i]
        != '.' by {
        assert(extension.contains(extension[i]));
    }
    name_starts_after(bare, dir.len() as int, bare.len() as int);
    name_starts_after(full, dir.len() as int, full.len() as int);
    dot_is_found(full, bare.len() as int, full.len() as int);
    assert(full.take(bare.len() as int) =~= bare);
    assert(full[dir.len() as int] == stem[0]);
    assert(bare[dir.len() as int] == stem[0]);
    if !stem.contains('.') {
        assert forall|i: int| dir.len() <= i < bare.len() implies bare[i] != '.' by {
            assert(stem.contains(stem[i - dir.len()]));
        }
        no_dot_is_found(bare, dir.len() as int, bare.len() as int);
        assert(bare.take(bare.len() as int) =~= bare);
    }
}

proof fn name_starts_after(path: Seq<char>, start: int, n: int)
    requires
        0 <= start <= n <= path.len(),
        start == 0 || path[start - 1] == '/',
        forall|i: int| start <= i < n ==> path[i] != '/',
    ensures
        name_start(path, n) == start,
    decreases n,
{
    if n > start {
        name_starts_after(path, start, n - 1);
    }
}

proof fn dot_is_found(path: Seq<char>, dot: int, n: int)
    requires
        0 <= dot < n <= path.len(),
        path[dot] == '.',
        forall|i: int| dot < i < n ==> path[i] != '/' && path[i] != '.',
    ensures
        last_dot(path, n) == dot,
    decreases n,
{
    if n > dot + 1 {
        dot_is_found(path, dot, n - 1);
    }
}

proof fn no_dot_is_found(path: Seq<char>, start: int, n: int)
    requires
        0 <= start <= n <= path.len(),
        start == 0 || path[start - 1] == '/',
        forall|i: int| start <= i < n ==> path[i] != '/' && path[i] != '.',
    ensures
        last_dot(path, n) == path.len(),
    decreases n,
{
    if n > start {
        no_dot_is_found(path, start, n - 1);
    }
}

/// An absolute path is left as it is where it has no canonical form.
pub proof fn absolute_is_stable(path: Seq<char>, at: Location)
    requires
        is_rooted(at.cwd@),
        at.canonical matches Some(c) ==> is_rooted(c@),
    ensures
        is_rooted(absolute(path, at)),
        absolute(absolute(path, at), (Location { canonical: None, cwd: at.cwd })) == absolute(
            path,
            at,
        ),
{
}

} // verus!
