//! Finding a project's script library: what it is called, and when loading it
//! is refused.

use crate::capture::{file_in, join_path};
use crate::text::{chars, find, find_char, joined, lemma_find, reads, replace, replaced, slice, text};
use vstd::prelude::*;
use vstd::string::*;

verus! {

/// The last component of a path that names something: empty ones and single
/// dots do not count.
pub open spec fn last_part(path: Seq<char>) -> Option<Seq<char>>
    decreases path.len(),
{
    let i = find(path, '/', 0);
    if i >= path.len() {
        if path.len() == 0 || path == "."@ {
            None
        } else {
            Some(path)
        }
    } else {
        match last_part(path.skip(i as int + 1)) {
            Some(p) => Some(p),
            None => if i == 0 || path.take(i as int) == "."@ {
                None
            } else {
                Some(path.take(i as int))
            },
        }
    }
}

/// The file name of a path: its last component, unless that goes up.
pub open spec fn name_of(path: Seq<char>) -> Option<Seq<char>> {
    match last_part(path) {
        Some(p) => if p == ".."@ {
            None
        } else {
            Some(p)
        },
        None => None,
    }
}

/// The package name of a project's scripts crate.
pub open spec fn scripts_name(project: Seq<char>) -> Seq<char> {
    match name_of(project) {
        Some(n) => replaced(n, '-', '_') + "_scripts"@,
        None => "_scripts"@,
    }
}

/// The last part found so far, over the parts of `v` from `at` on.
fn find_last_part(v: &Vec<char>) -> (r: Option<Vec<char>>)
    ensures
        match (r, last_part(v@)) {
            (Some(a), Some(b)) => a@ == b,
            (None, None) => true,
            _ => false,
        },
{
    let mut best: Option<Vec<char>> = None;
    let mut at: usize = 0;
    assert(v@.skip(0) =~= v@);
    loop
        invariant_except_break
            at <= v.len(),
            match last_part(v@.skip(at as int)) {
                Some(p) => last_part(v@) == Some(p),
                None => match best {
                    Some(b) => last_part(v@) == Some(b@),
                    None => last_part(v@) is None,
                },
            },
        ensures
            match best {
                Some(b) => last_part(v@) == Some(b@),
                None => last_part(v@) is None,
            },
        decreases v.len() - at,
    {
        let end: usize = find_char(v, '/', at);
        let ghost rest = v@.skip(at as int);
        proof {
            lemma_find(v@, '/', at as nat);
            lemma_find(rest, '/', 0);
            assert(find(rest, '/', 0) == end - at) by {
                let f = find(rest, '/', 0) as int;
                if f < end - at {
                    assert(v@[at + f] == rest[f]);
                }
                if f > end - at {
                    assert(rest[end - at] == v@[end as int]);
                }
            }
        }
        let part: Vec<char> = slice(v, at, end);
        assert(part@ =~= rest.take(end - at));
        if part.len() > 0 && !reads(&part, ".") {
            best = Some(part);
        }
        if end >= v.len() {
            assert(part@ =~= rest);
            break;
        }
        assert(rest.skip(end - at + 1) =~= v@.skip(end as int + 1));
        at = end + 1;
    }
    best
}

/// `crates/test-game` gives `test_game_scripts`.
pub fn file_name(project: &str) -> (r: String)
    ensures
        r@ == scripts_name(project@),
{
    match find_last_part(&chars(project)) {
        Some(p) => if reads(&p, "..") {
            "_scripts".to_owned()
        } else {
            joined(text(&replace(&p, '-', '_')), "_scripts")
        },
        None => "_scripts".to_owned(),
    }
}

/// Where a library of this name lies, beside the editor in `dir`.
pub fn beside_editor(dir: &str, name: &str) -> (r: String)
    ensures
        r@ == file_in(dir@, "lib"@ + name@ + ".so"@),
{
    let file: String = joined(joined("lib".to_owned(), name), ".so");
    join_path(dir, file.as_str())
}

/// Whether to load a project's library, and from where. A project without a
/// scripts crate is a whole project and not a failure; one whose library is
/// not built is an error.
pub fn library_to_load(
    project: &str,
    has_manifest: bool,
    built: Option<&str>,
) -> (r: Result<Option<String>, String>)
    ensures
        !has_manifest ==> r is Ok && r->Ok_0 is None,
        has_manifest && built is Some ==> r is Ok && r->Ok_0 is Some && r->Ok_0->0@ == built->0@,
        has_manifest && built is None ==> r is Err && r->Err_0@ == project@
            + " has a scripts crate but lib"@ + scripts_name(project@) + ".so is not built"@,
{
    if !has_manifest {
        return Ok(None);
    }
    match built {
        Some(path) => Ok(Some(path.to_owned())),
        None => {
            let m: String = joined(project.to_owned(), " has a scripts crate but lib");
            let m: String = joined(m, file_name(project).as_str());
            Err(joined(m, ".so is not built"))
        },
    }
}

/// Whether a loaded library registered with this engine: its registry must be
/// the engine's own, by address.
pub fn check_registry(path: &str, library_addr: usize, engine_addr: usize) -> (r: Result<
    (),
    String,
>)
    ensures
        r is Ok <==> library_addr == engine_addr,
        r is Err ==> r->Err_0@ == path@
            + " has its own copy of the engine's statics — build both with `-C prefer-dynamic` so they share one libengine_core.so"@,
{
    if library_addr == engine_addr {
        Ok(())
    } else {
        Err(
            joined(
                path.to_owned(),
                " has its own copy of the engine's statics — build both with `-C prefer-dynamic` so they share one libengine_core.so",
            ),
        )
    }
}

/// The last component that names something is found however the path ends:
/// what follows a slash, or, where that is empty or a dot, what the path before
/// it ends in.
pub proof fn paths_end_in_their_last_name(a: Seq<char>, b: Seq<char>)
    requires
        !b.contains('/'),
    ensures
        b.len() > 0 && b != "."@ ==> last_part(a + seq!['/'] + b) == Some(b),
        b.len() == 0 || b == "."@ ==> last_part(a + seq!['/'] + b) == last_part(a),
        b.len() > 0 && b != "."@ ==> last_part(b) == Some(b),
        b.len() == 0 || b == "."@ ==> last_part(b) is None,
    decreases a.len(),
{
    let p = a + seq!['/'] + b;
    lemma_find(p, '/', 0);
    lemma_find(a, '/', 0);
    lemma_find(b, '/', 0);
    if find(b, '/', 0) < b.len() {
        assert(b[find(b, '/', 0) as int] == '/');
    }
    assert(p[a.len() as int] == '/');
    let i = find(p, '/', 0) as int;
    let j = find(a, '/', 0) as int;
    if j < a.len() {
        assert(p[j] == '/');
        assert(i == j) by {
            if i < j {
                assert(a[i] == '/');
            }
        }
        assert(p.take(i) =~= a.take(j));
        assert(p.skip(i + 1) =~= a.skip(j + 1) + seq!['/'] + b);
        paths_end_in_their_last_name(a.skip(j + 1), b);
    } else {
        assert(i == a.len()) by {
            if i < a.len() {
                assert(a[i] == '/');
            }
        }
        assert(p.take(i) =~= a);
        assert(p.skip(i + 1) =~= b);
    }
}

/// A project's scripts are named after its directory, dashes made underscores;
/// a path that goes up names none.
pub proof fn scripts_are_named_after_the_project(dir: Seq<char>, name: Seq<char>)
    requires
        !name.contains('/'),
        name.len() > 0,
        name != "."@,
    ensures
        name != ".."@ ==> scripts_name(dir + seq!['/'] + name) == replaced(name, '-', '_')
            + "_scripts"@,
        name != ".."@ ==> scripts_name(name) == replaced(name, '-', '_') + "_scripts"@,
        name == ".."@ ==> scripts_name(dir + seq!['/'] + name) == "_scripts"@,
        scripts_name(dir + seq!['/']) == scripts_name(dir),
{
    paths_end_in_their_last_name(dir, name);
    paths_end_in_their_last_name(dir, Seq::empty());
    assert(dir + seq!['/'] + Seq::<char>::empty() =~= dir + seq!['/']);
}

} // verus!
