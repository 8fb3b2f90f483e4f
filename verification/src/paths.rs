//! Paths with `/` between their components.
use vstd::prelude::*;

use crate::split::{join, join_text, law_parts_come_in_order, split, split_text};
use crate::text::{chars_of, first_at, lemma_first_at, occurs_at, same_text, text, text_between};

verus! {

/// Whether a path begins at the root.
pub open spec fn is_absolute(path: Seq<char>) -> bool {
    path.len() > 0 && path[0] == '/'
}

/// Whether a path begins at the root.
pub fn path_is_absolute(path: &str) -> (r: bool)
    ensures
        r == is_absolute(path@),
{
    let v = chars_of(path);
    v.len() > 0 && v[0] == '/'
}

/// The path `path` as seen from the directory `base`.
pub open spec fn joined_path(base: Seq<char>, path: Seq<char>) -> Seq<char> {
    if is_absolute(path) {
        path
    } else if base.len() == 0 || base.last() == '/' {
        base + path
    } else {
        base.push('/') + path
    }
}

/// The path `path` as seen from the directory `base`.
pub fn join_path(base: &str, path: &str) -> (r: String)
    ensures
        r@ == joined_path(base@, path@),
{
    if path_is_absolute(path) {
        return text(path);
    }
    let v = chars_of(base);
    let mut s = text(base);
    if v.len() > 0 && v[v.len() - 1] != '/' {
        s.push('/');
    }
    crate::text::put(&mut s, path);
    s
}

/// The parts that name something: neither empty nor a single dot.
pub open spec fn named_parts(parts: Seq<Seq<char>>) -> Seq<Seq<char>>
    decreases parts.len(),
{
    if parts.len() == 0 {
        seq![]
    } else {
        let rest = named_parts(parts.drop_last());
        if parts.last().len() == 0 || parts.last() == "."@ {
            rest
        } else {
            rest.push(parts.last())
        }
    }
}

/// The components of a path.
pub open spec fn components(path: Seq<char>) -> Seq<Seq<char>> {
    named_parts(split(path, '/'))
}

/// The components of a path.
pub fn path_components(path: &str) -> (r: Vec<String>)
    ensures
        r.deep_view() == components(path@),
{
    let parts = split_text(path, '/');
    let ghost all = parts.deep_view();
    let mut out: Vec<String> = Vec::new();
    let mut i: usize = 0;
    proof {
        assert(all.take(0) =~= Seq::<Seq<char>>::empty());
        assert(out.deep_view() =~= Seq::<Seq<char>>::empty());
    }
    while i < parts.len()
        invariant
            i <= parts@.len(),
            all == parts.deep_view(),
            out.deep_view() == named_parts(all.take(i as int)),
        decreases parts@.len() - i,
    {
        let ghost before = out.deep_view();
        proof {
            assert(all.take(i + 1).drop_last() =~= all.take(i as int));
            assert(all.take(i + 1).last() == parts@[i as int]@);
        }
        if !parts[i].as_str().is_empty() && !same_text(parts[i].as_str(), ".") {
            out.push(parts[i].clone());
            proof {
                assert(out.deep_view() =~= before.push(parts@[i as int]@));
            }
        }
        i = i + 1;
    }
    proof {
        assert(all.take(all.len() as int) =~= all);
    }
    out
}

/// Whether a path climbs to a parent directory anywhere.
pub open spec fn climbs(path: Seq<char>) -> bool {
    exists|i: int| 0 <= i < components(path).len() && #[trigger] components(path)[i] == ".."@
}

/// Whether a path climbs to a parent directory anywhere.
pub fn cwd_contains_traversal(cwd: &str) -> (r: bool)
    ensures
        r == climbs(cwd@),
{
    let parts = path_components(cwd);
    let ghost all = parts.deep_view();
    let mut i: usize = 0;
    while i < parts.len()
        invariant
            i <= parts@.len(),
            all == parts.deep_view(),
            all == components(cwd@),
            forall|j: int| 0 <= j < i ==> #[trigger] all[j] != ".."@,
        decreases parts@.len() - i,
    {
        proof {
            assert(all[i as int] == parts@[i as int]@);
        }
        if same_text(parts[i].as_str(), "..") {
            return true;
        }
        i = i + 1;
    }
    false
}

/// The last component of a path, unless it is a parent directory.
pub open spec fn file_name(path: Seq<char>) -> Option<Seq<char>> {
    let all = components(path);
    if all.len() == 0 || all.last() == ".."@ {
        None
    } else {
        Some(all.last())
    }
}

/// The last component of a path, unless it is a parent directory.
pub fn path_file_name(path: &str) -> (r: Option<String>)
    ensures
        r.deep_view() == file_name(path@),
{
    let parts = path_components(path);
    let ghost all = parts.deep_view();
    if parts.len() == 0 {
        return None;
    }
    let i: usize = parts.len() - 1;
    proof {
        assert(all.last() == parts@[i as int]@);
    }
    if same_text(parts[i].as_str(), "..") {
        None
    } else {
        Some(parts[i].clone())
    }
}

/// The position of the last dot among the first `n` characters.
pub open spec fn last_dot(s: Seq<char>, n: int) -> Option<int>
    decreases n,
{
    if n <= 0 || n > s.len() {
        None
    } else if s[n - 1] == '.' {
        Some(n - 1)
    } else {
        last_dot(s, n - 1)
    }
}

/// What follows the last dot of a file name, unless that dot is its first character.
pub open spec fn extension(path: Seq<char>) -> Option<Seq<char>> {
    match file_name(path) {
        Some(name) => match last_dot(name, name.len() as int) {
            Some(i) => if i > 0 {
                Some(name.skip(i + 1))
            } else {
                None
            },
            None => None,
        },
        None => None,
    }
}

/// What follows the last dot of a file name, unless that dot is its first character.
pub fn path_extension(path: &str) -> (r: Option<String>)
    ensures
        r.deep_view() == extension(path@),
{
    match path_file_name(path) {
        Some(name) => {
            let v = chars_of(name.as_str());
            let mut n: usize = v.len();
            while n > 0 && v[n - 1] != '.'
                invariant
                    n <= v@.len(),
                    last_dot(v@, v@.len() as int) == last_dot(v@, n as int),
                decreases n,
            {
                n = n - 1;
            }
            if n <= 1 {
                return None;
            }
            proof {
                assert(v@.subrange(n as int, v@.len() as int) =~= v@.skip(n as int));
            }
            Some(text_between(&v, n, v.len()))
        },
        None => None,
    }
}

/// The components of `path` below the directory `base`, if it lies there.
pub open spec fn below_base(base: Seq<char>, path: Seq<char>) -> Option<Seq<Seq<char>>> {
    let b = components(base);
    let p = components(path);
    if b.is_prefix_of(p) {
        Some(p.skip(b.len() as int))
    } else {
        None
    }
}

/// The path of `path` below the directory `base`, if it lies there.
pub fn relative_to(base: &str, path: &str) -> (r: Option<String>)
    ensures
        match below_base(base@, path@) {
            Some(rest) => r matches Some(s) && s@ == join(rest, "/"@),
            None => r is None,
        },
{
    let b = path_components(base);
    let p = path_components(path);
    let ghost bs = b.deep_view();
    let ghost ps = p.deep_view();
    if b.len() > p.len() {
        return None;
    }
    let mut i: usize = 0;
    while i < b.len()
        invariant
            i <= b@.len() <= p@.len(),
            bs == b.deep_view(),
            ps == p.deep_view(),
            bs == components(base@),
            ps == components(path@),
            forall|j: int| 0 <= j < i ==> bs[j] == ps[j],
        decreases b@.len() - i,
    {
        proof {
            assert(bs[i as int] == b@[i as int]@);
            assert(ps[i as int] == p@[i as int]@);
        }
        if !same_text(b[i].as_str(), p[i].as_str()) {
            proof {
                assert(ps.subrange(0, bs.len() as int)[i as int] == ps[i as int]);
            }
            return None;
        }
        i = i + 1;
    }
    proof {
        assert(bs =~= ps.subrange(0, bs.len() as int));
    }
    let mut rest: Vec<String> = Vec::new();
    while i < p.len()
        invariant
            b@.len() <= i <= p@.len(),
            rest@.len() == i - b@.len(),
            forall|j: int| 0 <= j < rest@.len() ==> (#[trigger] rest@[j])@ == p@[b@.len() + j]@,
        decreases p@.len() - i,
    {
        rest.push(p[i].clone());
        i = i + 1;
    }
    proof {
        assert(rest.deep_view() =~= ps.skip(bs.len() as int));
    }
    Some(join_text(&rest, "/"))
}

// ---------------------------------------------------------------------------
// Laws
// ---------------------------------------------------------------------------
proof fn lemma_named_front(first: Seq<char>, rest: Seq<Seq<char>>)
    ensures
        named_parts(seq![first] + rest) == (if first.len() == 0 || first == "."@ {
            named_parts(rest)
        } else {
            seq![first] + named_parts(rest)
        }),
    decreases rest.len(),
{
    let all = seq![first] + rest;
    if rest.len() == 0 {
        assert(all =~= seq![first]);
        assert(all.drop_last() =~= Seq::<Seq<char>>::empty());
        assert(named_parts(all.drop_last()) =~= Seq::<Seq<char>>::empty());
        assert(named_parts(rest) =~= Seq::<Seq<char>>::empty());
        assert(named_parts(all) =~= (if first.len() == 0 || first == "."@ {
            named_parts(rest)
        } else {
            seq![first] + named_parts(rest)
        }));
    } else {
        lemma_named_front(first, rest.drop_last());
        assert(all.drop_last() =~= seq![first] + rest.drop_last());
        assert(all.last() == rest.last());
        assert(named_parts(all) =~= (if first.len() == 0 || first == "."@ {
            named_parts(rest)
        } else {
            seq![first] + named_parts(rest)
        }));
    }
}

/// The components of a path are what stands between its slashes, in order, without
/// empty ones and single dots.
pub proof fn law_components_of_paths(first: Seq<char>, rest: Seq<char>)
    requires
        forall|k: int| 0 <= k < first.len() ==> #[trigger] first[k] != '/',
    ensures
        components(first) == (if first.len() == 0 || first == "."@ {
            Seq::<Seq<char>>::empty()
        } else {
            seq![first]
        }),
        components(first.push('/') + rest) == components(first) + components(rest),
{
    law_parts_come_in_order(first, rest, '/');
    lemma_named_front(first, split(rest, '/'));
    lemma_named_front(first, seq![]);
    assert(seq![first] + Seq::<Seq<char>>::empty() =~= seq![first]);
    assert(named_parts(Seq::<Seq<char>>::empty()) =~= Seq::<Seq<char>>::empty());
    assert(components(first) =~= (if first.len() == 0 || first == "."@ {
        Seq::<Seq<char>>::empty()
    } else {
        seq![first]
    }));
    assert(components(first.push('/') + rest) =~= components(first) + components(rest));
}

/// The components of a path below another one are those of both, one after the other.
pub proof fn law_components_of_joined_paths(a: Seq<char>, b: Seq<char>)
    ensures
        components(a.push('/') + b) == components(a) + components(b),
    decreases a.len(),
{
    let p = seq!['/'];
    lemma_first_at(a, p, 0);
    match first_at(a, p, 0) {
        Some(i) => {
            let first = a.take(i);
            let rest = a.skip(i + 1);
            assert(a.subrange(i, i + 1)[0] == '/');
            assert forall|k: int| 0 <= k < first.len() implies #[trigger] first[k] != '/' by {
                if first[k] == '/' {
                    assert(a.subrange(k, k + 1) =~= p);
                    assert(occurs_at(a, p, k));
                }
            }
            assert(a =~= first.push('/') + rest);
            assert(a.push('/') + b =~= first.push('/') + (rest.push('/') + b));
            law_components_of_paths(first, rest);
            law_components_of_paths(first, rest.push('/') + b);
            law_components_of_joined_paths(rest, b);
            assert(components(a.push('/') + b) =~= components(a) + components(b));
        },
        None => {
            assert forall|k: int| 0 <= k < a.len() implies #[trigger] a[k] != '/' by {
                if a[k] == '/' {
                    assert(a.subrange(k, k + 1) =~= p);
                    assert(occurs_at(a, p, k));
                }
            }
            law_components_of_paths(a, b);
        },
    }
}

/// A path climbs exactly where one of its components is a double dot, be it in front,
/// in the middle or at the end.
pub proof fn law_climbing_paths(a: Seq<char>, b: Seq<char>, name: Seq<char>)
    requires
        forall|k: int| 0 <= k < name.len() ==> #[trigger] name[k] != '/',
    ensures
        climbs(a.push('/') + b) <==> climbs(a) || climbs(b),
        climbs(name) <==> name == ".."@,
{
    law_components_of_joined_paths(a, b);
    law_components_of_paths(name, seq![]);
    let both = components(a.push('/') + b);
    let n = components(a).len() as int;
    if climbs(a) {
        let i = choose|i: int| 0 <= i < components(a).len() && #[trigger] components(a)[i]
            == ".."@;
        assert(both[i] == ".."@);
    }
    if climbs(b) {
        let i = choose|i: int| 0 <= i < components(b).len() && #[trigger] components(b)[i]
            == ".."@;
        assert(both[n + i] == ".."@);
    }
    if climbs(a.push('/') + b) {
        let i = choose|i: int| 0 <= i < both.len() && #[trigger] both[i] == ".."@;
        if i < n {
            assert(components(a)[i] == ".."@);
        } else {
            assert(components(b)[i - n] == ".."@);
        }
    }
    reveal_strlit("..");
    reveal_strlit(".");
    assert("."@.len() == 1 && ".."@.len() == 2);
    if name == ".."@ {
        assert(components(name)[0] == ".."@);
    }
}

/// A path begins at the root exactly where it begins with a slash; seen from a
/// directory, one that does stays as it is, and any other lies below the directory.
pub proof fn law_joining_paths(base: Seq<char>, path: Seq<char>)
    ensures
        is_absolute(path) <==> path.len() > 0 && path[0] == '/',
        is_absolute(path) ==> joined_path(base, path) == path,
        !is_absolute(path) && base.len() == 0 ==> joined_path(base, path) == path,
        !is_absolute(path) && base.len() > 0 ==> components(joined_path(base, path)) == components(
            base,
        ) + components(path),
        !is_absolute(path) && base.len() > 0 ==> base.is_prefix_of(joined_path(base, path)),
{
    if !is_absolute(path) && base.len() == 0 {
        assert(base + path =~= path);
    }
    if !is_absolute(path) && base.len() > 0 {
        if base.last() == '/' {
            let dir = base.drop_last();
            assert(dir.push('/') =~= base);
            law_components_of_joined_paths(dir, path);
            law_components_of_joined_paths(dir, seq![]);
            assert(base + Seq::<char>::empty() =~= base);
            law_components_of_paths(seq![], seq![]);
            assert(components(dir) + Seq::<Seq<char>>::empty() =~= components(dir));
        } else {
            law_components_of_joined_paths(base, path);
        }
    }
}

/// The name of a file is the last component of its path; a double dot is none.
pub proof fn law_file_names(dir: Seq<char>, name: Seq<char>)
    requires
        forall|k: int| 0 <= k < name.len() ==> #[trigger] name[k] != '/',
        name.len() > 0,
        name != "."@,
    ensures
        name != ".."@ ==> file_name(dir.push('/') + name) == Some(name),
        name != ".."@ ==> file_name(name) == Some(name),
        name == ".."@ ==> file_name(dir.push('/') + name) is None && file_name(name) is None,
{
    law_components_of_joined_paths(dir, name);
    law_components_of_paths(name, seq![]);
    let all = components(dir.push('/') + name);
    assert(all.last() == name);
    assert(components(name).last() == name);
}

/// The extension of a file is what follows the last dot of its name, where something
/// stands before that dot.
pub proof fn law_extensions(dir: Seq<char>, stem: Seq<char>, ext: Seq<char>)
    requires
        forall|k: int| 0 <= k < stem.len() ==> #[trigger] stem[k] != '/',
        forall|k: int| 0 <= k < ext.len() ==> #[trigger] ext[k] != '/' && ext[k] != '.',
        stem.len() > 0,
        ext.len() > 0,
    ensures
        extension(dir.push('/') + (stem.push('.') + ext)) == Some(ext),
        ext != "."@ && ext != ".."@ ==> extension(dir.push('/') + ext) is None,
{
    let name = stem.push('.') + ext;
    assert forall|k: int| 0 <= k < name.len() implies #[trigger] name[k] != '/' by {
        if k > stem.len() {
            assert(name[k] == ext[k - stem.len() - 1]);
        }
    }
    reveal_strlit(".");
    reveal_strlit("..");
    assert(name.len() >= 3);
    law_file_names(dir, name);
    lemma_last_dot(name, name.len() as int, stem.len() as int);
    assert(name.skip(stem.len() as int + 1) =~= ext);
    if ext != "."@ && ext != ".."@ {
        law_file_names(dir, ext);
        lemma_no_dot(ext, ext.len() as int);
    }
}

proof fn lemma_last_dot(s: Seq<char>, n: int, i: int)
    requires
        0 <= i < n <= s.len(),
        s[i] == '.',
        forall|k: int| i < k < n ==> #[trigger] s[k] != '.',
    ensures
        last_dot(s, n) == Some(i),
    decreases n,
{
    if i < n - 1 {
        assert(s[n - 1] != '.');
        lemma_last_dot(s, n - 1, i);
    }
}

proof fn lemma_no_dot(s: Seq<char>, n: int)
    requires
        0 <= n <= s.len(),
        forall|k: int| 0 <= k < n ==> #[trigger] s[k] != '.',
    ensures
        last_dot(s, n) is None,
    decreases n,
{
    if n > 0 {
        assert(s[n - 1] != '.');
        lemma_no_dot(s, n - 1);
    }
}

/// A path lies below a directory exactly where its components begin with those of the
/// directory; what is left of them is the way from there.
pub proof fn law_paths_below_directories(
    base: Seq<char>,
    path: Seq<char>,
    rest: Seq<Seq<char>>,
)
    ensures
        components(path) == components(base) + rest ==> below_base(base, path) == Some(rest),
        below_base(base, path) matches Some(way) ==> components(path) == components(base) + way,
{
    if components(path) == components(base) + rest {
        assert(components(path).skip(components(base).len() as int) =~= rest);
    }
    if let Some(way) = below_base(base, path) {
        assert(components(path) =~= components(base) + way);
    }
}

} // verus!
