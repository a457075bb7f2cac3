//! Unix paths as text.

use crate::text::{chars_of, string_of};
use vstd::prelude::*;

verus! {

/// `path` below the directory `base`. An absolute `path` stands for itself.
pub open spec fn join(base: Seq<char>, path: Seq<char>) -> Seq<char> {
    if path.len() > 0 && path[0] == '/' {
        path
    } else if base.len() == 0 || base.last() == '/' {
        base + path
    } else {
        base.push('/') + path
    }
}

/// Where the last component of `path` ends: behind it stand only slashes and
/// components that are a single dot.
pub open spec fn name_end(path: Seq<char>) -> int
    decreases path.len(),
{
    if path.len() == 0 {
        0
    } else if path.last() == '/' {
        name_end(path.drop_last())
    } else if path.last() == '.' && (path.len() == 1 || path[path.len() - 2] == '/') {
        name_end(path.drop_last())
    } else {
        path.len() as int
    }
}

/// Where the component that ends with `path` starts.
pub open spec fn name_start(path: Seq<char>) -> int
    decreases path.len(),
{
    if path.len() == 0 || path.last() == '/' {
        path.len() as int
    } else {
        name_start(path.drop_last())
    }
}

/// The last component of `path`, unless there is none or it is `..`.
pub open spec fn file_name(path: Seq<char>) -> Option<Seq<char>> {
    let head = path.take(name_end(path));
    let name = head.skip(name_start(head));
    if name.len() == 0 || name == seq!['.', '.'] {
        None
    } else {
        Some(name)
    }
}

/// The index of the last dot of `name`, or -1.
pub open spec fn last_dot(name: Seq<char>) -> int
    decreases name.len(),
{
    if name.len() == 0 {
        -1
    } else if name.last() == '.' {
        name.len() - 1
    } else {
        last_dot(name.drop_last())
    }
}

/// A file name without its extension. A dot at the start belongs to the stem.
pub open spec fn stem_of_name(name: Seq<char>) -> Seq<char> {
    if last_dot(name) > 0 {
        name.take(last_dot(name))
    } else {
        name
    }
}

/// The last component of `path` without its extension.
pub open spec fn file_stem(path: Seq<char>) -> Option<Seq<char>> {
    match file_name(path) {
        Some(name) => Some(stem_of_name(name)),
        None => None,
    }
}

/// What follows the last dot of the last component of `path`, unless the
/// component has no dot but at its start.
pub open spec fn extension(path: Seq<char>) -> Option<Seq<char>> {
    match file_name(path) {
        Some(name) => if last_dot(name) > 0 {
            Some(name.skip(last_dot(name) + 1))
        } else {
            None
        },
        None => None,
    }
}

/// `path` with the extension of its last component replaced by `ext`. What
/// follows the last component is dropped. A path without a file name stays.
pub open spec fn with_extension(path: Seq<char>, ext: Seq<char>) -> Seq<char> {
    match file_name(path) {
        Some(name) => {
            let stem = path.take(name_start(path.take(name_end(path)))) + stem_of_name(name);
            if ext.len() > 0 {
                stem.push('.') + ext
            } else {
                stem
            }
        },
        None => path,
    }
}

pub proof fn lemma_name_end_bounds(path: Seq<char>)
    ensures
        0 <= name_end(path) <= path.len(),
    decreases path.len(),
{
    if path.len() > 0 {
        lemma_name_end_bounds(path.drop_last());
    }
}

pub proof fn lemma_name_start_bounds(path: Seq<char>)
    ensures
        0 <= name_start(path) <= path.len(),
    decreases path.len(),
{
    if path.len() > 0 && path.last() != '/' {
        lemma_name_start_bounds(path.drop_last());
    }
}

pub proof fn lemma_last_dot_bounds(name: Seq<char>)
    ensures
        -1 <= last_dot(name) < name.len(),
    decreases name.len(),
{
    if name.len() > 0 {
        lemma_last_dot_bounds(name.drop_last());
    }
}

/// The last component of a path is the name that was joined last.
pub proof fn lemma_join_name(dir: Seq<char>, name: Seq<char>)
    requires
        name.len() > 0,
        name != seq!['.'],
        name != seq!['.', '.'],
        !name.contains('/'),
    ensures
        file_name(join(dir, name)) == Some(name),
        name_end(join(dir, name)) == join(dir, name).len(),
        name_start(join(dir, name)) == join(dir, name).len() - name.len(),
{
    let path = join(dir, name);
    let start = path.len() - name.len();
    assert(name[0] != '/') by {
        assert(name.contains(name[0]));
    }
    assert(path.skip(start) == name);
    assert forall|i: int| start <= i < path.len() implies path[i] != '/' by {
        assert(path[i] == name[i - start]);
        assert(name.contains(name[i - start]));
    }
    if name.len() == 1 {
        assert(name[0] != '.') by {
            if name[0] == '.' {
                assert(name =~= seq!['.']);
            }
        }
        assert(path.last() == name[0]);
    }
    assert(start > 0 ==> path[start - 1] == '/');
    lemma_name_start(path, start);
    assert(path.take(path.len() as int) == path);
}

proof fn lemma_name_start(path: Seq<char>, start: int)
    requires
        0 <= start <= path.len(),
        start > 0 ==> path[start - 1] == '/',
        forall|i: int| start <= i < path.len() ==> path[i] != '/',
    ensures
        name_start(path) == start,
    decreases path.len(),
{
    if start < path.len() {
        lemma_name_start(path.drop_last(), start);
    }
}

/// Where the last dot is.
pub proof fn lemma_last_dot(name: Seq<char>, k: int)
    requires
        0 <= k < name.len(),
        name[k] == '.',
        forall|i: int| k < i < name.len() ==> name[i] != '.',
    ensures
        last_dot(name) == k,
    decreases name.len(),
{
    if k < name.len() - 1 {
        lemma_last_dot(name.drop_last(), k);
    }
}

/// `path` below the directory `base`.
pub fn join_path(base: &str, path: &str) -> (r: String)
    ensures
        r@ == join(base@, path@),
{
    let b = chars_of(base);
    let p = chars_of(path);
    if p.len() > 0 && p[0] == '/' {
        return path.to_string();
    }
    let mut out = base.to_string();
    if b.len() > 0 && b[b.len() - 1] != '/' {
        out.push('/');
    }
    out.append(path);
    out
}

/// Where the last component of `v` starts and ends.
fn name_span(v: &Vec<char>) -> (r: (usize, usize))
    ensures
        r.0 <= r.1 <= v@.len(),
        r.1 == name_end(v@),
        r.0 == name_start(v@.take(name_end(v@))),
{
    let mut end: usize = v.len();
    assert(v@.take(v@.len() as int) == v@);
    while end > 0 && (v[end - 1] == '/' || (v[end - 1] == '.' && (end == 1 || v[end - 2] == '/')))
        invariant
            end <= v@.len(),
            name_end(v@) == name_end(v@.take(end as int)),
        decreases end,
    {
        assert(v@.take(end as int).drop_last() == v@.take(end - 1));
        end = end - 1;
    }
    assert(name_end(v@.take(end as int)) == end);
    let mut start = end;
    while start > 0 && v[start - 1] != '/'
        invariant
            start <= end <= v@.len(),
            name_start(v@.take(end as int)) == name_start(v@.take(start as int)),
        decreases start,
    {
        assert(v@.take(start as int).drop_last() == v@.take(start - 1));
        start = start - 1;
    }
    (start, end)
}

/// Where the last component of `v` starts and ends, unless there is none or it
/// is `..`.
fn file_name_span(v: &Vec<char>) -> (r: Option<(usize, usize)>)
    ensures
        match r {
            Some(p) => p.0 < p.1 <= v@.len() && p.1 == name_end(v@) && p.0 == name_start(
                v@.take(name_end(v@)),
            ) && file_name(v@) == Some(v@.subrange(p.0 as int, p.1 as int)),
            None => file_name(v@) is None,
        },
{
    let span = name_span(v);
    let start = span.0;
    let end = span.1;
    let ghost name = v@.take(end as int).skip(start as int);
    assert(name == v@.subrange(start as int, end as int));
    if start == end {
        return None;
    }
    if end - start == 2 && v[start] == '.' && v[start + 1] == '.' {
        assert(name == seq!['.', '.']);
        return None;
    }
    proof {
        if name == seq!['.', '.'] {
            assert(name[0] == '.' && name[1] == '.');
        }
    }
    Some((start, end))
}

/// Where the last dot of the name between `start` and `end` stands, or `start`
/// where the only dot is the first character or there is none.
fn dot_between(v: &Vec<char>, start: usize, end: usize) -> (r: usize)
    requires
        start < end <= v@.len(),
    ensures
        start <= r < end,
        ({
            let dot = last_dot(v@.subrange(start as int, end as int));
            &&& dot > 0 ==> r == start + dot
            &&& dot <= 0 ==> r == start
        }),
{
    let ghost name = v@.subrange(start as int, end as int);
    let mut i = end;
    assert(name.take(name.len() as int) == name);
    while i > start && v[i - 1] != '.'
        invariant
            start <= i <= end <= v@.len(),
            name == v@.subrange(start as int, end as int),
            last_dot(name) == last_dot(name.take(i - start)),
        decreases i,
    {
        assert(name.take(i - start).drop_last() == name.take(i - start - 1));
        i = i - 1;
    }
    proof {
        lemma_last_dot_bounds(name);
    }
    if i == start {
        start
    } else {
        i - 1
    }
}

/// The last component of `path`, unless there is none or it is `..`.
pub fn file_name_of(path: &str) -> (r: Option<String>)
    ensures
        match r {
            Some(name) => file_name(path@) == Some(name@),
            None => file_name(path@) is None,
        },
{
    let v = chars_of(path);
    match file_name_span(&v) {
        Some(p) => Some(string_of(&v, p.0, p.1)),
        None => None,
    }
}

/// The last component of `path` without its extension.
pub fn file_stem_of(path: &str) -> (r: Option<String>)
    ensures
        match r {
            Some(stem) => file_stem(path@) == Some(stem@),
            None => file_stem(path@) is None,
        },
{
    let v = chars_of(path);
    match file_name_span(&v) {
        Some(p) => {
            let dot = dot_between(&v, p.0, p.1);
            let ghost name = v@.subrange(p.0 as int, p.1 as int);
            let stop = if dot > p.0 {
                dot
            } else {
                p.1
            };
            assert(v@.subrange(p.0 as int, stop as int) == stem_of_name(name));
            Some(string_of(&v, p.0, stop))
        },
        None => None,
    }
}

/// The extension of the last component of `path`.
pub fn extension_of(path: &str) -> (r: Option<String>)
    ensures
        match r {
            Some(ext) => extension(path@) == Some(ext@),
            None => extension(path@) is None,
        },
{
    let v = chars_of(path);
    match file_name_span(&v) {
        Some(p) => {
            let dot = dot_between(&v, p.0, p.1);
            let ghost name = v@.subrange(p.0 as int, p.1 as int);
            if dot > p.0 {
                assert(v@.subrange(dot + 1, p.1 as int) == name.skip(last_dot(name) + 1));
                Some(string_of(&v, dot + 1, p.1))
            } else {
                None
            }
        },
        None => None,
    }
}

/// `path` with the extension of its last component replaced by `ext`.
pub fn replace_extension(path: &str, ext: &str) -> (r: String)
    ensures
        r@ == with_extension(path@, ext@),
{
    let v = chars_of(path);
    match file_name_span(&v) {
        Some(p) => {
            let dot = dot_between(&v, p.0, p.1);
            let ghost name = v@.subrange(p.0 as int, p.1 as int);
            let stop = if dot > p.0 {
                dot
            } else {
                p.1
            };
            let mut out = string_of(&v, 0, stop);
            assert(out@ == path@.take(p.0 as int) + stem_of_name(name));
            if !ext.is_empty() {
                out.push('.');
                out.append(ext);
            }
            out
        },
        None => path.to_string(),
    }
}

/// A path stands below a directory behind one slash, unless it is absolute.
pub proof fn law_join(base: Seq<char>, path: Seq<char>)
    ensures
        path.len() > 0 && path[0] == '/' ==> join(base, path) == path,
        base.len() > 0 && base.last() != '/' && (path.len() == 0 || path[0] != '/') ==> join(
            base,
            path,
        ) == base + seq!['/'] + path,
        base.len() > 0 && base.last() == '/' && (path.len() == 0 || path[0] != '/') ==> join(
            base,
            path,
        ) == base + path,
        base.len() == 0 ==> join(base, path) == path,
{
    assert(base.push('/') + path =~= base + seq!['/'] + path);
    assert(Seq::<char>::empty() + path =~= path);
    if base.len() == 0 {
        assert(base + path =~= path);
    }
}

/// The name of a file is its stem, a dot and its extension, and the extension can
/// be replaced.
pub proof fn law_extension(dir: Seq<char>, stem: Seq<char>, ext: Seq<char>, other: Seq<char>)
    requires
        stem.len() > 0,
        ext.len() > 0,
        other.len() > 0,
        !stem.contains('/'),
        !ext.contains('/'),
        !ext.contains('.'),
        !other.contains('/'),
    ensures
        file_name(join(dir, stem + seq!['.'] + ext)) == Some(stem + seq!['.'] + ext),
        file_stem(join(dir, stem + seq!['.'] + ext)) == Some(stem),
        extension(join(dir, stem + seq!['.'] + ext)) == Some(ext),
        with_extension(join(dir, stem + seq!['.'] + ext), other) == join(
            dir,
            stem + seq!['.'] + other,
        ),
{
    let name = stem + seq!['.'] + ext;
    let path = join(dir, name);
    let k = stem.len() as int;
    assert forall|i: int| 0 <= i < name.len() implies name[i] != '/' by {
        if i < k {
            assert(name[i] == stem[i] && stem.contains(stem[i]));
        } else if i > k {
            assert(name[i] == ext[i - k - 1] && ext.contains(ext[i - k - 1]));
        }
    }
    assert(name[k] == '.');
    assert forall|i: int| k < i < name.len() implies name[i] != '.' by {
        assert(name[i] == ext[i - k - 1] && ext.contains(ext[i - k - 1]));
    }
    lemma_join_name(dir, name);
    lemma_last_dot(name, k);
    assert(name.take(k) =~= stem);
    assert(name.skip(k + 1) =~= ext);
    assert(path.take(path.len() as int) == path);
    let front = path.take(path.len() - name.len());
    assert(path =~= front + name);
    let changed = stem + seq!['.'] + other;
    assert(stem[0] != '/') by {
        assert(stem.contains(stem[0]));
    }
    assert(changed[0] == stem[0] && name[0] == stem[0]);
    assert(join(dir, changed) =~= front + changed);
    assert((front + stem).push('.') + other =~= front + changed);
}

/// A name without a dot has no extension, and is its own stem.
pub proof fn law_no_extension(dir: Seq<char>, name: Seq<char>)
    requires
        name.len() > 0,
        !name.contains('/'),
        !name.contains('.'),
    ensures
        extension(join(dir, name)) is None,
        file_stem(join(dir, name)) == Some(name),
        file_name(join(dir, name)) == Some(name),
{
    assert(name[0] != '.') by {
        assert(name.contains(name[0]));
    }
    lemma_join_name(dir, name);
    lemma_no_dot(name);
}

proof fn lemma_no_dot(name: Seq<char>)
    requires
        !name.contains('.'),
    ensures
        last_dot(name) == -1,
    decreases name.len(),
{
    if name.len() > 0 {
        assert(name.contains(name.last()));
        assert forall|i: int| 0 <= i < name.len() - 1 implies name.drop_last()[i] != '.' by {
            assert(name.contains(name[i]));
        }
        lemma_no_dot(name.drop_last());
    }
}

/// A dot at the start of a name does not begin an extension.
pub proof fn law_dot_file(dir: Seq<char>, rest: Seq<char>)
    requires
        rest.len() > 0,
        !rest.contains('/'),
        !rest.contains('.'),
    ensures
        extension(join(dir, seq!['.'] + rest)) is None,
        file_stem(join(dir, seq!['.'] + rest)) == Some(seq!['.'] + rest),
{
    let name = seq!['.'] + rest;
    assert forall|i: int| 0 <= i < name.len() implies name[i] != '/' by {
        if i > 0 {
            assert(name[i] == rest[i - 1] && rest.contains(rest[i - 1]));
        }
    }
    assert forall|i: int| 0 < i < name.len() implies name[i] != '.' by {
        assert(name[i] == rest[i - 1] && rest.contains(rest[i - 1]));
    }
    assert(name[1] != '.');
    assert(name != seq!['.', '.']) by {
        if name == seq!['.', '.'] {
            assert(name[1] == '.');
        }
    }
    lemma_join_name(dir, name);
    lemma_last_dot(name, 0);
}

/// Slashes and single dots behind a name do not count.
pub proof fn law_name_before_slashes(path: Seq<char>)
    ensures
        file_name(path + seq!['/']) == file_name(path),
        file_name(path + seq!['/', '.']) == file_name(path),
{
    let slashed = path + seq!['/'];
    let dotted = path + seq!['/', '.'];
    lemma_name_end_bounds(path);
    assert(slashed.drop_last() =~= path);
    assert(slashed.last() == '/');
    assert(name_end(slashed) == name_end(path));
    assert(slashed.take(name_end(path)) =~= path.take(name_end(path)));
    assert(dotted.drop_last() =~= slashed);
    assert(dotted.last() == '.' && dotted[dotted.len() - 2] == '/');
    assert(name_end(dotted) == name_end(slashed));
    assert(dotted.take(name_end(path)) =~= path.take(name_end(path)));
}

/// The directory above is no file, and neither is nothing.
pub proof fn law_no_name(dir: Seq<char>)
    ensures
        file_name(dir + seq!['/', '.', '.']) is None,
        file_name(seq!['.', '.']) is None,
        file_name(Seq::empty()) is None,
{
    let up = seq!['.', '.'];
    let path = dir + seq!['/', '.', '.'];
    assert(path.last() == '.' && path[path.len() - 2] == '.');
    assert(path.take(path.len() as int) =~= path);
    assert forall|i: int| path.len() - 2 <= i < path.len() implies path[i] != '/' by {}
    assert(path[path.len() - 3] == '/');
    lemma_name_start(path, path.len() - 2);
    assert(path.skip(path.len() - 2) =~= up);
    assert(up.last() == '.' && up[0] == '.');
    assert(up.take(2) =~= up);
    lemma_name_start(up, 0);
    assert(up.skip(0) =~= up);
    let none = Seq::<char>::empty();
    assert(none.take(0) =~= none);
    assert(none.skip(0) =~= none);
}

} // verus!
