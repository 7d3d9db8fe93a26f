//! File names, extensions and relative paths, as sequences of components.
use vstd::prelude::*;

use crate::text::{chars_of, push_str, replace_char, str_ascii_lower, str_replace_char, string_of, subseq};

verus! {

/// Components joined with `/`.
pub open spec fn join(parts: Seq<Seq<char>>) -> Seq<char>
    decreases parts.len(),
{
    if parts.len() == 0 {
        seq![]
    } else if parts.len() == 1 {
        parts[0]
    } else {
        join(parts.drop_last()) + "/"@ + parts.last()
    }
}

pub open spec fn component_views(parts: Seq<String>) -> Seq<Seq<char>> {
    parts.map_values(|p: String| p@)
}

/// Joins path components with `/`.
pub fn join_components(parts: &Vec<String>) -> (r: String)
    ensures
        r@ == join(component_views(parts@)),
{
    let mut out = String::new();
    let ghost views = component_views(parts@);
    for i in 0..parts.len()
        invariant
            views == component_views(parts@),
            out@ == join(views.take(i as int)),
    {
        assert(views.take(i + 1).drop_last() =~= views.take(i as int));
        if i > 0 {
            push_str(&mut out, "/");
        }
        push_str(&mut out, &parts[i]);
        proof {
            if i == 0 {
                assert(out@ =~= views.take(1)[0]);
            } else {
                assert(out@ =~= join(views.take(i as int)) + "/"@ + views[i as int]);
            }
        }
    }
    assert(views.take(parts@.len() as int) =~= views);
    out
}

/// Index of the last `.` of `name`, if any.
pub open spec fn last_dot(name: Seq<char>) -> Option<int>
    decreases name.len(),
{
    if name.len() == 0 {
        None
    } else if name.last() == '.' {
        Some(name.len() - 1)
    } else {
        last_dot(name.drop_last())
    }
}

/// `Path::extension` of a file name: the text after the last `.`, unless
/// there is no `.` or the only text before it is empty (`.gitignore`).
pub open spec fn extension_of(name: Seq<char>) -> Option<Seq<char>> {
    match last_dot(name) {
        Some(k) => if k == 0 {
            None
        } else {
            Some(name.skip(k + 1))
        },
        None => None,
    }
}

proof fn lemma_last_dot(name: Seq<char>)
    ensures
        last_dot(name) matches Some(k) ==> 0 <= k < name.len() && name[k] == '.' && forall|j: int|
            k < j < name.len() ==> name[j] != '.',
        last_dot(name) is None ==> forall|j: int| 0 <= j < name.len() ==> name[j] != '.',
    decreases name.len(),
{
    if name.len() > 0 && name.last() != '.' {
        lemma_last_dot(name.drop_last());
        assert forall|j: int| 0 <= j < name.len() - 1 implies name[j] == name.drop_last()[j] by {}
    }
}

/// The extension of a file name.
pub fn extension(name: &str) -> (r: Option<String>)
    ensures
        match r {
            Some(e) => extension_of(name@) == Some(e@),
            None => extension_of(name@) is None,
        },
{
    let v = chars_of(name);
    proof {
        lemma_last_dot(v@);
    }
    let mut k = v.len();
    while k > 0 && v[k - 1] != '.'
        invariant
            k <= v.len(),
            forall|j: int| k <= j < v.len() ==> v@[j] != '.',
        decreases k,
    {
        k = k - 1;
    }
    if k == 0 {
        return None;
    }
    assert(last_dot(v@) == Some(k - 1)) by {
        let d = last_dot(v@);
        if d is None {
            assert(v@[k - 1] != '.');
        } else {
            let dk = d->0;
            if dk < k - 1 {
                assert(v@[k - 1] != '.');
            }
        }
    }
    if k == 1 {
        return None;
    }
    let e = subseq(&v, k, v.len());
    assert(e@ =~= v@.skip(k as int));
    Some(string_of(&e))
}

/// The lowercase extension of a file name.
pub fn lowercase_extension(name: &str) -> (r: Option<String>)
    ensures
        match r {
            Some(e) => extension_of(name@) matches Some(x) && e@ == crate::text::ascii_lower(x),
            None => extension_of(name@) is None,
        },
{
    match extension(name) {
        Some(e) => Some(str_ascii_lower(&e)),
        None => None,
    }
}

/// `Path::parent` of a relative path given by its components, as text with
/// `\` turned into `/`; `None` for a single component.
pub open spec fn parent_of(parts: Seq<Seq<char>>) -> Option<Seq<char>> {
    if parts.len() <= 1 {
        None
    } else {
        Some(replace_char(join(parts.drop_last()), '\\', "/"@))
    }
}

/// The parent directory of a relative path, given by its components.
pub fn parent_path(parts: &Vec<String>) -> (r: Option<String>)
    ensures
        match r {
            Some(p) => parent_of(component_views(parts@)) == Some(p@),
            None => parent_of(component_views(parts@)) is None,
        },
{
    if parts.len() <= 1 {
        return None;
    }
    let mut prefix: Vec<String> = Vec::new();
    for i in 0..parts.len() - 1
        invariant
            parts.len() > 1,
            prefix@ == parts@.take(i as int),
    {
        prefix.push(parts[i].clone());
        assert(prefix@ =~= parts@.take(i + 1));
    }
    assert(component_views(prefix@) =~= component_views(parts@).drop_last());
    let joined = join_components(&prefix);
    Some(str_replace_char(&joined, '\\', "/"))
}

/// The `/`-separated segments of a path, empty ones included.
pub open spec fn segments(s: Seq<char>) -> Seq<Seq<char>>
    decreases s.len(),
{
    if s.len() == 0 {
        seq![seq![]]
    } else {
        let prev = segments(s.drop_last());
        if s.last() == '/' {
            prev.push(seq![])
        } else {
            prev.update(prev.len() - 1, prev.last().push(s.last()))
        }
    }
}

/// A segment that `Path::components` reports: neither empty nor `.`.
pub open spec fn is_component(seg: Seq<char>) -> bool {
    seg.len() > 0 && seg != seq!['.']
}

/// The last segment of `segs` that is a component.
pub open spec fn last_component(segs: Seq<Seq<char>>) -> Option<Seq<char>>
    decreases segs.len(),
{
    if segs.len() == 0 {
        None
    } else if is_component(segs.last()) {
        Some(segs.last())
    } else {
        last_component(segs.drop_last())
    }
}

/// `Path::file_name`: the last component of the path, unless there is none
/// or it is `..`.
pub open spec fn file_name_of(path: Seq<char>) -> Option<Seq<char>> {
    match last_component(segments(path)) {
        Some(c) => if c == seq!['.', '.'] {
            None
        } else {
            Some(c)
        },
        None => None,
    }
}

proof fn lemma_segments_nonempty(s: Seq<char>)
    ensures
        segments(s).len() >= 1,
    decreases s.len(),
{
    if s.len() > 0 {
        lemma_segments_nonempty(s.drop_last());
    }
}

fn is_component_exec(seg: &Vec<char>) -> (r: bool)
    ensures
        r == is_component(seg@),
{
    if seg.len() == 0 {
        return false;
    }
    if seg.len() == 1 && seg[0] == '.' {
        assert(seg@ =~= seq!['.']);
        return false;
    }
    assert(seg@ != seq!['.']) by {
        if seg@ == seq!['.'] {
            assert(seg@[0] == '.');
        }
    }
    true
}

/// The file name of a path (`Path::file_name`).
pub fn file_name(path: &str) -> (r: Option<String>)
    ensures
        match r {
            Some(n) => file_name_of(path@) == Some(n@),
            None => file_name_of(path@) is None,
        },
{
    let v = chars_of(path);
    let mut cur: Vec<char> = Vec::new();
    let mut last: Option<Vec<char>> = None;
    for i in 0..v.len()
        invariant
            v@ == path@,
            segments(v@.take(i as int)).len() >= 1,
            cur@ == segments(v@.take(i as int)).last(),
            match last {
                Some(l) => last_component(segments(v@.take(i as int)).drop_last()) == Some(l@),
                None => last_component(segments(v@.take(i as int)).drop_last()) is None,
            },
    {
        let ghost prev = segments(v@.take(i as int));
        assert(v@.take(i + 1).drop_last() =~= v@.take(i as int));
        if v[i] == '/' {
            assert(segments(v@.take(i + 1)) == prev.push(seq![]));
            assert(segments(v@.take(i + 1)).drop_last() =~= prev);
            if is_component_exec(&cur) {
                last = Some(cur);
            }
            cur = Vec::new();
            assert(cur@ =~= seq![]);
        } else {
            assert(segments(v@.take(i + 1)).drop_last() =~= prev.drop_last());
            cur.push(v[i]);
        }
    }
    assert(v@.take(v.len() as int) =~= v@);
    proof {
        lemma_segments_nonempty(v@);
    }
    let found = if is_component_exec(&cur) {
        Some(cur)
    } else {
        last
    };
    match found {
        None => None,
        Some(c) => {
            if c.len() == 2 && c[0] == '.' && c[1] == '.' {
                assert(c@ =~= seq!['.', '.']);
                None
            } else {
                assert(c@ != seq!['.', '.']) by {
                    if c@ == seq!['.', '.'] {
                        assert(c@[0] == '.' && c@[1] == '.');
                    }
                }
                Some(string_of(&c))
            }
        },
    }
}

pub open spec fn component_filter() -> spec_fn(Seq<char>) -> bool {
    |seg: Seq<char>| is_component(seg)
}

/// `Path::components` of a path: the root when it starts with `/`, then
/// its non-empty segments other than `.`.
pub open spec fn path_components(p: Seq<char>) -> Seq<Seq<char>> {
    (if p.len() > 0 && p[0] == '/' {
        seq![seq!['/']]
    } else {
        seq![]
    }) + segments(p).filter(component_filter())
}

/// `Path::starts_with`: the components of `base` begin those of `p`.
pub open spec fn path_starts_with(p: Seq<char>, base: Seq<char>) -> bool {
    let a = path_components(p);
    let b = path_components(base);
    b.len() <= a.len() && a.take(b.len() as int) == b
}

pub open spec fn string_views(v: Seq<String>) -> Seq<Seq<char>> {
    v.map_values(|s: String| s@)
}

/// The components of a path.
pub fn components(p: &str) -> (r: Vec<String>)
    ensures
        string_views(r@) == path_components(p@),
{
    let v = chars_of(p);
    let mut out: Vec<String> = Vec::new();
    if v.len() > 0 && v[0] == '/' {
        let mut root = String::new();
        root.push('/');
        assert(root@ =~= seq!['/']);
        out.push(root);
        assert(string_views(out@) =~= seq![seq!['/']]);
    }
    let ghost head = string_views(out@);
    let mut cur: Vec<char> = Vec::new();
    assert(v@.take(0) =~= Seq::<char>::empty());
    assert(segments(v@.take(0)).drop_last() =~= Seq::<Seq<char>>::empty());
    assert(Seq::<Seq<char>>::empty().filter(component_filter()) =~= Seq::<Seq<char>>::empty())
        by {
        reveal(Seq::filter);
    }
    assert(head + Seq::<Seq<char>>::empty() =~= head);
    for i in 0..v.len()
        invariant
            v@ == p@,
            head == (if p@.len() > 0 && p@[0] == '/' {
                seq![seq!['/']]
            } else {
                seq![]
            }),
            segments(v@.take(i as int)).len() >= 1,
            cur@ == segments(v@.take(i as int)).last(),
            string_views(out@) == head + segments(v@.take(i as int)).drop_last().filter(
                component_filter(),
            ),
    {
        let ghost prev = segments(v@.take(i as int));
        assert(v@.take(i + 1).drop_last() =~= v@.take(i as int));
        if v[i] == '/' {
            assert(segments(v@.take(i + 1)) == prev.push(seq![]));
            assert(segments(v@.take(i + 1)).drop_last() =~= prev);
            proof {
                reveal(Seq::filter);
                assert(prev =~= prev.drop_last().push(prev.last()));
            }
            let ghost before = string_views(out@);
            if is_component_exec(&cur) {
                out.push(string_of(&cur));
                assert(string_views(out@) =~= before.push(cur@));
            }
            cur = Vec::new();
            assert(cur@ =~= seq![]);
        } else {
            assert(segments(v@.take(i + 1)).drop_last() =~= prev.drop_last());
            cur.push(v[i]);
        }
    }
    assert(v@.take(v.len() as int) =~= v@);
    proof {
        lemma_segments_nonempty(v@);
        reveal(Seq::filter);
        let segs = segments(v@);
        assert(segs =~= segs.drop_last().push(segs.last()));
    }
    let ghost before = string_views(out@);
    if is_component_exec(&cur) {
        out.push(string_of(&cur));
        assert(string_views(out@) =~= before.push(cur@));
    }
    assert(string_views(out@) =~= path_components(p@));
    out
}

/// Whether the path `p` lies under `base` (`Path::starts_with`).
pub fn starts_with_path(p: &str, base: &str) -> (r: bool)
    ensures
        r == path_starts_with(p@, base@),
{
    let a = components(p);
    let b = components(base);
    if b.len() > a.len() {
        return false;
    }
    for i in 0..b.len()
        invariant
            b@.len() <= a@.len(),
            string_views(a@) == path_components(p@),
            string_views(b@) == path_components(base@),
            forall|j: int| 0 <= j < i ==> #[trigger] a@[j]@ == b@[j]@,
    {
        if !crate::text::str_eq(&a[i], &b[i]) {
            assert(string_views(a@)[i as int] != string_views(b@)[i as int]);
            return false;
        }
    }
    assert(string_views(a@).take(b@.len() as int) =~= string_views(b@));
    true
}

/// The components of `path` after those of `root`, when `path` is under
/// `root` (`Path::strip_prefix`).
pub open spec fn relative_components(root: Seq<char>, path: Seq<char>) -> Option<Seq<Seq<char>>> {
    if path_starts_with(path, root) {
        Some(path_components(path).skip(path_components(root).len() as int))
    } else {
        None
    }
}

/// The path of `path` relative to `root`, its components joined by `/`;
/// `None` when it is not under `root`.
pub fn normalized_relative_path(root: &str, path: &str) -> (r: Option<String>)
    ensures
        match r {
            Some(p) => relative_components(root@, path@) matches Some(c) && p@ == join(c),
            None => relative_components(root@, path@) is None,
        },
{
    if !starts_with_path(path, root) {
        return None;
    }
    let all = components(path);
    let skip = components(root).len();
    let mut rest: Vec<String> = Vec::new();
    let mut i = skip;
    while i < all.len()
        invariant
            skip <= i <= all@.len(),
            string_views(all@) == path_components(path@),
            skip == path_components(root@).len(),
            rest@ == all@.subrange(skip as int, i as int),
        decreases all.len() - i,
    {
        rest.push(all[i].clone());
        assert(rest@ =~= all@.subrange(skip as int, i + 1));
        i = i + 1;
    }
    assert(component_views(rest@) =~= path_components(path@).skip(skip as int));
    Some(join_components(&rest))
}

} // verus!
