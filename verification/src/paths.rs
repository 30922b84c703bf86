//! Paths as text: directories separated by `/`.

use vstd::prelude::*;
use crate::text::{chars_of, slice_text};

verus! {

/// The position of the last `c` in `s`, or -1 where there is none.
pub open spec fn last_index_of(s: Seq<char>, c: char) -> int
    decreases s.len(),
{
    if s.len() == 0 {
        -1
    } else if s.last() == c {
        s.len() - 1
    } else {
        last_index_of(s.drop_last(), c)
    }
}

/// How many characters in front of a path belong to no component of its
/// body: one for the root, or for a `.` that stands alone in front.
pub open spec fn front_len(p: Seq<char>) -> int {
    if p.len() > 0 && (p[0] == '/' || (p[0] == '.' && (p.len() == 1 || p[1] == '/'))) {
        1
    } else {
        0
    }
}

/// The length of a path without what stands idle at the end of its body:
/// separators, and components `.`. The first `front` characters are no part
/// of the body and stay.
pub open spec fn body_end(p: Seq<char>, front: int) -> int
    decreases p.len(),
{
    let n = p.len() as int;
    if n <= front || front < 0 {
        n
    } else if p[n - 1] == '/' {
        body_end(p.take(n - 1), front)
    } else if p[n - 1] == '.' && n - 1 == front {
        front
    } else if p[n - 1] == '.' && p[n - 2] == '/' {
        body_end(p.take(n - 2), front)
    } else {
        n
    }
}

/// The path without the separators and the components `.` at its end.
pub open spec fn stripped(p: Seq<char>) -> Seq<char> {
    p.take(body_end(p, front_len(p)))
}

/// Where the last component of a path begins.
pub open spec fn name_start(p: Seq<char>) -> int {
    let f = front_len(p);
    let q = stripped(p);
    f + last_index_of(q.subrange(f, q.len() as int), '/') + 1
}

/// The last component of the body of a path, separators and components `.`
/// at the end of the path not counted; empty where the body holds none.
pub open spec fn last_component(p: Seq<char>) -> Seq<char> {
    let q = stripped(p);
    if q.len() <= front_len(p) {
        Seq::empty()
    } else {
        q.skip(name_start(p))
    }
}

/// The last component of a path names something: there is one, and it is
/// not `..`.
pub open spec fn has_file_name(p: Seq<char>) -> bool {
    last_component(p).len() > 0 && last_component(p) != seq!['.', '.']
}

/// The name that the last component of a path gives, where it gives one.
pub open spec fn file_name_of(p: Seq<char>) -> Option<Seq<char>> {
    if has_file_name(p) {
        Some(last_component(p))
    } else {
        None
    }
}

/// The path without its last component. The root and the empty path have
/// none; a single name, `.` and `..` have the empty path; what lies
/// directly under the root has the root. Separators and components `.` at
/// the end of the path, and in front of its last component, do not count.
pub open spec fn parent_of(p: Seq<char>) -> Option<Seq<char>> {
    let f = front_len(p);
    let q = stripped(p);
    if q.len() <= f {
        if f == 1 && p[0] == '.' {
            Some(Seq::empty())
        } else {
            None
        }
    } else {
        let start = name_start(p);
        let rest = if start > f {
            q.take(start - 1)
        } else {
            q.take(f)
        };
        Some(rest.take(body_end(rest, f)))
    }
}

/// The path of `name` inside the directory `base`; `name` itself where it
/// starts at the root.
pub open spec fn joined(base: Seq<char>, name: Seq<char>) -> Seq<char> {
    if name.len() > 0 && name[0] == '/' {
        name
    } else if base.len() == 0 {
        name
    } else if base.last() == '/' {
        base + name
    } else {
        base + seq!['/'] + name
    }
}

/// The last component of a path has an extension: a dot that is not its
/// first character.
pub open spec fn has_extension(p: Seq<char>) -> bool {
    has_file_name(p) && last_index_of(last_component(p), '.') > 0
}

/// The path with the extension of its last component replaced by `ext`, or
/// given `ext` where it has none; with an empty `ext` the extension and its
/// dot are taken away. The extension is what follows the last dot of the
/// component, a dot at its front not counted. What follows the last
/// component is dropped. A path whose last component names nothing stays as
/// it is.
pub open spec fn with_extension_of(p: Seq<char>, ext: Seq<char>) -> Seq<char> {
    let name = last_component(p);
    if !has_file_name(p) {
        p
    } else {
        let dot = last_index_of(name, '.');
        let stem = if dot <= 0 {
            name
        } else {
            name.take(dot)
        };
        let front = stripped(p).take(name_start(p)) + stem;
        if ext.len() == 0 {
            front
        } else {
            front + seq!['.'] + ext
        }
    }
}

/// The last `c` in `s` stands at `at` where `c` stands there and nowhere
/// behind; there is none where `at` is -1 and `c` stands nowhere.
pub proof fn lemma_last_index_of_at(s: Seq<char>, c: char, at: int)
    requires
        -1 <= at < s.len(),
        at >= 0 ==> s[at] == c,
        forall|i: int| at < i < s.len() ==> #[trigger] s[i] != c,
    ensures
        last_index_of(s, c) == at,
    decreases s.len(),
{
    if s.len() > 0 && at < s.len() - 1 {
        let t = s.drop_last();
        assert(s[s.len() - 1] != c);
        assert forall|i: int| at < i < t.len() implies #[trigger] t[i] != c by {
            assert(t[i] == s[i]);
        }
        if at >= 0 {
            assert(t[at] == s[at]);
        }
        lemma_last_index_of_at(t, c, at);
    }
}

/// How many characters in front of the path belong to no component of its
/// body.
fn front_of(v: &Vec<char>) -> (r: usize)
    ensures
        r == front_len(v@),
        r <= v@.len(),
        r <= 1,
{
    if v.len() > 0 && (v[0] == '/' || (v[0] == '.' && (v.len() == 1 || v[1] == '/'))) {
        1
    } else {
        0
    }
}

/// The length of the first `end` characters without what stands idle at the
/// end of their body.
fn trimmed_end(v: &Vec<char>, front: usize, end: usize) -> (r: usize)
    requires
        end <= v@.len(),
    ensures
        r <= end,
        r == body_end(v@.take(end as int), front as int),
{
    let mut r: usize = end;
    assert(v@.take(end as int).take(r as int) =~= v@.take(r as int));
    while r > front
        invariant
            r <= end <= v@.len(),
            body_end(v@.take(end as int), front as int) == body_end(
                v@.take(r as int),
                front as int,
            ),
        decreases r,
    {
        let ghost s = v@.take(r as int);
        if v[r - 1] == '/' {
            assert(s.take(r - 1) =~= v@.take(r - 1));
            r -= 1;
        } else if v[r - 1] == '.' && r - 1 == front {
            return front;
        } else if v[r - 1] == '.' && v[r - 2] == '/' {
            assert(s.take(r - 2) =~= v@.take(r - 2));
            r -= 2;
        } else {
            return r;
        }
    }
    r
}

/// The position of the last `c` among the characters from `from` up to
/// `end`.
fn last_position(v: &Vec<char>, from: usize, end: usize, c: char) -> (r: Option<usize>)
    requires
        from <= end <= v@.len(),
    ensures
        match r {
            Some(i) => from <= i < end && last_index_of(v@.subrange(from as int, end as int), c)
                == i - from,
            None => last_index_of(v@.subrange(from as int, end as int), c) == -1,
        },
{
    let ghost s = v@.subrange(from as int, end as int);
    let mut i: usize = end;
    while i > from
        invariant
            from <= i <= end <= v@.len(),
            s == v@.subrange(from as int, end as int),
            forall|j: int| i - from <= j < s.len() ==> #[trigger] s[j] != c,
        decreases i,
    {
        i -= 1;
        if v[i] == c {
            proof {
                assert(s[i - from] == v@[i as int]);
                lemma_last_index_of_at(s, c, i - from);
            }
            return Some(i);
        }
        assert forall|j: int| i - from <= j < s.len() implies #[trigger] s[j] != c by {
            if j == i - from {
                assert(s[j] == v@[i as int]);
            }
        }
    }
    proof {
        lemma_last_index_of_at(s, c, -1);
    }
    None
}

/// The path without its last component.
pub fn parent_dir(path: &str) -> (r: Option<String>)
    ensures
        match r {
            Some(d) => parent_of(path@) == Some(d@),
            None => parent_of(path@) is None,
        },
{
    let v = chars_of(path);
    let front = front_of(&v);
    let end = trimmed_end(&v, front, v.len());
    assert(v@.take(v@.len() as int) =~= v@);
    let ghost q = stripped(path@);
    assert(q == v@.take(end as int));
    if end <= front {
        return if front == 1 && v[0] == '.' {
            Some(String::new())
        } else {
            None
        };
    }
    assert(q.subrange(front as int, q.len() as int) =~= v@.subrange(front as int, end as int));
    let start: usize = match last_position(&v, front, end, '/') {
        Some(cut) => cut + 1,
        None => front,
    };
    let rest: usize = if start > front {
        start - 1
    } else {
        front
    };
    assert(q.take(rest as int) =~= v@.take(rest as int));
    let stop = trimmed_end(&v, front, rest);
    assert(v@.take(rest as int).take(stop as int) =~= path@.subrange(0, stop as int));
    Some(slice_text(path, 0, stop))
}

/// The path of `name` inside the directory `base`.
pub fn join_path(base: &str, name: &str) -> (r: String)
    ensures
        r@ == joined(base@, name@),
{
    let v = chars_of(base);
    let w = chars_of(name);
    if w.len() > 0 && w[0] == '/' {
        name.to_owned()
    } else if v.len() == 0 {
        name.to_owned()
    } else if v[v.len() - 1] == '/' {
        base.to_owned().concat(name)
    } else {
        proof {
            reveal_strlit("/");
        }
        assert("/"@ =~= seq!['/']);
        base.to_owned().concat("/").concat(name)
    }
}

/// Where the last component of a path starts and ends, and where its stem
/// ends, if the component names something.
fn name_bounds(v: &Vec<char>) -> (r: Option<(usize, usize, usize)>)
    ensures
        match r {
            Some((start, stem_end, end)) => {
                &&& has_file_name(v@)
                &&& start <= stem_end <= end <= v@.len()
                &&& stripped(v@) == v@.take(end as int)
                &&& last_index_of(last_component(v@), '.') < end - start
                &&& start == name_start(v@)
                &&& last_component(v@) == v@.subrange(start as int, end as int)
                &&& stem_end - start == if last_index_of(last_component(v@), '.') <= 0 {
                    last_component(v@).len() as int
                } else {
                    last_index_of(last_component(v@), '.')
                }
            },
            None => !has_file_name(v@),
        },
{
    let front = front_of(v);
    let end = trimmed_end(v, front, v.len());
    assert(v@.take(v@.len() as int) =~= v@);
    let ghost q = stripped(v@);
    assert(q == v@.take(end as int));
    if end <= front {
        return None;
    }
    assert(q.subrange(front as int, q.len() as int) =~= v@.subrange(front as int, end as int));
    let start: usize = match last_position(v, front, end, '/') {
        Some(cut) => cut + 1,
        None => front,
    };
    let ghost name = last_component(v@);
    assert(name =~= v@.subrange(start as int, end as int));
    if start == end {
        return None;
    }
    if end - start == 2 && v[start] == '.' && v[start + 1] == '.' {
        assert(name =~= seq!['.', '.']);
        return None;
    }
    assert(name != seq!['.', '.']) by {
        if name == seq!['.', '.'] {
            assert(name[0] == v@[start as int]);
            assert(name[1] == v@[start + 1]);
        }
    }
    let stem_end: usize = match last_position(v, start, end, '.') {
        Some(dot) => if dot == start {
            end
        } else {
            dot
        },
        None => end,
    };
    Some((start, stem_end, end))
}

/// Whether the last component of a path has an extension.
pub fn path_has_extension(path: &str) -> (r: bool)
    ensures
        r == has_extension(path@),
{
    let v = chars_of(path);
    assert(v@ == path@);
    match name_bounds(&v) {
        Some((start, stem_end, end)) => {
            assert(last_component(path@).len() == end - start);
            stem_end < end
        },
        None => false,
    }
}

/// The path with the extension of its last component replaced by `ext`.
pub fn with_extension(path: &str, ext: &str) -> (r: String)
    ensures
        r@ == with_extension_of(path@, ext@),
{
    let v = chars_of(path);
    match name_bounds(&v) {
        None => path.to_owned(),
        Some((start, stem_end, end)) => {
            proof {
                reveal_strlit(".");
                let q = stripped(path@);
                let name = last_component(path@);
                let dot = last_index_of(name, '.');
                let stem = if dot <= 0 {
                    name
                } else {
                    name.take(dot)
                };
                assert("."@ =~= seq!['.']);
                assert(q == path@.take(end as int));
                assert(name.len() == end - start);
                assert(q.take(start as int) + stem =~= path@.subrange(0, stem_end as int));
            }
            let front = slice_text(path, 0, stem_end);
            if ext.is_empty() {
                front
            } else {
                front.concat(".").concat(ext)
            }
        },
    }
}

} // verus!
