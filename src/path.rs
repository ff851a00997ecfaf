//! The sandboxed path gateway: relative paths resolved under an instance
//! root, and the protected-file policy.
use vstd::prelude::*;
use vstd::string::*;

use crate::error::{Error, ErrorKind};

verus! {

/// Both `/` and `\` separate path segments, whatever the host platform.
pub open spec fn is_separator(c: char) -> bool {
    c == '/' || c == '\\'
}

/// The pieces of `s` between separators, empty pieces included; there is
/// always at least one.
pub open spec fn split_segments(s: Seq<char>) -> Seq<Seq<char>>
    decreases s.len(),
{
    if s.len() == 0 {
        seq![Seq::empty()]
    } else {
        let prev = split_segments(s.drop_last());
        if is_separator(s.last()) {
            prev.push(Seq::empty())
        } else {
            prev.update(prev.len() - 1, prev.last().push(s.last()))
        }
    }
}

pub open spec fn dot() -> Seq<char> {
    seq!['.']
}

pub open spec fn dot_dot() -> Seq<char> {
    seq!['.', '.']
}

/// One segment applied to the directories below the root: empty and `.`
/// segments stay, `..` climbs one level and fails at the root itself.
pub open spec fn step(stack: Option<Seq<Seq<char>>>, seg: Seq<char>) -> Option<Seq<Seq<char>>> {
    match stack {
        None => None,
        Some(st) => if seg.len() == 0 || seg == dot() {
            Some(st)
        } else if seg == dot_dot() {
            if st.len() == 0 {
                None
            } else {
                Some(st.drop_last())
            }
        } else {
            Some(st.push(seg))
        },
    }
}

/// The directories below the root that the segments lead to, or `None`
/// where they climb above the root.
pub open spec fn walk(segs: Seq<Seq<char>>) -> Option<Seq<Seq<char>>>
    decreases segs.len(),
{
    if segs.len() == 0 {
        Some(Seq::empty())
    } else {
        step(walk(segs.drop_last()), segs.last())
    }
}

/// `root`, followed by `/` and each segment in turn.
pub open spec fn join_under(root: Seq<char>, st: Seq<Seq<char>>) -> Seq<char>
    decreases st.len(),
{
    if st.len() == 0 {
        root
    } else {
        join_under(root, st.drop_last()) + seq!['/'] + st.last()
    }
}

/// The absolute path that `rel` names under `root`, or `None` where it
/// would escape `root`.
pub open spec fn resolve_spec(root: Seq<char>, rel: Seq<char>) -> Option<Seq<char>> {
    match walk(split_segments(rel)) {
        Some(st) => Some(join_under(root, st)),
        None => None,
    }
}

proof fn lemma_split_nonempty(s: Seq<char>)
    ensures
        split_segments(s).len() >= 1,
    decreases s.len(),
{
    if s.len() > 0 {
        lemma_split_nonempty(s.drop_last());
    }
}

/// Whether `rel@[a..b]` is exactly `lit`, for a literal of at most two characters.
fn segment_is(rel: &str, a: usize, b: usize, lit: &str) -> (r: bool)
    requires
        a <= b <= rel@.len(),
        lit@.len() <= 2,
    ensures
        r == (rel@.subrange(a as int, b as int) == lit@),
{
    let n = lit.unicode_len();
    if b - a != n {
        return false;
    }
    let mut k: usize = 0;
    while k < n
        invariant
            a <= b <= rel@.len(),
            b - a == n == lit@.len(),
            k <= n,
            forall|j: int| 0 <= j < k ==> rel@[a + j] == lit@[j],
        decreases n - k,
    {
        if rel.get_char(a + k) != lit.get_char(k) {
            assert(rel@.subrange(a as int, b as int)[k as int] != lit@[k as int]);
            return false;
        }
        k = k + 1;
    }
    assert(rel@.subrange(a as int, b as int) =~= lit@);
    true
}

/// The segment `rel@[a..b]` applied to `stack`; `false` where it climbs
/// above the root.
fn apply_segment(rel: &str, a: usize, b: usize, stack: &mut Vec<(usize, usize)>) -> (ok: bool)
    requires
        a <= b <= rel@.len(),
        within(old(stack)@, rel@.len() as int),
    ensures
        within(final(stack)@, rel@.len() as int),
        ok == step(Some(segs_of(rel@, old(stack)@)), rel@.subrange(a as int, b as int)) is Some,
        ok ==> step(Some(segs_of(rel@, old(stack)@)), rel@.subrange(a as int, b as int)) == Some(
            segs_of(rel@, final(stack)@),
        ),
{
    let ghost seg = rel@.subrange(a as int, b as int);
    let ghost st = segs_of(rel@, stack@);
    proof {
        reveal_strlit(".");
        reveal_strlit("..");
    }
    if a == b || segment_is(rel, a, b, ".") {
        assert(seg.len() == 0 || seg == dot()) by {
            if a != b {
                assert("."@ =~= dot());
            }
        }
        true
    } else if segment_is(rel, a, b, "..") {
        assert(".."@ =~= dot_dot());
        if stack.len() == 0 {
            false
        } else {
            stack.pop();
            assert(segs_of(rel@, stack@) =~= st.drop_last());
            true
        }
    } else {
        assert(seg != dot()) by {
            if seg == dot() {
                assert(".."@ =~= dot_dot());
                assert(seg =~= "."@);
            }
        }
        assert(seg != dot_dot()) by {
            if seg == dot_dot() {
                assert(seg =~= ".."@);
            }
        }
        stack.push((a, b));
        assert(segs_of(rel@, stack@) =~= st.push(seg));
        true
    }
}

/// Each index pair is an ordered range inside a string of length `n`.
pub open spec fn within(idx: Seq<(usize, usize)>, n: int) -> bool {
    forall|k: int| 0 <= k < idx.len() ==> #[trigger] idx[k].0 <= idx[k].1 <= n
}

/// The segments that index pairs into `rel` stand for.
pub open spec fn segs_of(rel: Seq<char>, idx: Seq<(usize, usize)>) -> Seq<Seq<char>> {
    idx.map_values(|p: (usize, usize)| rel.subrange(p.0 as int, p.1 as int))
}

/// Resolves `rel` under `root`, treating `/` and `\` alike as separators.
/// Fails with `MalformedPath` exactly where `..` segments would climb above
/// `root`; otherwise returns `root` followed by the remaining segments.
pub fn scoped_join(root: &str, rel: &str) -> (r: Result<String, Error>)
    ensures
        r is Ok <==> resolve_spec(root@, rel@) is Some,
        r matches Ok(p) ==> resolve_spec(root@, rel@) == Some(p@),
        r matches Err(e) ==> e.kind == ErrorKind::MalformedPath,
{
    let n = rel.unicode_len();
    let mut stack: Vec<(usize, usize)> = Vec::new();
    let mut start: usize = 0;
    let mut i: usize = 0;
    while i < n
        invariant
            n == rel@.len(),
            start <= i <= n,
            within(stack@, rel@.len() as int),
            split_segments(rel@.take(i as int)).len() >= 1,
            split_segments(rel@.take(i as int)).last() == rel@.subrange(start as int, i as int),
            walk(split_segments(rel@.take(i as int)).drop_last()) == Some(segs_of(rel@, stack@)),
        decreases n - i,
    {
        let c = rel.get_char(i);
        proof {
            lemma_split_nonempty(rel@.take(i as int));
            lemma_split_nonempty(rel@.take(i + 1));
        }
        let ghost prev = split_segments(rel@.take(i as int));
        assert(rel@.take(i + 1).drop_last() =~= rel@.take(i as int));
        let ghost cur = split_segments(rel@.take(i + 1));
        if c == '/' || c == '\\' {
            let ok = apply_segment(rel, start, i, &mut stack);
            if !ok {
                proof {
                    assert(cur.drop_last() =~= prev);
                    assert(walk(prev) is None);
                    lemma_walk_none_stays(rel@, i as int + 1);
                }
                return Err(Error::new(ErrorKind::MalformedPath, "path escapes the instance root"));
            }
            assert(cur.drop_last() =~= prev);
            start = i + 1;
            assert(cur.last() =~= rel@.subrange(start as int, i + 1));
        } else {
            assert(cur.drop_last() =~= prev.drop_last());
            assert(cur.last() =~= rel@.subrange(start as int, i + 1));
        }
        i = i + 1;
    }
    assert(rel@.take(n as int) =~= rel@);
    let ghost sp = split_segments(rel@);
    proof {
        lemma_split_nonempty(rel@);
    }
    let ok = apply_segment(rel, start, n, &mut stack);
    assert(walk(sp) == step(walk(sp.drop_last()), sp.last()));
    if !ok {
        return Err(Error::new(ErrorKind::MalformedPath, "path escapes the instance root"));
    }
    let mut out = root.to_owned();
    let mut j: usize = 0;
    while j < stack.len()
        invariant
            within(stack@, rel@.len() as int),
            j <= stack@.len(),
            out@ == join_under(root@, segs_of(rel@, stack@).take(j as int)),
        decreases stack@.len() - j,
    {
        let (a, b) = stack[j];
        out.append("/");
        out.append(rel.substring_char(a, b));
        proof {
            reveal_strlit("/");
            let s = segs_of(rel@, stack@);
            assert(s.take(j + 1).drop_last() =~= s.take(j as int));
            assert("/"@ =~= seq!['/']);
        }
        j = j + 1;
    }
    assert(segs_of(rel@, stack@).take(j as int) =~= segs_of(rel@, stack@));
    Ok(out)
}

/// Once the segments have climbed above the root, no later character
/// brings them back.
proof fn lemma_walk_none_stays(s: Seq<char>, k: int)
    requires
        0 <= k <= s.len(),
        walk(split_segments(s.take(k)).drop_last()) is None,
    ensures
        walk(split_segments(s).drop_last()) is None,
        walk(split_segments(s)) is None,
    decreases s.len(),
{
    lemma_split_nonempty(s);
    if k == s.len() {
        assert(s.take(k) =~= s);
    } else {
        let p = s.drop_last();
        assert(p.take(k) =~= s.take(k));
        lemma_walk_none_stays(p, k);
        lemma_split_nonempty(p);
        if is_separator(s.last()) {
            assert(split_segments(s).drop_last() =~= split_segments(p));
        } else {
            assert(split_segments(s).drop_last() =~= split_segments(p).drop_last());
        }
    }
}

/// The last component of `p`: what follows its last separator.
pub open spec fn file_name(p: Seq<char>) -> Seq<char>
    decreases p.len(),
{
    if p.len() == 0 {
        p
    } else if is_separator(p.last()) {
        Seq::empty()
    } else {
        file_name(p.drop_last()).push(p.last())
    }
}

/// What follows the last `.` of a file name, where that dot is not its first
/// character; `None` where there is no such dot.
pub open spec fn extension(name: Seq<char>) -> Option<Seq<char>>
    decreases name.len(),
{
    if name.len() == 0 {
        None
    } else if name.last() == '.' {
        if name.len() > 1 {
            Some(Seq::empty())
        } else {
            None
        }
    } else {
        match extension(name.drop_last()) {
            Some(e) => Some(e.push(name.last())),
            None => None,
        }
    }
}

/// Archives, scripts, executables, installers and the directory marker.
pub open spec fn is_protected_extension(e: Seq<char>) -> bool {
    e == "jar"@ || e == "lua"@ || e == "sh"@ || e == "exe"@ || e == "bat"@ || e == "cmd"@
        || e == "msi"@ || e == "lodestone_config"@ || e == "out"@ || e == "inf"@
}

/// A path may not be written or removed where its file name has no
/// extension, or a protected one.
pub open spec fn is_protected(p: Seq<char>) -> bool {
    match extension(file_name(p)) {
        None => true,
        Some(e) => is_protected_extension(e),
    }
}

/// Whether `a` and `b` hold the same characters.
fn str_eq(a: &str, b: &str) -> (r: bool)
    ensures
        r == (a@ == b@),
{
    let n = a.unicode_len();
    if n != b.unicode_len() {
        return false;
    }
    let mut k: usize = 0;
    while k < n
        invariant
            n == a@.len() == b@.len(),
            k <= n,
            forall|j: int| 0 <= j < k ==> a@[j] == b@[j],
        decreases n - k,
    {
        if a.get_char(k) != b.get_char(k) {
            return false;
        }
        k = k + 1;
    }
    assert(a@ =~= b@);
    true
}

fn protected_extension(e: &str) -> (r: bool)
    ensures
        r == is_protected_extension(e@),
{
    str_eq(e, "jar") || str_eq(e, "lua") || str_eq(e, "sh") || str_eq(e, "exe") || str_eq(e, "bat")
        || str_eq(e, "cmd") || str_eq(e, "msi") || str_eq(e, "lodestone_config") || str_eq(e, "out")
        || str_eq(e, "inf")
}

/// Whether `path` is a protected file: one whose name has no extension or
/// a protected one.
pub fn is_file_protected(path: &str) -> (r: bool)
    ensures
        r == is_protected(path@),
{
    let n = path.unicode_len();
    let mut name_start: usize = 0;
    let mut ext_start: Option<usize> = None;
    let mut i: usize = 0;
    while i < n
        invariant
            n == path@.len(),
            name_start <= i <= n,
            file_name(path@.take(i as int)) == path@.subrange(name_start as int, i as int),
            match ext_start {
                Some(e) => name_start < e <= i && extension(path@.subrange(name_start as int, i as int))
                    == Some(path@.subrange(e as int, i as int)),
                None => extension(path@.subrange(name_start as int, i as int)) is None,
            },
        decreases n - i,
    {
        let c = path.get_char(i);
        let ghost name = path@.subrange(name_start as int, i as int);
        assert(path@.take(i + 1).drop_last() =~= path@.take(i as int));
        if c == '/' || c == '\\' {
            name_start = i + 1;
            ext_start = None;
            assert(path@.subrange(name_start as int, i + 1) =~= Seq::<char>::empty());
        } else {
            let ghost name2 = path@.subrange(name_start as int, i + 1);
            assert(name2.drop_last() =~= name);
            assert(name2 =~= name.push(c));
            if c == '.' {
                if i > name_start {
                    ext_start = Some(i + 1);
                } else {
                    ext_start = None;
                }
                assert(path@.subrange(i + 1, i + 1) =~= Seq::<char>::empty());
            } else {
                if let Some(e) = ext_start {
                    assert(path@.subrange(e as int, i + 1) =~= path@.subrange(e as int, i as int).push(c));
                }
            }
        }
        i = i + 1;
    }
    assert(path@.take(n as int) =~= path@);
    match ext_start {
        None => true,
        Some(e) => protected_extension(path.substring_char(e, n)),
    }
}

/// A file name that ends in `.` and an extension free of dots and
/// separators has exactly that extension.
proof fn lemma_extension_of_suffix(stem: Seq<char>, e: Seq<char>)
    requires
        stem.len() > 0,
        !is_separator(stem.last()),
        forall|i: int| 0 <= i < e.len() ==> #[trigger] e[i] != '.' && !is_separator(e[i]),
    ensures
        extension(file_name(stem + seq!['.'] + e)) == Some(e),
    decreases e.len(),
{
    if e.len() == 0 {
        let p = stem + seq!['.'] + e;
        assert(p.drop_last() =~= stem);
        assert(file_name(stem) == file_name(stem.drop_last()).push(stem.last()));
        assert(file_name(p).drop_last() =~= file_name(stem));
    } else {
        let e2 = e.drop_last();
        let c = e.last();
        assert(c == e[e.len() - 1]);
        lemma_extension_of_suffix(stem, e2);
        let p = stem + seq!['.'] + e;
        assert(p.drop_last() =~= stem + seq!['.'] + e2);
        assert(file_name(p).drop_last() =~= file_name(stem + seq!['.'] + e2));
        assert(e2.push(c) =~= e);
    }
}

/// A path whose file name ends in `.` and a protected extension is
/// protected.
pub proof fn lemma_protected_extension_is_protected(stem: Seq<char>, e: Seq<char>)
    requires
        stem.len() > 0,
        !is_separator(stem.last()),
        is_protected_extension(e),
    ensures
        is_protected(stem + seq!['.'] + e),
{
    reveal_strlit("jar");
    reveal_strlit("lua");
    reveal_strlit("sh");
    reveal_strlit("exe");
    reveal_strlit("bat");
    reveal_strlit("cmd");
    reveal_strlit("msi");
    reveal_strlit("lodestone_config");
    reveal_strlit("out");
    reveal_strlit("inf");
    assert(forall|i: int| 0 <= i < e.len() ==> #[trigger] e[i] != '.' && !is_separator(e[i]));
    lemma_extension_of_suffix(stem, e);
}

/// A path whose file name has no extension is protected.
pub proof fn lemma_no_extension_is_protected(p: Seq<char>)
    requires
        extension(file_name(p)) is None,
    ensures
        is_protected(p),
{
}

/// The path of `p` below `root`: empty for `root` itself, what follows
/// `root` and a separator for a path under it, and `None` otherwise.
pub open spec fn relative_spec(root: Seq<char>, p: Seq<char>) -> Option<Seq<char>> {
    if p == root {
        Some(Seq::empty())
    } else if p.len() > root.len() && p.subrange(0, root.len() as int) == root && is_separator(
        p[root.len() as int],
    ) {
        Some(p.subrange(root.len() as int + 1, p.len() as int))
    } else {
        None
    }
}

/// The path of `p` below `root`, as a listing shows it.
pub fn relative_to_root(root: &str, p: &str) -> (r: Option<String>)
    ensures
        r is Some <==> relative_spec(root@, p@) is Some,
        r matches Some(q) ==> relative_spec(root@, p@) == Some(q@),
{
    let n = root.unicode_len();
    let m = p.unicode_len();
    if m < n {
        assert(p@ != root@);
        return None;
    }
    let mut k: usize = 0;
    while k < n
        invariant
            n == root@.len(),
            m == p@.len(),
            n <= m,
            k <= n,
            forall|j: int| 0 <= j < k ==> p@[j] == root@[j],
        decreases n - k,
    {
        if p.get_char(k) != root.get_char(k) {
            assert(p@.subrange(0, n as int)[k as int] != root@[k as int]);
            assert(p@[k as int] != root@[k as int]);
            return None;
        }
        k = k + 1;
    }
    assert(p@.subrange(0, n as int) =~= root@);
    if m == n {
        assert(p@ =~= root@);
        return Some(String::new());
    }
    let c = p.get_char(n);
    if c == '/' || c == '\\' {
        Some(p.substring_char(n + 1, m).to_owned())
    } else {
        None
    }
}

} // verus!
