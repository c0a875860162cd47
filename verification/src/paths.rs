//! Path manipulation on `/`-separated path strings: splitting into segments,
//! normalizing `.` and `..` segments, and computing workspace-relative paths.

use vstd::prelude::*;

use crate::strutil::{concat_str, is_prefix, str_eq, starts_with};

verus! {

/// The segments of `s` split on `/`; an empty string has one empty segment,
/// and every separator starts a new segment.
pub open spec fn split_segments(s: Seq<char>) -> Seq<Seq<char>>
    decreases s.len(),
{
    if s.len() == 0 {
        seq![Seq::<char>::empty()]
    } else if s[0] == '/' {
        seq![Seq::<char>::empty()] + split_segments(s.skip(1))
    } else {
        let rest = split_segments(s.skip(1));
        seq![seq![s[0]] + rest[0]] + rest.skip(1)
    }
}

pub proof fn lemma_split_segments_nonempty(s: Seq<char>)
    ensures
        split_segments(s).len() >= 1,
    decreases s.len(),
{
    if s.len() > 0 {
        lemma_split_segments_nonempty(s.skip(1));
    }
}

/// A path written with a leading `../` but no leading `./` is given a `.`
/// segment up front by the normalizer.
pub open spec fn needs_leading_dot(s: Seq<char>) -> bool {
    is_prefix("../"@, s) && !is_prefix("./"@, s)
}

/// One step of segment normalization: how one incoming segment changes the
/// accumulated output.
pub open spec fn normalize_step(
    acc: Seq<Seq<char>>,
    part: Seq<char>,
    first: bool,
    nd: bool,
) -> Seq<Seq<char>> {
    if part == "."@ {
        if first && !nd {
            acc + seq![part]
        } else {
            acc
        }
    } else if part == ".."@ {
        if acc.len() > 0 && acc.last() != "."@ && acc.last() != ".."@ {
            acc.drop_last()
        } else {
            acc + seq![part]
        }
    } else if part == ""@ {
        if first && !nd {
            acc + seq![part]
        } else {
            acc
        }
    } else {
        acc + seq![part]
    }
}

/// The normalized segment list after consuming the first `n` segments.
pub open spec fn normalize_upto(parts: Seq<Seq<char>>, nd: bool, n: int) -> Seq<Seq<char>>
    decreases n,
{
    if n <= 0 {
        if nd {
            seq![".."@.subrange(0, 1)]
        } else {
            Seq::<Seq<char>>::empty()
        }
    } else {
        normalize_step(normalize_upto(parts, nd, n - 1), parts[n - 1], n - 1 == 0, nd)
    }
}

/// Segments joined back together with `/` separators.
pub open spec fn join_segments(parts: Seq<Seq<char>>) -> Seq<char>
    decreases parts.len(),
{
    if parts.len() == 0 {
        Seq::<char>::empty()
    } else if parts.len() == 1 {
        parts[0]
    } else {
        join_segments(parts.drop_last()) + "/"@ + parts.last()
    }
}

/// Full specification of `normalize_path`.
pub open spec fn spec_normalize_path(s: Seq<char>) -> Seq<char> {
    let parts = split_segments(s);
    join_segments(normalize_upto(parts, needs_leading_dot(s), parts.len() as int))
}

/// A path as the file-system snapshot spells it: `.` and `..` segments
/// collapsed and a leading `./` dropped.
pub open spec fn spec_lookup_path(p: Seq<char>) -> Seq<char> {
    let n = spec_normalize_path(p);
    if is_prefix("./"@, n) {
        n.skip(2)
    } else {
        n
    }
}

/// The segment list without its trailing empty segments (a trailing
/// separator contributes one).
pub open spec fn trim_trailing_empty(segs: Seq<Seq<char>>) -> Seq<Seq<char>>
    decreases segs.len(),
{
    if segs.len() > 0 && segs.last().len() == 0 {
        trim_trailing_empty(segs.drop_last())
    } else {
        segs
    }
}

/// Specification of `get_relative_path`: when the root's segments (any
/// trailing separator ignored) are a prefix of the file's segments as
/// written, the result is the remaining segments re-joined; otherwise,
/// and for an empty root, the file comes back unchanged.
pub open spec fn spec_relative_path(file: Seq<char>, root: Seq<char>) -> Seq<char> {
    let fsegs = split_segments(file);
    let rsegs = trim_trailing_empty(split_segments(root));
    if rsegs.len() > 0 && rsegs.len() <= fsegs.len() && rsegs == fsegs.take(rsegs.len() as int) {
        join_segments(fsegs.skip(rsegs.len() as int))
    } else {
        file
    }
}

/// Split a path into its `/`-separated segments.
pub fn split_path(s: &str) -> (r: Vec<String>)
    ensures
        r@.map_values(|p: String| p@) == split_segments(s@),
        r@.len() >= 1,
{
    let n = s.unicode_len();
    let mut parts: Vec<String> = Vec::new();
    let mut seg_start: usize = 0;
    let mut i: usize = 0;
    proof {
        lemma_split_segments_nonempty(s@);
        assert(s@.skip(0) =~= s@);
        assert(s@.subrange(0, 0) =~= Seq::<char>::empty());
        assert(prepend_first(Seq::<char>::empty(), split_segments(s@)) =~~= split_segments(
            s@,
        ));
    }
    while i < n
        invariant
            0 <= seg_start <= i <= n,
            n == s@.len(),
            split_segments(s@) == parts@.map_values(|p: String| p@) + prepend_first(
                s@.subrange(seg_start as int, i as int),
                split_segments(s@.skip(i as int)),
            ),
        decreases n - i,
    {
        let ghost prev_parts = parts@;
        let ghost cur = s@.subrange(seg_start as int, i as int);
        let c = s.get_char(i);
        proof {
            lemma_split_segments_nonempty(s@.skip(i as int + 1));
            assert(s@.skip(i as int)[0] == s@[i as int]);
            assert(s@.skip(i as int).skip(1) =~= s@.skip(i as int + 1));
        }
        if c == '/' {
            let seg = s.substring_char(seg_start, i);
            parts.push(String::from_str(seg));
            seg_start = i + 1;
            proof {
                assert(parts@.map_values(|p: String| p@) =~= prev_parts.map_values(
                    |p: String| p@,
                ) + seq![cur]);
                assert(s@.subrange(seg_start as int, i as int + 1) =~= Seq::<char>::empty());
                assert(prepend_first(cur, split_segments(s@.skip(i as int)))
                    =~= seq![cur] + prepend_first(
                    Seq::<char>::empty(),
                    split_segments(s@.skip(i as int + 1)),
                ));
            }
        } else {
            proof {
                let rest = split_segments(s@.skip(i as int + 1));
                let a = split_segments(s@.skip(i as int));
                assert(a =~~= seq![seq![c] + rest[0]] + rest.skip(1));
                assert(a[0] == seq![c] + rest[0]);
                assert(s@.subrange(seg_start as int, i as int + 1) =~= cur + seq![c]);
                assert(cur + a[0] =~= (cur + seq![c]) + rest[0]);
                assert(prepend_first(cur, a) =~~= prepend_first(cur + seq![c], rest));
            }
        }
        i += 1;
    }
    proof {
        assert(s@.skip(n as int) =~= Seq::<char>::empty());
        assert(split_segments(s@) =~= parts@.map_values(|p: String| p@) + seq![s@.subrange(
            seg_start as int,
            n as int,
        )]);
    }
    let ghost before = parts@;
    let tail = s.substring_char(seg_start, n);
    parts.push(String::from_str(tail));
    proof {
        assert(parts@.map_values(|p: String| p@) =~= before.map_values(|p: String| p@)
            + seq![tail@]);
    }
    parts
}

/// The segment list with `head` glued onto the front of its first segment.
pub open spec fn prepend_first(head: Seq<char>, parts: Seq<Seq<char>>) -> Seq<Seq<char>> {
    seq![head + parts[0]] + parts.skip(1)
}

/// True when some `/`-separated segment of `path` is `node_modules`.
pub fn is_node_modules(path: &str) -> (r: bool)
    ensures
        r == split_segments(path@).contains("node_modules"@),
{
    let parts = split_path(path);
    let ghost views = parts@.map_values(|p: String| p@);
    let mut i: usize = 0;
    while i < parts.len()
        invariant
            0 <= i <= parts.len(),
            views == split_segments(path@),
            views == parts@.map_values(|p: String| p@),
            forall|j: int| 0 <= j < i ==> views[j] != "node_modules"@,
        decreases parts.len() - i,
    {
        if str_eq(parts[i].as_str(), "node_modules") {
            assert(views[i as int] == "node_modules"@);
            return true;
        }
        i += 1;
    }
    proof {
        if split_segments(path@).contains("node_modules"@) {
            let j = choose|j: int|
                0 <= j < views.len() && views[j] == "node_modules"@;
            assert(false);
        }
    }
    false
}

/// Join segments with `/` separators.
fn join_parts(parts: &Vec<String>) -> (r: String)
    ensures
        r@ == join_segments(parts@.map_values(|p: String| p@)),
{
    let ghost views = parts@.map_values(|p: String| p@);
    if parts.len() == 0 {
        return String::new();
    }
    let mut out = parts[0].clone();
    let mut i: usize = 1;
    while i < parts.len()
        invariant
            1 <= i <= parts.len(),
            views == parts@.map_values(|p: String| p@),
            out@ == join_segments(views.take(i as int)),
        decreases parts.len() - i,
    {
        let ghost prev = out@;
        out.append("/");
        out.append(parts[i].as_str());
        proof {
            assert(views.take(i as int + 1).drop_last() =~= views.take(i as int));
            assert(views.take(i as int + 1).last() == views[i as int]);
        }
        i += 1;
    }
    proof {
        assert(views.take(parts@.len() as int) =~= views);
    }
    out
}

/// Collapse `.` and `..` segments of a `/`-separated path, keeping the
/// leading `.` (adding one for paths that start with `../`) and the leading
/// empty segment of absolute paths.
pub fn normalize_path(path: &str) -> (r: String)
    ensures
        r@ == spec_normalize_path(path@),
{
    let parts = split_path(path);
    let ghost views = parts@.map_values(|p: String| p@);
    let nd = starts_with(path, "../") && !starts_with(path, "./");
    proof {
        reveal_strlit("..");
        reveal_strlit(".");
        assert(".."@.subrange(0, 1) =~= "."@);
    }
    let mut result: Vec<String> = Vec::new();
    if nd {
        result.push(String::from_str("."));
    }
    assert(result@.map_values(|p: String| p@) =~= normalize_upto(views, nd, 0));
    let mut i: usize = 0;
    while i < parts.len()
        invariant
            0 <= i <= parts.len(),
            views == parts@.map_values(|p: String| p@),
            result@.map_values(|p: String| p@) =~= normalize_upto(views, nd, i as int),
        decreases parts.len() - i,
    {
        let ghost acc = result@.map_values(|p: String| p@);
        let part = &parts[i];
        let is_first = i == 0;
        if str_eq(part.as_str(), ".") {
            if is_first && !nd {
                result.push(part.clone());
            }
        } else if str_eq(part.as_str(), "..") {
            let do_pop = if result.len() > 0 {
                let last = &result[result.len() - 1];
                !str_eq(last.as_str(), ".") && !str_eq(last.as_str(), "..")
            } else {
                false
            };
            if do_pop {
                result.pop();
                proof {
                    assert(result@.map_values(|p: String| p@) =~= acc.drop_last());
                }
            } else {
                result.push(part.clone());
            }
        } else if str_eq(part.as_str(), "") {
            if is_first && !nd {
                result.push(part.clone());
            }
        } else {
            result.push(part.clone());
        }
        proof {
            assert(result@.map_values(|p: String| p@) =~= normalize_step(
                acc,
                views[i as int],
                i == 0,
                nd,
            ));
        }
        i += 1;
    }
    join_parts(&result)
}

/// True when `s` holds a `/` anywhere.
pub open spec fn has_slash(s: Seq<char>) -> bool {
    exists|i: int| 0 <= i < s.len() && s[i] == '/'
}

/// The index of the last `/` in `s`.
pub open spec fn last_slash(s: Seq<char>) -> int
    decreases s.len(),
{
    if s.len() == 0 {
        -1
    } else if s.last() == '/' {
        s.len() - 1
    } else {
        last_slash(s.drop_last())
    }
}

pub proof fn lemma_last_slash(s: Seq<char>)
    requires
        has_slash(s),
    ensures
        0 <= last_slash(s) < s.len(),
        s[last_slash(s)] == '/',
        forall|j: int| last_slash(s) < j < s.len() ==> s[j] != '/',
    decreases s.len(),
{
    if s.len() > 0 && s.last() != '/' {
        assert(has_slash(s.drop_last())) by {
            let i = choose|i: int| 0 <= i < s.len() && s[i] == '/';
            assert(s.drop_last()[i] == '/');
        }
        lemma_last_slash(s.drop_last());
        assert forall|j: int| last_slash(s) < j < s.len() implies s[j] != '/' by {
            if j < s.len() - 1 {
                assert(s.drop_last()[j] != '/');
            }
        }
    }
}

/// The textual parent directory of a path: the text before the last `/`
/// (the root `/` for paths directly under it, the empty string for bare
/// names, and nothing for the empty string or the root itself).
pub open spec fn spec_parent(f: Seq<char>) -> Option<Seq<char>> {
    if f.len() == 0 || f == "/"@ {
        None
    } else if has_slash(f) {
        if last_slash(f) == 0 {
            Some("/"@)
        } else {
            Some(f.subrange(0, last_slash(f)))
        }
    } else {
        Some(Seq::<char>::empty())
    }
}

pub proof fn lemma_parent_shorter(f: Seq<char>)
    requires
        spec_parent(f) is Some,
    ensures
        spec_parent(f)->Some_0.len() < f.len(),
{
    reveal_strlit("/");
    if has_slash(f) {
        lemma_last_slash(f);
        if last_slash(f) == 0 {
            if f.len() <= 1 {
                assert(f =~= "/"@);
            }
        }
    }
}

/// The textual parent directory of a path.
pub fn parent_dir(f: &str) -> (r: Option<String>)
    ensures
        match r {
            Some(p) => spec_parent(f@) == Some(p@),
            None => spec_parent(f@) is None,
        },
{
    let n = f.unicode_len();
    if n == 0 {
        return None;
    }
    if str_eq(f, "/") {
        return None;
    }
    let mut i: usize = n;
    while i > 0
        invariant
            0 <= i <= n,
            n == f@.len(),
            n > 0,
            f@ != "/"@,
            forall|j: int| i <= j < n ==> f@[j] != '/',
        decreases i,
    {
        i -= 1;
        if f.get_char(i) == '/' {
            proof {
                lemma_last_slash_at(f@, i as int);
            }
            if i == 0 {
                proof {
                    reveal_strlit("/");
                    assert(f@.subrange(0, 1) =~= "/"@);
                }
                return Some(String::from_str(f.substring_char(0, 1)));
            }
            return Some(String::from_str(f.substring_char(0, i)));
        }
    }
    proof {
        if has_slash(f@) {
            let j = choose|j: int| 0 <= j < f@.len() && f@[j] == '/';
            assert(false);
        }
    }
    Some(String::new())
}

proof fn lemma_last_slash_at(s: Seq<char>, i: int)
    requires
        0 <= i < s.len(),
        s[i] == '/',
        forall|j: int| i < j < s.len() ==> s[j] != '/',
    ensures
        has_slash(s),
        last_slash(s) == i,
    decreases s.len(),
{
    if i == s.len() - 1 {
    } else {
        lemma_last_slash_at(s.drop_last(), i);
    }
}

/// The file name of a path: the text after the last `/`, or the whole
/// path when there is none.
pub open spec fn spec_file_name(p: Seq<char>) -> Seq<char> {
    if has_slash(p) {
        p.skip(last_slash(p) + 1)
    } else {
        p
    }
}

/// Whether a path's file name carries an extension: a `.` anywhere after
/// its first character.
pub open spec fn spec_has_extension(p: Seq<char>) -> bool {
    exists|i: int| 1 <= i < spec_file_name(p).len() && spec_file_name(p)[i] == '.'
}

/// Whether a path's file name carries an extension.
pub fn file_has_extension(p: &str) -> (r: bool)
    ensures
        r == spec_has_extension(p@),
{
    let n = p.unicode_len();
    let mut ns: usize = 0;
    let mut i: usize = 0;
    while i < n
        invariant
            0 <= ns <= i <= n,
            n == p@.len(),
            ns == 0 ==> forall|j: int| 0 <= j < i ==> p@[j] != '/',
            ns > 0 ==> p@[ns - 1] == '/' && forall|j: int| ns <= j < i ==> p@[j] != '/',
        decreases n - i,
    {
        if p.get_char(i) == '/' {
            ns = i + 1;
        }
        i += 1;
    }
    proof {
        if ns > 0 {
            lemma_last_slash_at(p@, ns - 1);
            assert(spec_file_name(p@) =~= p@.skip(ns as int));
        } else {
            if has_slash(p@) {
                let j = choose|j: int| 0 <= j < p@.len() && p@[j] == '/';
                assert(false);
            }
            assert(spec_file_name(p@) =~= p@.skip(ns as int));
        }
    }
    let mut k: usize = if ns < n { ns + 1 } else { n };
    while k < n
        invariant
            ns <= k <= n,
            k >= ns + 1 || k >= n,
            n == p@.len(),
            spec_file_name(p@) =~= p@.skip(ns as int),
            forall|j: int| ns + 1 <= j < k ==> p@[j] != '.',
        decreases n - k,
    {
        if p.get_char(k) == '.' {
            proof {
                let name = spec_file_name(p@);
                assert(name[k - ns as int] == p@[k as int]);
            }
            return true;
        }
        k += 1;
    }
    proof {
        if spec_has_extension(p@) {
            let name = spec_file_name(p@);
            let i0 = choose|i0: int| 1 <= i0 < name.len() && name[i0] == '.';
            assert(p@[ns + i0] == '.');
            assert(false);
        }
    }
    false
}

/// Joining a path onto a directory with a `/` separator (none is added
/// after an empty directory or one that already ends in `/`).
pub open spec fn spec_join(d: Seq<char>, p: Seq<char>) -> Seq<char> {
    if d.len() == 0 {
        p
    } else if d.last() == '/' {
        d + p
    } else {
        d + "/"@ + p
    }
}

/// Join a path onto a directory.
pub fn path_join(d: &str, p: &str) -> (r: String)
    ensures
        r@ == spec_join(d@, p@),
{
    let n = d.unicode_len();
    if n == 0 {
        String::from_str(p)
    } else if d.get_char(n - 1) == '/' {
        concat_str(d, p)
    } else {
        let mut s = concat_str(d, "/");
        s.append(p);
        s
    }
}

/// All leading `/` characters removed.
pub open spec fn spec_trim_slashes(p: Seq<char>) -> Seq<char>
    decreases p.len(),
{
    if p.len() > 0 && p[0] == '/' {
        spec_trim_slashes(p.skip(1))
    } else {
        p
    }
}

proof fn lemma_trim_at(p: Seq<char>, i: int)
    requires
        0 <= i <= p.len(),
        forall|j: int| 0 <= j < i ==> p[j] == '/',
        i == p.len() || p[i] != '/',
    ensures
        spec_trim_slashes(p) == p.skip(i),
    decreases i,
{
    if i == 0 {
        assert(p.skip(0) =~= p);
    } else {
        assert(p[0] == '/');
        lemma_trim_at(p.skip(1), i - 1);
        assert(p.skip(1).skip(i - 1) =~= p.skip(i));
    }
}

/// Remove every leading `/`.
pub fn trim_leading_slashes(p: &str) -> (r: String)
    ensures
        r@ == spec_trim_slashes(p@),
{
    let n = p.unicode_len();
    let mut i: usize = 0;
    while i < n && p.get_char(i) == '/'
        invariant
            0 <= i <= n,
            n == p@.len(),
            forall|j: int| 0 <= j < i ==> p@[j] == '/',
        decreases n - i,
    {
        i += 1;
    }
    proof {
        lemma_trim_at(p@, i as int);
        assert(p@.skip(i as int) =~= p@.subrange(i as int, n as int));
    }
    String::from_str(p.substring_char(i, n))
}

/// Canonicalize a path for snapshot lookup.
pub fn lookup_path(p: &str) -> (r: String)
    ensures
        r@ == spec_lookup_path(p@),
{
    let n = normalize_path(p);
    if starts_with(n.as_str(), "./") {
        let len = n.as_str().unicode_len();
        proof {
            reveal_strlit("./");
            assert("./"@.len() == 2);
            assert(n@.subrange(2, len as int) =~= n@.skip(2));
        }
        String::from_str(n.as_str().substring_char(2, len))
    } else {
        n
    }
}

/// Strip a project root from the front of a file path, segment by
/// segment, yielding the workspace-relative path; a file outside the
/// root is returned unchanged.
#[verifier::loop_isolation(false)]
pub fn get_relative_path(file_path: &str, project_root: &str) -> (r: String)
    ensures
        r@ == spec_relative_path(file_path@, project_root@),
{
    let fsegs = split_path(file_path);
    let mut rsegs = split_path(project_root);
    let ghost fviews = fsegs@.map_values(|p: String| p@);
    while rsegs.len() > 0 && rsegs[rsegs.len() - 1].as_str().unicode_len() == 0
        invariant
            trim_trailing_empty(rsegs@.map_values(|p: String| p@)) == trim_trailing_empty(
                split_segments(project_root@),
            ),
        decreases rsegs@.len(),
    {
        let ghost before = rsegs@.map_values(|p: String| p@);
        let _ = rsegs.pop();
        proof {
            assert(rsegs@.map_values(|p: String| p@) =~= before.drop_last());
        }
    }
    let ghost rviews = rsegs@.map_values(|p: String| p@);
    proof {
        if rviews.len() > 0 {
            assert(rviews.last().len() > 0);
        }
        assert(trim_trailing_empty(rviews) =~= rviews);
        assert(rviews == trim_trailing_empty(split_segments(project_root@)));
    }
    if rsegs.len() == 0 || rsegs.len() > fsegs.len() {
        return String::from_str(file_path);
    }
    let mut i: usize = 0;
    while i < rsegs.len()
        invariant
            0 <= i <= rsegs@.len(),
            forall|j: int| 0 <= j < i ==> fviews[j] == rviews[j],
        decreases rsegs@.len() - i,
    {
        if !str_eq(fsegs[i].as_str(), rsegs[i].as_str()) {
            proof {
                assert(fviews[i as int] != rviews[i as int]);
                assert(rviews != fviews.take(rviews.len() as int));
            }
            return String::from_str(file_path);
        }
        i += 1;
    }
    proof {
        assert(rviews =~= fviews.take(rviews.len() as int));
    }
    let mut rest: Vec<String> = Vec::new();
    let mut k: usize = rsegs.len();
    while k < fsegs.len()
        invariant
            rsegs@.len() <= k <= fsegs@.len(),
            rest@.map_values(|p: String| p@) == fviews.skip(rviews.len() as int).take(
                k - rsegs@.len(),
            ),
        decreases fsegs@.len() - k,
    {
        let ghost prev = rest@.map_values(|p: String| p@);
        rest.push(fsegs[k].clone());
        proof {
            assert(rest@.map_values(|p: String| p@) =~= prev.push(fviews[k as int]));
            assert(fviews.skip(rviews.len() as int).take(k + 1 - rsegs@.len()) =~= prev.push(
                fviews[k as int],
            ));
        }
        k += 1;
    }
    proof {
        assert(fviews.skip(rviews.len() as int).take(fsegs@.len() - rsegs@.len()) =~= fviews.skip(
            rviews.len() as int,
        ));
    }
    join_parts(&rest)
}

} // verus!
