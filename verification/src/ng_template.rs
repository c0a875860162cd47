//! Scanning component templates for the custom-element selectors,
//! structural and attribute directives, and pipe names they use.

use vstd::prelude::*;

use crate::ng_models::TemplateUsage;
use crate::strutil::{contains_str, str_seq_set};

verus! {

pub open spec fn is_lower(c: char) -> bool {
    'a' <= c && c <= 'z'
}

pub open spec fn is_upper(c: char) -> bool {
    'A' <= c && c <= 'Z'
}

pub open spec fn is_digit(c: char) -> bool {
    '0' <= c && c <= '9'
}

pub open spec fn is_alpha(c: char) -> bool {
    is_lower(c) || is_upper(c)
}

pub open spec fn is_alnum(c: char) -> bool {
    is_alpha(c) || is_digit(c)
}

/// Characters allowed in an element tag name: lower-case letters, digits
/// and `-`.
pub open spec fn is_tag_char(c: char) -> bool {
    is_lower(c) || is_digit(c) || c == '-'
}

pub open spec fn is_space(c: char) -> bool {
    c == ' ' || c == '\t' || c == '\n' || c == '\r' || c == '\u{b}' || c == '\u{c}'
}

pub open spec fn tag_pred() -> spec_fn(char) -> bool {
    |c: char| is_tag_char(c)
}

pub open spec fn alpha_pred() -> spec_fn(char) -> bool {
    |c: char| is_alpha(c)
}

pub open spec fn alnum_pred() -> spec_fn(char) -> bool {
    |c: char| is_alnum(c)
}

pub open spec fn space_pred() -> spec_fn(char) -> bool {
    |c: char| is_space(c)
}

/// The end of the maximal run of `pred` characters starting at `j`.
pub open spec fn run_end(t: Seq<char>, j: int, pred: spec_fn(char) -> bool) -> int
    decreases t.len() - j,
{
    if 0 <= j < t.len() && pred(t[j]) {
        run_end(t, j + 1, pred)
    } else {
        j
    }
}

pub proof fn lemma_run_end_at(t: Seq<char>, j: int, e: int, pred: spec_fn(char) -> bool)
    requires
        0 <= j <= e <= t.len(),
        forall|k: int| j <= k < e ==> pred(#[trigger] t[k]),
        e == t.len() || !pred(t[e]),
    ensures
        run_end(t, j, pred) == e,
    decreases e - j,
{
    if j < e {
        lemma_run_end_at(t, j + 1, e, pred);
    }
}

/// The tag captured at position `i`: a `<` followed by a maximal run of
/// tag characters that starts with a lower-case letter and carries a `-`
/// before its final character.
pub open spec fn component_at(t: Seq<char>, i: int) -> Option<Seq<char>> {
    if 0 <= i < t.len() && t[i] == '<' {
        let s = i + 1;
        let e = run_end(t, s, tag_pred());
        let run = t.subrange(s, e);
        if run.len() >= 1 && is_lower(run[0]) && (exists|p: int|
            1 <= p <= run.len() - 2 && run[p] == '-') {
            Some(run)
        } else {
            None
        }
    } else {
        None
    }
}

/// The structural directive captured at position `i`: `*ng` followed by
/// an upper-case letter and a maximal run of letters; the name keeps the
/// `ng` prefix.
pub open spec fn structural_directive_at(t: Seq<char>, i: int) -> Option<Seq<char>> {
    if 0 <= i && i + 3 < t.len() && t[i] == '*' && t[i + 1] == 'n' && t[i + 2] == 'g'
        && is_upper(t[i + 3]) {
        let e = run_end(t, i + 4, alpha_pred());
        Some(seq!['n', 'g'] + t.subrange(i + 3, e))
    } else {
        None
    }
}

/// The attribute directive captured at position `i`: `[ng` followed by an
/// upper-case letter and a maximal run of letters, closed by `]`.
pub open spec fn attribute_directive_at(t: Seq<char>, i: int) -> Option<Seq<char>> {
    if 0 <= i && i + 3 < t.len() && t[i] == '[' && t[i + 1] == 'n' && t[i + 2] == 'g'
        && is_upper(t[i + 3]) {
        let e = run_end(t, i + 4, alpha_pred());
        if e < t.len() && t[e] == ']' {
            Some(t.subrange(i + 1, e))
        } else {
            None
        }
    } else {
        None
    }
}

/// The pipe name captured at position `i`: a `|`, optional whitespace,
/// then a letter and a maximal run of letters and digits.
pub open spec fn pipe_at(t: Seq<char>, i: int) -> Option<Seq<char>> {
    if 0 <= i < t.len() && t[i] == '|' {
        let k = run_end(t, i + 1, space_pred());
        if k < t.len() && is_alpha(t[k]) {
            Some(t.subrange(k, run_end(t, k + 1, alnum_pred())))
        } else {
            None
        }
    } else {
        None
    }
}

/// All component selectors used in a template.
pub open spec fn spec_components(t: Seq<char>) -> Set<Seq<char>> {
    Set::new(|w: Seq<char>| exists|i: int| component_at(t, i) == Some(w))
}

/// All directive names used in a template, structural or attribute.
pub open spec fn spec_directives(t: Seq<char>) -> Set<Seq<char>> {
    Set::new(
        |w: Seq<char>|
            (exists|i: int| structural_directive_at(t, i) == Some(w)) || (exists|i: int|
                attribute_directive_at(t, i) == Some(w)),
    )
}

/// All pipe names used in a template.
pub open spec fn spec_pipes(t: Seq<char>) -> Set<Seq<char>> {
    Set::new(|w: Seq<char>| exists|i: int| pipe_at(t, i) == Some(w))
}

/// Append a name unless it is already listed.
fn push_unique(out: &mut Vec<String>, s: String)
    requires
        forall|a: int, b: int| 0 <= a < b < old(out)@.len() ==> old(out)@[a]@ != old(out)@[b]@,
    ensures
        str_seq_set(final(out)@) == str_seq_set(old(out)@).insert(s@),
        forall|a: int, b: int|
            0 <= a < b < final(out)@.len() ==> final(out)@[a]@ != final(out)@[b]@,
{
    let ghost before = out@;
    if !contains_str(out, s.as_str()) {
        out.push(s);
        proof {
            crate::strutil::lemma_str_seq_set_push(before, final(out)@[final(out)@.len() - 1]);
            assert(str_seq_set(out@) =~= str_seq_set(before).insert(out@[out@.len() - 1]@));
        }
    } else {
        proof {
            assert(str_seq_set(out@).insert(s@) =~= str_seq_set(out@));
        }
    }
}

fn is_lower_c(c: char) -> (r: bool)
    ensures
        r == is_lower(c),
{
    'a' <= c && c <= 'z'
}

fn is_upper_c(c: char) -> (r: bool)
    ensures
        r == is_upper(c),
{
    'A' <= c && c <= 'Z'
}

fn is_alpha_c(c: char) -> (r: bool)
    ensures
        r == is_alpha(c),
{
    is_lower_c(c) || is_upper_c(c)
}

fn is_alnum_c(c: char) -> (r: bool)
    ensures
        r == is_alnum(c),
{
    is_alpha_c(c) || ('0' <= c && c <= '9')
}

fn is_tag_char_c(c: char) -> (r: bool)
    ensures
        r == is_tag_char(c),
{
    is_lower_c(c) || ('0' <= c && c <= '9') || c == '-'
}

fn is_space_c(c: char) -> (r: bool)
    ensures
        r == is_space(c),
{
    c == ' ' || c == '\t' || c == '\n' || c == '\r' || c == '\u{b}' || c == '\u{c}'
}

/// Scan the maximal run of tag characters starting at `j`.
fn scan_tag(t: &str, j: usize, n: usize) -> (e: usize)
    requires
        j <= n,
        n == t@.len(),
    ensures
        j <= e <= n,
        e == run_end(t@, j as int, tag_pred()),
{
    let mut e = j;
    while e < n && is_tag_char_c(t.get_char(e))
        invariant
            j <= e <= n,
            n == t@.len(),
            forall|k: int| j <= k < e ==> is_tag_char(#[trigger] t@[k]),
        decreases n - e,
    {
        e += 1;
    }
    proof {
        lemma_run_end_at(t@, j as int, e as int, tag_pred());
    }
    e
}

/// Scan the maximal run of letters starting at `j`.
fn scan_alpha(t: &str, j: usize, n: usize) -> (e: usize)
    requires
        j <= n,
        n == t@.len(),
    ensures
        j <= e <= n,
        e == run_end(t@, j as int, alpha_pred()),
{
    let mut e = j;
    while e < n && is_alpha_c(t.get_char(e))
        invariant
            j <= e <= n,
            n == t@.len(),
            forall|k: int| j <= k < e ==> is_alpha(#[trigger] t@[k]),
        decreases n - e,
    {
        e += 1;
    }
    proof {
        lemma_run_end_at(t@, j as int, e as int, alpha_pred());
    }
    e
}

/// Scan the maximal run of letters and digits starting at `j`.
fn scan_alnum(t: &str, j: usize, n: usize) -> (e: usize)
    requires
        j <= n,
        n == t@.len(),
    ensures
        j <= e <= n,
        e == run_end(t@, j as int, alnum_pred()),
{
    let mut e = j;
    while e < n && is_alnum_c(t.get_char(e))
        invariant
            j <= e <= n,
            n == t@.len(),
            forall|k: int| j <= k < e ==> is_alnum(#[trigger] t@[k]),
        decreases n - e,
    {
        e += 1;
    }
    proof {
        lemma_run_end_at(t@, j as int, e as int, alnum_pred());
    }
    e
}

/// Scan the maximal run of whitespace starting at `j`.
fn scan_space(t: &str, j: usize, n: usize) -> (e: usize)
    requires
        j <= n,
        n == t@.len(),
    ensures
        j <= e <= n,
        e == run_end(t@, j as int, space_pred()),
{
    let mut e = j;
    while e < n && is_space_c(t.get_char(e))
        invariant
            j <= e <= n,
            n == t@.len(),
            forall|k: int| j <= k < e ==> is_space(#[trigger] t@[k]),
        decreases n - e,
    {
        e += 1;
    }
    proof {
        lemma_run_end_at(t@, j as int, e as int, space_pred());
    }
    e
}

/// Scans templates for the names other elements are used under.
pub struct TemplateParser;

impl TemplateParser {
    pub fn new() -> (r: Self) {
        TemplateParser
    }

    /// Collect the component selectors of a template, each once.
    #[verifier::loop_isolation(false)]
    pub fn find_components(&self, template: &str) -> (r: Vec<String>)
        ensures
            str_seq_set(r@) == spec_components(template@),
            forall|a: int, b: int| 0 <= a < b < r@.len() ==> r@[a]@ != r@[b]@,
    {
        let n = template.unicode_len();
        let mut out: Vec<String> = Vec::new();
        let mut i: usize = 0;
        while i < n
            invariant
                0 <= i <= n,
                forall|a: int, b: int| 0 <= a < b < out@.len() ==> out@[a]@ != out@[b]@,
                forall|w: Seq<char>|
                    #[trigger] str_seq_set(out@).contains(w) <==> exists|q: int|
                        q < i && component_at(template@, q) == Some(w),
            decreases n - i,
        {
            let ghost prev = out@;
            if template.get_char(i) == '<' {
                let s = i + 1;
                let e = scan_tag(template, s, n);
                let ghost run = template@.subrange(s as int, e as int);
                if e > s && is_lower_c(template.get_char(s)) {
                    // find the first `-` of the run
                    let mut d = s;
                    while d < e && template.get_char(d) != '-'
                        invariant
                            s <= d <= e,
                            forall|k: int| s <= k < d ==> template@[k] != '-',
                        decreases e - d,
                    {
                        d += 1;
                    }
                    if d < e && e - d >= 2 {
                        // accepted: dash before the final character
                        let w = String::from_str(template.substring_char(s, e));
                        proof {
                            assert(run[d - s as int] == '-');
                            assert(1 <= d - s <= run.len() - 2);
                            assert(component_at(template@, i as int) == Some(run));
                            assert(w@ == run);
                        }
                        push_unique(&mut out, w);
                        proof {
                            assert forall|w2: Seq<char>|
                                #[trigger] str_seq_set(out@).contains(w2) <==> exists|q: int|
                                    q < i + 1 && component_at(template@, q) == Some(w2) by {
                                if str_seq_set(out@).contains(w2) {
                                    if w2 == run {
                                        assert(component_at(template@, i as int) == Some(w2));
                                    } else {
                                        assert(str_seq_set(prev).contains(w2));
                                    }
                                }
                                if exists|q: int| q < i + 1 && component_at(template@, q)
                                    == Some(w2) {
                                    let q = choose|q: int|
                                        q < i + 1 && component_at(template@, q) == Some(w2);
                                    if q < i {
                                        assert(str_seq_set(prev).contains(w2));
                                    } else {
                                        assert(w2 == run);
                                    }
                                }
                            }
                        }
                    } else {
                        proof {
                            if run.len() >= 1 && is_lower(run[0]) && (exists|p: int|
                                1 <= p <= run.len() - 2 && run[p] == '-') {
                                let p = choose|p: int|
                                    1 <= p <= run.len() - 2 && run[p] == '-';
                                assert(template@[s + p] == '-');
                                if d < e {
                                    assert(run[d - s as int] == '-');
                                    assert(d - s <= p);
                                    assert(false);
                                } else {
                                    assert(false);
                                }
                            }
                            assert(component_at(template@, i as int) is None);
                        }
                    }
                } else {
                    proof {
                        if e == s {
                            assert(run.len() == 0);
                        } else {
                            assert(run[0] == template@[s as int]);
                        }
                        assert(component_at(template@, i as int) is None);
                    }
                }
            } else {
                proof {
                    assert(component_at(template@, i as int) is None);
                }
            }
            proof {
                if component_at(template@, i as int) is None {
                    assert forall|w2: Seq<char>|
                        #[trigger] str_seq_set(out@).contains(w2) <==> exists|q: int|
                            q < i + 1 && component_at(template@, q) == Some(w2) by {
                        if exists|q: int| q < i + 1 && component_at(template@, q) == Some(w2) {
                            let q = choose|q: int|
                                q < i + 1 && component_at(template@, q) == Some(w2);
                            if q == i {
                                assert(false);
                            }
                        }
                    }
                }
            }
            i += 1;
        }
        proof {
            assert forall|w: Seq<char>|
                #[trigger] spec_components(template@).contains(w) implies str_seq_set(
                out@,
            ).contains(w) by {
                let q = choose|q: int| component_at(template@, q) == Some(w);
                assert(0 <= q < template@.len());
                assert(q < n);
            }
            assert(str_seq_set(out@) =~= spec_components(template@));
        }
        out
    }

    /// Collect the directive names of a template, each once.
    #[verifier::loop_isolation(false)]
    pub fn find_directives(&self, template: &str) -> (r: Vec<String>)
        ensures
            str_seq_set(r@) == spec_directives(template@),
            forall|a: int, b: int| 0 <= a < b < r@.len() ==> r@[a]@ != r@[b]@,
    {
        let n = template.unicode_len();
        let mut out: Vec<String> = Vec::new();
        let mut i: usize = 0;
        while i < n
            invariant
                0 <= i <= n,
                forall|a: int, b: int| 0 <= a < b < out@.len() ==> out@[a]@ != out@[b]@,
                forall|w: Seq<char>|
                    #[trigger] str_seq_set(out@).contains(w) <==> exists|q: int|
                        q < i && (structural_directive_at(template@, q) == Some(w)
                            || attribute_directive_at(template@, q) == Some(w)),
            decreases n - i,
        {
            let ghost prev = out@;
            let c = template.get_char(i);
            let mut found: Option<String> = None;
            let ghost mut fw: Seq<char> = Seq::empty();
            if c == '*' && n - i > 3 {
                if template.get_char(i + 1) == 'n' && template.get_char(i + 2) == 'g'
                    && is_upper_c(template.get_char(i + 3)) {
                    let e = scan_alpha(template, i + 4, n);
                    let mut w = String::from_str("ng");
                    w.append(template.substring_char(i + 3, e));
                    proof {
                        reveal_strlit("ng");
                        fw = seq!['n', 'g'] + template@.subrange(i + 3, e as int);
                        assert(w@ =~= fw);
                        assert(structural_directive_at(template@, i as int) == Some(fw));
                    }
                    found = Some(w);
                }
            } else if c == '[' && n - i > 3 {
                if template.get_char(i + 1) == 'n' && template.get_char(i + 2) == 'g'
                    && is_upper_c(template.get_char(i + 3)) {
                    let e = scan_alpha(template, i + 4, n);
                    if e < n && template.get_char(e) == ']' {
                        let w = String::from_str(template.substring_char(i + 1, e));
                        proof {
                            fw = template@.subrange(i as int + 1, e as int);
                            assert(attribute_directive_at(template@, i as int) == Some(fw));
                        }
                        found = Some(w);
                    }
                }
            }
            match found {
                Some(w) => {
                    proof {
                        assert(w@ == fw);
                        assert(structural_directive_at(template@, i as int) == Some(fw)
                            || attribute_directive_at(template@, i as int) == Some(fw));
                    }
                    push_unique(&mut out, w);
                    proof {
                        assert forall|w2: Seq<char>|
                            #[trigger] str_seq_set(out@).contains(w2) <==> exists|q: int|
                                q < i + 1 && (structural_directive_at(template@, q) == Some(w2)
                                    || attribute_directive_at(template@, q) == Some(w2)) by {
                            if str_seq_set(out@).contains(w2) {
                                if w2 != fw {
                                    assert(str_seq_set(prev).contains(w2));
                                }
                            }
                            if exists|q: int|
                                q < i + 1 && (structural_directive_at(template@, q) == Some(w2)
                                    || attribute_directive_at(template@, q) == Some(w2)) {
                                let q = choose|q: int|
                                    q < i + 1 && (structural_directive_at(template@, q) == Some(
                                        w2,
                                    ) || attribute_directive_at(template@, q) == Some(w2));
                                if q < i {
                                    assert(str_seq_set(prev).contains(w2));
                                } else {
                                    assert(w2 == fw);
                                }
                            }
                        }
                    }
                },
                None => {
                    proof {
                        assert(structural_directive_at(template@, i as int) is None);
                        assert(attribute_directive_at(template@, i as int) is None);
                        assert forall|w2: Seq<char>|
                            #[trigger] str_seq_set(out@).contains(w2) <==> exists|q: int|
                                q < i + 1 && (structural_directive_at(template@, q) == Some(w2)
                                    || attribute_directive_at(template@, q) == Some(w2)) by {
                            if exists|q: int|
                                q < i + 1 && (structural_directive_at(template@, q) == Some(w2)
                                    || attribute_directive_at(template@, q) == Some(w2)) {
                                let q = choose|q: int|
                                    q < i + 1 && (structural_directive_at(template@, q) == Some(
                                        w2,
                                    ) || attribute_directive_at(template@, q) == Some(w2));
                                if q == i {
                                    assert(false);
                                }
                            }
                        }
                    }
                },
            }
            i += 1;
        }
        proof {
            assert forall|w: Seq<char>|
                #[trigger] spec_directives(template@).contains(w) implies str_seq_set(
                out@,
            ).contains(w) by {
                if exists|q: int| structural_directive_at(template@, q) == Some(w) {
                    let q = choose|q: int| structural_directive_at(template@, q) == Some(w);
                    assert(0 <= q && q + 3 < template@.len());
                    assert(q < n);
                } else {
                    let q = choose|q: int| attribute_directive_at(template@, q) == Some(w);
                    assert(0 <= q && q + 3 < template@.len());
                    assert(q < n);
                }
            }
            assert(str_seq_set(out@) =~= spec_directives(template@));
        }
        out
    }

    /// Collect the pipe names of a template, each once.
    #[verifier::loop_isolation(false)]
    pub fn find_pipes(&self, template: &str) -> (r: Vec<String>)
        ensures
            str_seq_set(r@) == spec_pipes(template@),
            forall|a: int, b: int| 0 <= a < b < r@.len() ==> r@[a]@ != r@[b]@,
    {
        let n = template.unicode_len();
        let mut out: Vec<String> = Vec::new();
        let mut i: usize = 0;
        while i < n
            invariant
                0 <= i <= n,
                forall|a: int, b: int| 0 <= a < b < out@.len() ==> out@[a]@ != out@[b]@,
                forall|w: Seq<char>|
                    #[trigger] str_seq_set(out@).contains(w) <==> exists|q: int|
                        q < i && pipe_at(template@, q) == Some(w),
            decreases n - i,
        {
            let ghost prev = out@;
            if template.get_char(i) == '|' {
                let k = scan_space(template, i + 1, n);
                if k < n && is_alpha_c(template.get_char(k)) {
                    let e = scan_alnum(template, k + 1, n);
                    let w = String::from_str(template.substring_char(k, e));
                    let ghost fw = template@.subrange(k as int, e as int);
                    proof {
                        assert(pipe_at(template@, i as int) == Some(fw));
                        assert(w@ == fw);
                    }
                    push_unique(&mut out, w);
                    proof {
                        assert forall|w2: Seq<char>|
                            #[trigger] str_seq_set(out@).contains(w2) <==> exists|q: int|
                                q < i + 1 && pipe_at(template@, q) == Some(w2) by {
                            if str_seq_set(out@).contains(w2) {
                                if w2 != fw {
                                    assert(str_seq_set(prev).contains(w2));
                                }
                            }
                            if exists|q: int| q < i + 1 && pipe_at(template@, q) == Some(w2) {
                                let q = choose|q: int|
                                    q < i + 1 && pipe_at(template@, q) == Some(w2);
                                if q < i {
                                    assert(str_seq_set(prev).contains(w2));
                                } else {
                                    assert(w2 == fw);
                                }
                            }
                        }
                    }
                } else {
                    proof {
                        assert(pipe_at(template@, i as int) is None);
                        assert forall|w2: Seq<char>|
                            #[trigger] str_seq_set(out@).contains(w2) <==> exists|q: int|
                                q < i + 1 && pipe_at(template@, q) == Some(w2) by {
                            if exists|q: int| q < i + 1 && pipe_at(template@, q) == Some(w2) {
                                let q = choose|q: int|
                                    q < i + 1 && pipe_at(template@, q) == Some(w2);
                                if q == i {
                                    assert(false);
                                }
                            }
                        }
                    }
                }
            } else {
                proof {
                    assert(pipe_at(template@, i as int) is None);
                    assert forall|w2: Seq<char>|
                        #[trigger] str_seq_set(out@).contains(w2) <==> exists|q: int|
                            q < i + 1 && pipe_at(template@, q) == Some(w2) by {
                        if exists|q: int| q < i + 1 && pipe_at(template@, q) == Some(w2) {
                            let q = choose|q: int| q < i + 1 && pipe_at(template@, q) == Some(w2);
                            if q == i {
                                assert(false);
                            }
                        }
                    }
                }
            }
            i += 1;
        }
        proof {
            assert forall|w: Seq<char>|
                #[trigger] spec_pipes(template@).contains(w) implies str_seq_set(out@).contains(
                w,
            ) by {
                let q = choose|q: int| pipe_at(template@, q) == Some(w);
                assert(0 <= q < template@.len());
                assert(q < n);
            }
            assert(str_seq_set(out@) =~= spec_pipes(template@));
        }
        out
    }

    /// What a template uses: its component selectors, pipes and
    /// directives, each listed once.
    pub fn parse_template(&self, template: &str) -> (r: TemplateUsage)
        ensures
            str_seq_set(r.components@) == spec_components(template@),
            str_seq_set(r.pipes@) == spec_pipes(template@),
            str_seq_set(r.directives@) == spec_directives(template@),
            forall|a: int, b: int|
                0 <= a < b < r.components@.len() ==> r.components@[a]@ != r.components@[b]@,
            forall|a: int, b: int| 0 <= a < b < r.pipes@.len() ==> r.pipes@[a]@ != r.pipes@[b]@,
            forall|a: int, b: int|
                0 <= a < b < r.directives@.len() ==> r.directives@[a]@ != r.directives@[b]@,
    {
        let components = self.find_components(template);
        let directives = self.find_directives(template);
        let pipes = self.find_pipes(template);
        TemplateUsage { components, pipes, directives }
    }
}

} // verus!
