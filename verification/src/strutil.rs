//! Small verified helpers for working with strings as sequences of chars.

use vstd::prelude::*;

verus! {

/// True when `p` is a prefix of `s`.
pub open spec fn is_prefix(p: Seq<char>, s: Seq<char>) -> bool {
    p.len() <= s.len() && s.subrange(0, p.len() as int) == p
}

/// Compare two string slices character by character.
pub fn str_eq(a: &str, b: &str) -> (r: bool)
    ensures
        r == (a@ == b@),
{
    let an = a.unicode_len();
    let bn = b.unicode_len();
    if an != bn {
        assert(a@ != b@) by {
            assert(a@.len() != b@.len());
        }
        return false;
    }
    let mut i: usize = 0;
    while i < an
        invariant
            0 <= i <= an,
            an == a@.len(),
            an == b@.len(),
            forall|j: int| 0 <= j < i ==> a@[j] == b@[j],
        decreases an - i,
    {
        if a.get_char(i) != b.get_char(i) {
            assert(a@[i as int] != b@[i as int]);
            return false;
        }
        i += 1;
    }
    proof {
        assert(a@ =~= b@);
    }
    true
}

/// True when `s` starts with the prefix `p`.
pub fn starts_with(s: &str, p: &str) -> (r: bool)
    ensures
        r == is_prefix(p@, s@),
{
    let sn = s.unicode_len();
    let pn = p.unicode_len();
    if pn > sn {
        return false;
    }
    let head = s.substring_char(0, pn);
    let r = str_eq(head, p);
    proof {
        if r {
            assert(is_prefix(p@, s@));
        } else {
            assert(s@.subrange(0, pn as int) != p@);
        }
    }
    r
}

/// Copy a vector of strings.
pub fn clone_string_vec(v: &Vec<String>) -> (r: Vec<String>)
    ensures
        r@ == v@,
{
    let mut out: Vec<String> = Vec::new();
    let mut i: usize = 0;
    while i < v.len()
        invariant
            0 <= i <= v@.len(),
            out@ == v@.take(i as int),
        decreases v@.len() - i,
    {
        out.push(v[i].clone());
        proof {
            assert(v@.take(i as int + 1) =~= v@.take(i as int) + seq![v@[i as int]]);
        }
        i += 1;
    }
    proof {
        assert(v@.take(v@.len() as int) =~= v@);
    }
    out
}

/// Copy an optional string.
pub fn clone_opt_string(v: &Option<String>) -> (r: Option<String>)
    ensures
        r == *v,
{
    match v {
        Some(s) => Some(s.clone()),
        None => None,
    }
}

/// True when `suf` is a suffix of `s`.
pub open spec fn is_suffix(suf: Seq<char>, s: Seq<char>) -> bool {
    suf.len() <= s.len() && s.subrange(s.len() - suf.len(), s.len() as int) == suf
}

/// True when `s` ends with the suffix `suf`.
pub fn ends_with(s: &str, suf: &str) -> (r: bool)
    ensures
        r == is_suffix(suf@, s@),
{
    let sn = s.unicode_len();
    let fn_ = suf.unicode_len();
    if fn_ > sn {
        return false;
    }
    let tail = s.substring_char(sn - fn_, sn);
    let r = str_eq(tail, suf);
    proof {
        assert(tail@ == s@.subrange(sn - fn_, sn as int));
    }
    r
}

/// The set of character sequences denoted by a sequence of strings.
pub open spec fn str_seq_set(v: Seq<String>) -> Set<Seq<char>> {
    Set::new(|k: Seq<char>| exists|i: int| 0 <= i < v.len() && v[i]@ == k)
}

pub proof fn lemma_str_seq_set_push(v: Seq<String>, s: String)
    ensures
        str_seq_set(v.push(s)) =~= str_seq_set(v).insert(s@),
{
    let w = v.push(s);
    assert forall|k: Seq<char>| str_seq_set(w).contains(k) implies str_seq_set(v).insert(
        s@,
    ).contains(k) by {
        let i = choose|i: int| 0 <= i < w.len() && w[i]@ == k;
        if i < v.len() {
            assert(v[i]@ == k);
        } else {
            assert(k == s@);
        }
    }
    assert forall|k: Seq<char>| str_seq_set(v).insert(s@).contains(k) implies str_seq_set(
        w,
    ).contains(k) by {
        if k == s@ {
            assert(w[v.len() as int]@ == k);
        } else {
            let i = choose|i: int| 0 <= i < v.len() && v[i]@ == k;
            assert(w[i]@ == k);
        }
    }
}

/// Whether the set of strings held by `v` has `s`.
pub fn contains_str(v: &Vec<String>, s: &str) -> (r: bool)
    ensures
        r == str_seq_set(v@).contains(s@),
{
    let mut i: usize = 0;
    while i < v.len()
        invariant
            0 <= i <= v@.len(),
            forall|j: int| 0 <= j < i ==> v@[j]@ != s@,
        decreases v@.len() - i,
    {
        if str_eq(v[i].as_str(), s) {
            assert(v@[i as int]@ == s@);
            return true;
        }
        i += 1;
    }
    proof {
        if str_seq_set(v@).contains(s@) {
            let j = choose|j: int| 0 <= j < v@.len() && v@[j]@ == s@;
            assert(false);
        }
    }
    false
}

/// Concatenation of two string slices.
pub fn concat_str(a: &str, b: &str) -> (r: String)
    ensures
        r@ == a@ + b@,
{
    let mut s = String::from_str(a);
    s.append(b);
    s
}

} // verus!
