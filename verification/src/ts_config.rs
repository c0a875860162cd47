//! Compiler configuration as the analyzer sees it: a base URL and an
//! ordered alias table mapping specifier prefixes to candidate path
//! patterns (each pattern holding a `*` wildcard).

use vstd::prelude::*;

use crate::strutil::clone_string_vec;

verus! {

/// The view of an alias table: prefix and candidate patterns as character
/// sequences, in table order.
pub open spec fn alias_view(t: Seq<(String, Vec<String>)>) -> Seq<(Seq<char>, Seq<Seq<char>>)> {
    t.map_values(|p: (String, Vec<String>)| (p.0@, p.1@.map_values(|s: String| s@)))
}

/// The view of an optional string.
pub open spec fn opt_view(o: Option<String>) -> Option<Seq<char>> {
    match o {
        Some(s) => Some(s@),
        None => None,
    }
}

/// The ordered alias table from a `paths` configuration entry.
pub struct CompilerOptions {
    pub base_url: Option<String>,
    pub paths: Option<Vec<(String, Vec<String>)>>,
}

/// A project's compiler configuration, possibly extending another file.
pub struct TSConfig {
    pub compiler_options: Option<CompilerOptions>,
    pub extends: Option<String>,
}

/// Copy an alias table.
pub fn clone_alias_table(t: &Vec<(String, Vec<String>)>) -> (r: Vec<(String, Vec<String>)>)
    ensures
        alias_view(r@) == alias_view(t@),
        r@.len() == t@.len(),
{
    let mut out: Vec<(String, Vec<String>)> = Vec::new();
    let mut i: usize = 0;
    while i < t.len()
        invariant
            0 <= i <= t@.len(),
            out@.len() == i,
            alias_view(out@) == alias_view(t@.take(i as int)),
        decreases t@.len() - i,
    {
        let (k, v) = &t[i];
        let pair = (k.clone(), clone_string_vec(v));
        let ghost pv = pair;
        let ghost prev = out@;
        out.push(pair);
        proof {
            assert(pv.0@ == t@[i as int].0@);
            assert(pv.1@ == t@[i as int].1@);
            assert(out@ =~= prev.push(pv));
            assert forall|j: int| 0 <= j < i + 1 implies alias_view(out@)[j] == alias_view(
                t@.take(i as int + 1),
            )[j] by {
                if j < i {
                    assert(alias_view(prev)[j] == alias_view(t@.take(i as int))[j]);
                    assert(out@[j] == prev[j]);
                    assert(t@.take(i as int + 1)[j] == t@.take(i as int)[j]);
                } else {
                    assert(out@[j] == pv);
                    assert(t@.take(i as int + 1)[j] == t@[i as int]);
                }
            }
            assert(alias_view(out@) =~= alias_view(t@.take(i as int + 1)));
        }
        i += 1;
    }
    proof {
        assert(t@.take(t@.len() as int) =~= t@);
    }
    out
}

impl CompilerOptions {
    /// The abstract contents of these options.
    pub open spec fn model(&self) -> (Option<Seq<char>>, Option<Seq<(Seq<char>, Seq<Seq<char>>)>>) {
        (
            opt_view(self.base_url),
            match self.paths {
                Some(p) => Some(alias_view(p@)),
                None => None,
            },
        )
    }
}

impl Clone for CompilerOptions {
    fn clone(&self) -> (r: Self)
        ensures
            r.model() == self.model(),
    {
        CompilerOptions {
            base_url: match &self.base_url {
                Some(u) => Some(u.clone()),
                None => None,
            },
            paths: match &self.paths {
                Some(p) => Some(clone_alias_table(p)),
                None => None,
            },
        }
    }
}

impl TSConfig {
    /// The abstract contents of a configuration: its options (if any) and
    /// the file it extends (if any).
    pub open spec fn model(&self) -> (
        Option<(Option<Seq<char>>, Option<Seq<(Seq<char>, Seq<Seq<char>>)>>)>,
        Option<Seq<char>>,
    ) {
        (
            match self.compiler_options {
                Some(o) => Some(o.model()),
                None => None,
            },
            opt_view(self.extends),
        )
    }

    /// The alias table held, as its view (empty when unset).
    pub open spec fn spec_alias_table(&self) -> Seq<(Seq<char>, Seq<Seq<char>>)> {
        match self.compiler_options {
            Some(o) => match o.paths {
                Some(p) => alias_view(p@),
                None => Seq::empty(),
            },
            None => Seq::empty(),
        }
    }

    /// A configuration with nothing set.
    pub fn empty() -> (r: Self)
        ensures
            r.compiler_options is None,
            r.extends is None,
    {
        TSConfig { compiler_options: None, extends: None }
    }

    /// The alias table of this configuration, or an empty one.
    pub fn alias_table(&self) -> (r: Vec<(String, Vec<String>)>)
        ensures
            alias_view(r@) == self.spec_alias_table(),
    {
        match &self.compiler_options {
            Some(o) => match &o.paths {
                Some(p) => clone_alias_table(p),
                None => Vec::new(),
            },
            None => Vec::new(),
        }
    }
}

impl Clone for TSConfig {
    fn clone(&self) -> (r: Self)
        ensures
            r.model() == self.model(),
    {
        TSConfig {
            compiler_options: match &self.compiler_options {
                Some(o) => Some(o.clone()),
                None => None,
            },
            extends: match &self.extends {
                Some(e) => Some(e.clone()),
                None => None,
            },
        }
    }
}

} // verus!
