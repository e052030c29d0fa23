//! The capabilities the resolver reads the outside world through: a set of
//! environment variables and the set of filesystem paths that exist. Both
//! are plain values, so a caller hands in the real process environment and
//! probe results, and a test hands in an in-memory fake.

use vstd::prelude::*;
use vstd::string::StrSliceExecFns;

verus! {

/// Whether two string slices hold the same characters.
pub fn str_eq(a: &str, b: &str) -> (r: bool)
    ensures
        r == (a@ == b@),
{
    let na = a.unicode_len();
    let nb = b.unicode_len();
    if na != nb {
        return false;
    }
    let mut i: usize = 0;
    while i < na
        invariant
            i <= na,
            na == a@.len(),
            na == b@.len(),
            forall|j: int| 0 <= j < i ==> a@[j] == b@[j],
        decreases na - i,
    {
        if a.get_char(i) != b.get_char(i) {
            return false;
        }
        i = i + 1;
    }
    proof {
        assert(a@ =~= b@);
    }
    true
}

/// A read-only view of the environment variables the resolver consults.
pub struct Environment {
    pub vars: Vec<(String, String)>,
}

/// The value bound to `name` in `pairs`, first binding wins.
pub open spec fn spec_lookup(pairs: Seq<(String, String)>, name: Seq<char>) -> Option<Seq<char>>
    decreases pairs.len(),
{
    if pairs.len() == 0 {
        None
    } else if pairs[0].0@ == name {
        Some(pairs[0].1@)
    } else {
        spec_lookup(pairs.subrange(1, pairs.len() as int), name)
    }
}

impl Environment {
    /// The value of the variable `name`, when it is set.
    pub open spec fn spec_get(&self, name: Seq<char>) -> Option<Seq<char>> {
        spec_lookup(self.vars@, name)
    }

    /// Looks a variable up; the first binding of the name wins.
    pub fn get(&self, name: &str) -> (r: Option<String>)
        ensures
            match r {
                Some(v) => self.spec_get(name@) == Some(v@),
                None => self.spec_get(name@) == None::<Seq<char>>,
            },
    {
        let n = self.vars.len();
        proof {
            assert(self.vars@.subrange(0, n as int) =~= self.vars@);
        }
        let mut i: usize = 0;
        while i < n
            invariant
                i <= n,
                n == self.vars@.len(),
                spec_lookup(self.vars@.subrange(i as int, n as int), name@) == spec_lookup(
                    self.vars@,
                    name@,
                ),
            decreases n - i,
        {
            let ghost rest = self.vars@.subrange(i as int, n as int);
            if str_eq(self.vars[i].0.as_str(), name) {
                proof {
                    assert(rest[0] == self.vars@[i as int]);
                }
                return Some(self.vars[i].1.clone());
            }
            proof {
                assert(rest[0] == self.vars@[i as int]);
                assert(rest.subrange(1, rest.len() as int) =~= self.vars@.subrange(
                    i + 1,
                    n as int,
                ));
            }
            i = i + 1;
        }
        proof {
            assert(self.vars@.subrange(n as int, n as int) =~= Seq::<(String, String)>::empty());
        }
        None
    }
}

/// The set of filesystem paths that exist, as far as the resolver asks.
/// A path not listed counts as absent.
pub struct FileSystem {
    pub present: Vec<String>,
}

impl FileSystem {
    /// Whether `path` exists.
    pub open spec fn spec_path_exists(&self, path: Seq<char>) -> bool {
        exists|i: int| 0 <= i < self.present@.len() && self.present@[i]@ == path
    }

    /// Probes for a path among the present ones.
    pub fn path_exists(&self, path: &str) -> (r: bool)
        ensures
            r == self.spec_path_exists(path@),
    {
        let n = self.present.len();
        let mut i: usize = 0;
        while i < n
            invariant
                i <= n,
                n == self.present@.len(),
                forall|j: int| 0 <= j < i ==> self.present@[j]@ != path@,
            decreases n - i,
        {
            if str_eq(self.present[i].as_str(), path) {
                return true;
            }
            i = i + 1;
        }
        false
    }
}

} // verus!
