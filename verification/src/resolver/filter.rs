//! The filter stage: only names under a configured suffix pass.
//!
//! Rejection here is not "no destination" — it is an error that aborts the
//! pipeline, unless a fallback stage absorbs it into the default address.

use vstd::prelude::*;

use crate::text::{has_suffix_in, matches_suffix};

verus! {

/// Why the filter refuses a request.
#[derive(Debug, PartialEq, Eq)]
pub enum Error {
    /// No configured suffix is a suffix of this name.
    NotSupported(Vec<u8>),
}

/// One filter rule from configuration: a list of allowed name suffixes.
#[derive(Debug, Clone)]
pub struct Config {
    pub names: Vec<Vec<u8>>,
}

/// The filter predicate: the allowed suffixes of every filter rule, pooled.
pub struct Check {
    allowed: Vec<Vec<u8>>,
}

/// The suffixes of every rule, in rule order.
pub open spec fn pooled_names(rules: Seq<Config>) -> Seq<Seq<u8>>
    decreases rules.len(),
{
    if rules.len() == 0 {
        Seq::empty()
    } else {
        rules.first().names.deep_view() + pooled_names(rules.drop_first())
    }
}

impl Check {
    /// The suffixes this filter admits.
    pub closed spec fn allowed_spec(&self) -> Seq<Seq<u8>> {
        self.allowed.deep_view()
    }

    /// Pools the suffix lists of all filter rules into one predicate.
    pub fn new(rules: &Vec<Config>) -> (r: Check)
        ensures
            r.allowed_spec() == pooled_names(rules@),
    {
        let mut allowed: Vec<Vec<u8>> = Vec::new();
        let n = rules.len();
        proof {
            assert(rules@.skip(0) =~= rules@);
        }
        for i in 0..n
            invariant
                n == rules@.len(),
                pooled_names(rules@) =~= allowed.deep_view() + pooled_names(rules@.skip(i as int)),
        {
            let names = &rules[i].names;
            let m = names.len();
            proof {
                assert(rules@.skip(i as int).first() == rules@[i as int]);
                assert(rules@.skip(i as int).drop_first() =~= rules@.skip(i + 1));
                assert(names.deep_view().skip(0) =~= names.deep_view());
            }
            for j in 0..m
                invariant
                    n == rules@.len(),
                    i < n,
                    m == names@.len(),
                    names == &rules@[i as int].names,
                    pooled_names(rules@) =~= allowed.deep_view() + names.deep_view().skip(j as int)
                        + pooled_names(rules@.skip(i + 1)),
            {
                allowed.push(names[j].clone());
            }
            proof {
                assert(names.deep_view().skip(m as int) =~= Seq::<Seq<u8>>::empty());
            }
        }
        proof {
            assert(rules@.skip(n as int) =~= Seq::<Config>::empty());
        }
        Check { allowed }
    }

    /// Whether this filter lets `name` through.
    pub open spec fn allows(&self, name: Seq<u8>) -> bool {
        has_suffix_in(self.allowed_spec(), name)
    }

    /// Admits the request untouched when some allowed suffix matches the
    /// name; refuses it otherwise.
    pub fn check(&self, name: Vec<u8>, port: u16) -> (r: Result<(Vec<u8>, u16), Error>)
        ensures
            self.allows(name@) ==> (r matches Ok(p) && p.0@ == name@ && p.1 == port),
            !self.allows(name@) ==> (r matches Err(Error::NotSupported(n)) && n@ == name@),
    {
        if matches_suffix(&self.allowed, name.as_slice()) {
            Ok((name, port))
        } else {
            Err(Error::NotSupported(name))
        }
    }
}

} // verus!
