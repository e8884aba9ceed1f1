//! The profile store and domain table the portal works from.
//!
//! A `Portal` value holds the named profiles and the jail backend's domain
//! table.  Connection handlers only read it; the manager is the sole
//! component that consults it to answer domain-creation requests.  Lookup
//! is by first match, so each name resolves to at most one entry even if a
//! table were ever mis-built.  Jail handles are carried as plain
//! identifiers: what the jail backend does with them is outside this
//! crate.
use vstd::prelude::*;

use crate::codec::strs_view;
use crate::util::str_eq;

verus! {

/// A named configuration entry: which command its domain runs.
#[derive(Clone, Debug, PartialEq, Eq)]
pub struct Profile {
    pub name: String,
    pub cmd: Vec<String>,
}

/// One entry of the jail backend's domain table.
#[derive(Clone, Debug, PartialEq, Eq)]
pub struct JailDom {
    pub name: String,
    pub id: u64,
}

/// A resolved pairing of a profile with its live jail domain.
#[derive(Clone, Debug, PartialEq, Eq)]
pub struct ProfileDom {
    pub name: String,
    pub cmd: Vec<String>,
    pub jdom: u64,
}

/// The first profile bearing the name, if any.
pub open spec fn find_profile(ps: Seq<Profile>, name: Seq<char>) -> Option<Profile>
    decreases ps.len(),
{
    if ps.len() == 0 {
        None
    } else if ps[0].name@ == name {
        Some(ps[0])
    } else {
        find_profile(ps.skip(1), name)
    }
}

/// The first domain-table entry bearing the name, if any.
pub open spec fn find_domain(ds: Seq<JailDom>, name: Seq<char>) -> Option<JailDom>
    decreases ds.len(),
{
    if ds.len() == 0 {
        None
    } else if ds[0].name@ == name {
        Some(ds[0])
    } else {
        find_domain(ds.skip(1), name)
    }
}

/// The portal's read-only view of profiles and live domains.
#[derive(Clone, Debug)]
pub struct Portal {
    pub profiles: Vec<Profile>,
    pub domains: Vec<JailDom>,
}

impl Portal {
    /// Some profile bears this name.
    pub open spec fn has_profile(&self, name: Seq<char>) -> bool {
        find_profile(self.profiles@, name) is Some
    }

    /// The command of the profile bearing this name.
    pub open spec fn profile_cmd(&self, name: Seq<char>) -> Seq<Seq<char>> {
        strs_view(find_profile(self.profiles@, name)->0.cmd@)
    }

    /// Some live domain bears this name.
    pub open spec fn has_domain(&self, name: Seq<char>) -> bool {
        find_domain(self.domains@, name) is Some
    }

    /// The jail handle of the domain bearing this name.
    pub open spec fn domain_id(&self, name: Seq<char>) -> u64 {
        find_domain(self.domains@, name)->0.id
    }

    /// Looks a profile up by name.
    pub fn profile(&self, name: &str) -> (r: Option<&Profile>)
        ensures
            match r {
                Some(p) => self.has_profile(name@) && p.name@ == name@ && strs_view(p.cmd@)
                    == self.profile_cmd(name@),
                None => !self.has_profile(name@),
            },
    {
        let ghost ps = self.profiles@;
        proof {
            assert(ps.skip(0) =~= ps);
        }
        let mut i: usize = 0;
        while i < self.profiles.len()
            invariant
                i <= ps.len(),
                ps == self.profiles@,
                find_profile(ps, name@) == find_profile(ps.skip(i as int), name@),
            decreases ps.len() - i,
        {
            proof {
                assert(ps.skip(i as int)[0] == ps[i as int]);
            }
            if str_eq(self.profiles[i].name.as_str(), name) {
                proof {
                    assert(find_profile(ps.skip(i as int), name@) == Some(ps[i as int]));
                }
                return Some(&self.profiles[i]);
            }
            proof {
                assert(ps.skip(i as int).skip(1) =~= ps.skip(i + 1));
            }
            i = i + 1;
        }
        proof {
            assert(ps.skip(i as int) =~= Seq::<Profile>::empty());
        }
        None
    }

    /// Looks a live domain's jail handle up by name.
    pub fn domain(&self, name: &str) -> (r: Option<u64>)
        ensures
            match r {
                Some(d) => self.has_domain(name@) && d == self.domain_id(name@),
                None => !self.has_domain(name@),
            },
    {
        let ghost ds = self.domains@;
        proof {
            assert(ds.skip(0) =~= ds);
        }
        let mut i: usize = 0;
        while i < self.domains.len()
            invariant
                i <= ds.len(),
                ds == self.domains@,
                find_domain(ds, name@) == find_domain(ds.skip(i as int), name@),
            decreases ds.len() - i,
        {
            proof {
                assert(ds.skip(i as int)[0] == ds[i as int]);
            }
            if str_eq(self.domains[i].name.as_str(), name) {
                proof {
                    assert(find_domain(ds.skip(i as int), name@) == Some(ds[i as int]));
                }
                return Some(self.domains[i].id);
            }
            proof {
                assert(ds.skip(i as int).skip(1) =~= ds.skip(i + 1));
            }
            i = i + 1;
        }
        proof {
            assert(ds.skip(i as int) =~= Seq::<JailDom>::empty());
        }
        None
    }
}

} // verus!
