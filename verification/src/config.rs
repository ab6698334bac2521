//! The profile store: named sets of per-display VCP settings.
//!
//! Profiles live in an association list with unique names, looked up by
//! first match; saving a profile replaces the entry of the same name or
//! appends a new one. Reading and writing the store on disk is left to the
//! surrounding application.

use crate::text::str_chars_eq;
use vstd::prelude::*;

verus! {

/// A named set of display settings: for each display name, the (VCP code,
/// value) pairs to apply.
#[derive(Debug, Clone)]
pub struct Profile {
    /// Map from display name to a list of (VCP code, value) pairs, as an
    /// association list.
    pub settings: Vec<(String, Vec<(u8, u32)>)>,
}

/// The saved configuration: every profile, by name.
#[derive(Debug)]
pub struct Config {
    /// The profiles, as an association list with unique names.
    pub profiles: Vec<(String, Profile)>,
}

/// The first profile entry named `n`, if any.
pub open spec fn profile_lookup(es: Seq<(String, Profile)>, n: Seq<char>) -> Option<Profile>
    decreases es.len(),
{
    if es.len() == 0 {
        None
    } else if es.first().0@ == n {
        Some(es.first().1)
    } else {
        profile_lookup(es.drop_first(), n)
    }
}

/// Whether all entry names are distinct.
pub open spec fn names_unique(es: Seq<(String, Profile)>) -> bool {
    forall|a: int, b: int| 0 <= a < b < es.len() ==> es[a].0@ != es[b].0@
}

proof fn lemma_lookup_none(es: Seq<(String, Profile)>, n: Seq<char>)
    requires
        forall|j: int| 0 <= j < es.len() ==> es[j].0@ != n,
    ensures
        profile_lookup(es, n) is None,
    decreases es.len(),
{
    if es.len() > 0 {
        lemma_lookup_none(es.drop_first(), n);
    }
}

proof fn lemma_lookup_push(es: Seq<(String, Profile)>, e: (String, Profile), n: Seq<char>)
    ensures
        profile_lookup(es.push(e), n) == (if profile_lookup(es, n) is Some {
            profile_lookup(es, n)
        } else if e.0@ == n {
            Some(e.1)
        } else {
            None
        }),
    decreases es.len(),
{
    if es.len() == 0 {
        reveal_with_fuel(profile_lookup, 2);
        assert(es.push(e).first() == e);
        assert(es.push(e).drop_first() =~= Seq::<(String, Profile)>::empty());
    } else {
        assert(es.push(e).first() == es.first());
        assert(es.push(e).drop_first() =~= es.drop_first().push(e));
        lemma_lookup_push(es.drop_first(), e, n);
    }
}

proof fn lemma_lookup_remove(es: Seq<(String, Profile)>, k: int, n: Seq<char>)
    requires
        0 <= k < es.len(),
        es[k].0@ != n,
    ensures
        profile_lookup(es.remove(k), n) == profile_lookup(es, n),
    decreases es.len(),
{
    if k == 0 {
        assert(es.remove(0) =~= es.drop_first());
    } else {
        assert(es.remove(k).first() == es.first());
        assert(es.remove(k).drop_first() =~= es.drop_first().remove(k - 1));
        lemma_lookup_remove(es.drop_first(), k - 1, n);
    }
}

/// The prefix of `es` up to `i` has no entry named `n`, so lookup starts
/// effectively at `i`.
proof fn lemma_lookup_skip(es: Seq<(String, Profile)>, i: int, n: Seq<char>)
    requires
        0 <= i <= es.len(),
        forall|j: int| 0 <= j < i ==> es[j].0@ != n,
    ensures
        profile_lookup(es, n) == profile_lookup(es.subrange(i, es.len() as int), n),
    decreases i,
{
    if i > 0 {
        assert(es[0].0@ != n);
        assert(es.first() == es[0]);
        assert(es.drop_first() =~= es.subrange(1, es.len() as int));
        assert(forall|j: int|
            0 <= j < i - 1 ==> #[trigger] es.drop_first()[j].0@ == es[j + 1].0@);
        lemma_lookup_skip(es.drop_first(), i - 1, n);
        assert(es.drop_first().subrange(i - 1, es.drop_first().len() as int) =~= es.subrange(
            i,
            es.len() as int,
        ));
    } else {
        assert(es.subrange(0, es.len() as int) =~= es);
    }
}

impl Config {
    /// Whether the store is well formed: profile names are unique.
    pub open spec fn wf(&self) -> bool {
        names_unique(self.profiles@)
    }

    /// Look a profile up by name.
    pub fn get_profile(&self, name: &str) -> (r: Option<&Profile>)
        ensures
            match r {
                Some(p) => profile_lookup(self.profiles@, name@) == Some(*p),
                None => profile_lookup(self.profiles@, name@) is None,
            },
    {
        let ghost es = self.profiles@;
        let n = self.profiles.len();
        let mut i: usize = 0;
        while i < n
            invariant
                0 <= i <= n == es.len(),
                es == self.profiles@,
                forall|j: int| 0 <= j < i ==> es[j].0@ != name@,
            decreases n - i,
        {
            if str_chars_eq(self.profiles[i].0.as_str(), name) {
                proof {
                    lemma_lookup_skip(es, i as int, name@);
                    assert(es.subrange(i as int, es.len() as int).first() == es[i as int]);
                    assert(es.subrange(i as int, es.len() as int).drop_first() =~= es.subrange(
                        i + 1,
                        es.len() as int,
                    ));
                }
                return Some(&self.profiles[i].1);
            }
            i += 1;
        }
        proof {
            lemma_lookup_none(es, name@);
        }
        None
    }

    /// Save a profile under a name, replacing any profile of that name.
    pub fn save_profile(&mut self, name: String, profile: Profile)
        requires
            old(self).wf(),
        ensures
            final(self).wf(),
            profile_lookup(final(self).profiles@, name@) == Some(profile),
            forall|n: Seq<char>|
                n != name@ ==> profile_lookup(final(self).profiles@, n) == profile_lookup(
                    old(self).profiles@,
                    n,
                ),
    {
        let ghost es = old(self).profiles@;
        let ghost e = (name, profile);
        let n = self.profiles.len();
        let mut i: usize = 0;
        let mut found: Option<usize> = None;
        while i < n
            invariant
                0 <= i <= n == es.len(),
                es == self.profiles@,
                match found {
                    Some(k) => k < i && es[k as int].0@ == name@,
                    None => forall|j: int| 0 <= j < i ==> es[j].0@ != name@,
                },
            decreases n - i,
        {
            if found.is_none() && str_chars_eq(self.profiles[i].0.as_str(), name.as_str()) {
                found = Some(i);
            }
            i += 1;
        }
        let ghost kept = match found {
            Some(k) => es.remove(k as int),
            None => es,
        };
        if let Some(k) = found {
            let _ = self.profiles.remove(k);
        }
        proof {
            assert(self.profiles@ == kept);
            if let Some(k) = found {
                assert forall|j: int| 0 <= j < kept.len() implies kept[j].0@ != name@ by {
                    if j < k {
                        assert(kept[j] == es[j]);
                    } else {
                        assert(kept[j] == es[j + 1]);
                    }
                }
                assert(names_unique(kept)) by {
                    assert forall|a: int, b: int|
                        0 <= a < b < kept.len() implies kept[a].0@ != kept[b].0@ by {
                        if b < k {
                        } else if a < k <= b {
                            assert(kept[b] == es[b + 1]);
                        } else {
                            assert(kept[a] == es[a + 1]);
                            assert(kept[b] == es[b + 1]);
                        }
                    }
                }
            } else {
                lemma_lookup_none(es, name@);
            }
            assert(forall|j: int| 0 <= j < kept.len() ==> kept[j].0@ != name@);
        }
        self.profiles.push((name, profile));
        proof {
            assert(self.profiles@ == kept.push(e));
            lemma_lookup_none(kept, name@);
            lemma_lookup_push(kept, e, name@);
            assert(names_unique(kept.push(e))) by {
                assert forall|a: int, b: int|
                    0 <= a < b < kept.push(e).len() implies kept.push(e)[a].0@ != kept.push(
                    e,
                )[b].0@ by {
                    if b < kept.len() {
                    } else {
                        assert(kept.push(e)[b] == e);
                        assert(kept.push(e)[a] == kept[a]);
                    }
                }
            }
            assert forall|nm: Seq<char>|
                nm != name@ implies profile_lookup(kept.push(e), nm) == profile_lookup(
                es,
                nm,
            ) by {
                lemma_lookup_push(kept, e, nm);
                if let Some(k) = found {
                    lemma_lookup_remove(es, k as int, nm);
                    if profile_lookup(kept, nm) is None {
                        lemma_lookup_remove(es, k as int, nm);
                    }
                }
            }
        }
    }

    /// Whether the store's profile names are unique, checked.
    pub fn is_well_formed(&self) -> (b: bool)
        ensures
            b == self.wf(),
    {
        let ghost es = self.profiles@;
        let n = self.profiles.len();
        let mut i: usize = 0;
        while i < n
            invariant
                0 <= i <= n == es.len(),
                es == self.profiles@,
                forall|a: int, b: int| 0 <= a < b < es.len() && a < i ==> es[a].0@ != es[b].0@,
            decreases n - i,
        {
            let mut j: usize = i + 1;
            while j < n
                invariant
                    i < j <= n == es.len(),
                    es == self.profiles@,
                    forall|b: int| i < b < j ==> es[i as int].0@ != es[b].0@,
                decreases n - j,
            {
                if str_chars_eq(self.profiles[i].0.as_str(), self.profiles[j].0.as_str()) {
                    return false;
                }
                j += 1;
            }
            i += 1;
        }
        true
    }
}

impl Default for Config {
    /// The empty store.
    fn default() -> (d: Self)
        ensures
            d.profiles@.len() == 0,
            d.wf(),
    {
        Config { profiles: Vec::new() }
    }
}

} // verus!
