//! The registry of agricultural verifiers and of the soil reports they
//! submit for farmers.
//!
//! Accounts are identified by `u64` ids. The SuperAdmin's signature check and
//! the ledger's sequence number belong to the contract host.
use crate::vecmap::{lemma_key_index, seq_key_index, seq_keys_distinct, seq_to_map, VecMap};
use vstd::prelude::*;

verus! {

/// Why a registry operation was refused.
#[derive(Clone, Copy, Debug, PartialEq, Eq, Structural)]
pub enum Error {
    AlreadyInitialized,
    VerifierAlreadyRegistered,
    VerifierNotRegistered,
    Unauthorized,
}

/// The profile of a verifier; kept after deactivation for the audit trail.
#[derive(Debug)]
pub struct VerifierProfile {
    pub name: String,
    pub registration_date: u32,
    pub jurisdiction: String,
    pub is_active: bool,
}

/// The latest report on a farmer: verifier, metric hash, submission ledger.
pub type ReportData = (u64, String, u32);

/// The state of the verifier registry.
pub struct VerifierRegistry {
    initialized: bool,
    super_admin: Option<u64>,
    registered: VecMap<u64, bool>,
    profiles: VecMap<u64, VerifierProfile>,
    reports: VecMap<u64, ReportData>,
}

/// `m` holds a set flag for `a`.
pub open spec fn registered_in(m: Map<u64, bool>, a: u64) -> bool {
    m.contains_key(a) && m[a]
}

impl VerifierRegistry {
    pub closed spec fn initialized_spec(&self) -> bool {
        self.initialized
    }

    pub closed spec fn super_admin_spec(&self) -> Option<u64> {
        self.super_admin
    }

    /// The registration flags.
    pub closed spec fn registration_map(&self) -> Map<u64, bool> {
        self.registered@
    }

    /// The profile of each verifier ever registered.
    pub closed spec fn profile_map(&self) -> Map<u64, VerifierProfile> {
        self.profiles@
    }

    /// The latest report of each farmer that has one.
    pub closed spec fn report_map(&self) -> Map<u64, ReportData> {
        self.reports@
    }

    /// The registry's invariant: a verifier is registered exactly when it
    /// has a profile marked active; a SuperAdmin is recorded once
    /// initialized.
    pub closed spec fn wf(&self) -> bool {
        &&& self.registered.wf()
        &&& self.profiles.wf()
        &&& self.reports.wf()
        &&& self.initialized ==> self.super_admin is Some
        &&& forall|a: u64|
            #[trigger] registered_in(self.registered@, a) <==> (self.profiles@.contains_key(a)
                && self.profiles@[a].is_active)
    }

    proof fn lemma_registered_iff_active(&self, v: u64)
        requires
            self.wf(),
        ensures
            registered_in(self.registration_map(), v) <==> (self.profile_map().contains_key(v)
                && self.profile_map()[v].is_active),
    {
        assert(registered_in(self.registered@, v) <==> (self.profiles@.contains_key(v)
            && self.profiles@[v].is_active));
    }

    /// An empty, uninitialized registry.
    pub fn new() -> (r: Self)
        ensures
            r.wf(),
            !r.initialized_spec(),
            r.super_admin_spec() is None,
            r.registration_map() == Map::<u64, bool>::empty(),
            r.profile_map() == Map::<u64, VerifierProfile>::empty(),
            r.report_map() == Map::<u64, ReportData>::empty(),
    {
        VerifierRegistry {
            initialized: false,
            super_admin: None,
            registered: VecMap::new(),
            profiles: VecMap::new(),
            reports: VecMap::new(),
        }
    }

    /// Whether `initialize` has succeeded.
    pub fn is_initialized(&self) -> (b: bool)
        ensures
            b == self.initialized_spec(),
    {
        self.initialized
    }

    /// Records `super_admin`; refused once initialized.
    pub fn initialize(&mut self, super_admin: u64) -> (r: Result<(), Error>)
        requires
            old(self).wf(),
        ensures
            final(self).wf(),
            old(self).initialized_spec() ==> r == Err::<(), Error>(Error::AlreadyInitialized)
                && *final(self) == *old(self),
            !old(self).initialized_spec() ==> {
                &&& r is Ok
                &&& final(self).initialized_spec()
                &&& final(self).super_admin_spec() == Some(super_admin)
                &&& final(self).registration_map() == old(self).registration_map()
                &&& final(self).profile_map() == old(self).profile_map()
                &&& final(self).report_map() == old(self).report_map()
            },
    {
        if self.initialized {
            return Err(Error::AlreadyInitialized);
        }
        self.initialized = true;
        self.super_admin = Some(super_admin);
        Ok(())
    }

    /// Whether `verifier` is registered.
    pub fn is_verifier_registered(&self, verifier: u64) -> (b: bool)
        requires
            self.wf(),
        ensures
            b == registered_in(self.registration_map(), verifier),
    {
        match self.registered.get(&verifier) {
            Some(f) => *f,
            None => false,
        }
    }

    /// The SuperAdmin registers `verifier` with a fresh, active profile
    /// dated at ledger `ledger`.
    pub fn register_verifier(
        &mut self,
        verifier: u64,
        name: String,
        jurisdiction: String,
        ledger: u32,
    ) -> (r: Result<(), Error>)
        requires
            old(self).wf(),
            old(self).initialized_spec(),
        ensures
            final(self).wf(),
            registered_in(old(self).registration_map(), verifier) ==> r == Err::<(), Error>(
                Error::VerifierAlreadyRegistered,
            ) && *final(self) == *old(self),
            !registered_in(old(self).registration_map(), verifier) ==> {
                &&& r is Ok
                &&& final(self).initialized_spec() == old(self).initialized_spec()
                &&& final(self).super_admin_spec() == old(self).super_admin_spec()
                &&& final(self).registration_map() == old(self).registration_map().insert(
                    verifier,
                    true,
                )
                &&& final(self).profile_map().dom() == old(self).profile_map().dom().insert(verifier)
                &&& forall|a: u64|
                    a != verifier && #[trigger] old(self).profile_map().contains_key(a)
                        ==> final(self).profile_map()[a] == old(self).profile_map()[a]
                &&& final(self).profile_map()[verifier].name@ == name@
                &&& final(self).profile_map()[verifier].jurisdiction@ == jurisdiction@
                &&& final(self).profile_map()[verifier].registration_date == ledger
                &&& final(self).profile_map()[verifier].is_active
                &&& final(self).report_map() == old(self).report_map()
            },
    {
        if self.is_verifier_registered(verifier) {
            return Err(Error::VerifierAlreadyRegistered);
        }
        let profile = VerifierProfile { name, registration_date: ledger, jurisdiction, is_active: true };
        self.profiles.insert(verifier, profile);
        self.registered.insert(verifier, true);
        proof {
            assert forall|a: u64|
                #[trigger] registered_in(self.registered@, a) <==> (self.profiles@.contains_key(a)
                    && self.profiles@[a].is_active) by {
                if a != verifier {
                    assert(registered_in(old(self).registered@, a) <==> (old(self).profiles@.contains_key(a) && old(self).profiles@[a].is_active));
                }
            }
        }
        Ok(())
    }

    /// The SuperAdmin deactivates `verifier`: its profile stays, marked
    /// inactive, and it is no longer registered.
    pub fn deactivate_verifier(&mut self, verifier: u64) -> (r: Result<(), Error>)
        requires
            old(self).wf(),
            old(self).initialized_spec(),
        ensures
            final(self).wf(),
            !registered_in(old(self).registration_map(), verifier) ==> r == Err::<(), Error>(
                Error::VerifierNotRegistered,
            ) && *final(self) == *old(self),
            registered_in(old(self).registration_map(), verifier) ==> {
                &&& r is Ok
                &&& final(self).initialized_spec() == old(self).initialized_spec()
                &&& final(self).super_admin_spec() == old(self).super_admin_spec()
                &&& final(self).registration_map() == old(self).registration_map().remove(verifier)
                &&& final(self).profile_map().dom() == old(self).profile_map().dom()
                &&& forall|a: u64|
                    a != verifier && #[trigger] old(self).profile_map().contains_key(a)
                        ==> final(self).profile_map()[a] == old(self).profile_map()[a]
                &&& final(self).profile_map()[verifier].name == old(self).profile_map()[verifier].name
                &&& final(self).profile_map()[verifier].jurisdiction == old(self).profile_map()[verifier].jurisdiction
                &&& final(self).profile_map()[verifier].registration_date == old(self).profile_map()[verifier].registration_date
                &&& !final(self).profile_map()[verifier].is_active
                &&& final(self).report_map() == old(self).report_map()
            },
    {
        if !self.is_verifier_registered(verifier) {
            return Err(Error::VerifierNotRegistered);
        }
        if let Some(mut profile) = self.profiles.remove(&verifier) {
            profile.is_active = false;
            self.profiles.insert(verifier, profile);
        }
        self.registered.remove(&verifier);
        proof {
            assert forall|a: u64|
                #[trigger] registered_in(self.registered@, a) <==> (self.profiles@.contains_key(a)
                    && self.profiles@[a].is_active) by {
                if a != verifier {
                    assert(registered_in(old(self).registered@, a) <==> (old(self).profiles@.contains_key(a) && old(self).profiles@[a].is_active));
                }
            }
        }
        Ok(())
    }

    /// The authenticated caller `verifier` submits `metric_hash` as the
    /// latest report on `farmer`, at ledger `ledger`. Only registered,
    /// active verifiers can submit.
    pub fn submit_report_hash(
        &mut self,
        verifier: u64,
        farmer: u64,
        metric_hash: String,
        ledger: u32,
    ) -> (r: Result<(), Error>)
        requires
            old(self).wf(),
        ensures
            final(self).wf(),
            r is Ok <==> (old(self).profile_map().contains_key(verifier) && old(self).profile_map()[verifier].is_active),
            !registered_in(old(self).registration_map(), verifier) ==> r == Err::<(), Error>(
                Error::VerifierNotRegistered,
            ) && *final(self) == *old(self),
            registered_in(old(self).registration_map(), verifier) ==> {
                &&& r is Ok
                &&& final(self).initialized_spec() == old(self).initialized_spec()
                &&& final(self).super_admin_spec() == old(self).super_admin_spec()
                &&& final(self).registration_map() == old(self).registration_map()
                &&& final(self).profile_map() == old(self).profile_map()
                &&& final(self).report_map().dom() == old(self).report_map().dom().insert(farmer)
                &&& forall|f: u64|
                    f != farmer && #[trigger] old(self).report_map().contains_key(f)
                        ==> final(self).report_map()[f] == old(self).report_map()[f]
                &&& final(self).report_map()[farmer] == (verifier, metric_hash, ledger)
            },
    {
        self.submit_report_hash_with_verifier(verifier, farmer, metric_hash, ledger)
    }

    /// `verifier` records `metric_hash` as the latest report on `farmer`, at
    /// ledger `ledger`; only registered, active verifiers may report.
    pub fn submit_report_hash_with_verifier(
        &mut self,
        verifier: u64,
        farmer: u64,
        metric_hash: String,
        ledger: u32,
    ) -> (r: Result<(), Error>)
        requires
            old(self).wf(),
        ensures
            final(self).wf(),
            r is Ok <==> (old(self).profile_map().contains_key(verifier) && old(self).profile_map()[verifier].is_active),
            !registered_in(old(self).registration_map(), verifier) ==> r == Err::<(), Error>(
                Error::VerifierNotRegistered,
            ) && *final(self) == *old(self),
            registered_in(old(self).registration_map(), verifier) ==> {
                &&& r is Ok
                &&& final(self).initialized_spec() == old(self).initialized_spec()
                &&& final(self).super_admin_spec() == old(self).super_admin_spec()
                &&& final(self).registration_map() == old(self).registration_map()
                &&& final(self).profile_map() == old(self).profile_map()
                &&& final(self).report_map().dom() == old(self).report_map().dom().insert(farmer)
                &&& forall|f: u64|
                    f != farmer && #[trigger] old(self).report_map().contains_key(f)
                        ==> final(self).report_map()[f] == old(self).report_map()[f]
                &&& final(self).report_map()[farmer] == (verifier, metric_hash, ledger)
            },
    {
        if !self.is_verifier_registered(verifier) {
            return Err(Error::VerifierNotRegistered);
        }
        match self.profiles.get(&verifier) {
            Some(profile) => {
                if !profile.is_active {
                    return Err(Error::Unauthorized);
                }
            },
            None => {
                return Err(Error::VerifierNotRegistered);
            },
        }
        self.reports.insert(farmer, (verifier, metric_hash, ledger));
        Ok(())
    }

    /// The profile of `verifier` as (name, jurisdiction, registration
    /// ledger, active), if it was ever registered.
    pub fn get_verifier_profile(&self, verifier: u64) -> (r: Option<(String, String, u32, bool)>)
        requires
            self.wf(),
        ensures
            r is Some <==> self.profile_map().contains_key(verifier),
            r matches Some(t) ==> {
                let p = self.profile_map()[verifier];
                &&& t.0@ == p.name@
                &&& t.1@ == p.jurisdiction@
                &&& t.2 == p.registration_date
                &&& t.3 == p.is_active
            },
    {
        match self.profiles.get(&verifier) {
            Some(p) => Some((p.name.clone(), p.jurisdiction.clone(), p.registration_date, p.is_active)),
            None => None,
        }
    }

    /// Whether `verifier` is registered and active.
    pub fn is_verifier_active(&self, verifier: u64) -> (b: bool)
        requires
            self.wf(),
        ensures
            b == (self.profile_map().contains_key(verifier) && self.profile_map()[verifier].is_active
                && registered_in(self.registration_map(), verifier)),
    {
        match self.profiles.get(&verifier) {
            Some(p) => p.is_active && self.is_verifier_registered(verifier),
            None => false,
        }
    }

    /// The latest report on `farmer`, if any.
    pub fn get_farmer_report(&self, farmer: u64) -> (r: Option<ReportData>)
        requires
            self.wf(),
        ensures
            r is Some <==> self.report_map().contains_key(farmer),
            r matches Some(t) ==> {
                let d = self.report_map()[farmer];
                &&& t.0 == d.0
                &&& t.1@ == d.1@
                &&& t.2 == d.2
            },
    {
        match self.reports.get(&farmer) {
            Some(d) => Some((d.0, d.1.clone(), d.2)),
            None => None,
        }
    }

    /// The recorded SuperAdmin.
    pub fn get_super_admin(&self) -> (a: u64)
        requires
            self.wf(),
            self.initialized_spec(),
        ensures
            self.super_admin_spec() == Some(a),
    {
        match self.super_admin {
            Some(a) => a,
            None => 0,
        }
    }
}

/// The state of the registry as plain values, for keeping it in contract
/// storage between calls.
pub struct RegistryParts {
    pub initialized: bool,
    pub super_admin: Option<u64>,
    pub registered: Vec<(u64, bool)>,
    pub profiles: Vec<(u64, VerifierProfile)>,
    pub reports: Vec<(u64, ReportData)>,
}

/// Registration flags agree with profiles: registered exactly when the
/// profile is marked active.
pub open spec fn registration_agrees(reg: Map<u64, bool>, prof: Map<u64, VerifierProfile>) -> bool {
    forall|a: u64|
        #![trigger registered_in(reg, a)]
        #![trigger reg.contains_key(a)]
        #![trigger prof.contains_key(a)]
        registered_in(reg, a) <==> (prof.contains_key(a) && prof[a].is_active)
}

/// Plain values that make up a well-formed registry.
pub open spec fn registry_parts_valid(p: RegistryParts) -> bool {
    &&& seq_keys_distinct(p.registered@)
    &&& seq_keys_distinct(p.profiles@)
    &&& seq_keys_distinct(p.reports@)
    &&& p.initialized ==> p.super_admin is Some
    &&& registration_agrees(seq_to_map(p.registered@), seq_to_map(p.profiles@))
}

fn check_registration(reg: &VecMap<u64, bool>, prof: &VecMap<u64, VerifierProfile>) -> (b: bool)
    requires
        reg.wf(),
        prof.wf(),
    ensures
        b == registration_agrees(reg@, prof@),
{
    proof {
        reg.lemma_entries();
        prof.lemma_entries();
    }
    let ghost rs = reg.entry_seq();
    let ghost ps = prof.entry_seq();
    let mut i: usize = 0;
    while i < reg.len()
        invariant
            reg.wf(),
            prof.wf(),
            rs == reg.entry_seq(),
            reg@ == seq_to_map(rs),
            seq_keys_distinct(rs),
            i <= rs.len(),
            forall|k: int|
                0 <= k < i && (#[trigger] rs[k]).1 ==> prof@.contains_key(rs[k].0) && prof@[rs[k].0].is_active,
        decreases rs.len() - i,
    {
        let (a, flag) = *reg.entry_at(i);
        if flag {
            let ok = match prof.get(&a) {
                Some(p) => p.is_active,
                None => false,
            };
            if !ok {
                proof {
                    lemma_key_index(rs, i as int);
                    assert(registered_in(reg@, a));
                }
                return false;
            }
        }
        i = i + 1;
    }
    let mut j: usize = 0;
    while j < prof.len()
        invariant
            reg.wf(),
            prof.wf(),
            ps == prof.entry_seq(),
            prof@ == seq_to_map(ps),
            seq_keys_distinct(ps),
            j <= ps.len(),
            forall|k: int|
                0 <= k < j && (#[trigger] ps[k]).1.is_active ==> registered_in(reg@, ps[k].0),
        decreases ps.len() - j,
    {
        let a = prof.entry_at(j).0;
        if prof.entry_at(j).1.is_active {
            let ok = match reg.get(&a) {
                Some(f) => *f,
                None => false,
            };
            if !ok {
                proof {
                    lemma_key_index(ps, j as int);
                    assert(prof@.contains_key(a) && prof@[a].is_active);
                }
                return false;
            }
        }
        j = j + 1;
    }
    proof {
        assert forall|a: u64| #![trigger reg@.contains_key(a)] #![trigger prof@.contains_key(a)]
            registered_in(reg@, a) <==> (prof@.contains_key(a) && prof@[a].is_active) by {
            if registered_in(reg@, a) {
                let k = seq_key_index(rs, a);
                assert(rs[k].0 == a);
            }
            if prof@.contains_key(a) && prof@[a].is_active {
                let k = seq_key_index(ps, a);
                assert(ps[k].0 == a);
            }
        }
    }
    true
}

impl VerifierRegistry {
    /// The registry as plain values.
    pub fn into_parts(self) -> (p: RegistryParts)
        requires
            self.wf(),
        ensures
            registry_parts_valid(p),
            p.initialized == self.initialized_spec(),
            p.super_admin == self.super_admin_spec(),
            seq_to_map(p.registered@) == self.registration_map(),
            seq_to_map(p.profiles@) == self.profile_map(),
            seq_to_map(p.reports@) == self.report_map(),
    {
        proof {
            self.registered.lemma_entries();
            self.profiles.lemma_entries();
            self.reports.lemma_entries();
        }
        RegistryParts {
            initialized: self.initialized,
            super_admin: self.super_admin,
            registered: self.registered.into_entries(),
            profiles: self.profiles.into_entries(),
            reports: self.reports.into_entries(),
        }
    }

    /// The registry made of `p`, if `p` describes a well-formed one.
    pub fn from_parts(p: RegistryParts) -> (r: Option<Self>)
        ensures
            r is Some <==> registry_parts_valid(p),
            r matches Some(g) ==> {
                &&& g.wf()
                &&& g.initialized_spec() == p.initialized
                &&& g.super_admin_spec() == p.super_admin
                &&& g.registration_map() == seq_to_map(p.registered@)
                &&& g.profile_map() == seq_to_map(p.profiles@)
                &&& g.report_map() == seq_to_map(p.reports@)
            },
    {
        let RegistryParts { initialized, super_admin, registered, profiles, reports } = p;
        if initialized && super_admin.is_none() {
            return None;
        }
        let registered = match VecMap::from_entries(registered) {
            Some(m) => m,
            None => return None,
        };
        let profiles = match VecMap::from_entries(profiles) {
            Some(m) => m,
            None => return None,
        };
        let reports = match VecMap::from_entries(reports) {
            Some(m) => m,
            None => return None,
        };
        if !check_registration(&registered, &profiles) {
            return None;
        }
        let g = VerifierRegistry { initialized, super_admin, registered, profiles, reports };
        Some(g)
    }
}

/// A verifier is registered exactly when it has a profile marked active.
pub proof fn law_registered_iff_active(r: &VerifierRegistry, v: u64)
    requires
        r.wf(),
    ensures
        registered_in(r.registration_map(), v) <==> (r.profile_map().contains_key(v)
            && r.profile_map()[v].is_active),
{
    r.lemma_registered_iff_active(v);
}

} // verus!
