//! The carbon credit token: balances, allowances (SEP-41), minting by
//! verifiers, burning, and retirement of credits against certificates.
//!
//! Accounts are identified by `u64` ids. Signature checks (`require_auth`),
//! the ledger's sequence number and timestamp, the role query to the RBAC
//! contract and the publication of events belong to the contract host; the
//! functions here take their outcome as arguments.
use crate::vecmap::{
    lemma_key_index, nonnegative_values_sum_to, seq_key_index, seq_keys_distinct, seq_to_map,
    seq_value_sum, VecMap,
};
use vstd::prelude::*;

verus! {

/// The token contract's error numbers, for the host to report refusals by.
#[derive(Clone, Copy, Debug, PartialEq, Eq, Structural)]
pub enum Error {
    AlreadyInitialized,
    NegativeAmount,
    Blacklisted,
    CannotBlacklistSelf,
    InvalidSuccessor,
    ZeroRetirementAmount,
    InsufficientBalance,
    InsufficientAllowance,
    InvalidExpirationLedger,
}

/// The contract error number of each refusal.
pub open spec fn error_code(e: Error) -> u32 {
    match e {
        Error::AlreadyInitialized => 1,
        Error::NegativeAmount => 2,
        Error::Blacklisted => 3,
        Error::CannotBlacklistSelf => 4,
        Error::InvalidSuccessor => 5,
        Error::ZeroRetirementAmount => 6,
        Error::InsufficientBalance => 7,
        Error::InsufficientAllowance => 8,
        Error::InvalidExpirationLedger => 9,
    }
}

impl Error {
    /// The contract error number of this refusal.
    pub fn code(&self) -> (c: u32)
        ensures
            c == error_code(*self),
    {
        match self {
            Error::AlreadyInitialized => 1,
            Error::NegativeAmount => 2,
            Error::Blacklisted => 3,
            Error::CannotBlacklistSelf => 4,
            Error::InvalidSuccessor => 5,
            Error::ZeroRetirementAmount => 6,
            Error::InsufficientBalance => 7,
            Error::InsufficientAllowance => 8,
            Error::InvalidExpirationLedger => 9,
        }
    }
}

/// An allowance: how much a spender may still move, until which ledger.
#[derive(Clone, Copy, Debug, PartialEq, Eq, Structural)]
pub struct AllowanceValue {
    pub amount: i128,
    pub expiration_ledger: u32,
}

/// The certificate issued for a retirement of credits.
#[derive(Clone, Copy, Debug, PartialEq, Eq, Structural)]
pub struct Certificate {
    pub id: u64,
    pub amount: i128,
    pub timestamp: u64,
}

/// Accepts a non-negative amount; a negative amount is a caller's error,
/// which the contract host answers with a panic before calling.
pub fn check_nonnegative_amount(amount: i128)
    requires
        amount >= 0,
{
}

/// The balance of `a` (0 for an account never written).
pub open spec fn balance_in(m: Map<u64, i128>, a: u64) -> int {
    if m.contains_key(a) {
        m[a] as int
    } else {
        0
    }
}

/// `m` with `amount` taken from the balance of `a`.
pub open spec fn debit(m: Map<u64, i128>, a: u64, amount: int) -> Map<u64, i128> {
    m.insert(a, (balance_in(m, a) - amount) as i128)
}

/// `m` with `amount` added to the balance of `a`.
pub open spec fn credit(m: Map<u64, i128>, a: u64, amount: int) -> Map<u64, i128> {
    m.insert(a, (balance_in(m, a) + amount) as i128)
}

/// The stored allowance of `spender` over the funds of `from`.
pub open spec fn allowance_entry(
    m: Map<(u64, u64), AllowanceValue>,
    from: u64,
    spender: u64,
) -> AllowanceValue {
    if m.contains_key((from, spender)) {
        m[(from, spender)]
    } else {
        AllowanceValue { amount: 0, expiration_ledger: 0 }
    }
}

/// What an allowance is worth at ledger `ledger`: nothing once expired.
pub open spec fn effective_allowance(v: AllowanceValue, ledger: u32) -> int {
    if v.expiration_ledger < ledger {
        0
    } else {
        v.amount as int
    }
}

/// The allowances after `spender` moved `amount` of the funds of `from`.
pub open spec fn spend_allowance_in(
    m: Map<(u64, u64), AllowanceValue>,
    from: u64,
    spender: u64,
    amount: int,
    ledger: u32,
) -> Map<(u64, u64), AllowanceValue> {
    if amount > 0 {
        let v = allowance_entry(m, from, spender);
        m.insert(
            (from, spender),
            AllowanceValue {
                amount: (effective_allowance(v, ledger) - amount) as i128,
                expiration_ledger: v.expiration_ledger,
            },
        )
    } else {
        m
    }
}

/// The certificates held by `owner` in a log of issued certificates, in
/// the order of issue.
pub open spec fn certificates_of(log: Seq<(u64, Certificate)>, owner: u64) -> Seq<Certificate>
    decreases log.len(),
{
    if log.len() == 0 {
        Seq::empty()
    } else if log.last().0 == owner {
        certificates_of(log.drop_last(), owner).push(log.last().1)
    } else {
        certificates_of(log.drop_last(), owner)
    }
}

/// A flag that is set for `a`.
pub open spec fn flag_in(m: Map<u64, bool>, a: u64) -> bool {
    m.contains_key(a) && m[a]
}

/// The state of the carbon credit token contract.
pub struct CarbonCreditToken {
    initialized: bool,
    admin: Option<u64>,
    super_admin: Option<u64>,
    rbac_contract: Option<u64>,
    name: String,
    symbol: String,
    decimals: u32,
    total_supply: i128,
    total_retired: i128,
    balances: VecMap<u64, i128>,
    allowances: VecMap<(u64, u64), AllowanceValue>,
    certificates: Vec<(u64, Certificate)>,
    verifiers: VecMap<u64, bool>,
    blacklisted: VecMap<u64, bool>,
    minted: Ghost<int>,
    burned: Ghost<int>,
}

impl CarbonCreditToken {
    pub closed spec fn initialized_spec(&self) -> bool {
        self.initialized
    }

    pub closed spec fn admin_spec(&self) -> Option<u64> {
        self.admin
    }

    pub closed spec fn super_admin_spec(&self) -> Option<u64> {
        self.super_admin
    }

    pub closed spec fn rbac_contract_spec(&self) -> Option<u64> {
        self.rbac_contract
    }

    pub closed spec fn name_spec(&self) -> Seq<char> {
        self.name@
    }

    pub closed spec fn symbol_spec(&self) -> Seq<char> {
        self.symbol@
    }

    pub closed spec fn decimals_spec(&self) -> u32 {
        self.decimals
    }

    pub closed spec fn total_supply_spec(&self) -> int {
        self.total_supply as int
    }

    pub closed spec fn total_retired_spec(&self) -> int {
        self.total_retired as int
    }

    /// The balance of every account that has one recorded.
    pub closed spec fn balance_map(&self) -> Map<u64, i128> {
        self.balances@
    }

    /// The sum of all recorded balances.
    pub closed spec fn sum_of_balances(&self) -> int {
        self.balances.value_sum()
    }

    /// The allowance of each `(owner, spender)` pair that has one recorded.
    pub closed spec fn allowance_map(&self) -> Map<(u64, u64), AllowanceValue> {
        self.allowances@
    }

    /// Every certificate issued so far with its holder, in the order of
    /// issue.
    pub closed spec fn certificate_log(&self) -> Seq<(u64, Certificate)> {
        self.certificates@
    }

    /// The number of certificates issued so far.
    pub open spec fn certificate_count_spec(&self) -> int {
        self.certificate_log().len() as int
    }

    /// The inline verifier flags.
    pub closed spec fn verifier_flags(&self) -> Map<u64, bool> {
        self.verifiers@
    }

    /// The blacklist flags.
    pub closed spec fn blacklist_flags(&self) -> Map<u64, bool> {
        self.blacklisted@
    }

    /// The credits minted since this token value was created or loaded
    /// (a loaded token counts what it held then as minted).
    pub closed spec fn minted_spec(&self) -> int {
        self.minted@
    }

    /// The credits burned since this token value was created or loaded.
    pub closed spec fn burned_spec(&self) -> int {
        self.burned@
    }

    /// The credits minted and burned so far are `minted` and `burned`.
    pub open spec fn issuance_is(&self, minted: int, burned: int) -> bool {
        self.minted_spec() == minted && self.burned_spec() == burned
    }

    /// The token's invariant: no balance is negative and the balances add
    /// up to the total supply; nothing is in circulation or retired before
    /// initialization, and an initialized token has an admin and an RBAC
    /// contract; the credits in circulation and retired are those minted
    /// less those burned; no allowance is negative; every certificate has a
    /// positive amount and an id between 1 and the number issued, and no
    /// two certificates share an id.
    pub closed spec fn wf(&self) -> bool {
        &&& self.balances.wf()
        &&& self.allowances.wf()
        &&& self.verifiers.wf()
        &&& self.blacklisted.wf()
        &&& forall|a: u64| #[trigger]
            self.balances@.contains_key(a) ==> self.balances@[a] >= 0
        &&& self.balances.value_sum() == self.total_supply
        &&& self.total_retired >= 0
        &&& !self.initialized ==> self.total_supply == 0 && self.total_retired == 0
        &&& self.initialized ==> self.admin is Some && self.rbac_contract is Some
        &&& self.total_supply + self.total_retired == self.minted@ - self.burned@
        &&& forall|k: (u64, u64)| #[trigger]
            self.allowances@.contains_key(k) ==> self.allowances@[k].amount >= 0
        &&& certificates_in_order(self.certificates@)
    }

    proof fn lemma_ledger_facts(&self, a: u64)
        requires
            self.wf(),
        ensures
            self.sum_of_balances() == self.total_supply_spec(),
            balance_in(self.balance_map(), a) >= 0,
            balance_in(self.balance_map(), a) <= self.total_supply_spec(),
            self.total_supply_spec() >= 0,
            self.total_retired_spec() >= 0,
            self.total_supply_spec() + self.total_retired_spec() == self.minted_spec()
                - self.burned_spec(),
            certificates_in_order(self.certificate_log()),
    {
        self.balances.lemma_value_bounded_by_sum(a);
    }

    /// `self` agrees with `old` in everything but the admin, the super
    /// admin and the two kinds of flags, which are as given.
    pub open spec fn roles_became(
        &self,
        old: &Self,
        admin: Option<u64>,
        super_admin: Option<u64>,
        verifiers: Map<u64, bool>,
        blacklisted: Map<u64, bool>,
    ) -> bool {
        &&& self.initialized_spec() == old.initialized_spec()
        &&& self.admin_spec() == admin
        &&& self.super_admin_spec() == super_admin
        &&& self.rbac_contract_spec() == old.rbac_contract_spec()
        &&& self.name_spec() == old.name_spec()
        &&& self.symbol_spec() == old.symbol_spec()
        &&& self.decimals_spec() == old.decimals_spec()
        &&& self.verifier_flags() == verifiers
        &&& self.blacklist_flags() == blacklisted
        &&& self.balance_map() == old.balance_map()
        &&& self.allowance_map() == old.allowance_map()
        &&& self.total_supply_spec() == old.total_supply_spec()
        &&& self.total_retired_spec() == old.total_retired_spec()
        &&& self.certificate_log() == old.certificate_log()
        &&& self.issuance_is(old.minted_spec(), old.burned_spec())
    }

    /// `self` has the settings of `old` and the given ledger contents.
    pub open spec fn ledger_is(
        &self,
        old: &Self,
        balances: Map<u64, i128>,
        allowances: Map<(u64, u64), AllowanceValue>,
        supply: int,
        retired: int,
        certificates: Seq<(u64, Certificate)>,
    ) -> bool {
        &&& self.initialized_spec() == old.initialized_spec()
        &&& self.admin_spec() == old.admin_spec()
        &&& self.super_admin_spec() == old.super_admin_spec()
        &&& self.rbac_contract_spec() == old.rbac_contract_spec()
        &&& self.name_spec() == old.name_spec()
        &&& self.symbol_spec() == old.symbol_spec()
        &&& self.decimals_spec() == old.decimals_spec()
        &&& self.verifier_flags() == old.verifier_flags()
        &&& self.blacklist_flags() == old.blacklist_flags()
        &&& self.balance_map() == balances
        &&& self.allowance_map() == allowances
        &&& self.total_supply_spec() == supply
        &&& self.total_retired_spec() == retired
        &&& self.certificate_log() == certificates
    }

    /// `self` has the ledger contents of `old`; only the balances differ,
    /// being `balances`, and the supply is `supply`.
    pub open spec fn balances_became(
        &self,
        old: &Self,
        balances: Map<u64, i128>,
        supply: int,
    ) -> bool {
        self.ledger_is(
            old,
            balances,
            old.allowance_map(),
            supply,
            old.total_retired_spec(),
            old.certificate_log(),
        )
    }
}

/// Spending from an allowance keeps its expiration ledger: after a spend of
/// `amount` at ledger `ledger`, the spender may move what it could move at
/// `ledger` less `amount` at every ledger up to the approved expiration,
/// and every other owner and spender pair keeps its allowance.
pub proof fn law_spending_keeps_expiration(
    m: Map<(u64, u64), AllowanceValue>,
    from: u64,
    spender: u64,
    amount: int,
    ledger: u32,
    n: u32,
    other_from: u64,
    other_spender: u64,
)
    requires
        0 <= amount <= effective_allowance(allowance_entry(m, from, spender), ledger),
        allowance_entry(m, from, spender).amount >= 0,
    ensures
        allowance_entry(spend_allowance_in(m, from, spender, amount, ledger), from, spender).expiration_ledger
            == allowance_entry(m, from, spender).expiration_ledger,
        ledger <= n <= allowance_entry(m, from, spender).expiration_ledger ==> effective_allowance(
            allowance_entry(spend_allowance_in(m, from, spender, amount, ledger), from, spender),
            n,
        ) == effective_allowance(allowance_entry(m, from, spender), ledger) - amount,
        (other_from, other_spender) != (from, spender) ==> allowance_entry(
            spend_allowance_in(m, from, spender, amount, ledger),
            other_from,
            other_spender,
        ) == allowance_entry(m, other_from, other_spender),
{
}

/// The certificates listed for `owner` are exactly those issued to
/// `owner`, in the order of issue: the log filtered to `owner`'s entries,
/// without the holder. A certificate issued to anyone else is never
/// listed, and there are as many as `owner`'s retirements.
pub proof fn law_certificates_of_are_owners_own(log: Seq<(u64, Certificate)>, owner: u64)
    ensures
        certificates_of(log, owner) == log.filter(|e: (u64, Certificate)| e.0 == owner).map_values(
            |e: (u64, Certificate)| e.1,
        ),
        certificates_of(log, owner).len() == log.filter(|e: (u64, Certificate)| e.0 == owner).len(),
    decreases log.len(),
{
    let pred = |e: (u64, Certificate)| e.0 == owner;
    let second = |e: (u64, Certificate)| e.1;
    reveal(Seq::filter);
    if log.len() > 0 {
        law_certificates_of_are_owners_own(log.drop_last(), owner);
        let prefix = log.drop_last().filter(pred);
        if pred(log.last()) {
            assert(prefix.push(log.last()).map_values(second) =~= prefix.map_values(second).push(
                log.last().1,
            ));
        }
    }
}

/// Certificates are numbered 1, 2, ... in the order of issue, and each is
/// for a positive amount.
pub open spec fn certificates_in_order(log: Seq<(u64, Certificate)>) -> bool {
    forall|k: int| 0 <= k < log.len() ==> (#[trigger] log[k]).1.id == k + 1 && log[k].1.amount > 0
}

impl CarbonCreditToken {
    /// An empty, uninitialized token.
    pub fn new() -> (t: Self)
        ensures
            t.wf(),
            !t.initialized_spec(),
            t.admin_spec() is None,
            t.super_admin_spec() is None,
            t.rbac_contract_spec() is None,
            t.balance_map() == Map::<u64, i128>::empty(),
            t.allowance_map() == Map::<(u64, u64), AllowanceValue>::empty(),
            t.certificate_log() == Seq::<(u64, Certificate)>::empty(),
            t.total_supply_spec() == 0,
            t.total_retired_spec() == 0,
            t.verifier_flags() == Map::<u64, bool>::empty(),
            t.blacklist_flags() == Map::<u64, bool>::empty(),
            t.issuance_is(0, 0),
    {
        let t = CarbonCreditToken {
            initialized: false,
            admin: None,
            super_admin: None,
            rbac_contract: None,
            name: String::new(),
            symbol: String::new(),
            decimals: 0,
            total_supply: 0,
            total_retired: 0,
            balances: VecMap::new(),
            allowances: VecMap::new(),
            certificates: Vec::new(),
            verifiers: VecMap::new(),
            blacklisted: VecMap::new(),
            minted: Ghost(0),
            burned: Ghost(0),
        };
        proof {
            t.balances.lemma_empty_sum();
        }
        t
    }

    // ── Initialization and settings ─────────────────────────────────────────

    /// Whether `initialize` has succeeded.
    pub fn is_initialized(&self) -> (b: bool)
        ensures
            b == self.initialized_spec(),
    {
        self.initialized
    }

    /// Records the admin, the RBAC contract consulted for minting, and the
    /// token's metadata; supply and retired total start at 0. Can be called
    /// only once.
    pub fn initialize(
        &mut self,
        admin: u64,
        rbac_contract: u64,
        name: String,
        symbol: String,
        decimals: u32,
    )
        requires
            old(self).wf(),
            !old(self).initialized_spec(),
        ensures
            final(self).wf(),
            final(self).initialized_spec(),
            final(self).admin_spec() == Some(admin),
            final(self).rbac_contract_spec() == Some(rbac_contract),
            final(self).name_spec() == name@,
            final(self).symbol_spec() == symbol@,
            final(self).decimals_spec() == decimals,
            final(self).total_supply_spec() == 0,
            final(self).total_retired_spec() == 0,
            final(self).super_admin_spec() == old(self).super_admin_spec(),
            final(self).balance_map() == old(self).balance_map(),
            final(self).allowance_map() == old(self).allowance_map(),
            final(self).certificate_log() == old(self).certificate_log(),
            final(self).verifier_flags() == old(self).verifier_flags(),
            final(self).blacklist_flags() == old(self).blacklist_flags(),
            final(self).issuance_is(old(self).minted_spec(), old(self).burned_spec()),
    {
        self.initialized = true;
        self.admin = Some(admin);
        self.rbac_contract = Some(rbac_contract);
        self.name = name;
        self.symbol = symbol;
        self.decimals = decimals;
        self.total_supply = 0;
        self.total_retired = 0;
    }

    /// Whether an admin is recorded.
    pub fn has_administrator(&self) -> (b: bool)
        ensures
            b == self.admin_spec() is Some,
    {
        self.admin.is_some()
    }

    /// The recorded admin.
    pub fn read_administrator(&self) -> (a: u64)
        requires
            self.admin_spec() is Some,
        ensures
            self.admin_spec() == Some(a),
    {
        match self.admin {
            Some(a) => a,
            None => 0,
        }
    }

    /// Records `id` as the admin.
    pub fn write_administrator(&mut self, id: u64)
        requires
            old(self).wf(),
        ensures
            final(self).wf(),
            final(self).roles_became(
                old(self),
                Some(id),
                old(self).super_admin_spec(),
                old(self).verifier_flags(),
                old(self).blacklist_flags(),
            ),
    {
        self.admin = Some(id);
    }

    /// Whether a super admin is recorded.
    pub fn has_super_admin(&self) -> (b: bool)
        ensures
            b == self.super_admin_spec() is Some,
    {
        self.super_admin.is_some()
    }

    /// The recorded super admin.
    pub fn read_super_admin(&self) -> (a: u64)
        requires
            self.super_admin_spec() is Some,
        ensures
            self.super_admin_spec() == Some(a),
    {
        match self.super_admin {
            Some(a) => a,
            None => 0,
        }
    }

    /// Records `id` as the super admin.
    pub fn write_super_admin(&mut self, id: u64)
        requires
            old(self).wf(),
        ensures
            final(self).wf(),
            final(self).roles_became(
                old(self),
                old(self).admin_spec(),
                Some(id),
                old(self).verifier_flags(),
                old(self).blacklist_flags(),
            ),
    {
        self.super_admin = Some(id);
    }

    /// Whether `addr` carries the inline verifier flag.
    pub fn is_verifier(&self, addr: u64) -> (b: bool)
        requires
            self.wf(),
        ensures
            b == flag_in(self.verifier_flags(), addr),
    {
        match self.verifiers.get(&addr) {
            Some(f) => *f,
            None => false,
        }
    }

    /// Sets the inline verifier flag of `addr`.
    pub fn grant_verifier(&mut self, addr: u64)
        requires
            old(self).wf(),
        ensures
            final(self).wf(),
            final(self).roles_became(
                old(self),
                old(self).admin_spec(),
                old(self).super_admin_spec(),
                old(self).verifier_flags().insert(addr, true),
                old(self).blacklist_flags(),
            ),
    {
        self.verifiers.insert(addr, true);
    }

    /// Clears the inline verifier flag of `addr`.
    pub fn revoke_verifier(&mut self, addr: u64)
        requires
            old(self).wf(),
        ensures
            final(self).wf(),
            final(self).roles_became(
                old(self),
                old(self).admin_spec(),
                old(self).super_admin_spec(),
                old(self).verifier_flags().remove(addr),
                old(self).blacklist_flags(),
            ),
    {
        self.verifiers.remove(&addr);
    }

    /// Whether `addr` is blacklisted.
    pub fn is_blacklisted(&self, addr: u64) -> (b: bool)
        requires
            self.wf(),
        ensures
            b == flag_in(self.blacklist_flags(), addr),
    {
        match self.blacklisted.get(&addr) {
            Some(f) => *f,
            None => false,
        }
    }

    /// Blacklists `addr`.
    pub fn blacklist_address(&mut self, addr: u64)
        requires
            old(self).wf(),
        ensures
            final(self).wf(),
            final(self).roles_became(
                old(self),
                old(self).admin_spec(),
                old(self).super_admin_spec(),
                old(self).verifier_flags(),
                old(self).blacklist_flags().insert(addr, true),
            ),
    {
        self.blacklisted.insert(addr, true);
    }

    /// Takes `addr` off the blacklist.
    pub fn unblacklist_address(&mut self, addr: u64)
        requires
            old(self).wf(),
        ensures
            final(self).wf(),
            final(self).roles_became(
                old(self),
                old(self).admin_spec(),
                old(self).super_admin_spec(),
                old(self).verifier_flags(),
                old(self).blacklist_flags().remove(addr),
            ),
    {
        self.blacklisted.remove(&addr);
    }

    // ── Views ───────────────────────────────────────────────────────────────

    /// The balance of `id`.
    pub fn balance(&self, id: u64) -> (b: i128)
        requires
            self.wf(),
        ensures
            b == balance_in(self.balance_map(), id),
    {
        match self.balances.get(&id) {
            Some(b) => *b,
            None => 0,
        }
    }

    fn read_allowance(&self, from: u64, spender: u64) -> (v: AllowanceValue)
        requires
            self.wf(),
        ensures
            v == allowance_entry(self.allowance_map(), from, spender),
    {
        match self.allowances.get(&(from, spender)) {
            Some(v) => *v,
            None => AllowanceValue { amount: 0, expiration_ledger: 0 },
        }
    }

    /// How much `spender` may still move of the funds of `from` at ledger
    /// `ledger` (nothing once the allowance has expired).
    pub fn allowance(&self, from: u64, spender: u64, ledger: u32) -> (a: i128)
        requires
            self.wf(),
        ensures
            a == effective_allowance(allowance_entry(self.allowance_map(), from, spender), ledger),
    {
        let v = self.read_allowance(from, spender);
        if v.expiration_ledger < ledger {
            0
        } else {
            v.amount
        }
    }

    /// The credits in circulation.
    pub fn total_supply(&self) -> (s: i128)
        ensures
            s == self.total_supply_spec(),
    {
        self.total_supply
    }

    /// The credits retired so far.
    pub fn total_retired(&self) -> (s: i128)
        ensures
            s == self.total_retired_spec(),
    {
        self.total_retired
    }

    /// The RBAC contract consulted for minting.
    pub fn rbac_contract(&self) -> (a: u64)
        requires
            self.rbac_contract_spec() is Some,
        ensures
            self.rbac_contract_spec() == Some(a),
    {
        match self.rbac_contract {
            Some(a) => a,
            None => 0,
        }
    }

    /// The token's name.
    pub fn name(&self) -> (n: String)
        requires
            self.initialized_spec(),
        ensures
            n@ == self.name_spec(),
    {
        self.name.clone()
    }

    /// The token's symbol.
    pub fn symbol(&self) -> (n: String)
        requires
            self.initialized_spec(),
        ensures
            n@ == self.symbol_spec(),
    {
        self.symbol.clone()
    }

    /// The token's number of decimals.
    pub fn decimals(&self) -> (d: u32)
        requires
            self.initialized_spec(),
        ensures
            d == self.decimals_spec(),
    {
        self.decimals
    }

    /// The admin.
    pub fn admin(&self) -> (a: u64)
        requires
            self.admin_spec() is Some,
        ensures
            self.admin_spec() == Some(a),
    {
        self.read_administrator()
    }

    /// The certificates issued to `owner`, oldest first.
    pub fn get_certificates(&self, owner: u64) -> (v: Vec<Certificate>)
        requires
            self.wf(),
        ensures
            v@ == certificates_of(self.certificate_log(), owner),
            v@ == self.certificate_log().filter(|e: (u64, Certificate)| e.0 == owner).map_values(
                |e: (u64, Certificate)| e.1,
            ),
    {
        let mut out: Vec<Certificate> = Vec::new();
        let mut i: usize = 0;
        while i < self.certificates.len()
            invariant
                i <= self.certificates@.len(),
                out@ == certificates_of(self.certificates@.take(i as int), owner),
            decreases self.certificates@.len() - i,
        {
            let (holder, cert) = self.certificates[i];
            assert(self.certificates@.take(i + 1).drop_last() =~= self.certificates@.take(i as int));
            if holder == owner {
                out.push(cert);
            }
            i = i + 1;
        }
        assert(self.certificates@.take(i as int) =~= self.certificates@);
        proof {
            law_certificates_of_are_owners_own(self.certificates@, owner);
        }
        out
    }

    /// The number of certificates issued so far.
    pub fn get_certificate_count(&self) -> (n: u64)
        ensures
            n == self.certificate_count_spec(),
    {
        self.certificates.len() as u64
    }
}

fn balance_entry(m: &VecMap<u64, i128>, id: u64) -> (b: i128)
    requires
        m.wf(),
    ensures
        b == balance_in(m@, id),
{
    match m.get(&id) {
        Some(b) => *b,
        None => 0,
    }
}

impl CarbonCreditToken {
    // ── Supply-changing operations ──────────────────────────────────────────

    /// Mints `amount` new credits to `to`. The caller has signed, and
    /// `caller_is_verifier` is the RBAC contract's answer that it holds the
    /// Verifier role; the contract host refuses the call otherwise.
    pub fn mint(&mut self, to: u64, amount: i128, caller_is_verifier: bool)
        requires
            old(self).wf(),
            old(self).initialized_spec(),
            amount >= 0,
            caller_is_verifier,
            old(self).total_supply_spec() + amount <= i128::MAX,
        ensures
            final(self).wf(),
            final(self).balances_became(
                old(self),
                credit(old(self).balance_map(), to, amount as int),
                old(self).total_supply_spec() + amount,
            ),
            final(self).issuance_is(old(self).minted_spec() + amount, old(self).burned_spec()),
    {
        check_nonnegative_amount(amount);
        proof {
            self.balances.lemma_value_bounded_by_sum(to);
        }
        let tb = balance_entry(&self.balances, to);
        self.balances.insert_amount(to, tb + amount);
        self.total_supply = self.total_supply + amount;
        self.minted = Ghost(self.minted@ + amount);
    }

    /// Moves `amount` from `from` to `to`; `from` holds at least `amount`.
    pub fn transfer(&mut self, from: u64, to: u64, amount: i128)
        requires
            old(self).wf(),
            amount >= 0,
            balance_in(old(self).balance_map(), from) >= amount,
        ensures
            final(self).wf(),
            final(self).balances_became(
                old(self),
                credit(debit(old(self).balance_map(), from, amount as int), to, amount as int),
                old(self).total_supply_spec(),
            ),
            final(self).issuance_is(old(self).minted_spec(), old(self).burned_spec()),
    {
        check_nonnegative_amount(amount);
        self.move_balance(from, to, amount);
    }

    fn move_balance(&mut self, from: u64, to: u64, amount: i128)
        requires
            old(self).wf(),
            0 <= amount <= balance_in(old(self).balance_map(), from),
        ensures
            final(self).wf(),
            final(self).balances_became(
                old(self),
                credit(debit(old(self).balance_map(), from, amount as int), to, amount as int),
                old(self).total_supply_spec(),
            ),
            final(self).allowances == old(self).allowances,
            final(self).certificates == old(self).certificates,
            final(self).minted == old(self).minted,
            final(self).burned == old(self).burned,
    {
        let fb = balance_entry(&self.balances, from);
        self.balances.insert_amount(from, fb - amount);
        proof {
            self.balances.lemma_value_bounded_by_sum(to);
        }
        let tb = balance_entry(&self.balances, to);
        self.balances.insert_amount(to, tb + amount);
    }

    /// Takes `amount` out of the balance of `from` and out of circulation,
    /// counting it as burned.
    fn burn_balance(&mut self, from: u64, amount: i128)
        requires
            old(self).wf(),
            0 <= amount <= balance_in(old(self).balance_map(), from),
        ensures
            final(self).wf(),
            final(self).balances_became(
                old(self),
                debit(old(self).balance_map(), from, amount as int),
                old(self).total_supply_spec() - amount,
            ),
            final(self).allowances == old(self).allowances,
            final(self).certificates == old(self).certificates,
            final(self).minted == old(self).minted,
            final(self).burned@ == old(self).burned@ + amount,
    {
        proof {
            self.balances.lemma_value_bounded_by_sum(from);
        }
        let fb = balance_entry(&self.balances, from);
        self.balances.insert_amount(from, fb - amount);
        self.total_supply = self.total_supply - amount;
        self.burned = Ghost(self.burned@ + amount);
    }

    /// Lets `spender` move up to `amount` of the funds of `from` until ledger
    /// `expiration_ledger`; `ledger` is the current ledger. A positive
    /// allowance is not already expired.
    pub fn approve(
        &mut self,
        from: u64,
        spender: u64,
        amount: i128,
        expiration_ledger: u32,
        ledger: u32,
    )
        requires
            old(self).wf(),
            amount >= 0,
            amount > 0 ==> expiration_ledger >= ledger,
        ensures
            final(self).wf(),
            final(self).ledger_is(
                old(self),
                old(self).balance_map(),
                old(self).allowance_map().insert(
                    (from, spender),
                    AllowanceValue { amount, expiration_ledger },
                ),
                old(self).total_supply_spec(),
                old(self).total_retired_spec(),
                old(self).certificate_log(),
            ),
            final(self).issuance_is(old(self).minted_spec(), old(self).burned_spec()),
    {
        check_nonnegative_amount(amount);
        self.allowances.insert((from, spender), AllowanceValue { amount, expiration_ledger });
    }

    /// The allowance of `spender` over the funds of `from` after it moved
    /// `amount` of them at ledger `ledger`.
    fn allowance_after_spend(&self, from: u64, spender: u64, amount: i128, ledger: u32) -> (v:
        AllowanceValue)
        requires
            self.wf(),
            0 <= amount <= effective_allowance(
                allowance_entry(self.allowance_map(), from, spender),
                ledger,
            ),
        ensures
            v == (AllowanceValue {
                amount: (effective_allowance(
                    allowance_entry(self.allowance_map(), from, spender),
                    ledger,
                ) - amount) as i128,
                expiration_ledger: allowance_entry(
                    self.allowance_map(),
                    from,
                    spender,
                ).expiration_ledger,
            }),
    {
        let v = self.read_allowance(from, spender);
        let available = if v.expiration_ledger < ledger {
            0
        } else {
            v.amount
        };
        AllowanceValue { amount: available - amount, expiration_ledger: v.expiration_ledger }
    }

    /// `spender` moves `amount` of the funds of `from` to `to`, using its
    /// allowance at ledger `ledger`; both the allowance and the balance of
    /// `from` cover `amount`.
    pub fn transfer_from(&mut self, spender: u64, from: u64, to: u64, amount: i128, ledger: u32)
        requires
            old(self).wf(),
            amount >= 0,
            effective_allowance(allowance_entry(old(self).allowance_map(), from, spender), ledger)
                >= amount,
            balance_in(old(self).balance_map(), from) >= amount,
        ensures
            final(self).wf(),
            final(self).ledger_is(
                old(self),
                credit(debit(old(self).balance_map(), from, amount as int), to, amount as int),
                spend_allowance_in(old(self).allowance_map(), from, spender, amount as int, ledger),
                old(self).total_supply_spec(),
                old(self).total_retired_spec(),
                old(self).certificate_log(),
            ),
            final(self).issuance_is(old(self).minted_spec(), old(self).burned_spec()),
            allowance_entry(final(self).allowance_map(), from, spender).expiration_ledger
                == allowance_entry(old(self).allowance_map(), from, spender).expiration_ledger,
            forall|n: u32|
                ledger <= n <= allowance_entry(old(self).allowance_map(), from, spender).expiration_ledger
                    ==> #[trigger] effective_allowance(
                    allowance_entry(final(self).allowance_map(), from, spender),
                    n,
                ) == effective_allowance(
                    allowance_entry(old(self).allowance_map(), from, spender),
                    ledger,
                ) - amount,
            forall|f: u64, sp: u64|
                (f, sp) != (from, spender) ==> #[trigger] allowance_entry(
                    final(self).allowance_map(),
                    f,
                    sp,
                ) == allowance_entry(old(self).allowance_map(), f, sp),
    {
        check_nonnegative_amount(amount);
        let left = self.allowance_after_spend(from, spender, amount, ledger);
        if amount > 0 {
            self.allowances.insert((from, spender), left);
        }
        self.move_balance(from, to, amount);
    }

    /// Burns `amount` of the credits of `from`, who holds at least `amount`.
    pub fn burn(&mut self, from: u64, amount: i128)
        requires
            old(self).wf(),
            amount >= 0,
            balance_in(old(self).balance_map(), from) >= amount,
        ensures
            final(self).wf(),
            final(self).balances_became(
                old(self),
                debit(old(self).balance_map(), from, amount as int),
                old(self).total_supply_spec() - amount,
            ),
            final(self).issuance_is(old(self).minted_spec(), old(self).burned_spec() + amount),
    {
        check_nonnegative_amount(amount);
        self.burn_balance(from, amount);
    }

    /// `spender` burns `amount` of the credits of `from`, using its allowance
    /// at ledger `ledger`; both the allowance and the balance of `from`
    /// cover `amount`.
    pub fn burn_from(&mut self, spender: u64, from: u64, amount: i128, ledger: u32)
        requires
            old(self).wf(),
            amount >= 0,
            effective_allowance(allowance_entry(old(self).allowance_map(), from, spender), ledger)
                >= amount,
            balance_in(old(self).balance_map(), from) >= amount,
        ensures
            final(self).wf(),
            final(self).ledger_is(
                old(self),
                debit(old(self).balance_map(), from, amount as int),
                spend_allowance_in(old(self).allowance_map(), from, spender, amount as int, ledger),
                old(self).total_supply_spec() - amount,
                old(self).total_retired_spec(),
                old(self).certificate_log(),
            ),
            final(self).issuance_is(old(self).minted_spec(), old(self).burned_spec() + amount),
            allowance_entry(final(self).allowance_map(), from, spender).expiration_ledger
                == allowance_entry(old(self).allowance_map(), from, spender).expiration_ledger,
            forall|n: u32|
                ledger <= n <= allowance_entry(old(self).allowance_map(), from, spender).expiration_ledger
                    ==> #[trigger] effective_allowance(
                    allowance_entry(final(self).allowance_map(), from, spender),
                    n,
                ) == effective_allowance(
                    allowance_entry(old(self).allowance_map(), from, spender),
                    ledger,
                ) - amount,
            forall|f: u64, sp: u64|
                (f, sp) != (from, spender) ==> #[trigger] allowance_entry(
                    final(self).allowance_map(),
                    f,
                    sp,
                ) == allowance_entry(old(self).allowance_map(), f, sp),
    {
        check_nonnegative_amount(amount);
        let left = self.allowance_after_spend(from, spender, amount, ledger);
        if amount > 0 {
            self.allowances.insert((from, spender), left);
        }
        self.burn_balance(from, amount);
    }
}

impl CarbonCreditToken {
    /// Retires `amount` of the credits of `from` to claim a carbon offset at
    /// ledger time `timestamp`: they leave circulation, count as retired,
    /// and `from` receives a certificate numbered after all earlier ones.
    /// The amount is positive and `from` holds at least that much.
    pub fn retire(&mut self, from: u64, amount: i128, timestamp: u64) -> (c: Certificate)
        requires
            old(self).wf(),
            amount > 0,
            balance_in(old(self).balance_map(), from) >= amount,
            old(self).total_retired_spec() + amount <= i128::MAX,
            old(self).certificate_count_spec() < u64::MAX,
        ensures
            final(self).wf(),
            c == (Certificate {
                id: (old(self).certificate_count_spec() + 1) as u64,
                amount,
                timestamp,
            }),
            final(self).total_supply_spec() + final(self).total_retired_spec()
                == old(self).total_supply_spec() + old(self).total_retired_spec(),
            final(self).ledger_is(
                old(self),
                debit(old(self).balance_map(), from, amount as int),
                old(self).allowance_map(),
                old(self).total_supply_spec() - amount,
                old(self).total_retired_spec() + amount,
                old(self).certificate_log().push((from, c)),
            ),
            final(self).issuance_is(old(self).minted_spec(), old(self).burned_spec()),
    {
        check_nonnegative_amount(amount);
        proof {
            self.balances.lemma_value_bounded_by_sum(from);
        }
        let fb = balance_entry(&self.balances, from);
        self.balances.insert_amount(from, fb - amount);
        self.total_supply = self.total_supply - amount;
        self.total_retired = self.total_retired + amount;
        let id = self.certificates.len() as u64 + 1;
        let cert = Certificate { id, amount, timestamp };
        self.certificates.push((from, cert));
        cert
    }
}

/// The state of the token as plain values, for keeping it in contract
/// storage between calls.
pub struct TokenParts {
    pub initialized: bool,
    pub admin: Option<u64>,
    pub super_admin: Option<u64>,
    pub rbac_contract: Option<u64>,
    pub name: String,
    pub symbol: String,
    pub decimals: u32,
    pub total_supply: i128,
    pub total_retired: i128,
    pub balances: Vec<(u64, i128)>,
    pub allowances: Vec<((u64, u64), AllowanceValue)>,
    pub certificates: Vec<(u64, Certificate)>,
    pub verifiers: Vec<(u64, bool)>,
    pub blacklisted: Vec<(u64, bool)>,
}

/// Plain values that make up a well-formed token.
pub open spec fn token_parts_valid(p: TokenParts) -> bool {
    &&& seq_keys_distinct(p.balances@)
    &&& seq_keys_distinct(p.allowances@)
    &&& seq_keys_distinct(p.verifiers@)
    &&& seq_keys_distinct(p.blacklisted@)
    &&& forall|i: int| 0 <= i < p.balances@.len() ==> (#[trigger] p.balances@[i]).1 >= 0
    &&& seq_value_sum(p.balances@) == p.total_supply
    &&& p.total_retired >= 0
    &&& !p.initialized ==> p.total_supply == 0 && p.total_retired == 0
    &&& p.initialized ==> p.admin is Some && p.rbac_contract is Some
    &&& forall|i: int| 0 <= i < p.allowances@.len() ==> (#[trigger] p.allowances@[i]).1.amount >= 0
    &&& certificates_in_order(p.certificates@)
}

/// `t` is the token that the plain values `p` describe.
pub open spec fn token_matches_parts(t: CarbonCreditToken, p: TokenParts) -> bool {
    &&& t.initialized_spec() == p.initialized
    &&& t.admin_spec() == p.admin
    &&& t.super_admin_spec() == p.super_admin
    &&& t.rbac_contract_spec() == p.rbac_contract
    &&& t.name_spec() == p.name@
    &&& t.symbol_spec() == p.symbol@
    &&& t.decimals_spec() == p.decimals
    &&& t.total_supply_spec() == p.total_supply
    &&& t.total_retired_spec() == p.total_retired
    &&& t.balance_map() == seq_to_map(p.balances@)
    &&& t.allowance_map() == seq_to_map(p.allowances@)
    &&& t.certificate_log() == p.certificates@
    &&& t.verifier_flags() == seq_to_map(p.verifiers@)
    &&& t.blacklist_flags() == seq_to_map(p.blacklisted@)
}

fn allowances_nonnegative(entries: &Vec<((u64, u64), AllowanceValue)>) -> (b: bool)
    ensures
        b == forall|i: int| 0 <= i < entries@.len() ==> (#[trigger] entries@[i]).1.amount >= 0,
{
    let mut i: usize = 0;
    while i < entries.len()
        invariant
            i <= entries@.len(),
            forall|j: int| 0 <= j < i ==> (#[trigger] entries@[j]).1.amount >= 0,
        decreases entries@.len() - i,
    {
        if entries[i].1.amount < 0 {
            return false;
        }
        i = i + 1;
    }
    true
}

fn certificates_numbered(log: &Vec<(u64, Certificate)>) -> (b: bool)
    ensures
        b == certificates_in_order(log@),
{
    let mut i: usize = 0;
    while i < log.len()
        invariant
            i <= log@.len(),
            forall|k: int| 0 <= k < i ==> (#[trigger] log@[k]).1.id == k + 1 && log@[k].1.amount > 0,
        decreases log@.len() - i,
    {
        let c = log[i].1;
        if c.id == 0 || c.id - 1 != i as u64 || c.amount <= 0 {
            return false;
        }
        i = i + 1;
    }
    true
}

impl CarbonCreditToken {
    /// The token as plain values.
    pub fn into_parts(self) -> (p: TokenParts)
        requires
            self.wf(),
        ensures
            token_parts_valid(p),
            token_matches_parts(self, p),
    {
        proof {
            self.balances.lemma_entries();
            self.allowances.lemma_entries();
            self.verifiers.lemma_entries();
            self.blacklisted.lemma_entries();
            self.balances.lemma_value_sum_of_entries();
            let b = self.balances.entry_seq();
            assert forall|i: int| 0 <= i < b.len() implies (#[trigger] b[i]).1 >= 0 by {
                lemma_key_index(b, i);
                assert(self.balances@.contains_key(b[i].0));
            }
            let a = self.allowances.entry_seq();
            assert forall|i: int| 0 <= i < a.len() implies (#[trigger] a[i]).1.amount >= 0 by {
                lemma_key_index(a, i);
                assert(self.allowances@.contains_key(a[i].0));
            }
        }
        TokenParts {
            initialized: self.initialized,
            admin: self.admin,
            super_admin: self.super_admin,
            rbac_contract: self.rbac_contract,
            name: self.name,
            symbol: self.symbol,
            decimals: self.decimals,
            total_supply: self.total_supply,
            total_retired: self.total_retired,
            balances: self.balances.into_entries(),
            allowances: self.allowances.into_entries(),
            certificates: self.certificates,
            verifiers: self.verifiers.into_entries(),
            blacklisted: self.blacklisted.into_entries(),
        }
    }

    /// The token made of `p`, if `p` describes a well-formed one.
    pub fn from_parts(p: TokenParts) -> (r: Option<Self>)
        ensures
            r is Some <==> token_parts_valid(p),
            r matches Some(t) ==> t.wf() && token_matches_parts(t, p) && t.issuance_is(
                p.total_supply + p.total_retired,
                0,
            ),
    {
        if !nonnegative_values_sum_to(&p.balances, p.total_supply) {
            return None;
        }
        if p.total_retired < 0 {
            return None;
        }
        if !p.initialized && (p.total_supply != 0 || p.total_retired != 0) {
            return None;
        }
        if p.initialized && (p.admin.is_none() || p.rbac_contract.is_none()) {
            return None;
        }
        if !allowances_nonnegative(&p.allowances) {
            return None;
        }
        if !certificates_numbered(&p.certificates) {
            return None;
        }
        let ghost parts = p;
        let TokenParts {
            initialized,
            admin,
            super_admin,
            rbac_contract,
            name,
            symbol,
            decimals,
            total_supply,
            total_retired,
            balances,
            allowances,
            certificates,
            verifiers,
            blacklisted,
        } = p;
        let balances = match VecMap::from_entries(balances) {
            Some(m) => m,
            None => return None,
        };
        let allowances = match VecMap::from_entries(allowances) {
            Some(m) => m,
            None => return None,
        };
        let verifiers = match VecMap::from_entries(verifiers) {
            Some(m) => m,
            None => return None,
        };
        let blacklisted = match VecMap::from_entries(blacklisted) {
            Some(m) => m,
            None => return None,
        };
        let t = CarbonCreditToken {
            initialized,
            admin,
            super_admin,
            rbac_contract,
            name,
            symbol,
            decimals,
            total_supply,
            total_retired,
            balances,
            allowances,
            certificates,
            verifiers,
            blacklisted,
            minted: Ghost(total_supply + total_retired),
            burned: Ghost(0),
        };
        proof {
            t.balances.lemma_value_sum_of_entries();
            let b = parts.balances@;
            assert forall|x: u64| #[trigger] t.balances@.contains_key(x) implies t.balances@[x] >= 0 by {
                let k = seq_key_index(b, x);
                assert(b[k].0 == x);
            }
            let a = parts.allowances@;
            assert forall|x: (u64, u64)| #[trigger] t.allowances@.contains_key(x) implies t.allowances@[x].amount >= 0 by {
                let k = seq_key_index(a, x);
                assert(a[k].0 == x);
            }
        }
        Some(t)
    }
}

/// The credits in circulation are exactly the sum of all balances, and no
/// balance is negative or larger than the supply.
pub proof fn law_supply_is_sum_of_balances(t: &CarbonCreditToken, a: u64)
    requires
        t.wf(),
    ensures
        t.sum_of_balances() == t.total_supply_spec(),
        balance_in(t.balance_map(), a) >= 0,
        balance_in(t.balance_map(), a) <= t.total_supply_spec(),
        t.total_supply_spec() >= 0,
        t.total_retired_spec() >= 0,
{
    t.lemma_ledger_facts(a);
}

/// Initialization is permanent: every operation after `initialize`, each
/// of which states its effect through `ledger_is` or `roles_became`, keeps
/// the token initialized with the RBAC contract, name, symbol and decimals
/// it was given. So `rbac_contract` reads back the address `initialize`
/// wrote, and a second `initialize`, which needs an uninitialized token,
/// cannot change any of them.
pub proof fn law_initialization_is_permanent(
    t0: &CarbonCreditToken,
    t1: &CarbonCreditToken,
    balances: Map<u64, i128>,
    allowances: Map<(u64, u64), AllowanceValue>,
    supply: int,
    retired: int,
    certificates: Seq<(u64, Certificate)>,
    admin: Option<u64>,
    super_admin: Option<u64>,
    verifiers: Map<u64, bool>,
    blacklisted: Map<u64, bool>,
)
    requires
        t0.initialized_spec(),
        t1.ledger_is(t0, balances, allowances, supply, retired, certificates) || t1.roles_became(
            t0,
            admin,
            super_admin,
            verifiers,
            blacklisted,
        ),
    ensures
        t1.initialized_spec(),
        t1.rbac_contract_spec() == t0.rbac_contract_spec(),
        t1.name_spec() == t0.name_spec(),
        t1.symbol_spec() == t0.symbol_spec(),
        t1.decimals_spec() == t0.decimals_spec(),
{
}

/// An initialized token has an admin and an RBAC contract recorded.
pub proof fn law_initialized_token_has_admin_and_rbac(t: &CarbonCreditToken)
    requires
        t.wf(),
        t.initialized_spec(),
    ensures
        t.admin_spec() is Some,
        t.rbac_contract_spec() is Some,
{
}

/// Every credit in circulation or retired was minted and not burned: the
/// supply plus the retired total is what was minted less what was burned.
/// Minting adds to the minted count, `burn` and `burn_from` to the burned
/// count, and every other operation leaves both as they were.
pub proof fn law_supply_and_retired_are_minted_less_burned(t: &CarbonCreditToken)
    requires
        t.wf(),
    ensures
        t.total_supply_spec() + t.total_retired_spec() == t.minted_spec() - t.burned_spec(),
{
    t.lemma_ledger_facts(0);
}

/// An approval is read back by `allowance` until it expires: at ledger
/// `now` the spender may move the approved amount if `now` is not past the
/// expiration ledger, and nothing otherwise.
pub proof fn law_allowance_reads_back_approval(
    before: &CarbonCreditToken,
    after: &CarbonCreditToken,
    from: u64,
    spender: u64,
    amount: i128,
    expiration_ledger: u32,
    now: u32,
)
    requires
        after.allowance_map() == before.allowance_map().insert(
            (from, spender),
            AllowanceValue { amount, expiration_ledger },
        ),
    ensures
        effective_allowance(allowance_entry(after.allowance_map(), from, spender), now) == if now
            > expiration_ledger {
            0
        } else {
            amount as int
        },
{
}

/// An approval for one pair of owner and spender leaves the allowances of
/// every other pair as they were.
pub proof fn law_approval_is_local(
    before: &CarbonCreditToken,
    after: &CarbonCreditToken,
    from: u64,
    spender: u64,
    amount: i128,
    expiration_ledger: u32,
    other_from: u64,
    other_spender: u64,
)
    requires
        after.allowance_map() == before.allowance_map().insert(
            (from, spender),
            AllowanceValue { amount, expiration_ledger },
        ),
        (other_from, other_spender) != (from, spender),
    ensures
        allowance_entry(after.allowance_map(), other_from, other_spender) == allowance_entry(
            before.allowance_map(),
            other_from,
            other_spender,
        ),
{
}

/// Certificates are numbered 1, 2, ... in the order of issue (so no two
/// share a number, and the last one's number is the count issued), and
/// each is for a positive amount.
pub proof fn law_certificates_are_numbered(t: &CarbonCreditToken, k: int)
    requires
        t.wf(),
        0 <= k < t.certificate_count_spec(),
    ensures
        t.certificate_log()[k].1.id == k + 1,
        t.certificate_log()[k].1.amount > 0,
{
    t.lemma_ledger_facts(0);
}

/// Moving an amount from one account to another and back leaves every
/// balance as it was.
pub proof fn law_transfer_back_restores(m: Map<u64, i128>, a: u64, b: u64, amount: int, x: u64)
    requires
        0 <= amount <= balance_in(m, a),
        balance_in(m, b) + amount <= i128::MAX,
    ensures
        balance_in(
            credit(
                debit(credit(debit(m, a, amount), b, amount), b, amount),
                a,
                amount,
            ),
            x,
        ) == balance_in(m, x),
{
}

/// Minting an amount to an account and then burning it from that account
/// leaves every balance and the supply as they were.
pub proof fn law_mint_then_burn_restores(
    t0: &CarbonCreditToken,
    t1: &CarbonCreditToken,
    t2: &CarbonCreditToken,
    to: u64,
    amount: int,
    x: u64,
)
    requires
        t0.wf(),
        0 <= amount,
        balance_in(t0.balance_map(), to) + amount <= i128::MAX,
        t1.balances_became(
            t0,
            credit(t0.balance_map(), to, amount),
            t0.total_supply_spec() + amount,
        ),
        t2.balances_became(t1, debit(t1.balance_map(), to, amount), t1.total_supply_spec() - amount),
    ensures
        balance_in(t2.balance_map(), x) == balance_in(t0.balance_map(), x),
        t2.total_supply_spec() == t0.total_supply_spec(),
{
    t0.lemma_ledger_facts(to);
}

} // verus!
