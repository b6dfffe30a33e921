//! Delivery-versus-payment escrow for carbon credits: a seller locks carbon
//! credits in an offer priced in a payment token (USDC); buyers fill the
//! offer in whole or in part at the offer's rate; the seller may cancel and
//! take back what is left.
//!
//! The escrow decides; the token movements it asks for are returned as
//! `TokenTransfer`s for the contract host to carry out, in order, on the
//! token contracts. Accounts and token contracts are identified by `u64`
//! ids; signature checks belong to the contract host.
use crate::vecmap::{lemma_key_index, seq_key_index, seq_keys_distinct, seq_to_map, VecMap};
use vstd::prelude::*;

verus! {

/// An offer of carbon credits for the payment token.
#[derive(Clone, Copy, Debug, PartialEq, Eq, Structural)]
pub struct Offer {
    pub offer_id: u64,
    pub seller: u64,
    pub carbon_amount: i128,
    pub usdc_amount: i128,
    pub filled_carbon: i128,
    pub filled_usdc: i128,
    pub carbon_token: u64,
    pub usdc_token: u64,
    pub is_cancelled: bool,
}

impl Offer {
    /// Carbon credits not yet bought.
    pub fn remaining_carbon(&self) -> (r: i128)
        requires
            i128::MIN <= self.carbon_amount - self.filled_carbon <= i128::MAX,
        ensures
            r == self.carbon_amount - self.filled_carbon,
    {
        self.carbon_amount - self.filled_carbon
    }

    /// Payment not yet received.
    pub fn remaining_usdc(&self) -> (r: i128)
        requires
            i128::MIN <= self.usdc_amount - self.filled_usdc <= i128::MAX,
        ensures
            r == self.usdc_amount - self.filled_usdc,
    {
        self.usdc_amount - self.filled_usdc
    }

    /// Whether all carbon credits of the offer have been bought.
    pub fn is_fully_filled(&self) -> (b: bool)
        ensures
            b == (self.filled_carbon >= self.carbon_amount),
    {
        self.filled_carbon >= self.carbon_amount
    }
}

/// A holder of tokens: the escrow itself or an account.
#[derive(Clone, Copy, Debug, PartialEq, Eq, Structural)]
pub enum Party {
    Escrow,
    Account(u64),
}

/// A movement of `amount` units of the token contract `token`.
#[derive(Clone, Copy, Debug, PartialEq, Eq, Structural)]
pub struct TokenTransfer {
    pub token: u64,
    pub from: Party,
    pub to: Party,
    pub amount: i128,
}

/// The payment due for `fill` carbon credits of `offer`: the offer's rate,
/// rounded down.
pub open spec fn fill_price(offer: Offer, fill: int) -> int {
    (fill * offer.usdc_amount) / (offer.carbon_amount as int)
}

/// An offer as the escrow keeps it: positive amounts, part of the carbon
/// still unsold, and the payment received never above the offer's rate for
/// the carbon sold.
pub open spec fn offer_valid(o: Offer) -> bool {
    &&& o.carbon_amount > 0
    &&& o.usdc_amount > 0
    &&& 0 <= o.filled_carbon < o.carbon_amount
    &&& 0 <= o.filled_usdc <= o.usdc_amount
    &&& o.filled_usdc * o.carbon_amount <= o.filled_carbon * o.usdc_amount
}

/// `o` after `fill` carbon credits were bought for `price`.
pub open spec fn filled(o: Offer, fill: int, price: int) -> Offer {
    Offer {
        filled_carbon: (o.filled_carbon + fill) as i128,
        filled_usdc: (o.filled_usdc + price) as i128,
        ..o
    }
}

/// The state of the escrow contract.
pub struct EscrowContract {
    initialized: bool,
    next_offer_id: u64,
    offers: VecMap<u64, Offer>,
}

impl EscrowContract {
    pub closed spec fn initialized_spec(&self) -> bool {
        self.initialized
    }

    /// The id the next offer will get.
    pub closed spec fn next_offer_id_spec(&self) -> u64 {
        self.next_offer_id
    }

    /// The open and the cancelled offers, by id.
    pub closed spec fn offer_map(&self) -> Map<u64, Offer> {
        self.offers@
    }

    /// The escrow's invariant: every kept offer is valid, is stored under
    /// its own id, and has an id below the next one; ids start at 1.
    pub closed spec fn wf(&self) -> bool {
        &&& self.offers.wf()
        &&& self.next_offer_id >= 1
        &&& forall|k: u64| #[trigger]
            self.offers@.contains_key(k) ==> offer_valid(self.offers@[k]) && self.offers@[k].offer_id
                == k && 1 <= k < self.next_offer_id
    }

    proof fn lemma_kept_offer(&self, id: u64)
        requires
            self.wf(),
            self.offers@.contains_key(id),
        ensures
            offer_valid(self.offer_map()[id]),
            self.offer_map()[id].offer_id == id,
            id < self.next_offer_id_spec(),
    {
    }

    /// An empty escrow; the first offer gets id 1.
    pub fn new() -> (e: Self)
        ensures
            e.wf(),
            !e.initialized_spec(),
            e.next_offer_id_spec() == 1,
            e.offer_map() == Map::<u64, Offer>::empty(),
    {
        EscrowContract { initialized: false, next_offer_id: 1, offers: VecMap::new() }
    }

    /// Whether `initialize` has succeeded.
    pub fn is_initialized(&self) -> (b: bool)
        ensures
            b == self.initialized_spec(),
    {
        self.initialized
    }

    /// The id the next offer will get.
    pub fn next_offer_id(&self) -> (n: u64)
        ensures
            n == self.next_offer_id_spec(),
    {
        self.next_offer_id
    }

    /// Marks the escrow initialized; done once.
    pub fn initialize(&mut self)
        requires
            old(self).wf(),
            !old(self).initialized_spec(),
        ensures
            final(self).wf(),
            final(self).initialized_spec(),
            final(self).next_offer_id_spec() == old(self).next_offer_id_spec(),
            final(self).offer_map() == old(self).offer_map(),
    {
        self.initialized = true;
    }

    /// `seller` offers `carbon_amount` credits of `carbon_token` for
    /// `usdc_amount` of `usdc_token`. The credits move into the escrow; the
    /// new offer's id is returned with that movement. Both amounts are
    /// positive.
    pub fn create_offer(
        &mut self,
        seller: u64,
        carbon_amount: i128,
        usdc_amount: i128,
        carbon_token: u64,
        usdc_token: u64,
    ) -> (r: (u64, TokenTransfer))
        requires
            old(self).wf(),
            old(self).next_offer_id_spec() < u64::MAX,
            carbon_amount > 0,
            usdc_amount > 0,
        ensures
            final(self).wf(),
            ({
                let id = old(self).next_offer_id_spec();
                &&& r == (
                        id,
                        TokenTransfer {
                            token: carbon_token,
                            from: Party::Account(seller),
                            to: Party::Escrow,
                            amount: carbon_amount,
                        },
                    )
                &&& !old(self).offer_map().contains_key(id)
                &&& final(self).offer_map() == old(self).offer_map().insert(
                    id,
                    Offer {
                        offer_id: id,
                        seller,
                        carbon_amount,
                        usdc_amount,
                        filled_carbon: 0,
                        filled_usdc: 0,
                        carbon_token,
                        usdc_token,
                        is_cancelled: false,
                    },
                )
                &&& final(self).next_offer_id_spec() == id + 1
                &&& final(self).initialized_spec() == old(self).initialized_spec()
            }),
    {
        let id = self.next_offer_id;
        let offer = Offer {
            offer_id: id,
            seller,
            carbon_amount,
            usdc_amount,
            filled_carbon: 0,
            filled_usdc: 0,
            carbon_token,
            usdc_token,
            is_cancelled: false,
        };
        self.offers.insert(id, offer);
        self.next_offer_id = id + 1;
        (
            id,
            TokenTransfer {
                token: carbon_token,
                from: Party::Account(seller),
                to: Party::Escrow,
                amount: carbon_amount,
            },
        )
    }

    /// The offer with id `offer_id`, if it is kept.
    pub fn get_offer(&self, offer_id: u64) -> (r: Option<Offer>)
        requires
            self.wf(),
        ensures
            r is Some <==> self.offer_map().contains_key(offer_id),
            r matches Some(o) ==> o == self.offer_map()[offer_id],
    {
        match self.offers.get(&offer_id) {
            Some(o) => Some(*o),
            None => None,
        }
    }

    /// The carbon credits and payment still outstanding on offer
    /// `offer_id`; (0, 0) for an offer not kept.
    pub fn get_remaining_amount(&self, offer_id: u64) -> (r: (i128, i128))
        requires
            self.wf(),
        ensures
            self.offer_map().contains_key(offer_id) ==> r == (
                (self.offer_map()[offer_id].carbon_amount - self.offer_map()[offer_id].filled_carbon) as i128,
                (self.offer_map()[offer_id].usdc_amount - self.offer_map()[offer_id].filled_usdc) as i128,
            ),
            !self.offer_map().contains_key(offer_id) ==> r == (0i128, 0i128),
    {
        match self.offers.get(&offer_id) {
            Some(o) => (o.remaining_carbon(), o.remaining_usdc()),
            None => (0, 0),
        }
    }
}

/// Buying `f` more credits at the offer's rate, rounded down, keeps the
/// payment within the offer's rate and its total price.
proof fn lemma_fill_keeps_rate(fc: int, fu: int, c: int, u: int, f: int, p: int)
    by (nonlinear_arith)
    requires
        c > 0,
        u > 0,
        0 <= fc,
        0 < f,
        fc + f <= c,
        0 <= fu,
        fu * c <= fc * u,
        p == (f * u) / c,
    ensures
        0 <= p,
        p * c <= f * u,
        (fu + p) * c <= (fc + f) * u,
        fu + p <= u,
{
    assert(p * c <= f * u);
    assert((fu + p) * c <= (fc + f) * u);
    assert((fc + f) * u <= c * u);
}

impl EscrowContract {
    /// `buyer` buys `fill_carbon_amount` credits of offer `offer_id`,
    /// paying the offer's rate rounded down. The offer is kept and not
    /// cancelled, and the fill is positive and no more than the credits
    /// left. The movements, in order: the payment from the buyer into the
    /// escrow, the credits from the escrow to the buyer, the payment from the
    /// escrow to the seller. An offer whose credits are all sold is removed.
    pub fn fill_offer(&mut self, offer_id: u64, buyer: u64, fill_carbon_amount: i128) -> (r: Vec<
        TokenTransfer,
    >)
        requires
            old(self).wf(),
            old(self).offer_map().contains_key(offer_id),
            fill_carbon_amount > 0,
            !old(self).offer_map()[offer_id].is_cancelled,
            fill_carbon_amount <= old(self).offer_map()[offer_id].carbon_amount - old(
                self,
            ).offer_map()[offer_id].filled_carbon,
            fill_carbon_amount * old(self).offer_map()[offer_id].usdc_amount <= i128::MAX,
        ensures
            final(self).wf(),
            ({
                let o = old(self).offer_map()[offer_id];
                let f = fill_carbon_amount as int;
                let price = fill_price(o, f);
                &&& r@ == seq![
                    TokenTransfer {
                        token: o.usdc_token,
                        from: Party::Account(buyer),
                        to: Party::Escrow,
                        amount: price as i128,
                    },
                    TokenTransfer {
                        token: o.carbon_token,
                        from: Party::Escrow,
                        to: Party::Account(buyer),
                        amount: fill_carbon_amount,
                    },
                    TokenTransfer {
                        token: o.usdc_token,
                        from: Party::Escrow,
                        to: Party::Account(o.seller),
                        amount: price as i128,
                    },
                ]
                &&& final(self).offer_map() == if o.filled_carbon + f >= o.carbon_amount {
                    old(self).offer_map().remove(offer_id)
                } else {
                    old(self).offer_map().insert(offer_id, filled(o, f, price))
                }
                &&& final(self).next_offer_id_spec() == old(self).next_offer_id_spec()
                &&& final(self).initialized_spec() == old(self).initialized_spec()
            }),
            final(self).offer_map().contains_key(offer_id) <==> old(self).offer_map()[offer_id].filled_carbon
                + fill_carbon_amount < old(self).offer_map()[offer_id].carbon_amount,
            final(self).offer_map().contains_key(offer_id) ==> {
                let o = old(self).offer_map()[offer_id];
                let n = final(self).offer_map()[offer_id];
                &&& n.filled_carbon == o.filled_carbon + fill_carbon_amount
                &&& n.filled_usdc == o.filled_usdc + fill_price(o, fill_carbon_amount as int)
                &&& n.offer_id == o.offer_id
                &&& n.seller == o.seller
                &&& n.carbon_amount == o.carbon_amount
                &&& n.usdc_amount == o.usdc_amount
                &&& n.carbon_token == o.carbon_token
                &&& n.usdc_token == o.usdc_token
                &&& n.is_cancelled == o.is_cancelled
            },
    {
        let o = *self.offers.get(&offer_id).unwrap();
        let price = fill_carbon_amount * o.usdc_amount / o.carbon_amount;
        proof {
            lemma_fill_keeps_rate(
                o.filled_carbon as int,
                o.filled_usdc as int,
                o.carbon_amount as int,
                o.usdc_amount as int,
                fill_carbon_amount as int,
                price as int,
            );
        }
        let updated = Offer {
            offer_id: o.offer_id,
            seller: o.seller,
            carbon_amount: o.carbon_amount,
            usdc_amount: o.usdc_amount,
            filled_carbon: o.filled_carbon + fill_carbon_amount,
            filled_usdc: o.filled_usdc + price,
            carbon_token: o.carbon_token,
            usdc_token: o.usdc_token,
            is_cancelled: o.is_cancelled,
        };
        if updated.is_fully_filled() {
            self.offers.remove(&offer_id);
        } else {
            self.offers.insert(offer_id, updated);
        }
        let mut transfers: Vec<TokenTransfer> = Vec::new();
        transfers.push(
            TokenTransfer {
                token: o.usdc_token,
                from: Party::Account(buyer),
                to: Party::Escrow,
                amount: price,
            },
        );
        transfers.push(
            TokenTransfer {
                token: o.carbon_token,
                from: Party::Escrow,
                to: Party::Account(buyer),
                amount: fill_carbon_amount,
            },
        );
        transfers.push(
            TokenTransfer {
                token: o.usdc_token,
                from: Party::Escrow,
                to: Party::Account(o.seller),
                amount: price,
            },
        );
        transfers
    }

    /// The seller cancels offer `offer_id`, which is kept and not yet
    /// cancelled; the unsold credits move from the escrow back to the
    /// seller. The offer is kept, marked cancelled. `caller` is the
    /// offer's seller.
    pub fn cancel_offer(&mut self, offer_id: u64, caller: u64) -> (r: TokenTransfer)
        requires
            old(self).wf(),
            old(self).offer_map().contains_key(offer_id),
            caller == old(self).offer_map()[offer_id].seller,
            !old(self).offer_map()[offer_id].is_cancelled,
        ensures
            final(self).wf(),
            ({
                let o = old(self).offer_map()[offer_id];
                &&& r == (TokenTransfer {
                    token: o.carbon_token,
                    from: Party::Escrow,
                    to: Party::Account(o.seller),
                    amount: (o.carbon_amount - o.filled_carbon) as i128,
                })
                &&& final(self).offer_map() == old(self).offer_map().insert(
                    offer_id,
                    Offer { is_cancelled: true, ..o },
                )
                &&& final(self).next_offer_id_spec() == old(self).next_offer_id_spec()
                &&& final(self).initialized_spec() == old(self).initialized_spec()
            }),
    {
        let o = *self.offers.get(&offer_id).unwrap();
        let remaining = o.remaining_carbon();
        let cancelled = Offer {
            offer_id: o.offer_id,
            seller: o.seller,
            carbon_amount: o.carbon_amount,
            usdc_amount: o.usdc_amount,
            filled_carbon: o.filled_carbon,
            filled_usdc: o.filled_usdc,
            carbon_token: o.carbon_token,
            usdc_token: o.usdc_token,
            is_cancelled: true,
        };
        self.offers.insert(offer_id, cancelled);
        TokenTransfer {
            token: o.carbon_token,
            from: Party::Escrow,
            to: Party::Account(o.seller),
            amount: remaining,
        }
    }
}

proof fn lemma_product_expansion(x: int, y: int, x1: int, x0: int, y1: int, y0: int, k: int)
    requires
        x == x1 * k + x0,
        y == y1 * k + y0,
    ensures
        x * y == (x1 * y1) * (k * k) + (x0 * y1 + x1 * y0) * k + x0 * y0,
{
    assert(x * y == (x1 * k) * y + x0 * y) by (nonlinear_arith)
        requires
            x == x1 * k + x0,
    ;
    assert((x1 * k) * y == (x1 * y1) * (k * k) + (x1 * y0) * k) by (nonlinear_arith)
        requires
            y == y1 * k + y0,
    ;
    assert(x0 * y == (x0 * y1) * k + x0 * y0) by (nonlinear_arith)
        requires
            y == y1 * k + y0,
    ;
    assert((x0 * y1 + x1 * y0) * k == (x0 * y1) * k + (x1 * y0) * k) by (nonlinear_arith);
}

proof fn lemma_product_bound(a: int, b: int, ka: int, kb: int)
    by (nonlinear_arith)
    requires
        0 <= a < ka,
        0 <= b < kb,
    ensures
        0 <= a * b < ka * kb,
        a * b <= (ka - 1) * (kb - 1),
{
}

/// The product `x * y` of two numbers below 2^127, as a high and a low
/// 128-bit half.
fn wide_product(x: u128, y: u128) -> (r: (u128, u128))
    requires
        x < 0x8000_0000_0000_0000_0000_0000_0000_0000,
        y < 0x8000_0000_0000_0000_0000_0000_0000_0000,
    ensures
        x * y == r.0 * 0x1_0000_0000_0000_0000_0000_0000_0000_0000 + r.1,
{
    let k: u128 = 0x1_0000_0000_0000_0000;
    let x1 = x / k;
    let x0 = x % k;
    let y1 = y / k;
    let y0 = y % k;
    proof {
        vstd::arithmetic::div_mod::lemma_fundamental_div_mod(x as int, k as int);
        vstd::arithmetic::div_mod::lemma_fundamental_div_mod(y as int, k as int);
        assert(x1 < 0x8000_0000_0000_0000);
        assert(y1 < 0x8000_0000_0000_0000);
        lemma_product_bound(x0 as int, y0 as int, k as int, k as int);
        lemma_product_bound(x0 as int, y1 as int, k as int, 0x8000_0000_0000_0000);
        lemma_product_bound(x1 as int, y0 as int, 0x8000_0000_0000_0000, k as int);
        lemma_product_bound(x1 as int, y1 as int, 0x8000_0000_0000_0000, 0x8000_0000_0000_0000);
        lemma_product_expansion(x as int, y as int, x1 as int, x0 as int, y1 as int, y0 as int, k as int);
    }
    let p00 = x0 * y0;
    let p01 = x0 * y1;
    let p10 = x1 * y0;
    let p11 = x1 * y1;
    let mid = p01 + p10;
    let mid_hi = mid / k;
    let mid_lo = mid % k;
    proof {
        vstd::arithmetic::div_mod::lemma_fundamental_div_mod(mid as int, k as int);
        lemma_product_bound(mid_lo as int, k as int, k as int, k as int + 1);
    }
    let shifted = mid_lo * k;
    if p00 > u128::MAX - shifted {
        let lo = p00 - (u128::MAX - shifted) - 1;
        (p11 + mid_hi + 1, lo)
    } else {
        (p11 + mid_hi, p00 + shifted)
    }
}

/// Whether `a * b <= c * d`, for numbers below 2^127.
fn product_le(a: u128, b: u128, c: u128, d: u128) -> (r: bool)
    requires
        a < 0x8000_0000_0000_0000_0000_0000_0000_0000,
        b < 0x8000_0000_0000_0000_0000_0000_0000_0000,
        c < 0x8000_0000_0000_0000_0000_0000_0000_0000,
        d < 0x8000_0000_0000_0000_0000_0000_0000_0000,
    ensures
        r == (a * b <= c * d),
{
    let (h1, l1) = wide_product(a, b);
    let (h2, l2) = wide_product(c, d);
    h1 < h2 || (h1 == h2 && l1 <= l2)
}

/// Whether `o` is an offer as the escrow keeps it.
fn check_offer(o: &Offer) -> (b: bool)
    ensures
        b == offer_valid(*o),
{
    if o.carbon_amount <= 0 || o.usdc_amount <= 0 {
        return false;
    }
    if o.filled_carbon < 0 || o.filled_carbon >= o.carbon_amount {
        return false;
    }
    if o.filled_usdc < 0 || o.filled_usdc > o.usdc_amount {
        return false;
    }
    product_le(
        o.filled_usdc as u128,
        o.carbon_amount as u128,
        o.filled_carbon as u128,
        o.usdc_amount as u128,
    )
}

/// The state of the escrow as plain values, for keeping it in contract
/// storage between calls.
pub struct EscrowParts {
    pub initialized: bool,
    pub next_offer_id: u64,
    pub offers: Vec<(u64, Offer)>,
}

/// Plain values that make up a well-formed escrow.
pub open spec fn escrow_parts_valid(p: EscrowParts) -> bool {
    &&& seq_keys_distinct(p.offers@)
    &&& p.next_offer_id >= 1
    &&& forall|i: int|
        0 <= i < p.offers@.len() ==> {
            let e = #[trigger] p.offers@[i];
            offer_valid(e.1) && e.1.offer_id == e.0 && 1 <= e.0 < p.next_offer_id
        }
}

fn check_offers(offers: &Vec<(u64, Offer)>, next_offer_id: u64) -> (b: bool)
    ensures
        b == forall|i: int|
            0 <= i < offers@.len() ==> {
                let e = #[trigger] offers@[i];
                offer_valid(e.1) && e.1.offer_id == e.0 && 1 <= e.0 < next_offer_id
            },
{
    let mut i: usize = 0;
    while i < offers.len()
        invariant
            i <= offers@.len(),
            forall|j: int|
                0 <= j < i ==> {
                    let e = #[trigger] offers@[j];
                    offer_valid(e.1) && e.1.offer_id == e.0 && 1 <= e.0 < next_offer_id
                },
        decreases offers@.len() - i,
    {
        let e = &offers[i];
        if !check_offer(&e.1) || e.1.offer_id != e.0 || e.0 < 1 || e.0 >= next_offer_id {
            return false;
        }
        i = i + 1;
    }
    true
}

impl EscrowContract {
    /// The escrow as plain values.
    pub fn into_parts(self) -> (p: EscrowParts)
        requires
            self.wf(),
        ensures
            escrow_parts_valid(p),
            p.initialized == self.initialized_spec(),
            p.next_offer_id == self.next_offer_id_spec(),
            seq_to_map(p.offers@) == self.offer_map(),
    {
        proof {
            self.offers.lemma_entries();
            let s = self.offers.entry_seq();
            assert forall|i: int| 0 <= i < s.len() implies {
                let e = #[trigger] s[i];
                offer_valid(e.1) && e.1.offer_id == e.0 && 1 <= e.0 < self.next_offer_id
            } by {
                lemma_key_index(s, i);
                assert(self.offers@.contains_key(s[i].0));
            }
        }
        EscrowParts {
            initialized: self.initialized,
            next_offer_id: self.next_offer_id,
            offers: self.offers.into_entries(),
        }
    }

    /// The escrow made of `p`, if `p` describes a well-formed one.
    pub fn from_parts(p: EscrowParts) -> (r: Option<Self>)
        ensures
            r is Some <==> escrow_parts_valid(p),
            r matches Some(e) ==> {
                &&& e.wf()
                &&& e.initialized_spec() == p.initialized
                &&& e.next_offer_id_spec() == p.next_offer_id
                &&& e.offer_map() == seq_to_map(p.offers@)
            },
    {
        let EscrowParts { initialized, next_offer_id, offers } = p;
        if next_offer_id < 1 {
            return None;
        }
        if !check_offers(&offers, next_offer_id) {
            return None;
        }
        let ghost s = offers@;
        let offers = match VecMap::from_entries(offers) {
            Some(m) => m,
            None => return None,
        };
        let e = EscrowContract { initialized, next_offer_id, offers };
        proof {
            assert forall|k: u64| #[trigger] e.offers@.contains_key(k) implies offer_valid(e.offers@[k])
                && e.offers@[k].offer_id == k && 1 <= k < e.next_offer_id by {
                let i = seq_key_index(s, k);
                assert(s[i].0 == k);
            }
        }
        Some(e)
    }
}

/// Every offer the escrow keeps has positive amounts, part of its credits
/// unsold, and has received no more payment than its rate allows for the
/// credits sold, and never more than its total price.
pub proof fn law_kept_offers_are_valid(e: &EscrowContract, id: u64)
    requires
        e.wf(),
        e.offer_map().contains_key(id),
    ensures
        offer_valid(e.offer_map()[id]),
        e.offer_map()[id].offer_id == id,
        id < e.next_offer_id_spec(),
{
    e.lemma_kept_offer(id);
}

/// A fill pays the offer's rate rounded down: the buyer never pays more
/// than the rate, and less by under one unit of the payment token.
pub proof fn law_fill_price_is_rate_rounded_down(o: Offer, fill: int)
    requires
        o.carbon_amount > 0,
        fill >= 0,
        o.usdc_amount >= 0,
    ensures
        fill_price(o, fill) * o.carbon_amount <= fill * o.usdc_amount,
        fill * o.usdc_amount < (fill_price(o, fill) + 1) * o.carbon_amount,
        fill_price(o, fill) >= 0,
{
    let c = o.carbon_amount as int;
    let n = fill * o.usdc_amount;
    vstd::arithmetic::div_mod::lemma_fundamental_div_mod(n, c);
    vstd::arithmetic::mul::lemma_mul_nonnegative(fill, o.usdc_amount as int);
    vstd::arithmetic::div_mod::lemma_div_pos_is_pos(n, c);
    assert(fill_price(o, fill) * c == c * (n / c)) by {
        vstd::arithmetic::mul::lemma_mul_is_commutative(n / c, c);
    }
    assert((fill_price(o, fill) + 1) * c == c * (n / c) + c) by {
        vstd::arithmetic::mul::lemma_mul_is_distributive_add_other_way(c, n / c, 1);
    }
}

/// A fill changes only what has been sold and paid of an offer: the sold
/// credits grow by the fill and the payment received by its price, while
/// the offer's id, seller, amounts, tokens and cancellation stay as they
/// were, so every later fill is priced and paid in the same tokens.
pub proof fn law_fill_changes_only_what_is_sold(o: Offer, fill: int, price: int)
    requires
        offer_valid(o),
        0 < fill <= o.carbon_amount - o.filled_carbon,
        price == fill_price(o, fill),
    ensures
        filled(o, fill, price).filled_carbon == o.filled_carbon + fill,
        filled(o, fill, price).filled_usdc == o.filled_usdc + price,
        filled(o, fill, price).offer_id == o.offer_id,
        filled(o, fill, price).seller == o.seller,
        filled(o, fill, price).carbon_amount == o.carbon_amount,
        filled(o, fill, price).usdc_amount == o.usdc_amount,
        filled(o, fill, price).carbon_token == o.carbon_token,
        filled(o, fill, price).usdc_token == o.usdc_token,
        filled(o, fill, price).is_cancelled == o.is_cancelled,
{
    lemma_fill_keeps_rate(
        o.filled_carbon as int,
        o.filled_usdc as int,
        o.carbon_amount as int,
        o.usdc_amount as int,
        fill,
        price,
    );
}

/// The carbon credits of offer `id` that the escrow holds for its seller:
/// the unsold credits of a kept offer that is not cancelled.
pub open spec fn carbon_held(offers: Map<u64, Offer>, id: u64) -> int {
    if offers.contains_key(id) && !offers[id].is_cancelled {
        offers[id].carbon_amount - offers[id].filled_carbon
    } else {
        0
    }
}

/// Creating an offer makes the escrow hold exactly the credits locked in it.
pub proof fn law_create_holds_what_is_locked(e: &EscrowContract, offers: Map<u64, Offer>, o: Offer)
    requires
        e.wf(),
        o.carbon_amount > 0,
        o.filled_carbon == 0,
        !o.is_cancelled,
        offers == e.offer_map().insert(e.next_offer_id_spec(), o),
    ensures
        carbon_held(e.offer_map(), e.next_offer_id_spec()) == 0,
        carbon_held(offers, e.next_offer_id_spec()) == o.carbon_amount,
{
    if e.offer_map().contains_key(e.next_offer_id_spec()) {
        e.lemma_kept_offer(e.next_offer_id_spec());
    }
}

/// A fill releases from the escrow exactly the credits it sells, and a fill
/// that sells the last credits leaves nothing held.
pub proof fn law_fill_releases_what_is_sold(
    e: &EscrowContract,
    offers: Map<u64, Offer>,
    id: u64,
    fill: int,
    price: int,
)
    requires
        e.wf(),
        e.offer_map().contains_key(id),
        !e.offer_map()[id].is_cancelled,
        0 < fill <= e.offer_map()[id].carbon_amount - e.offer_map()[id].filled_carbon,
        offers == if e.offer_map()[id].filled_carbon + fill >= e.offer_map()[id].carbon_amount {
            e.offer_map().remove(id)
        } else {
            e.offer_map().insert(id, filled(e.offer_map()[id], fill, price))
        },
    ensures
        carbon_held(offers, id) == carbon_held(e.offer_map(), id) - fill,
{
    e.lemma_kept_offer(id);
}

/// Cancelling releases every credit the escrow still holds for the offer.
pub proof fn law_cancel_releases_all_held(e: &EscrowContract, offers: Map<u64, Offer>, id: u64)
    requires
        e.wf(),
        e.offer_map().contains_key(id),
        !e.offer_map()[id].is_cancelled,
        offers == e.offer_map().insert(id, Offer { is_cancelled: true, ..e.offer_map()[id] }),
    ensures
        carbon_held(offers, id) == 0,
        carbon_held(e.offer_map(), id) == e.offer_map()[id].carbon_amount - e.offer_map()[id].filled_carbon,
{
}

} // verus!
