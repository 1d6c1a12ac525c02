use vstd::prelude::*;

use crate::auth::CallAuths;
use crate::errors::Error;
use crate::store::{assoc_map, lemma_assoc_map_absent, lemma_assoc_map_found,
    lemma_assoc_map_push, lemma_assoc_map_update, unique_keys};

verus! {

/// One exchange-rate record: `price` is the scaled rate (destination units
/// per one source unit, fixed-point scaled), `fee_bp` the fee in basis
/// points (100 = 1%). A stored `price` is always strictly positive; `fee_bp`
/// is admin-trusted and deliberately unvalidated.
#[derive(Clone, Copy, Debug, PartialEq, Eq, Structural)]
pub struct RateInfo {
    pub price: i128,
    pub fee_bp: u32,
}

/// Admin-curated table of exchange rates keyed by currency-pair symbol
/// (e.g. `"XLM:BRL"`). Rates are replaced wholesale on every update and
/// never deleted; anyone may read them.
pub struct RatesOracle {
    admin: Option<u64>,
    rates: Vec<(String, RateInfo)>,
}

/// Abstract state of a [`RatesOracle`]: the admin slot and the rate table.
pub struct RatesView {
    pub admin: Option<u64>,
    pub rates: Map<Seq<char>, RateInfo>,
}

/// The bindings of the rate table, with each pair symbol abstracted to its
/// character sequence.
pub open spec fn entry_views(s: Seq<(String, RateInfo)>) -> Seq<(Seq<char>, RateInfo)> {
    s.map_values(|e: (String, RateInfo)| (e.0@, e.1))
}

/// Outcome of `init` on state `s`: fails on a second initialization, then on
/// a missing authorization from the would-be admin, and succeeds otherwise.
pub open spec fn init_result(s: RatesView, auths: CallAuths, admin: u64) -> Result<(), Error> {
    if s.admin is Some {
        Err(Error::AlreadyInitialized)
    } else if !auths.allows(admin) {
        Err(Error::Unauthorized)
    } else {
        Ok(())
    }
}

/// State after `init`: the admin slot is set exactly when the call succeeds.
pub open spec fn init_state(s: RatesView, auths: CallAuths, admin: u64) -> RatesView {
    if init_result(s, auths, admin) is Ok {
        RatesView { admin: Some(admin), ..s }
    } else {
        s
    }
}

/// Outcome of `set_rate`: fails when the registry is uninitialized, then
/// when the stored admin did not authorize the call, then on a non-positive
/// price, and succeeds otherwise.
pub open spec fn set_rate_result(s: RatesView, auths: CallAuths, price: i128) -> Result<
    (),
    Error,
> {
    if s.admin is None {
        Err(Error::NotInitialized)
    } else if !auths.allows(s.admin.unwrap()) {
        Err(Error::Unauthorized)
    } else if price <= 0 {
        Err(Error::InvalidPrice)
    } else {
        Ok(())
    }
}

/// State after `set_rate`: on success the whole record for `pair` is
/// replaced; on any failure nothing moves.
pub open spec fn set_rate_state(
    s: RatesView,
    auths: CallAuths,
    pair: Seq<char>,
    price: i128,
    fee_bp: u32,
) -> RatesView {
    if set_rate_result(s, auths, price) is Ok {
        RatesView { rates: s.rates.insert(pair, RateInfo { price, fee_bp }), ..s }
    } else {
        s
    }
}

impl View for RatesOracle {
    type V = RatesView;

    closed spec fn view(&self) -> RatesView {
        RatesView { admin: self.admin, rates: assoc_map(entry_views(self.rates@)) }
    }
}

impl RatesOracle {
    #[verifier::type_invariant]
    closed spec fn wf(&self) -> bool {
        &&& unique_keys(entry_views(self.rates@))
        &&& forall|j: int| 0 <= j < self.rates@.len() ==> (#[trigger] self.rates@[j]).1.price > 0
    }

    /// A fresh, uninitialized oracle instance.
    pub fn new() -> (r: RatesOracle)
        ensures
            r@ == (RatesView { admin: None, rates: Map::<Seq<char>, RateInfo>::empty() }),
    {
        RatesOracle { admin: None, rates: Vec::new() }
    }

    /// Set the admin principal. Callable successfully exactly once per
    /// instance; requires authorization from the admin being registered.
    pub fn init(&mut self, admin: u64, auths: &CallAuths) -> (r: Result<(), Error>)
        ensures
            r == init_result(old(self)@, *auths, admin),
            final(self)@ == init_state(old(self)@, *auths, admin),
    {
        proof {
            use_type_invariant(&*self);
        }
        if self.admin.is_some() {
            return Err(Error::AlreadyInitialized);
        }
        if !auths.is_granted(admin) {
            return Err(Error::Unauthorized);
        }
        self.admin = Some(admin);
        Ok(())
    }

    /// Admin-only wholesale replacement of the rate record for `pair`.
    /// Rejects non-positive prices; accepts any `fee_bp`.
    pub fn set_rate(&mut self, pair: String, price: i128, fee_bp: u32, auths: &CallAuths) -> (r:
        Result<(), Error>)
        ensures
            r == set_rate_result(old(self)@, *auths, price),
            final(self)@ == set_rate_state(old(self)@, *auths, pair@, price, fee_bp),
    {
        proof {
            use_type_invariant(&*self);
        }
        let admin = match self.admin {
            None => {
                return Err(Error::NotInitialized);
            },
            Some(a) => a,
        };
        if !auths.is_granted(admin) {
            return Err(Error::Unauthorized);
        }
        if price <= 0 {
            return Err(Error::InvalidPrice);
        }
        let found = self.find_pair(&pair);
        let ghost pre = entry_views(self.rates@);
        let ghost key = pair@;
        let info = RateInfo { price, fee_bp };
        let mut entries: Vec<(String, RateInfo)> = Vec::new();
        core::mem::swap(&mut entries, &mut self.rates);
        match found {
            Some(i) => {
                entries[i] = (pair, info);
                proof {
                    assert(entry_views(entries@) =~= pre.update(i as int, (key, info)));
                    lemma_assoc_map_update(pre, i as int, info);
                }
            },
            None => {
                entries.push((pair, info));
                proof {
                    assert(entry_views(entries@) =~= pre.push((key, info)));
                    lemma_assoc_map_push(pre, key, info);
                }
            },
        }
        core::mem::swap(&mut entries, &mut self.rates);
        Ok(())
    }

    /// Read the rate record for `pair`: `None` exactly when no rate was ever
    /// set for it. A returned price is strictly positive.
    pub fn get_rate(&self, pair: &String) -> (r: Option<RateInfo>)
        ensures
            match r {
                Some(info) => self@.rates.contains_key(pair@) && info == self@.rates[pair@]
                    && info.price > 0,
                None => !self@.rates.contains_key(pair@),
            },
    {
        proof {
            use_type_invariant(&*self);
        }
        let found = self.find_pair(pair);
        match found {
            Some(i) => {
                proof {
                    lemma_assoc_map_found(entry_views(self.rates@), i as int);
                }
                Some(self.rates[i].1)
            },
            None => {
                proof {
                    lemma_assoc_map_absent(entry_views(self.rates@), pair@);
                }
                None
            },
        }
    }

    /// Index of the binding for `pair`, if there is one.
    fn find_pair(&self, pair: &String) -> (r: Option<usize>)
        ensures
            match r {
                Some(i) => i < self.rates@.len() && self.rates@[i as int].0@ == pair@,
                None => forall|j: int|
                    0 <= j < self.rates@.len() ==> (#[trigger] self.rates@[j]).0@ != pair@,
            },
    {
        let n = self.rates.len();
        let mut i: usize = 0;
        while i < n
            invariant
                n == self.rates.len(),
                i <= n,
                forall|j: int| 0 <= j < i ==> (#[trigger] self.rates@[j]).0@ != pair@,
            decreases n - i,
        {
            if self.rates[i].0 == *pair {
                return Some(i);
            }
            i += 1;
        }
        None
    }
}

/// Initialization is exactly-once: once `init` has succeeded, any further
/// `init` fails with `AlreadyInitialized` and alters nothing; the stored
/// admin stays as the first call set it.
pub proof fn lemma_init_exactly_once(
    s: RatesView,
    auths1: CallAuths,
    admin1: u64,
    auths2: CallAuths,
    admin2: u64,
)
    requires
        init_result(s, auths1, admin1) is Ok,
    ensures
        init_result(init_state(s, auths1, admin1), auths2, admin2) == Result::<(), Error>::Err(
            Error::AlreadyInitialized,
        ),
        init_state(init_state(s, auths1, admin1), auths2, admin2) == init_state(s, auths1, admin1),
        init_state(s, auths1, admin1).admin == Some(admin1),
{
}

/// A `set_rate` call lacking authorization from the registered admin fails
/// with `Unauthorized` and mutates nothing.
pub proof fn lemma_set_rate_unauthorized(
    s: RatesView,
    auths: CallAuths,
    pair: Seq<char>,
    price: i128,
    fee_bp: u32,
)
    requires
        s.admin is Some,
        !auths.allows(s.admin.unwrap()),
    ensures
        set_rate_result(s, auths, price) == Result::<(), Error>::Err(Error::Unauthorized),
        set_rate_state(s, auths, pair, price, fee_bp) == s,
{
}

/// A non-positive price is rejected with `InvalidPrice`, and any prior rate
/// for the pair stays exactly as it was.
pub proof fn lemma_set_rate_invalid_price(
    s: RatesView,
    auths: CallAuths,
    pair: Seq<char>,
    price: i128,
    fee_bp: u32,
)
    requires
        s.admin is Some,
        auths.allows(s.admin.unwrap()),
        price <= 0,
    ensures
        set_rate_result(s, auths, price) == Result::<(), Error>::Err(Error::InvalidPrice),
        set_rate_state(s, auths, pair, price, fee_bp) == s,
{
}

/// Every state reachable by `init` and `set_rate` keeps all stored prices
/// strictly positive.
pub proof fn lemma_transitions_preserve_positive_prices(
    s: RatesView,
    auths: CallAuths,
    admin: u64,
    pair: Seq<char>,
    price: i128,
    fee_bp: u32,
)
    requires
        forall|p: Seq<char>| #[trigger]
            s.rates.contains_key(p) ==> s.rates[p].price > 0,
    ensures
        forall|p: Seq<char>| #[trigger]
            init_state(s, auths, admin).rates.contains_key(p) ==> init_state(
                s,
                auths,
                admin,
            ).rates[p].price > 0,
        forall|p: Seq<char>| #[trigger]
            set_rate_state(s, auths, pair, price, fee_bp).rates.contains_key(p) ==> set_rate_state(
                s,
                auths,
                pair,
                price,
                fee_bp,
            ).rates[p].price > 0,
{
}

} // verus!
