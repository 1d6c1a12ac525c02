use vstd::prelude::*;

use crate::auth::CallAuths;
use crate::errors::Error;

verus! {

/// One transfer record. Only `status` is ever mutated after creation, and
/// only by the admin; `from`, `to` and `amount` are fixed for good.
pub struct RemitInfo {
    pub from: u64,
    pub to: u64,
    pub amount: i128,
    pub status: String,
}

/// Abstract value of a [`RemitInfo`], with the status label abstracted to
/// its character sequence.
pub struct RemitRec {
    pub from: u64,
    pub to: u64,
    pub amount: i128,
    pub status: Seq<char>,
}

impl View for RemitInfo {
    type V = RemitRec;

    open spec fn view(&self) -> RemitRec {
        RemitRec { from: self.from, to: self.to, amount: self.amount, status: self.status@ }
    }
}

impl Clone for RemitInfo {
    fn clone(&self) -> (r: Self)
        ensures
            r@ == self@,
    {
        RemitInfo {
            from: self.from,
            to: self.to,
            amount: self.amount,
            status: self.status.clone(),
        }
    }
}

/// Append-only ledger of transfer records with strictly increasing ids.
/// Record `id` (ids start at 1 and are never reused) lives at position
/// `id - 1` of the view's record sequence, so the last-allocated id is
/// always the number of records.
pub struct Remittance {
    admin: Option<u64>,
    records: Vec<RemitInfo>,
}

/// Abstract state of a [`Remittance`] ledger.
pub struct RemitView {
    pub admin: Option<u64>,
    pub records: Seq<RemitRec>,
}

/// The records of the ledger, each abstracted to its [`RemitRec`].
pub open spec fn record_views(s: Seq<RemitInfo>) -> Seq<RemitRec> {
    s.map_values(|r: RemitInfo| r@)
}

/// The label every freshly created record carries.
pub open spec fn pending_label() -> Seq<char> {
    "pending"@
}

/// Outcome of `init` on state `s`: fails on a second initialization, then on
/// a missing authorization from the would-be admin, and succeeds otherwise.
pub open spec fn init_result(s: RemitView, auths: CallAuths, admin: u64) -> Result<(), Error> {
    if s.admin is Some {
        Err(Error::AlreadyInitialized)
    } else if !auths.allows(admin) {
        Err(Error::Unauthorized)
    } else {
        Ok(())
    }
}

/// State after `init`: the admin slot is set exactly when the call succeeds.
pub open spec fn init_state(s: RemitView, auths: CallAuths, admin: u64) -> RemitView {
    if init_result(s, auths, admin) is Ok {
        RemitView { admin: Some(admin), ..s }
    } else {
        s
    }
}

/// Outcome of `create`: sender-initiated only, so it fails when `from` did
/// not authorize the call, then on a non-positive amount; on success it
/// yields the next id, one past the last-allocated one.
pub open spec fn create_result(s: RemitView, auths: CallAuths, from: u64, amount: i128) -> Result<
    u128,
    Error,
> {
    if !auths.allows(from) {
        Err(Error::Unauthorized)
    } else if amount <= 0 {
        Err(Error::InvalidAmount)
    } else {
        Ok((s.records.len() + 1) as u128)
    }
}

/// State after `create`: on success a record with status `pending` is
/// appended; nothing is ever removed or renumbered.
pub open spec fn create_state(
    s: RemitView,
    auths: CallAuths,
    from: u64,
    to: u64,
    amount: i128,
) -> RemitView {
    if create_result(s, auths, from, amount) is Ok {
        RemitView {
            records: s.records.push(RemitRec { from, to, amount, status: pending_label() }),
            ..s
        }
    } else {
        s
    }
}

/// Whether `id` names a record in state `s`.
pub open spec fn has_record(s: RemitView, id: u128) -> bool {
    1 <= id <= s.records.len()
}

/// Outcome of `set_status`: fails when the ledger is uninitialized, then
/// when the stored admin did not authorize the call, then when `id` has no
/// record, and succeeds otherwise.
pub open spec fn set_status_result(s: RemitView, auths: CallAuths, id: u128) -> Result<
    (),
    Error,
> {
    if s.admin is None {
        Err(Error::NotInitialized)
    } else if !auths.allows(s.admin.unwrap()) {
        Err(Error::Unauthorized)
    } else if !has_record(s, id) {
        Err(Error::NotFound)
    } else {
        Ok(())
    }
}

/// State after `set_status`: on success only the `status` field of record
/// `id` changes; `from`, `to` and `amount` stay bit-identical, and every
/// other record is untouched.
pub open spec fn set_status_state(
    s: RemitView,
    auths: CallAuths,
    id: u128,
    status: Seq<char>,
) -> RemitView {
    if set_status_result(s, auths, id) is Ok {
        RemitView {
            records: s.records.update(
                id - 1,
                RemitRec { status, ..s.records[id - 1] },
            ),
            ..s
        }
    } else {
        s
    }
}

impl View for Remittance {
    type V = RemitView;

    closed spec fn view(&self) -> RemitView {
        RemitView { admin: self.admin, records: record_views(self.records@) }
    }
}

impl Remittance {
    /// A fresh, uninitialized ledger instance: no admin, no records, and so
    /// a last-allocated id of zero.
    pub fn new() -> (r: Remittance)
        ensures
            r@ == (RemitView { admin: None, records: Seq::<RemitRec>::empty() }),
    {
        let r = Remittance { admin: None, records: Vec::new() };
        proof {
            assert(record_views(r.records@) =~= Seq::<RemitRec>::empty());
        }
        r
    }

    /// Set the admin principal. Callable successfully exactly once per
    /// instance; requires authorization from the admin being registered.
    pub fn init(&mut self, admin: u64, auths: &CallAuths) -> (r: Result<(), Error>)
        ensures
            r == init_result(old(self)@, *auths, admin),
            final(self)@ == init_state(old(self)@, *auths, admin),
    {
        if self.admin.is_some() {
            return Err(Error::AlreadyInitialized);
        }
        if !auths.is_granted(admin) {
            return Err(Error::Unauthorized);
        }
        self.admin = Some(admin);
        Ok(())
    }

    /// Create a transfer record: requires authorization from the sender
    /// `from` and a strictly positive amount. Returns the freshly allocated
    /// id, which is one past the previously last-allocated one.
    pub fn create(&mut self, from: u64, to: u64, amount: i128, auths: &CallAuths) -> (r: Result<
        u128,
        Error,
    >)
        ensures
            r == create_result(old(self)@, *auths, from, amount),
            final(self)@ == create_state(old(self)@, *auths, from, to, amount),
            r is Ok ==> r.unwrap() == old(self)@.records.len() + 1,
    {
        if !auths.is_granted(from) {
            return Err(Error::Unauthorized);
        }
        if amount <= 0 {
            return Err(Error::InvalidAmount);
        }
        let ghost pre = record_views(self.records@);
        let id = self.records.len() as u128 + 1;
        let info = RemitInfo { from, to, amount, status: "pending".to_owned() };
        let ghost rec = info@;
        self.records.push(info);
        proof {
            assert(record_views(self.records@) =~= pre.push(rec));
        }
        Ok(id)
    }

    /// Read record `id`: `None` exactly when `id` was never allocated.
    pub fn get(&self, id: u128) -> (r: Option<RemitInfo>)
        ensures
            match r {
                Some(info) => has_record(self@, id) && info@ == self@.records[id - 1],
                None => !has_record(self@, id),
            },
    {
        if id == 0 || id > self.records.len() as u128 {
            return None;
        }
        let idx = (id - 1) as usize;
        Some(self.records[idx].clone())
    }

    /// Admin-only arbitrary relabeling of record `id`: overwrites only the
    /// `status` field and fails with `NotFound` when `id` has no record.
    pub fn set_status(&mut self, id: u128, status: String, auths: &CallAuths) -> (r: Result<
        (),
        Error,
    >)
        ensures
            r == set_status_result(old(self)@, *auths, id),
            final(self)@ == set_status_state(old(self)@, *auths, id, status@),
    {
        let admin = match self.admin {
            None => {
                return Err(Error::NotInitialized);
            },
            Some(a) => a,
        };
        if !auths.is_granted(admin) {
            return Err(Error::Unauthorized);
        }
        if id == 0 || id > self.records.len() as u128 {
            return Err(Error::NotFound);
        }
        let ghost pre = record_views(self.records@);
        let idx = (id - 1) as usize;
        let from = self.records[idx].from;
        let to = self.records[idx].to;
        let amount = self.records[idx].amount;
        let ghost rec = RemitRec { from, to, amount, status: status@ };
        self.records[idx] = RemitInfo { from, to, amount, status };
        proof {
            assert(record_views(self.records@) =~= pre.update(idx as int, rec));
        }
        Ok(())
    }
}

/// Initialization is exactly-once: once `init` has succeeded, any further
/// `init` fails with `AlreadyInitialized` and alters nothing; the stored
/// admin stays as the first call set it.
pub proof fn lemma_init_exactly_once(
    s: RemitView,
    auths1: CallAuths,
    admin1: u64,
    auths2: CallAuths,
    admin2: u64,
)
    requires
        init_result(s, auths1, admin1) is Ok,
    ensures
        init_result(init_state(s, auths1, admin1), auths2, admin2) == Result::<(), Error>::Err(
            Error::AlreadyInitialized,
        ),
        init_state(init_state(s, auths1, admin1), auths2, admin2) == init_state(s, auths1, admin1),
        init_state(s, auths1, admin1).admin == Some(admin1),
{
}

/// A `set_status` call lacking authorization from the registered admin fails
/// with `Unauthorized` and mutates nothing.
pub proof fn lemma_set_status_unauthorized(s: RemitView, auths: CallAuths, id: u128, status: Seq<
    char,
>)
    requires
        s.admin is Some,
        !auths.allows(s.admin.unwrap()),
    ensures
        set_status_result(s, auths, id) == Result::<(), Error>::Err(Error::Unauthorized),
        set_status_state(s, auths, id, status) == s,
{
}

/// An authorized `set_status` on a missing id fails with `NotFound` and
/// changes nothing; on a present id it overwrites that record's `status`
/// alone — `from`, `to` and `amount` stay bit-identical and every other
/// record is untouched.
pub proof fn lemma_set_status_touches_only_status(
    s: RemitView,
    auths: CallAuths,
    id: u128,
    status: Seq<char>,
)
    requires
        s.admin is Some,
        auths.allows(s.admin.unwrap()),
    ensures
        !has_record(s, id) ==> set_status_result(s, auths, id) == Result::<(), Error>::Err(
            Error::NotFound,
        ) && set_status_state(s, auths, id, status) == s,
        has_record(s, id) ==> set_status_result(s, auths, id) == Result::<(), Error>::Ok(())
            && set_status_state(s, auths, id, status).records.len() == s.records.len()
            && set_status_state(s, auths, id, status).records[id - 1] == (RemitRec {
            status,
            ..s.records[id - 1]
        }) && forall|j: int|
            0 <= j < s.records.len() && j != id - 1 ==> set_status_state(
                s,
                auths,
                id,
                status,
            ).records[j] == s.records[j],
{
}

/// One requested `create` call: its arguments together with the
/// authorization witness the host built for it.
pub struct CreateReq {
    pub from: u64,
    pub to: u64,
    pub amount: i128,
    pub auths: CallAuths,
}

/// A request that passes `create`'s guards: the sender authorized it and the
/// amount is strictly positive.
pub open spec fn req_ok(r: CreateReq) -> bool {
    r.auths.allows(r.from) && r.amount > 0
}

/// The state after serially running the given `create` requests in order.
pub open spec fn run_creates(s: RemitView, reqs: Seq<CreateReq>) -> RemitView
    decreases reqs.len(),
{
    if reqs.len() == 0 {
        s
    } else {
        run_creates(
            create_state(s, reqs[0].auths, reqs[0].from, reqs[0].to, reqs[0].amount),
            reqs.drop_first(),
        )
    }
}

/// The ids issued by serially running the given `create` requests in order;
/// a failed request issues none.
pub open spec fn create_ids(s: RemitView, reqs: Seq<CreateReq>) -> Seq<u128>
    decreases reqs.len(),
{
    if reqs.len() == 0 {
        Seq::empty()
    } else {
        let r0 = create_result(s, reqs[0].auths, reqs[0].from, reqs[0].amount);
        let s1 = create_state(s, reqs[0].auths, reqs[0].from, reqs[0].to, reqs[0].amount);
        let rest = create_ids(s1, reqs.drop_first());
        if r0 is Ok {
            seq![r0.unwrap()] + rest
        } else {
            rest
        }
    }
}

/// Serially running valid `create` requests issues consecutive ids, each one
/// past the last-allocated id before it, and grows the ledger by one record
/// per request.
pub proof fn lemma_create_ids_consecutive(s: RemitView, reqs: Seq<CreateReq>)
    requires
        forall|i: int| 0 <= i < reqs.len() ==> req_ok(#[trigger] reqs[i]),
        s.records.len() + reqs.len() <= u128::MAX,
    ensures
        create_ids(s, reqs).len() == reqs.len(),
        forall|i: int|
            0 <= i < reqs.len() ==> #[trigger] create_ids(s, reqs)[i] == s.records.len() + 1 + i,
        run_creates(s, reqs).records.len() == s.records.len() + reqs.len(),
    decreases reqs.len(),
{
    if reqs.len() > 0 {
        assert(req_ok(reqs[0]));
        let s1 = create_state(s, reqs[0].auths, reqs[0].from, reqs[0].to, reqs[0].amount);
        assert(s1.records.len() == s.records.len() + 1);
        lemma_create_ids_consecutive(s1, reqs.drop_first());
    }
}

/// `create` called N times from arbitrary senders on a fresh ledger yields
/// exactly the ids `1..N` in issuance order: no gaps and no repeats.
pub proof fn lemma_create_ids_one_to_n(s: RemitView, reqs: Seq<CreateReq>)
    requires
        forall|i: int| 0 <= i < reqs.len() ==> req_ok(#[trigger] reqs[i]),
        s.records.len() == 0,
        reqs.len() <= u128::MAX,
    ensures
        create_ids(s, reqs).len() == reqs.len(),
        forall|i: int| 0 <= i < reqs.len() ==> #[trigger] create_ids(s, reqs)[i] == i + 1,
        forall|i: int, j: int|
            0 <= i < j < reqs.len() ==> create_ids(s, reqs)[i] != create_ids(s, reqs)[j],
{
    lemma_create_ids_consecutive(s, reqs);
}

/// Every state reachable by `init`, `create` and `set_status` keeps all
/// stored amounts strictly positive.
pub proof fn lemma_transitions_preserve_positive_amounts(
    s: RemitView,
    auths: CallAuths,
    admin: u64,
    from: u64,
    to: u64,
    amount: i128,
    id: u128,
    status: Seq<char>,
)
    requires
        forall|j: int| 0 <= j < s.records.len() ==> (#[trigger] s.records[j]).amount > 0,
    ensures
        forall|j: int|
            0 <= j < init_state(s, auths, admin).records.len() ==> (#[trigger] init_state(
                s,
                auths,
                admin,
            ).records[j]).amount > 0,
        forall|j: int|
            0 <= j < create_state(s, auths, from, to, amount).records.len() ==> (
            #[trigger] create_state(s, auths, from, to, amount).records[j]).amount > 0,
        forall|j: int|
            0 <= j < set_status_state(s, auths, id, status).records.len() ==> (
            #[trigger] set_status_state(s, auths, id, status).records[j]).amount > 0,
{
}

} // verus!
