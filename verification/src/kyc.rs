use vstd::prelude::*;

use crate::auth::CallAuths;
use crate::errors::Error;
use crate::store::{assoc_map, lemma_assoc_map_absent, lemma_assoc_map_found,
    lemma_assoc_map_push, lemma_assoc_map_update, unique_keys};

verus! {

/// Per-user verification status registry. A user self-initiates verification
/// (`start`), and only the admin may change the status afterwards
/// (`set_status`). Statuses are free-form short textual labels; nothing is
/// enforced beyond that.
pub struct KycRegistry {
    admin: Option<u64>,
    statuses: Vec<(u64, String)>,
}

/// Abstract state of a [`KycRegistry`]: the admin slot and the per-user
/// status table.
pub struct KycView {
    pub admin: Option<u64>,
    pub statuses: Map<u64, Seq<char>>,
}

/// The bindings of the status table, with each label abstracted to its
/// character sequence.
pub open spec fn entry_views(s: Seq<(u64, String)>) -> Seq<(u64, Seq<char>)> {
    s.map_values(|e: (u64, String)| (e.0, e.1@))
}

/// The label every `start` call writes.
pub open spec fn pending_label() -> Seq<char> {
    "pending"@
}

/// Outcome of `init` on state `s`: fails on a second initialization, then on
/// a missing authorization from the would-be admin, and succeeds otherwise.
pub open spec fn init_result(s: KycView, auths: CallAuths, admin: u64) -> Result<(), Error> {
    if s.admin is Some {
        Err(Error::AlreadyInitialized)
    } else if !auths.allows(admin) {
        Err(Error::Unauthorized)
    } else {
        Ok(())
    }
}

/// State after `init`: the admin slot is set exactly when the call succeeds.
pub open spec fn init_state(s: KycView, auths: CallAuths, admin: u64) -> KycView {
    if init_result(s, auths, admin) is Ok {
        KycView { admin: Some(admin), ..s }
    } else {
        s
    }
}

/// Outcome of `start`: self-service only, so it fails exactly when the user
/// themselves did not authorize the call.
pub open spec fn start_result(s: KycView, auths: CallAuths, user: u64) -> Result<(), Error> {
    if !auths.allows(user) {
        Err(Error::Unauthorized)
    } else {
        Ok(())
    }
}

/// State after `start`: on success the user's status becomes `pending`,
/// overwriting any prior label.
pub open spec fn start_state(s: KycView, auths: CallAuths, user: u64) -> KycView {
    if start_result(s, auths, user) is Ok {
        KycView { statuses: s.statuses.insert(user, pending_label()), ..s }
    } else {
        s
    }
}

/// Outcome of `set_status`: fails when the registry is uninitialized, then
/// when the stored admin did not authorize the call, and succeeds otherwise.
pub open spec fn set_status_result(s: KycView, auths: CallAuths) -> Result<(), Error> {
    if s.admin is None {
        Err(Error::NotInitialized)
    } else if !auths.allows(s.admin.unwrap()) {
        Err(Error::Unauthorized)
    } else {
        Ok(())
    }
}

/// State after `set_status`: on success the user's status becomes the given
/// label, whether or not the user ever called `start`.
pub open spec fn set_status_state(
    s: KycView,
    auths: CallAuths,
    user: u64,
    status: Seq<char>,
) -> KycView {
    if set_status_result(s, auths) is Ok {
        KycView { statuses: s.statuses.insert(user, status), ..s }
    } else {
        s
    }
}

impl View for KycRegistry {
    type V = KycView;

    closed spec fn view(&self) -> KycView {
        KycView { admin: self.admin, statuses: assoc_map(entry_views(self.statuses@)) }
    }
}

impl KycRegistry {
    #[verifier::type_invariant]
    closed spec fn wf(&self) -> bool {
        unique_keys(entry_views(self.statuses@))
    }

    /// A fresh, uninitialized registry instance.
    pub fn new() -> (r: KycRegistry)
        ensures
            r@ == (KycView { admin: None, statuses: Map::<u64, Seq<char>>::empty() }),
    {
        KycRegistry { admin: None, statuses: Vec::new() }
    }

    /// Set the admin principal. Callable successfully exactly once per
    /// instance; requires authorization from the admin being registered.
    pub fn init(&mut self, admin: u64, auths: &CallAuths) -> (r: Result<(), Error>)
        ensures
            r == init_result(old(self)@, *auths, admin),
            final(self)@ == init_state(old(self)@, *auths, admin),
    {
        proof {
            use_type_invariant(&*self);
        }
        if self.admin.is_some() {
            return Err(Error::AlreadyInitialized);
        }
        if !auths.is_granted(admin) {
            return Err(Error::Unauthorized);
        }
        self.admin = Some(admin);
        Ok(())
    }

    /// Self-service entry into verification: requires authorization from
    /// `user` and unconditionally (re)sets their status to `pending`.
    pub fn start(&mut self, user: u64, auths: &CallAuths) -> (r: Result<(), Error>)
        ensures
            r == start_result(old(self)@, *auths, user),
            final(self)@ == start_state(old(self)@, *auths, user),
    {
        proof {
            use_type_invariant(&*self);
        }
        if !auths.is_granted(user) {
            return Err(Error::Unauthorized);
        }
        self.write_status(user, "pending".to_owned());
        Ok(())
    }

    /// Admin-only arbitrary status update. Does not require that `user` ever
    /// called `start`.
    pub fn set_status(&mut self, user: u64, status: String, auths: &CallAuths) -> (r: Result<
        (),
        Error,
    >)
        ensures
            r == set_status_result(old(self)@, *auths),
            final(self)@ == set_status_state(old(self)@, *auths, user, status@),
    {
        proof {
            use_type_invariant(&*self);
        }
        let admin = match self.admin {
            None => {
                return Err(Error::NotInitialized);
            },
            Some(a) => a,
        };
        if !auths.is_granted(admin) {
            return Err(Error::Unauthorized);
        }
        self.write_status(user, status);
        Ok(())
    }

    /// Read a user's status: `None` exactly when the user has no record.
    pub fn get_status(&self, user: u64) -> (r: Option<String>)
        ensures
            match r {
                Some(label) => self@.statuses.contains_key(user) && label@
                    == self@.statuses[user],
                None => !self@.statuses.contains_key(user),
            },
    {
        proof {
            use_type_invariant(&*self);
        }
        let n = self.statuses.len();
        let mut i: usize = 0;
        while i < n
            invariant
                n == self.statuses.len(),
                i <= n,
                self.wf(),
                forall|j: int| 0 <= j < i ==> (#[trigger] self.statuses@[j]).0 != user,
            decreases n - i,
        {
            if self.statuses[i].0 == user {
                proof {
                    lemma_assoc_map_found(entry_views(self.statuses@), i as int);
                }
                return Some(self.statuses[i].1.clone());
            }
            i += 1;
        }
        proof {
            lemma_assoc_map_absent(entry_views(self.statuses@), user);
        }
        None
    }

    /// Index of the binding for `user`, if there is one.
    fn find_user(&self, user: u64) -> (r: Option<usize>)
        ensures
            match r {
                Some(i) => i < self.statuses@.len() && self.statuses@[i as int].0 == user,
                None => forall|j: int|
                    0 <= j < self.statuses@.len() ==> (#[trigger] self.statuses@[j]).0 != user,
            },
    {
        let n = self.statuses.len();
        let mut i: usize = 0;
        while i < n
            invariant
                n == self.statuses.len(),
                i <= n,
                forall|j: int| 0 <= j < i ==> (#[trigger] self.statuses@[j]).0 != user,
            decreases n - i,
        {
            if self.statuses[i].0 == user {
                return Some(i);
            }
            i += 1;
        }
        None
    }

    /// Bind `user` to `status`, overwriting in place when a binding exists.
    fn write_status(&mut self, user: u64, status: String)
        requires
            old(self).wf(),
        ensures
            final(self)@.statuses == old(self)@.statuses.insert(user, status@),
            final(self)@.admin == old(self)@.admin,
    {
        let found = self.find_user(user);
        let ghost pre = entry_views(self.statuses@);
        let mut entries: Vec<(u64, String)> = Vec::new();
        core::mem::swap(&mut entries, &mut self.statuses);
        let ghost label = status@;
        match found {
            Some(i) => {
                entries[i] = (user, status);
                proof {
                    assert(entry_views(entries@) =~= pre.update(i as int, (user, label)));
                    lemma_assoc_map_update(pre, i as int, label);
                }
            },
            None => {
                entries.push((user, status));
                proof {
                    assert(entry_views(entries@) =~= pre.push((user, label)));
                    lemma_assoc_map_push(pre, user, label);
                }
            },
        }
        core::mem::swap(&mut entries, &mut self.statuses);
    }
}

/// Initialization is exactly-once: once `init` has succeeded, any further
/// `init` fails with `AlreadyInitialized` and alters nothing, whoever calls
/// it and whatever they authorized; in particular the stored admin stays as
/// the first call set it.
pub proof fn lemma_init_exactly_once(
    s: KycView,
    auths1: CallAuths,
    admin1: u64,
    auths2: CallAuths,
    admin2: u64,
)
    requires
        init_result(s, auths1, admin1) is Ok,
    ensures
        init_result(init_state(s, auths1, admin1), auths2, admin2) == Result::<(), Error>::Err(
            Error::AlreadyInitialized,
        ),
        init_state(init_state(s, auths1, admin1), auths2, admin2) == init_state(s, auths1, admin1),
        init_state(s, auths1, admin1).admin == Some(admin1),
{
}

/// A `set_status` call lacking authorization from the registered admin fails
/// with `Unauthorized` and mutates nothing.
pub proof fn lemma_set_status_unauthorized(
    s: KycView,
    auths: CallAuths,
    user: u64,
    status: Seq<char>,
)
    requires
        s.admin is Some,
        !auths.allows(s.admin.unwrap()),
    ensures
        set_status_result(s, auths) == Result::<(), Error>::Err(Error::Unauthorized),
        set_status_state(s, auths, user, status) == s,
{
}

/// After a successful `start(user)` the user's status reads `pending` — even
/// when an admin had previously set it to any other label, so a repeated
/// `start` resets the status.
pub proof fn lemma_start_sets_pending(s: KycView, auths: CallAuths, user: u64)
    requires
        auths.allows(user),
    ensures
        start_result(s, auths, user) is Ok,
        start_state(s, auths, user).statuses.contains_key(user),
        start_state(s, auths, user).statuses[user] == pending_label(),
{
}

/// `start` composed after an admin `set_status` on the same user: the status
/// comes back as `pending`, and no other user's status moves.
pub proof fn lemma_start_resets_after_set_status(
    s: KycView,
    auths_admin: CallAuths,
    auths_user: CallAuths,
    user: u64,
    label: Seq<char>,
)
    requires
        auths_user.allows(user),
    ensures
        start_state(set_status_state(s, auths_admin, user, label), auths_user, user).statuses[user]
            == pending_label(),
        forall|other: u64|
            other != user ==> start_state(
                set_status_state(s, auths_admin, user, label),
                auths_user,
                user,
            ).statuses.contains_key(other) == s.statuses.contains_key(other),
{
}

} // verus!
