//! The vault's unlock protocol, as decisions over its state: a cached
//! time-bounded capability, and at most one open unlock window whose result
//! every waiting request shares.
use vstd::prelude::*;

verus! {

/// How long a granted vault capability stays active, in seconds.
pub const VAULT_CAP_TTL_SECS: u64 = 10;

/// The same lifetime in milliseconds, the unit of the vault's clock.
pub const VAULT_CAP_TTL_MS: u64 = VAULT_CAP_TTL_SECS * 1000;

/// Full access to the vault; subsumes [`VaultRead`] and [`VaultWrite`].
pub struct VaultAll;

/// Read access to the vault.
pub struct VaultRead;

/// Write access to the vault.
pub struct VaultWrite;

/// What an unlock request does.
#[derive(Debug, PartialEq, Eq, Structural)]
pub enum UnlockAction {
    /// The vault is unlocked: hand out the cached capability.
    ReturnCached,
    /// An unlock window is already open: wait for its result.
    AwaitPending,
    /// Open an unlock window and wait for the password.
    OpenWindow,
}

/// Whether a capability granted at `granted_ms` (if one was) is active at
/// `now_ms`: for [`VAULT_CAP_TTL_SECS`] seconds from its grant.
pub open spec fn cap_active(granted_ms: Option<u64>, now_ms: u64) -> bool {
    match granted_ms {
        Some(t) => now_ms < t + VAULT_CAP_TTL_MS,
        None => false,
    }
}

/// The decision for an unlock request at `now_ms`: the cached capability
/// when there is one and it is still active; otherwise the open window's
/// result when one is open; otherwise a new window.
pub open spec fn unlock_action(granted_ms: Option<u64>, now_ms: u64, pending: bool) -> UnlockAction {
    if cap_active(granted_ms, now_ms) {
        UnlockAction::ReturnCached
    } else if pending {
        UnlockAction::AwaitPending
    } else {
        UnlockAction::OpenWindow
    }
}

/// The vault's state: when the cached capability was granted (on the
/// vault's millisecond clock), if one was, and whether an unlock window is
/// open with requests waiting on it.
pub struct VaultState {
    pub granted_ms: Option<u64>,
    pub pending_unlock: bool,
}

/// Whether a capability granted at `granted_ms` is active at `now_ms`.
pub fn is_cap_active(granted_ms: Option<u64>, now_ms: u64) -> (b: bool)
    ensures
        b == cap_active(granted_ms, now_ms),
{
    match granted_ms {
        Some(t) => now_ms < t || now_ms - t < VAULT_CAP_TTL_MS,
        None => false,
    }
}

impl VaultState {
    /// Locked, no window open.
    pub fn new() -> (s: VaultState)
        ensures
            s.granted_ms is None,
            !s.pending_unlock,
    {
        VaultState { granted_ms: None, pending_unlock: false }
    }

    /// Decides an unlock request made at `now_ms`. The state is unchanged.
    pub fn unlock(&self, now_ms: u64) -> (a: UnlockAction)
        ensures
            a == unlock_action(self.granted_ms, now_ms, self.pending_unlock),
    {
        if is_cap_active(self.granted_ms, now_ms) {
            UnlockAction::ReturnCached
        } else if self.pending_unlock {
            UnlockAction::AwaitPending
        } else {
            UnlockAction::OpenWindow
        }
    }

    /// Records the outcome of opening an unlock window: when it opened,
    /// requests now wait on it; when it failed, nothing changes.
    pub fn window_opened(&mut self, opened: bool)
        ensures
            final(self).granted_ms == old(self).granted_ms,
            final(self).pending_unlock == (old(self).pending_unlock || opened),
    {
        if opened {
            self.pending_unlock = true;
        }
    }

    /// Records that the password was accepted at `now_ms`: a capability is
    /// granted then and cached, and the window's waiters are released with
    /// it. Returns whether there were waiters to hand the capability to.
    pub fn unlock_granted(&mut self, now_ms: u64) -> (notified: bool)
        ensures
            notified == old(self).pending_unlock,
            final(self).granted_ms == Some(now_ms),
            !final(self).pending_unlock,
    {
        let notified = self.pending_unlock;
        self.granted_ms = Some(now_ms);
        self.pending_unlock = false;
        notified
    }

    /// Whether the vault is unlocked at `now_ms`: a capability is cached and
    /// still active.
    pub fn is_unlocked(&self, now_ms: u64) -> (b: bool)
        ensures
            b == cap_active(self.granted_ms, now_ms),
    {
        is_cap_active(self.granted_ms, now_ms)
    }
}

/// What a password submission in the unlock window does.
#[derive(Debug, PartialEq, Eq, Structural)]
pub enum SubmitOutcome {
    /// The password is right: release the vault and close the window.
    Accepted,
    /// The password is right but the window already released the vault.
    AlreadySent,
    /// The password is wrong: nothing happens.
    Rejected,
}

/// `"password"`
pub open spec fn vault_password() -> Seq<char> {
    seq!['p', 'a', 's', 's', 'w', 'o', 'r', 'd']
}

/// Whether `text` is the vault password.
pub fn is_vault_password(text: &str) -> (b: bool)
    ensures
        b == (text@ == vault_password()),
{
    let pw = "password";
    proof { reveal_strlit("password"); }
    let n = text.unicode_len();
    if n != 8 {
        return false;
    }
    for i in 0..8usize
        invariant
            n == text@.len(),
            n == 8,
            pw@ == vault_password(),
            forall|j: int| 0 <= j < i ==> text@[j] == pw@[j],
    {
        if text.get_char(i) != pw.get_char(i) {
            return false;
        }
    }
    assert(text@ =~= vault_password());
    true
}

/// The unlock window: whether it can still release the vault.
pub struct VaultUnlockUi {
    pub can_release: bool,
}

impl VaultUnlockUi {
    /// A fresh window, able to release the vault once.
    pub fn new() -> (w: VaultUnlockUi)
        ensures
            w.can_release,
    {
        VaultUnlockUi { can_release: true }
    }

    /// Handles pressing Enter with `text` typed: the right password releases
    /// the vault once; a wrong one changes nothing.
    pub fn submit(&mut self, text: &str) -> (o: SubmitOutcome)
        ensures
            text@ != vault_password() ==> o == SubmitOutcome::Rejected && final(self).can_release == old(self).can_release,
            text@ == vault_password() && old(self).can_release ==> o == SubmitOutcome::Accepted && !final(self).can_release,
            text@ == vault_password() && !old(self).can_release ==> o == SubmitOutcome::AlreadySent && !final(self).can_release,
    {
        if is_vault_password(text) {
            if self.can_release {
                self.can_release = false;
                SubmitOutcome::Accepted
            } else {
                SubmitOutcome::AlreadySent
            }
        } else {
            SubmitOutcome::Rejected
        }
    }
}

/// While an unlock window is open, no request opens another one.
pub proof fn law_one_unlock_window(granted_ms: Option<u64>, now_ms: u64)
    ensures
        unlock_action(granted_ms, now_ms, true) != UnlockAction::OpenWindow,
{
}

/// Once the password is accepted at `t` (as [`VaultState::unlock_granted`]
/// leaves the state), requests get the cached capability for the next
/// [`VAULT_CAP_TTL_SECS`] seconds, and from then on a new unlock window.
pub proof fn law_granted_cap_is_reused(s: VaultState, t: u64, now_ms: u64)
    requires
        s.granted_ms == Some(t),
        !s.pending_unlock,
        t <= now_ms,
    ensures
        now_ms - t < VAULT_CAP_TTL_SECS * 1000 ==> unlock_action(s.granted_ms, now_ms, s.pending_unlock) == UnlockAction::ReturnCached,
        now_ms - t >= VAULT_CAP_TTL_SECS * 1000 ==> unlock_action(s.granted_ms, now_ms, s.pending_unlock) == UnlockAction::OpenWindow,
        cap_active(s.granted_ms, t),
{
}

/// A locked vault with no window open opens one.
pub proof fn law_locked_vault_opens_window(granted_ms: Option<u64>, now_ms: u64)
    requires
        !cap_active(granted_ms, now_ms),
    ensures
        unlock_action(granted_ms, now_ms, false) == UnlockAction::OpenWindow,
{
}

} // verus!
