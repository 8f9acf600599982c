//! Per-thread pending/blocked signal masks and the per-process action table.

use vstd::prelude::*;
use crate::action::SigAction;
use crate::info::SigInfo;
use crate::signal_no::{MAX_SIG_NUM, SIGKILL_NUM, SIGSTOP_NUM};

verus! {

/// The mask bit of signal `n` (1-indexed).
pub open spec fn sig_bit(n: usize) -> u64
    recommends
        1 <= n <= MAX_SIG_NUM,
{
    1u64 << ((n - 1) as u64)
}

/// Whether signal `n` would be selected for delivery out of `pending` under
/// `mask`: it is pending, and either unblocked or one of the two unmaskable
/// signals.
pub open spec fn spec_deliverable(pending: u64, mask: u64, n: usize) -> bool {
    &&& pending & sig_bit(n) != 0
    &&& (mask & sig_bit(n) == 0 || n == SIGKILL_NUM || n == SIGSTOP_NUM)
}

/// The lowest deliverable signal number at or above `n`, if any.
pub open spec fn spec_find_from(pending: u64, mask: u64, n: usize) -> Option<usize>
    decreases MAX_SIG_NUM + 1 - n,
{
    if n < 1 || n > MAX_SIG_NUM {
        None
    } else if spec_deliverable(pending, mask, n) {
        Some(n)
    } else {
        spec_find_from(pending, mask, (n + 1) as usize)
    }
}

/// The lowest deliverable signal number, if any.
pub open spec fn spec_find_sig(pending: u64, mask: u64) -> Option<usize> {
    spec_find_from(pending, mask, 1)
}

/// What `spec_find_from` returns: the least deliverable number in range.
pub proof fn lemma_find_from_characterization(pending: u64, mask: u64, n: usize)
    requires
        1 <= n <= MAX_SIG_NUM + 1,
    ensures
        match spec_find_from(pending, mask, n) {
            Some(k) => {
                &&& n <= k <= MAX_SIG_NUM
                &&& spec_deliverable(pending, mask, k)
                &&& forall|j: usize| n <= j < k ==> !spec_deliverable(pending, mask, j)
            },
            None => forall|j: usize|
                n <= j <= MAX_SIG_NUM ==> !spec_deliverable(pending, mask, j),
        },
    decreases MAX_SIG_NUM + 1 - n,
{
    if n <= MAX_SIG_NUM && !spec_deliverable(pending, mask, n) {
        lemma_find_from_characterization(pending, mask, (n + 1) as usize);
    }
}

/// The pending and blocked signal bitmasks of one thread, with the auxiliary
/// payload stored per signal number.
#[derive(Debug)]
pub struct SignalSet {
    /// Blocked-signal mask: bit `n - 1` set means signal `n` is blocked.
    pub mask: u64,
    /// Pending-signal mask: bit `n - 1` set means signal `n` is pending.
    pub pending: u64,
    /// Auxiliary payload for pending signals, indexed by signal number - 1.
    pub info: Vec<Option<SigInfo>>,
}

impl SignalSet {
    /// The payload table covers every signal number.
    pub open spec fn wf(self) -> bool {
        self.info@.len() == MAX_SIG_NUM
    }

    /// The empty set: nothing pending, nothing blocked, no payloads.
    pub fn new() -> (r: SignalSet)
        ensures
            r.wf(),
            r.mask == 0u64,
            r.pending == 0u64,
            forall|i: int| 0 <= i < MAX_SIG_NUM ==> r.info@[i] is None,
    {
        let mut info: Vec<Option<SigInfo>> = Vec::new();
        let mut i: usize = 0;
        while i < MAX_SIG_NUM
            invariant
                i <= MAX_SIG_NUM,
                info@.len() == i,
                forall|j: int| 0 <= j < i ==> info@[j] is None,
            decreases MAX_SIG_NUM - i,
        {
            info.push(None);
            i += 1;
        }
        SignalSet { mask: 0, pending: 0, info }
    }

    /// Clears both masks; payloads are kept.
    pub fn clear(&mut self)
        ensures
            final(self).mask == 0u64,
            final(self).pending == 0u64,
            final(self).info == old(self).info,
    {
        self.mask = 0;
        self.pending = 0;
    }

    /// The lowest-numbered pending signal that is unblocked or unmaskable;
    /// `SIGKILL` and `SIGSTOP` are selected even while blocked.
    pub fn find_sig(&self) -> (r: Option<usize>)
        ensures
            r == spec_find_sig(self.pending, self.mask),
            r is Some ==> 1 <= r->0 <= MAX_SIG_NUM,
    {
        let mut n: usize = 1;
        while n <= MAX_SIG_NUM
            invariant
                1 <= n <= MAX_SIG_NUM + 1,
                spec_find_sig(self.pending, self.mask) == spec_find_from(
                    self.pending,
                    self.mask,
                    n,
                ),
            decreases MAX_SIG_NUM + 1 - n,
        {
            let bit: u64 = 1u64 << ((n - 1) as u64);
            if self.pending & bit != 0 && (self.mask & bit == 0 || n == SIGKILL_NUM || n
                == SIGSTOP_NUM) {
                return Some(n);
            }
            n += 1;
        }
        None
    }

    /// Pops the signal `find_sig` selects: clears its pending bit and
    /// returns its number.
    pub fn get_one_sig(&mut self) -> (r: Option<usize>)
        ensures
            r == spec_find_sig(old(self).pending, old(self).mask),
            final(self).mask == old(self).mask,
            final(self).info == old(self).info,
            match r {
                Some(n) => final(self).pending == old(self).pending & !sig_bit(n),
                None => final(self).pending == old(self).pending,
            },
    {
        if let Some(sig) = self.find_sig() {
            self.pending = self.pending & !(1u64 << ((sig - 1) as u64));
            Some(sig)
        } else {
            None
        }
    }

    /// Marks signal `sig_num` pending and stores its payload if one came
    /// with it.
    pub fn try_add_sig(&mut self, sig_num: usize, info: Option<SigInfo>)
        requires
            1 <= sig_num <= MAX_SIG_NUM,
            old(self).wf(),
        ensures
            final(self).wf(),
            final(self).pending == old(self).pending | sig_bit(sig_num),
            final(self).mask == old(self).mask,
            final(self).info@ == match info {
                Some(si) => old(self).info@.update(sig_num - 1, Some(si)),
                None => old(self).info@,
            },
    {
        let now_bit: u64 = 1u64 << ((sig_num - 1) as u64);
        self.pending = self.pending | now_bit;
        if let Some(si) = info {
            self.info.set(sig_num - 1, Some(si));
        }
    }
}

/// The signal action table of one thread group: one action per signal.
#[derive(Debug)]
pub struct SignalHandler {
    /// Actions indexed by signal number - 1.
    pub handlers: Vec<SigAction>,
}

impl SignalHandler {
    /// The table covers every signal number.
    pub open spec fn wf(self) -> bool {
        self.handlers@.len() == MAX_SIG_NUM
    }

    /// A table of all-default actions.
    pub fn new() -> (r: SignalHandler)
        ensures
            r.wf(),
            forall|i: int| 0 <= i < MAX_SIG_NUM ==> r.handlers@[i] == SigAction::spec_default(),
    {
        let mut handlers: Vec<SigAction> = Vec::new();
        let mut i: usize = 0;
        while i < MAX_SIG_NUM
            invariant
                i <= MAX_SIG_NUM,
                handlers@.len() == i,
                forall|j: int| 0 <= j < i ==> handlers@[j] == SigAction::spec_default(),
            decreases MAX_SIG_NUM - i,
        {
            handlers.push(SigAction::default());
            i += 1;
        }
        SignalHandler { handlers }
    }

    /// Resets every action to the default.
    pub fn clear(&mut self)
        requires
            old(self).wf(),
        ensures
            final(self).wf(),
            forall|i: int|
                0 <= i < MAX_SIG_NUM ==> final(self).handlers@[i] == SigAction::spec_default(),
    {
        let mut i: usize = 0;
        while i < MAX_SIG_NUM
            invariant
                i <= MAX_SIG_NUM,
                self.handlers@.len() == MAX_SIG_NUM,
                forall|j: int| 0 <= j < i ==> self.handlers@[j] == SigAction::spec_default(),
            decreases MAX_SIG_NUM - i,
        {
            self.handlers.set(i, SigAction::default());
            i += 1;
        }
    }

    /// The action of signal `sig_num`.
    pub fn get_action(&self, sig_num: usize) -> (r: &SigAction)
        requires
            self.wf(),
            1 <= sig_num <= MAX_SIG_NUM,
        ensures
            *r == self.handlers@[sig_num - 1],
    {
        &self.handlers[sig_num - 1]
    }

    /// Replaces the action of signal `sig_num`.
    pub fn set_action(&mut self, sig_num: usize, action: &SigAction)
        requires
            old(self).wf(),
            1 <= sig_num <= MAX_SIG_NUM,
        ensures
            final(self).wf(),
            final(self).handlers@ == old(self).handlers@.update(sig_num - 1, *action),
    {
        self.handlers.set(sig_num - 1, *action);
    }
}

impl Default for SignalHandler {
    /// A table of all-default actions.
    fn default() -> (r: SignalHandler)
        ensures
            r.wf(),
            forall|i: int| 0 <= i < MAX_SIG_NUM ==> r.handlers@[i] == SigAction::spec_default(),
    {
        SignalHandler::new()
    }
}

} // verus!
