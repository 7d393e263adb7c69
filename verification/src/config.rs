use vstd::prelude::*;

verus! {

/// One snapshot of the operator-controlled settings that negotiation
/// policies consult on every call.
///
/// Percentages are fixed-point decimals counted in hundredths of a percent
/// (so `500` stands for `5.00%`); a percentage of `0` disables the charity
/// extension altogether. An absent field is a deployment fault: policies
/// that need it refuse to run rather than guess a default.
pub struct GlobalsState {
    /// Wallet identifier the charity cut is to be paid to.
    pub charity_wallet: Option<String>,
    /// Charity cut in hundredths of a percent; `0` disables the extension.
    pub charity_percentage: Option<i64>,
}

/// The process-wide Shared Configuration State.
///
/// The store hands out whole-value snapshots: `read` returns an owned,
/// consistent copy and `replace` swaps the entire value, so a reader never
/// observes a half-updated configuration. Only an external administrative
/// path calls `replace`; negotiation components only ever `read`.
pub struct ConfigStore {
    state: GlobalsState,
}

impl ConfigStore {
    /// The snapshot the store currently holds.
    pub closed spec fn snapshot(self) -> GlobalsState {
        self.state
    }

    pub fn new(initial: GlobalsState) -> (store: ConfigStore)
        ensures
            store.snapshot() == initial,
    {
        ConfigStore { state: initial }
    }

    /// Returns an owned copy of the current snapshot, never a live
    /// reference into the store.
    pub fn read(&self) -> (snapshot: GlobalsState)
        ensures
            snapshot == self.snapshot(),
    {
        GlobalsState {
            charity_wallet: match &self.state.charity_wallet {
                Some(wallet) => Some(wallet.clone()),
                None => None,
            },
            charity_percentage: self.state.charity_percentage,
        }
    }

    /// Atomically replaces the whole configuration value.
    pub fn replace(&mut self, new_state: GlobalsState)
        ensures
            final(self).snapshot() == new_state,
    {
        self.state = new_state;
    }
}

} // verus!
