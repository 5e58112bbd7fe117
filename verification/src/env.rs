//! The pool as one call sees it: what is stored, who signed, and what the call makes happen
//! outside of the pool.
use crate::address::Address;
use crate::errors::VaultError;
use crate::events::{ActionDetails, Event};
use crate::storage::{
    Account, AdminAction, ChangelogEntry, LeaderboardEntry, Pool, RateHistoryEntry, Settings,
    StakeHistoryEntry, TotalStakedSnapshot, VestingEntry,
};
use crate::table::{Table, UserEpochSnapshotKey};
use vstd::prelude::*;

verus! {

/// Something that a call makes happen outside of the pool.
#[derive(Clone, Debug)]
pub enum Effect {
    /// An event is published.
    Publish(Event),
    /// `amount` of `token` goes from one address to another.
    Transfer { token: Address, from: Address, to: Address, amount: i128 },
    /// The receipt contract mints a receipt for a new position.
    MintReceipt { nft: Address, owner: Address, vault: Address, amount: i128, ledger: u32 },
    /// The receipt contract burns the receipt of a closed position.
    BurnReceipt { nft: Address, owner: Address },
    /// The pool's balance of `token` is to be read and handed to `check_auto_pause`.
    CheckReserve { token: Address },
}

/// The pool at the ledger `sequence`. The tables hold an entry for each user of whom
/// something is stored.
#[derive(Clone)]
pub struct Env {
    /// The ledger in which the call runs.
    pub sequence: u32,
    /// The address of the pool itself.
    pub contract: Address,
    /// The addresses that authorised the call.
    pub signers: Vec<Address>,
    /// What only the admin's calls change.
    pub settings: Settings,
    /// The totals of the pool.
    pub pool: Pool,
    /// What is stored about each user.
    pub accounts: Table<Address, Account>,
    /// The shares of each user by ledger, oldest first.
    pub votes: Table<Address, Vec<(u32, i128)>>,
    /// The last stakes and unstakes of each user, oldest first.
    pub stake_log: Table<Address, Vec<StakeHistoryEntry>>,
    /// The rewards of each user that vest.
    pub vesting: Table<Address, Vec<VestingEntry>>,
    /// What each user had staked at the end of each epoch.
    pub epoch_stakes: Table<UserEpochSnapshotKey, i128>,
    /// The reward per staked token of each epoch.
    pub epoch_factors: Table<u32, i128>,
    /// When the reward rate changed, and from what.
    pub rate_history: Vec<(u32, u32)>,
    /// When the reward rate changed, from what to what, and by whom.
    pub reward_rate_history: Vec<RateHistoryEntry>,
    /// The boost tiers: after how many ledgers which multiplier.
    pub boost_schedule: Vec<(u32, u32)>,
    /// The last changes that an admin made.
    pub changelog: Vec<ChangelogEntry>,
    /// The largest positions, largest first.
    pub leaderboard: Vec<LeaderboardEntry>,
    /// The users with a position, in the order in which they came.
    pub stakers: Vec<Address>,
    /// Governance checkpoints, oldest first.
    pub snapshots: Vec<TotalStakedSnapshot>,
    /// What the admin says of the pool.
    pub description: Option<String>,
    /// What the call makes happen, in this order.
    pub effects: Vec<Effect>,
}

/// What an `Env` stands for.
#[verifier::ext_equal]
pub struct State {
    pub sequence: u32,
    pub contract: Address,
    pub signers: Seq<Address>,
    pub settings: Settings,
    pub pool: Pool,
    pub accounts: Map<Address, Account>,
    pub votes: Map<Address, Seq<(u32, i128)>>,
    pub stake_log: Map<Address, Seq<StakeHistoryEntry>>,
    pub vesting: Map<Address, Seq<VestingEntry>>,
    pub epoch_stakes: Map<UserEpochSnapshotKey, i128>,
    pub epoch_factors: Map<u32, i128>,
    pub rate_history: Seq<(u32, u32)>,
    pub reward_rate_history: Seq<RateHistoryEntry>,
    pub boost_schedule: Seq<(u32, u32)>,
    pub changelog: Seq<ChangelogEntry>,
    pub leaderboard: Seq<LeaderboardEntry>,
    pub stakers: Seq<Address>,
    pub snapshots: Seq<TotalStakedSnapshot>,
    pub description: Option<String>,
    pub effects: Seq<Effect>,
}

impl View for Env {
    type V = State;

    open spec fn view(&self) -> State {
        State {
            sequence: self.sequence,
            contract: self.contract,
            signers: self.signers@,
            settings: self.settings,
            pool: self.pool,
            accounts: self.accounts@,
            votes: self.votes@,
            stake_log: self.stake_log@,
            vesting: self.vesting@,
            epoch_stakes: self.epoch_stakes@,
            epoch_factors: self.epoch_factors@,
            rate_history: self.rate_history@,
            reward_rate_history: self.reward_rate_history@,
            boost_schedule: self.boost_schedule@,
            changelog: self.changelog@,
            leaderboard: self.leaderboard@,
            stakers: self.stakers@,
            snapshots: self.snapshots@,
            description: self.description,
            effects: self.effects@,
        }
    }
}

/// A step that came back with `r` and left the pool as `after` did what `expected` says. After
/// an error the pool counts for nothing.
pub open spec fn did(
    r: Result<(), VaultError>,
    after: State,
    expected: Result<State, VaultError>,
) -> bool {
    match expected {
        Ok(next) => r is Ok && after =~= next,
        Err(e) => r == Err::<(), VaultError>(e),
    }
}

/// The same of a step that hands something out.
pub open spec fn gave<T>(
    r: Result<T, VaultError>,
    after: State,
    expected: Result<(State, T), VaultError>,
) -> bool {
    match expected {
        Ok((next, value)) => r == Ok::<T, VaultError>(value) && after =~= next,
        Err(e) => r == Err::<T, VaultError>(e),
    }
}

/// A call came out as `expected` says: with the pool as it is then, or with an error.
pub open spec fn moves_to(
    r: Result<Env, VaultError>,
    expected: Result<State, VaultError>,
) -> bool {
    match (r, expected) {
        (Ok(env), Ok(next)) => env@ =~= next,
        (Err(e), Err(f)) => e == f,
        _ => false,
    }
}

/// The same of a call that hands something out.
pub open spec fn moves_with<T>(
    r: Result<(Env, T), VaultError>,
    expected: Result<(State, T), VaultError>,
) -> bool {
    match (r, expected) {
        (Ok((env, value)), Ok((next, expected_value))) => env@ =~= next && value == expected_value,
        (Err(e), Err(f)) => e == f,
        _ => false,
    }
}

impl State {
    /// The pool of a contract that was just deployed.
    pub open spec fn blank(contract: Address, sequence: u32) -> State {
        State {
            sequence,
            contract,
            signers: Seq::empty(),
            settings: Settings::blank(),
            pool: Pool::blank(),
            accounts: Map::empty(),
            votes: Map::empty(),
            stake_log: Map::empty(),
            vesting: Map::empty(),
            epoch_stakes: Map::empty(),
            epoch_factors: Map::empty(),
            rate_history: Seq::empty(),
            reward_rate_history: Seq::empty(),
            boost_schedule: Seq::empty(),
            changelog: Seq::empty(),
            leaderboard: Seq::empty(),
            stakers: Seq::empty(),
            snapshots: Seq::empty(),
            description: None,
            effects: Seq::empty(),
        }
    }

    /// `who` authorised the call.
    pub open spec fn authorized(self, who: Address) -> bool {
        self.signers.contains(who)
    }

    /// What is stored about a user.
    pub open spec fn account(self, user: Address) -> Account {
        if self.accounts.contains_key(user) {
            self.accounts[user]
        } else {
            Account::blank()
        }
    }

    /// The shares of a user by ledger.
    pub open spec fn votes_of(self, user: Address) -> Seq<(u32, i128)> {
        if self.votes.contains_key(user) {
            self.votes[user]
        } else {
            Seq::empty()
        }
    }

    /// The last stakes and unstakes of a user.
    pub open spec fn stake_log_of(self, user: Address) -> Seq<StakeHistoryEntry> {
        if self.stake_log.contains_key(user) {
            self.stake_log[user]
        } else {
            Seq::empty()
        }
    }

    /// The rewards of a user that vest.
    pub open spec fn vesting_of(self, user: Address) -> Seq<VestingEntry> {
        if self.vesting.contains_key(user) {
            self.vesting[user]
        } else {
            Seq::empty()
        }
    }

    /// The pool with another account for a user.
    pub open spec fn with_account(self, user: Address, account: Account) -> State {
        State { accounts: self.accounts.insert(user, account), ..self }
    }

    /// The pool with other totals.
    pub open spec fn with_pool(self, pool: Pool) -> State {
        State { pool, ..self }
    }

    /// The pool with other settings.
    pub open spec fn with_settings(self, settings: Settings) -> State {
        State { settings, ..self }
    }

    /// The ledger of the last change is now.
    pub open spec fn touched(self) -> State {
        self.with_pool(Pool { last_updated_ledger: self.sequence, ..self.pool })
    }

    /// One more thing happens.
    pub open spec fn effect(self, effect: Effect) -> State {
        State { effects: self.effects.push(effect), ..self }
    }

    /// One more event is published.
    pub open spec fn publish(self, event: Event) -> State {
        self.effect(Effect::Publish(event))
    }

    /// One more admin action is published.
    pub open spec fn admin_acted(
        self,
        action: AdminAction,
        actor: Address,
        details: ActionDetails,
    ) -> State {
        self.publish(Event::AdminActed { action, actor, details, ledger: self.sequence })
    }

    /// `amount` of `token` leaves the pool.
    pub open spec fn pay(self, token: Address, to: Address, amount: i128) -> State {
        self.effect(Effect::Transfer { token, from: self.contract, to, amount })
    }

    /// `amount` of `token` comes into the pool.
    pub open spec fn collect(self, token: Address, from: Address, amount: i128) -> State {
        self.effect(Effect::Transfer { token, from, to: self.contract, amount })
    }
}

impl Env {
    /// The pool of a contract that was just deployed.
    pub fn new(contract: Address, sequence: u32) -> (env: Env)
        ensures
            env@ == State::blank(contract, sequence),
    {
        Env {
            sequence,
            contract,
            signers: Vec::new(),
            settings: Settings::new(),
            pool: Pool::new(),
            accounts: Table::new(),
            votes: Table::new(),
            stake_log: Table::new(),
            vesting: Table::new(),
            epoch_stakes: Table::new(),
            epoch_factors: Table::new(),
            rate_history: Vec::new(),
            reward_rate_history: Vec::new(),
            boost_schedule: Vec::new(),
            changelog: Vec::new(),
            leaderboard: Vec::new(),
            stakers: Vec::new(),
            snapshots: Vec::new(),
            description: None,
            effects: Vec::new(),
        }
    }

    /// Whether `who` authorised the call.
    pub fn is_authorized(&self, who: Address) -> (r: bool)
        ensures
            r == self@.authorized(who),
    {
        crate::history::listed(&self.signers, who)
    }

    /// What is stored about a user.
    pub fn account(&self, user: Address) -> (account: Account)
        ensures
            account == self@.account(user),
    {
        match self.accounts.get(user) {
            Some(account) => *account,
            None => Account::new(),
        }
    }

    /// Stores something about a user.
    pub fn set_account(&mut self, user: Address, account: Account)
        ensures
            final(self)@ == old(self)@.with_account(user, account),
    {
        self.accounts.set(user, account);
    }

    /// Makes one more thing happen.
    pub fn effect(&mut self, effect: Effect)
        ensures
            final(self)@ == old(self)@.effect(effect),
    {
        self.effects.push(effect);
    }

    /// Publishes one more event.
    pub fn publish(&mut self, event: Event)
        ensures
            final(self)@ == old(self)@.publish(event),
    {
        self.effect(Effect::Publish(event));
    }

    /// Publishes one more admin action.
    pub fn admin_acted(&mut self, action: AdminAction, actor: Address, details: ActionDetails)
        ensures
            final(self)@ == old(self)@.admin_acted(action, actor, details),
    {
        let ledger: u32 = self.sequence;
        self.publish(Event::AdminActed { action, actor, details, ledger });
    }

    /// Sends `amount` of `token` out of the pool.
    pub fn pay(&mut self, token: Address, to: Address, amount: i128)
        ensures
            final(self)@ == old(self)@.pay(token, to, amount),
    {
        let from = self.contract;
        self.effect(Effect::Transfer { token, from, to, amount });
    }

    /// Takes `amount` of `token` into the pool.
    pub fn collect(&mut self, token: Address, from: Address, amount: i128)
        ensures
            final(self)@ == old(self)@.collect(token, from, amount),
    {
        let to = self.contract;
        self.effect(Effect::Transfer { token, from, to, amount });
    }
}

} // verus!
