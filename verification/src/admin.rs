//! Who is in charge.
use crate::address::Address;
use crate::env::{Env, State};
use crate::errors::VaultError;
use crate::storage::Settings;
use vstd::prelude::*;

verus! {

impl State {
    /// Why the call is not one of the admin, where it is not.
    pub open spec fn admin_refusal(self) -> Option<VaultError> {
        match self.settings.admin {
            None => Some(VaultError::NotInitialized),
            Some(admin) => if self.authorized(admin) {
                None
            } else {
                Some(VaultError::Unauthorized)
            },
        }
    }

    /// The admin.
    pub open spec fn admin(self) -> Address {
        self.settings.admin->Some_0
    }

    /// A call that only the admin may make, and that then comes out as `next`.
    pub open spec fn by_admin(self, next: State) -> Result<State, VaultError> {
        match self.admin_refusal() {
            Some(e) => Err(e),
            None => Ok(next),
        }
    }

    /// A query that is answered with `value` once the pool is set up.
    pub open spec fn once_set_up<T>(self, value: T) -> Result<T, VaultError> {
        match self.settings.admin {
            Some(_) => Ok(value),
            None => Err(VaultError::NotInitialized),
        }
    }

    /// One more admin action is counted.
    pub open spec fn counted(self) -> State {
        let count = self.settings.admin_action_count;
        self.with_settings(
            Settings {
                admin_action_count: if count < u32::MAX {
                    (count + 1) as u32
                } else {
                    count
                },
                ..self.settings
            },
        )
    }
}

/// The admin of the pool.
pub fn get_admin(env: &Env) -> (r: Result<Address, VaultError>)
    ensures
        r == env@.once_set_up(env@.admin()),
{
    match env.settings.admin {
        Some(admin) => Ok(admin),
        None => Err(VaultError::NotInitialized),
    }
}

/// Makes sure that the admin authorised the call. Hands out the admin.
pub fn require_admin(env: &Env) -> (r: Result<Address, VaultError>)
    ensures
        match env@.admin_refusal() {
            Some(e) => r == Err::<Address, VaultError>(e),
            None => r == Ok::<Address, VaultError>(env@.admin()),
        },
{
    let admin = get_admin(env)?;
    if env.is_authorized(admin) {
        Ok(admin)
    } else {
        Err(VaultError::Unauthorized)
    }
}

/// Counts one more admin action.
pub fn count_action(env: &mut Env)
    ensures
        final(env)@ == old(env)@.counted(),
{
    env.settings.admin_action_count = env.settings.admin_action_count.saturating_add(1);
}

} // verus!
