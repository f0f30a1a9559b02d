//! The settings that the operations are handed.

use vstd::prelude::*;

verus! {

/// The settings that the records consult. They are handed to each operation
/// that needs them.
#[derive(Clone, Copy, Debug)]
pub struct Config {
    /// The iteration count given to the password hash of a new account.
    pub password_iterations: i32,
    /// Whether pending invitations may be taken.
    pub invitations_allowed: bool,
}

impl Config {
    pub fn new(password_iterations: i32, invitations_allowed: bool) -> (config: Config)
        ensures
            config.password_iterations == password_iterations,
            config.invitations_allowed == invitations_allowed,
    {
        Config { password_iterations, invitations_allowed }
    }

    pub fn password_iterations(&self) -> (n: i32)
        ensures
            n == self.password_iterations,
    {
        self.password_iterations
    }

    pub fn invitations_allowed(&self) -> (allowed: bool)
        ensures
            allowed == self.invitations_allowed,
    {
        self.invitations_allowed
    }
}

} // verus!
