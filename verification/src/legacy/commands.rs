use vstd::prelude::*;
use crate::text::{decimal, push_decimal, push_str};

verus! {

/// The developer commands.
#[derive(Debug, Clone)]
pub struct DevCommands {
    pub command: DevSubCommands,
}

/// A developer command.
#[derive(Debug, Clone, Copy, PartialEq, Eq)]
pub enum DevSubCommands {
    List,
    Show,
}

/// The system commands.
#[derive(Debug, Clone)]
pub struct SystemCommands {
    pub command: SystemSubCommands,
}

/// A system command.
#[derive(Debug, Clone, Copy, PartialEq, Eq)]
pub enum SystemSubCommands {
    List,
    Show,
}

/// The transaction commands.
#[derive(Debug, Clone)]
pub struct TransactionCommands {
    pub command: TransactionSubCommands,
}

/// A transaction command.
#[derive(Debug, Clone)]
pub enum TransactionSubCommands {
    Send { to: String, amount: u64 },
    List,
    Show { id: String },
}

impl DevCommands {
    /// The line the command prints.
    pub fn message(&self) -> (r: String)
        ensures
            r@ == match self.command {
                DevSubCommands::List => "Listing devs..."@,
                DevSubCommands::Show => "Showing dev details..."@,
            },
    {
        match self.command {
            DevSubCommands::List => String::from_str("Listing devs..."),
            DevSubCommands::Show => String::from_str("Showing dev details..."),
        }
    }
}

impl SystemCommands {
    /// The line the command prints.
    pub fn message(&self) -> (r: String)
        ensures
            r@ == match self.command {
                SystemSubCommands::List => "Listing systems..."@,
                SystemSubCommands::Show => "Showing system details..."@,
            },
    {
        match self.command {
            SystemSubCommands::List => String::from_str("Listing systems..."),
            SystemSubCommands::Show => String::from_str("Showing system details..."),
        }
    }
}

impl TransactionCommands {
    /// The line the command prints.
    pub fn message(&self) -> (r: String)
        ensures
            r@ == match self.command {
                TransactionSubCommands::Send { to, amount } => "Sending "@ + decimal(amount as nat) + " to "@
                    + to@,
                TransactionSubCommands::List => "Listing transactions..."@,
                TransactionSubCommands::Show { id } => "Showing transaction details for "@ + id@,
            },
    {
        match &self.command {
            TransactionSubCommands::Send { to, amount } => {
                let mut m = String::from_str("Sending ");
                push_decimal(&mut m, *amount);
                push_str(&mut m, " to ");
                push_str(&mut m, to.as_str());
                m
            },
            TransactionSubCommands::List => String::from_str("Listing transactions..."),
            TransactionSubCommands::Show { id } => {
                let mut m = String::from_str("Showing transaction details for ");
                push_str(&mut m, id.as_str());
                m
            },
        }
    }
}

} // verus!
