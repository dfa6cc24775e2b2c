//! Environment-variable commands.
use vstd::prelude::*;
use crate::model::{AppError, AppType};

verus! {

/// The environment-variable commands.
pub enum EnvCommand {
    /// Check for environment variable conflicts.
    Check,
    /// List all relevant environment variables.
    List,
    /// Set an environment variable.
    SetVar { key: String, value: String },
    /// Unset an environment variable.
    Unset { key: String },
}

/// The application a command addresses: the one named, else the default one.
pub fn target_app(app: Option<AppType>) -> (r: AppType)
    ensures
        r == match app {
            Some(a) => a,
            None => AppType::Claude,
        },
{
    match app {
        Some(a) => a,
        None => AppType::Claude,
    }
}

/// The message each command reports.
pub open spec fn env_message(cmd: EnvCommand) -> Seq<char> {
    match cmd {
        EnvCommand::Check => "Checking environment variable conflicts..."@,
        EnvCommand::List => "Listing environment variables..."@,
        EnvCommand::SetVar { .. } => "Setting environment variable..."@,
        EnvCommand::Unset { .. } => "Unsetting environment variable..."@,
    }
}

fn check_conflicts(_app: AppType) -> (r: String)
    ensures
        r@ == env_message(EnvCommand::Check),
{
    "Checking environment variable conflicts...".to_owned()
}

fn list_env_vars(_app: AppType) -> (r: String)
    ensures
        r@ == env_message(EnvCommand::List),
{
    "Listing environment variables...".to_owned()
}

fn set_env_var(_app: AppType, _key: &str, _value: &str) -> (r: String)
    ensures
        r@ == "Setting environment variable..."@,
{
    "Setting environment variable...".to_owned()
}

fn unset_env_var(_app: AppType, _key: &str) -> (r: String)
    ensures
        r@ == "Unsetting environment variable..."@,
{
    "Unsetting environment variable...".to_owned()
}

/// Runs an environment command for `app` (the default one when none is named) and
/// returns the message to show.
pub fn execute(cmd: EnvCommand, app: Option<AppType>) -> (r: Result<String, AppError>)
    ensures
        r matches Ok(m) && m@ == env_message(cmd),
{
    let app_type = target_app(app);
    let m = match cmd {
        EnvCommand::Check => check_conflicts(app_type),
        EnvCommand::List => list_env_vars(app_type),
        EnvCommand::SetVar { key, value } => set_env_var(app_type, key.as_str(), value.as_str()),
        EnvCommand::Unset { key } => unset_env_var(app_type, key.as_str()),
    };
    Ok(m)
}

} // verus!
