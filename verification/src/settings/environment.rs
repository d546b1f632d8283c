//! Where the site runs.

use vstd::prelude::*;
use vstd::string::StringExecFns;

verus! {

/// Where the site runs.
#[derive(Clone, Copy, Debug, PartialEq, Eq, Structural)]
pub enum Environment {
    /// On a developer's machine.
    Development,
    /// Before its visitors.
    Production,
}

/// The text that `str::to_lowercase` gives for `text`: every character in
/// lower case as Unicode defines it.
pub uninterp spec fn lowercase_of(text: Seq<char>) -> Seq<char>;

/// Calls `str::to_lowercase`. The contract names the text that comes back.
#[verifier::external_body]
fn to_lowercase(text: &str) -> (lowered: String)
    ensures
        lowered@ == lowercase_of(text@),
{
    text.to_lowercase()
}

/// What follows the rejected name in the message about it.
pub open spec fn unsupported_suffix() -> Seq<char> {
    " is not a supported environment. Use either `development` or `production`."@
}

/// The environment that a name in lower case stands for.
pub open spec fn environment_named(lowered: Seq<char>) -> Option<Environment> {
    if lowered == "development"@ {
        Some(Environment::Development)
    } else if lowered == "production"@ {
        Some(Environment::Production)
    } else {
        None
    }
}

/// The environment that `name` stands for, whatever its case.
pub open spec fn environment_of(name: Seq<char>) -> Option<Environment> {
    environment_named(lowercase_of(name))
}

impl Environment {
    /// The name of the environment.
    pub open spec fn name(self) -> Seq<char> {
        match self {
            Environment::Development => "development"@,
            Environment::Production => "production"@,
        }
    }

    /// The name of the environment, in lower case.
    pub fn as_str(&self) -> (name: &'static str)
        ensures
            name@ == self.name(),
    {
        match self {
            Environment::Development => "development",
            Environment::Production => "production",
        }
    }

    /// The environment that a name in lower case stands for: `development`
    /// or `production`. Any other name is refused with a message that
    /// starts with it.
    pub fn from_lowercase(lowered: &str) -> (environment: Result<Environment, String>)
        ensures
            match environment {
                Ok(found) => environment_named(lowered@) == Some(found),
                Err(message) => environment_named(lowered@) is None && message@ == lowered@
                    + unsupported_suffix(),
            },
    {
        if crate::text::text_eq(lowered, "development") {
            Ok(Environment::Development)
        } else if crate::text::text_eq(lowered, "production") {
            Ok(Environment::Production)
        } else {
            let mut message = String::from_str(lowered);
            message.append(
                " is not a supported environment. Use either `development` or `production`.",
            );
            Err(message)
        }
    }

    /// The environment that `name` stands for, whatever its case. A name
    /// that is neither `development` nor `production` is refused with a
    /// message that starts with it, in lower case.
    pub fn try_from(name: String) -> (environment: Result<Environment, String>)
        ensures
            match environment {
                Ok(found) => environment_of(name@) == Some(found),
                Err(message) => environment_of(name@) is None && message@ == lowercase_of(name@)
                    + unsupported_suffix(),
            },
    {
        let lowered = to_lowercase(name.as_str());
        Environment::from_lowercase(lowered.as_str())
    }
}

impl Default for Environment {
    /// The site runs on a developer's machine unless told otherwise.
    fn default() -> (environment: Self)
        ensures
            environment == Environment::Development,
    {
        Environment::Development
    }
}

} // verus!
