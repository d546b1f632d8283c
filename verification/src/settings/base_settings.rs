//! The settings that the site takes from its environment variables.

use crate::number::{parse_port, port_of};
use crate::settings::environment::{environment_of, Environment};
use vstd::prelude::*;

verus! {

/// The environment variables that the settings are made of, each as it was
/// found: `None` for a variable that is not set.
#[derive(Clone, Debug)]
pub struct Variables {
    /// `ENVIRONMENT`
    pub environment: Option<String>,
    /// `HOST`
    pub host: Option<String>,
    /// `PORT`
    pub port: Option<String>,
    /// `PROJECT_NAME`
    pub project_name: Option<String>,
    /// `PROJECT_DESCRIPTION`
    pub project_description: Option<String>,
    /// `PROJECT_KEYWORDS`
    pub project_keywords: Option<String>,
    /// `HOME_URL`
    pub home_url: Option<String>,
    /// `ANALYTICS_DOMAIN`
    pub analytics_domain: Option<String>,
    /// `SENTRY_DSN`
    pub sentry_dsn: Option<String>,
}

/// The settings of the site.
#[derive(Clone, Debug)]
pub struct BaseSettings {
    pub host: String,
    pub port: u16,
    pub environment: Environment,
    pub project_name: String,
    pub project_description: String,
    pub project_keywords: String,
    pub home_url: String,
    pub analytics_domain: String,
    pub sentry_dsn: String,
}

/// What is wrong with the environment variables.
#[derive(Clone, Copy, Debug, PartialEq, Eq, Structural)]
pub enum SettingsError {
    /// `ENVIRONMENT` names no environment.
    UnsupportedEnvironment,
    /// `PORT` names no port.
    InvalidPort,
    /// `PROJECT_NAME` is not set.
    MissingProjectName,
    /// `PROJECT_DESCRIPTION` is not set.
    MissingProjectDescription,
    /// `PROJECT_KEYWORDS` is not set.
    MissingProjectKeywords,
    /// `HOME_URL` is not set.
    MissingHomeUrl,
    /// `ANALYTICS_DOMAIN` is not set.
    MissingAnalyticsDomain,
    /// `SENTRY_DSN` is not set.
    MissingSentryDsn,
}

/// The port on which the site listens when `PORT` is not set.
pub const DEFAULT_PORT: u16 = 8080;

/// The environment that the variables name: development where none is
/// named, and `None` where the name is not that of an environment.
pub open spec fn chosen_environment(variables: Variables) -> Option<Environment> {
    match variables.environment {
        Some(name) => environment_of(name@),
        None => Some(Environment::Development),
    }
}

/// The host on which the site listens where none is set: the machine alone
/// in development, every interface otherwise.
pub open spec fn default_host(environment: Environment) -> Seq<char> {
    match environment {
        Environment::Development => "127.0.0.1"@,
        Environment::Production => "0.0.0.0"@,
    }
}

/// The port that the variables name: 8080 where none is named, and `None`
/// where the name is not that of a port.
pub open spec fn chosen_port(variables: Variables) -> Option<u16> {
    match variables.port {
        Some(text) => port_of(text@),
        None => Some(DEFAULT_PORT),
    }
}

/// The first thing that is wrong with the variables, in the order in which
/// they are looked at.
pub open spec fn first_fault(variables: Variables) -> Option<SettingsError> {
    if chosen_environment(variables) is None {
        Some(SettingsError::UnsupportedEnvironment)
    } else if chosen_port(variables) is None {
        Some(SettingsError::InvalidPort)
    } else if variables.project_name is None {
        Some(SettingsError::MissingProjectName)
    } else if variables.project_description is None {
        Some(SettingsError::MissingProjectDescription)
    } else if variables.project_keywords is None {
        Some(SettingsError::MissingProjectKeywords)
    } else if variables.home_url is None {
        Some(SettingsError::MissingHomeUrl)
    } else if variables.analytics_domain is None {
        Some(SettingsError::MissingAnalyticsDomain)
    } else if variables.sentry_dsn is None {
        Some(SettingsError::MissingSentryDsn)
    } else {
        None
    }
}

/// Whether `settings` are what the variables say.
pub open spec fn settings_match(settings: BaseSettings, variables: Variables) -> bool {
    &&& Some(settings.environment) == chosen_environment(variables)
    &&& settings.host@ == match variables.host {
        Some(host) => host@,
        None => default_host(settings.environment),
    }
    &&& Some(settings.port) == chosen_port(variables)
    &&& variables.project_name matches Some(text) && settings.project_name@ == text@
    &&& variables.project_description matches Some(text) && settings.project_description@ == text@
    &&& variables.project_keywords matches Some(text) && settings.project_keywords@ == text@
    &&& variables.home_url matches Some(text) && settings.home_url@ == text@
    &&& variables.analytics_domain matches Some(text) && settings.analytics_domain@ == text@
    &&& variables.sentry_dsn matches Some(text) && settings.sentry_dsn@ == text@
}

impl SettingsError {
    /// The environment variable that the error is about.
    pub fn variable(&self) -> (name: &'static str)
        ensures
            name@ == match self {
                SettingsError::UnsupportedEnvironment => "ENVIRONMENT"@,
                SettingsError::InvalidPort => "PORT"@,
                SettingsError::MissingProjectName => "PROJECT_NAME"@,
                SettingsError::MissingProjectDescription => "PROJECT_DESCRIPTION"@,
                SettingsError::MissingProjectKeywords => "PROJECT_KEYWORDS"@,
                SettingsError::MissingHomeUrl => "HOME_URL"@,
                SettingsError::MissingAnalyticsDomain => "ANALYTICS_DOMAIN"@,
                SettingsError::MissingSentryDsn => "SENTRY_DSN"@,
            },
    {
        match self {
            SettingsError::UnsupportedEnvironment => "ENVIRONMENT",
            SettingsError::InvalidPort => "PORT",
            SettingsError::MissingProjectName => "PROJECT_NAME",
            SettingsError::MissingProjectDescription => "PROJECT_DESCRIPTION",
            SettingsError::MissingProjectKeywords => "PROJECT_KEYWORDS",
            SettingsError::MissingHomeUrl => "HOME_URL",
            SettingsError::MissingAnalyticsDomain => "ANALYTICS_DOMAIN",
            SettingsError::MissingSentryDsn => "SENTRY_DSN",
        }
    }
}

impl BaseSettings {
    /// The settings that the environment variables stand for.
    ///
    /// The site runs in development unless `ENVIRONMENT` says otherwise. It
    /// listens on `HOST`, or on the machine alone in development and on
    /// every interface in production, and on `PORT`, or on 8080. The other
    /// variables have to be set. The first variable that is wrong, in the
    /// order of [`first_fault`], makes the error.
    pub fn from_variables(variables: Variables) -> (settings: Result<BaseSettings, SettingsError>)
        ensures
            match settings {
                Ok(made) => first_fault(variables) is None && settings_match(made, variables),
                Err(error) => first_fault(variables) == Some(error),
            },
    {
        let environment = match &variables.environment {
            Some(name) => match Environment::try_from(name.clone()) {
                Ok(found) => found,
                Err(_) => {
                    return Err(SettingsError::UnsupportedEnvironment);
                },
            },
            None => Environment::Development,
        };
        let port = match &variables.port {
            Some(text) => match parse_port(text.as_str()) {
                Some(found) => found,
                None => {
                    return Err(SettingsError::InvalidPort);
                },
            },
            None => DEFAULT_PORT,
        };
        let host = match variables.host {
            Some(host) => host,
            None => match environment {
                Environment::Development => "127.0.0.1".to_owned(),
                Environment::Production => "0.0.0.0".to_owned(),
            },
        };
        let project_name = match variables.project_name {
            Some(text) => text,
            None => {
                return Err(SettingsError::MissingProjectName);
            },
        };
        let project_description = match variables.project_description {
            Some(text) => text,
            None => {
                return Err(SettingsError::MissingProjectDescription);
            },
        };
        let project_keywords = match variables.project_keywords {
            Some(text) => text,
            None => {
                return Err(SettingsError::MissingProjectKeywords);
            },
        };
        let home_url = match variables.home_url {
            Some(text) => text,
            None => {
                return Err(SettingsError::MissingHomeUrl);
            },
        };
        let analytics_domain = match variables.analytics_domain {
            Some(text) => text,
            None => {
                return Err(SettingsError::MissingAnalyticsDomain);
            },
        };
        let sentry_dsn = match variables.sentry_dsn {
            Some(text) => text,
            None => {
                return Err(SettingsError::MissingSentryDsn);
            },
        };
        Ok(
            BaseSettings {
                host,
                port,
                environment,
                project_name,
                project_description,
                project_keywords,
                home_url,
                analytics_domain,
                sentry_dsn,
            },
        )
    }
}

} // verus!
