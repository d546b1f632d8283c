use webserver_base::settings::base_settings::{BaseSettings, SettingsError, Variables, DEFAULT_PORT};
use webserver_base::settings::environment::Environment;

fn all_set() -> Variables {
    Variables {
        environment: Some("production".to_string()),
        host: Some("192.168.0.1".to_string()),
        port: Some("3000".to_string()),
        project_name: Some("name".to_string()),
        project_description: Some("description".to_string()),
        project_keywords: Some("a,b".to_string()),
        home_url: Some("https://example.org".to_string()),
        analytics_domain: Some("example.org".to_string()),
        sentry_dsn: Some("dsn".to_string()),
    }
}

fn error_of(variables: Variables) -> Option<SettingsError> {
    BaseSettings::from_variables(variables).err()
}

#[test]
fn environment_names() {
    assert_eq!(Environment::Development.as_str(), "development");
    assert_eq!(Environment::Production.as_str(), "production");
    assert_eq!(Environment::default(), Environment::Development);
}

#[test]
fn environment_from_its_name_in_any_case() {
    assert_eq!(Environment::try_from("development".to_string()), Ok(Environment::Development));
    assert_eq!(Environment::try_from("production".to_string()), Ok(Environment::Production));
    assert_eq!(Environment::try_from("PRODUCTION".to_string()), Ok(Environment::Production));
    assert_eq!(Environment::try_from("DeVeLoPmEnT".to_string()), Ok(Environment::Development));
    assert_eq!(Environment::from_lowercase("production"), Ok(Environment::Production));
    assert!(Environment::from_lowercase("PRODUCTION").is_err());
}

#[test]
fn environment_from_another_name_is_refused() {
    assert_eq!(
        Environment::try_from("Staging".to_string()),
        Err("staging is not a supported environment. Use either `development` or `production`."
            .to_string())
    );
    assert_eq!(
        Environment::try_from(String::new()),
        Err(" is not a supported environment. Use either `development` or `production`."
            .to_string())
    );
    assert!(Environment::try_from(" production".to_string()).is_err());
    assert!(Environment::try_from("prod".to_string()).is_err());
}

#[test]
fn settings_from_all_variables() {
    let settings = BaseSettings::from_variables(all_set()).unwrap();
    assert_eq!(settings.environment, Environment::Production);
    assert_eq!(settings.host, "192.168.0.1");
    assert_eq!(settings.port, 3000);
    assert_eq!(settings.project_name, "name");
    assert_eq!(settings.project_description, "description");
    assert_eq!(settings.project_keywords, "a,b");
    assert_eq!(settings.home_url, "https://example.org");
    assert_eq!(settings.analytics_domain, "example.org");
    assert_eq!(settings.sentry_dsn, "dsn");
    let copy = settings.clone();
    assert_eq!(copy.host, settings.host);
    assert_eq!(copy.port, settings.port);
    assert_eq!(copy.sentry_dsn, settings.sentry_dsn);
}

#[test]
fn settings_fall_back_on_defaults() {
    let settings = BaseSettings::from_variables(Variables {
        environment: None,
        host: None,
        port: None,
        ..all_set()
    })
    .unwrap();
    assert_eq!(settings.environment, Environment::Development);
    assert_eq!(settings.host, "127.0.0.1");
    assert_eq!(settings.port, 8080);
    assert_eq!(DEFAULT_PORT, 8080);
    let settings =
        BaseSettings::from_variables(Variables { host: None, ..all_set() }).unwrap();
    assert_eq!(settings.host, "0.0.0.0");
    let settings = BaseSettings::from_variables(Variables {
        environment: Some("Development".to_string()),
        host: None,
        ..all_set()
    })
    .unwrap();
    assert_eq!(settings.host, "127.0.0.1");
}

#[test]
fn each_fault_has_its_error() {
    assert_eq!(
        error_of(Variables { environment: Some("staging".to_string()), ..all_set() }),
        Some(SettingsError::UnsupportedEnvironment)
    );
    assert_eq!(
        error_of(Variables { port: Some("http".to_string()), ..all_set() }),
        Some(SettingsError::InvalidPort)
    );
    assert_eq!(
        error_of(Variables { port: Some("65536".to_string()), ..all_set() }),
        Some(SettingsError::InvalidPort)
    );
    assert_eq!(
        error_of(Variables { project_name: None, ..all_set() }),
        Some(SettingsError::MissingProjectName)
    );
    assert_eq!(
        error_of(Variables { project_description: None, ..all_set() }),
        Some(SettingsError::MissingProjectDescription)
    );
    assert_eq!(
        error_of(Variables { project_keywords: None, ..all_set() }),
        Some(SettingsError::MissingProjectKeywords)
    );
    assert_eq!(
        error_of(Variables { home_url: None, ..all_set() }),
        Some(SettingsError::MissingHomeUrl)
    );
    assert_eq!(
        error_of(Variables { analytics_domain: None, ..all_set() }),
        Some(SettingsError::MissingAnalyticsDomain)
    );
    assert_eq!(
        error_of(Variables { sentry_dsn: None, ..all_set() }),
        Some(SettingsError::MissingSentryDsn)
    );
}

#[test]
fn the_first_fault_makes_the_error() {
    assert_eq!(
        error_of(Variables {
            environment: Some("x".to_string()),
            port: Some("x".to_string()),
            project_name: None,
            ..all_set()
        }),
        Some(SettingsError::UnsupportedEnvironment)
    );
    assert_eq!(
        error_of(Variables { port: Some("x".to_string()), sentry_dsn: None, ..all_set() }),
        Some(SettingsError::InvalidPort)
    );
    assert_eq!(
        error_of(Variables { home_url: None, sentry_dsn: None, ..all_set() }),
        Some(SettingsError::MissingHomeUrl)
    );
}

#[test]
fn each_error_names_its_variable() {
    assert_eq!(SettingsError::UnsupportedEnvironment.variable(), "ENVIRONMENT");
    assert_eq!(SettingsError::InvalidPort.variable(), "PORT");
    assert_eq!(SettingsError::MissingProjectName.variable(), "PROJECT_NAME");
    assert_eq!(SettingsError::MissingProjectDescription.variable(), "PROJECT_DESCRIPTION");
    assert_eq!(SettingsError::MissingProjectKeywords.variable(), "PROJECT_KEYWORDS");
    assert_eq!(SettingsError::MissingHomeUrl.variable(), "HOME_URL");
    assert_eq!(SettingsError::MissingAnalyticsDomain.variable(), "ANALYTICS_DOMAIN");
    assert_eq!(SettingsError::MissingSentryDsn.variable(), "SENTRY_DSN");
}
