use vstd::prelude::*;

verus! {

/// Which deployment the process runs as.
#[derive(Debug, Clone, Copy, PartialEq, Eq, Structural)]
pub enum Environment {
    Development,
    Production,
}

/// The deployment a setting names: its lower-case name, exactly.
pub open spec fn environment_named(value: Seq<char>) -> Option<Environment> {
    if value == "development"@ {
        Some(Environment::Development)
    } else if value == "production"@ {
        Some(Environment::Production)
    } else {
        None
    }
}

/// Parses a deployment name.
pub fn parse_environment(value: &String) -> (r: Option<Environment>)
    ensures
        r == environment_named(value@),
{
    let development = "development".to_owned();
    let production = "production".to_owned();
    if *value == development {
        Some(Environment::Development)
    } else if *value == production {
        Some(Environment::Production)
    } else {
        None
    }
}

/// The deployment to run as: the one the setting names, or `default` when
/// the setting is absent or names none.
pub fn which_from(setting: Option<String>, default: Environment) -> (r: Environment)
    ensures
        r == match setting {
            Some(v) => match environment_named(v@) {
                Some(e) => e,
                None => default,
            },
            None => default,
        },
{
    match setting {
        Some(v) => match parse_environment(&v) {
            Some(e) => e,
            None => default,
        },
        None => default,
    }
}

} // verus!
