use vstd::prelude::*;

verus! {

/// Where the application listens.
pub struct ApplicationSettings {
    pub port: u16,
    pub host: String,
}

/// The deployment flavour, which selects the configuration file layered over
/// the base one.
#[derive(PartialEq, Eq, Structural, Clone, Copy, Debug)]
pub enum Environment {
    Local,
    Production,
}

/// The name of an environment as it appears in configuration file names.
pub open spec fn environment_name(e: Environment) -> Seq<char> {
    match e {
        Environment::Local => seq!['l', 'o', 'c', 'a', 'l'],
        Environment::Production => seq!['p', 'r', 'o', 'd', 'u', 'c', 't', 'i', 'o', 'n'],
    }
}

impl Environment {
    pub fn as_str(&self) -> (r: &'static str)
        ensures
            r@ == environment_name(*self),
    {
        proof {
            reveal_strlit("local");
            reveal_strlit("production");
        }
        match self {
            Environment::Local => "local",
            Environment::Production => "production",
        }
    }
}

/// What `str::to_lowercase` makes of a text.
pub uninterp spec fn lowercase_of(s: Seq<char>) -> Seq<char>;

/// Relies on `str::to_lowercase`: its result depends on the characters alone.
#[verifier::external_body]
fn to_lowercase(s: &str) -> (r: String)
    ensures
        r@ == lowercase_of(s@),
{
    s.to_lowercase()
}

/// The environment whose name is exactly `s`.
pub open spec fn environment_named(s: Seq<char>) -> Option<Environment> {
    if s == environment_name(Environment::Local) {
        Some(Environment::Local)
    } else if s == environment_name(Environment::Production) {
        Some(Environment::Production)
    } else {
        None
    }
}

/// The message that rejects `s` as an environment name.
pub open spec fn unsupported_environment_message(s: Seq<char>) -> Seq<char> {
    s + " is not supported environment. Use either 'local' or 'production'"@
}

/// Whether two texts hold the same characters.
fn same_text(a: &str, b: &str) -> (r: bool)
    ensures
        r == (a@ == b@),
{
    let n = a.unicode_len();
    if n != b.unicode_len() {
        return false;
    }
    let mut i: usize = 0;
    while i < n
        invariant
            i <= n,
            n == a@.len(),
            n == b@.len(),
            forall|j: int| 0 <= j < i ==> a@[j] == b@[j],
        decreases n - i,
    {
        if a.get_char(i) != b.get_char(i) {
            return false;
        }
        i = i + 1;
    }
    assert(a@ =~= b@);
    true
}

impl Environment {
    /// Reads an environment from its name, already in lower case.
    pub fn from_lowercase(name: &str) -> (r: Result<Environment, String>)
        ensures
            match environment_named(name@) {
                Some(e) => r == Ok::<Environment, String>(e),
                None => r matches Err(m) && m@ == unsupported_environment_message(name@),
            },
    {
        if same_text(name, Environment::Local.as_str()) {
            Ok(Environment::Local)
        } else if same_text(name, Environment::Production.as_str()) {
            Ok(Environment::Production)
        } else {
            let owned = name.to_owned();
            Err(owned.concat(" is not supported environment. Use either 'local' or 'production'"))
        }
    }

    /// Reads an environment from its name in any letter case.
    pub fn parse(value: String) -> (r: Result<Environment, String>)
        ensures
            match environment_named(lowercase_of(value@)) {
                Some(e) => r == Ok::<Environment, String>(e),
                None => r matches Err(m) && m@ == unsupported_environment_message(
                    lowercase_of(value@),
                ),
            },
    {
        let lower = to_lowercase(value.as_str());
        Environment::from_lowercase(lower.as_str())
    }
}

impl TryFrom<String> for Environment {
    type Error = String;

    fn try_from(value: String) -> Result<Environment, String> {
        Environment::parse(value)
    }
}

// The error is a `String`, which a spec function cannot build, so the
// conversion makes no promise through the trait; `Environment::parse` states it.
impl vstd::std_specs::convert::TryFromSpecImpl<String> for Environment {
    open spec fn obeys_try_from_spec() -> bool {
        false
    }

    open spec fn try_from_spec(v: String) -> Result<Environment, String> {
        arbitrary()
    }
}

} // verus!
