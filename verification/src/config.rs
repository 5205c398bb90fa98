//! Typed configuration consumed by the core.
//!
//! Loading (environment variables, files, secret stores) belongs to an
//! external collaborator; the core only receives these plain values.

use vstd::prelude::*;
use vstd::string::*;

verus! {

/// Settings for the outbound notifier and the intake trust boundary.
pub struct LinearConfig {
    /// Bearer credential for the outbound notification API.
    pub api_key: String,
    /// Shared secret keying the webhook signature.
    pub signing_key: String,
    /// The named item state that qualifies an item for reminder tracking.
    pub target_status: String,
    /// Template for the reminder message.
    pub message: String,
}

/// Application-level settings.
pub struct ApplicationConfig {
    /// Minimum age, in seconds, before a tracked item is due a reminder.
    pub time_to_remind: u64,
}

/// The whole configuration value, passed once at construction time.
pub struct Config {
    pub linear: LinearConfig,
    pub application: ApplicationConfig,
}

/// The possible runtime environments for the application.
#[derive(Debug, PartialEq, Eq, Structural)]
pub enum Environment {
    Local,
    Production,
}

/// The ASCII byte with an uppercase letter mapped to its lowercase form.
pub open spec fn lower_byte(b: u8) -> u8 {
    if 0x41 <= b && b <= 0x5a {
        (b + 0x20) as u8
    } else {
        b
    }
}

/// A byte string folded to ASCII lowercase, byte for byte.
pub open spec fn lower_bytes(bs: Seq<u8>) -> Seq<u8> {
    Seq::new(bs.len(), |i: int| lower_byte(bs[i]))
}

/// Compares `s` folded to ASCII lowercase against `t`.
fn ascii_lower_eq(s: &[u8], t: &[u8]) -> (r: bool)
    ensures
        r == (lower_bytes(s@) == t@),
{
    if s.len() != t.len() {
        assert(lower_bytes(s@).len() == s@.len());
        return false;
    }
    let mut i: usize = 0;
    while i < s.len()
        invariant
            i <= s@.len(),
            s@.len() == t@.len(),
            forall|j: int| 0 <= j < i ==> lower_byte(s@[j]) == t@[j],
        decreases s@.len() - i,
    {
        let b = s[i];
        let folded: u8 = if 0x41 <= b && b <= 0x5a {
            b + 0x20
        } else {
            b
        };
        if folded != t[i] {
            assert(lower_bytes(s@)[i as int] != t@[i as int]);
            return false;
        }
        i += 1;
    }
    proof {
        assert(lower_bytes(s@) =~= t@);
    }
    true
}

/// The two recognised environment names have different byte encodings:
/// both are ASCII, one of five bytes and one of ten.
proof fn lemma_environment_names_differ()
    ensures
        "local".spec_bytes().len() == 5,
        "production".spec_bytes().len() == 10,
{
    reveal_strlit("local");
    reveal_strlit("production");
    assert(vstd::string::is_ascii("local"));
    assert(vstd::string::is_ascii("production"));
    vstd::string::is_ascii_spec_bytes("local");
    vstd::string::is_ascii_spec_bytes("production");
}

impl Environment {
    /// The canonical name of the environment.
    pub fn as_str(&self) -> (r: &'static str)
        ensures
            *self == Environment::Local ==> r@ == "local"@,
            *self == Environment::Production ==> r@ == "production"@,
    {
        match self {
            Environment::Local => "local",
            Environment::Production => "production",
        }
    }

    /// Reads an environment from its name, ignoring ASCII case. Any other
    /// name is rejected with a message naming the offered value.
    pub fn try_from(s: &str) -> (r: Result<Environment, String>)
        ensures
            r == Ok::<Environment, String>(Environment::Local) <==> lower_bytes(s.spec_bytes())
                == "local".spec_bytes(),
            r == Ok::<Environment, String>(Environment::Production) <==> lower_bytes(
                s.spec_bytes(),
            ) == "production".spec_bytes(),
            r matches Err(m) ==> m@ == s@
                + " is not a supported environment. Use either `local` or `production`."@,
    {
        proof {
            lemma_environment_names_differ();
        }
        if ascii_lower_eq(s.as_bytes(), "local".as_bytes()) {
            Ok(Environment::Local)
        } else if ascii_lower_eq(s.as_bytes(), "production".as_bytes()) {
            Ok(Environment::Production)
        } else {
            let m = String::from_str(s).concat(
                " is not a supported environment. Use either `local` or `production`.",
            );
            Err(m)
        }
    }
}

} // verus!
