//! Where a slot's secret comes from: its environment variable first, then its
//! key file under the home directory.

use vstd::prelude::*;
use crate::codec::{bytes_of_hex, from_hex, is_valid_hex};

verus! {

/// Why no secret could be had for a slot.
#[derive(Debug, Clone, PartialEq, Eq)]
pub enum ResolutionError {
    /// The slot is neither 1 nor 2.
    InvalidSlot,
    /// Neither the variable is set nor the file readable.
    SecretNotFound { variable: String, path: String },
    /// The named source holds text that is not valid hex.
    InvalidEncoding { source: String },
    /// No home directory is known, so the key file has no path.
    HomeUnresolved,
}

/// What a `ResolutionError` says, with its texts as character sequences.
pub enum Failure {
    InvalidSlot,
    SecretNotFound { variable: Seq<char>, path: Seq<char> },
    InvalidEncoding { source: Seq<char> },
    HomeUnresolved,
}

impl View for ResolutionError {
    type V = Failure;

    open spec fn view(&self) -> Failure {
        match self {
            ResolutionError::InvalidSlot => Failure::InvalidSlot,
            ResolutionError::SecretNotFound { variable, path } => Failure::SecretNotFound {
                variable: variable@,
                path: path@,
            },
            ResolutionError::InvalidEncoding { source } => Failure::InvalidEncoding { source: source@ },
            ResolutionError::HomeUnresolved => Failure::HomeUnresolved,
        }
    }
}

/// What `str::trim` leaves of a text.
pub uninterp spec fn trimmed(s: Seq<char>) -> Seq<char>;

/// Relies on str::trim: the text without its leading and trailing whitespace.
#[verifier::external_body]
fn trim_text(s: &str) -> (r: &str)
    ensures
        r@ == trimmed(s@),
{
    s.trim()
}

/// The slots that hold a secret.
pub open spec fn is_slot(slot: u8) -> bool {
    slot == 1 || slot == 2
}

/// The environment variable of a slot.
pub open spec fn var_name_of(slot: u8) -> Seq<char> {
    if slot == 1 {
        "YKCHALRESP_SLOT1_KEY"@
    } else {
        "YKCHALRESP_SLOT2_KEY"@
    }
}

/// The key file of a slot under a home directory.
pub open spec fn key_path_of(home: Seq<char>, slot: u8) -> Seq<char> {
    if slot == 1 {
        home + "/.config/ykchalresp/slot1.key"@
    } else {
        home + "/.config/ykchalresp/slot2.key"@
    }
}

/// The texts of optional string arguments.
pub open spec fn text_of(o: Option<&str>) -> Option<Seq<char>> {
    match o {
        Some(s) => Some(s@),
        None => None,
    }
}

/// The outcome of a resolution, with bytes and texts as sequences.
pub open spec fn outcome_of(r: Result<Vec<u8>, ResolutionError>) -> Result<Seq<u8>, Failure> {
    match r {
        Ok(v) => Ok(v@),
        Err(e) => Err(e@),
    }
}

/// The secret of `slot`, given the value of its variable, the home directory
/// and the content of its key file, each if there is one.
pub open spec fn resolution(
    slot: u8,
    env: Option<Seq<char>>,
    home: Option<Seq<char>>,
    content: Option<Seq<char>>,
) -> Result<Seq<u8>, Failure> {
    if !is_slot(slot) {
        Err(Failure::InvalidSlot)
    } else if env is Some {
        let v = env->Some_0;
        if is_valid_hex(v) {
            Ok(bytes_of_hex(v))
        } else {
            Err(Failure::InvalidEncoding { source: var_name_of(slot) })
        }
    } else if home is None {
        Err(Failure::HomeUnresolved)
    } else {
        let path = key_path_of(home->Some_0, slot);
        match content {
            None => Err(Failure::SecretNotFound { variable: var_name_of(slot), path }),
            Some(c) => {
                let t = trimmed(c);
                if is_valid_hex(t) {
                    Ok(bytes_of_hex(t))
                } else {
                    Err(Failure::InvalidEncoding { source: path })
                }
            },
        }
    }
}

/// The environment variable that holds the secret of `slot`.
pub fn secret_var_name(slot: u8) -> (r: Option<String>)
    ensures
        r is Some <==> is_slot(slot),
        r is Some ==> r->Some_0@ == var_name_of(slot),
{
    if slot == 1 {
        Some("YKCHALRESP_SLOT1_KEY".to_owned())
    } else if slot == 2 {
        Some("YKCHALRESP_SLOT2_KEY".to_owned())
    } else {
        None
    }
}

/// The key file that holds the secret of `slot` under `home`.
pub fn key_file_path(home: &str, slot: u8) -> (r: Option<String>)
    ensures
        r is Some <==> is_slot(slot),
        r is Some ==> r->Some_0@ == key_path_of(home@, slot),
{
    if slot == 1 {
        Some(home.to_owned().concat("/.config/ykchalresp/slot1.key"))
    } else if slot == 2 {
        Some(home.to_owned().concat("/.config/ykchalresp/slot2.key"))
    } else {
        None
    }
}

/// Resolves the secret of `slot`: the variable's value if it is set, else the
/// trimmed content of the key file under `home`, each decoded from hex.
pub fn resolve_secret(
    slot: u8,
    env_value: Option<&str>,
    home: Option<&str>,
    file_content: Option<&str>,
) -> (r: Result<Vec<u8>, ResolutionError>)
    ensures
        outcome_of(r) == resolution(slot, text_of(env_value), text_of(home), text_of(file_content)),
{
    let variable = match secret_var_name(slot) {
        Some(v) => v,
        None => return Err(ResolutionError::InvalidSlot),
    };
    if let Some(v) = env_value {
        return match from_hex(v) {
            Ok(bytes) => Ok(bytes),
            Err(_) => Err(ResolutionError::InvalidEncoding { source: variable }),
        };
    }
    let h = match home {
        Some(h) => h,
        None => return Err(ResolutionError::HomeUnresolved),
    };
    let path = match key_file_path(h, slot) {
        Some(p) => p,
        None => return Err(ResolutionError::InvalidSlot),
    };
    match file_content {
        None => Err(ResolutionError::SecretNotFound { variable, path }),
        Some(c) => match from_hex(trim_text(c)) {
            Ok(bytes) => Ok(bytes),
            Err(_) => Err(ResolutionError::InvalidEncoding { source: path }),
        },
    }
}

/// A set variable decides the secret of a valid slot, whatever the home
/// directory and the key file hold.
pub proof fn lemma_environment_first(
    slot: u8,
    env: Seq<char>,
    home1: Option<Seq<char>>,
    content1: Option<Seq<char>>,
    home2: Option<Seq<char>>,
    content2: Option<Seq<char>>,
)
    requires
        is_slot(slot),
    ensures
        resolution(slot, Some(env), home1, content1) == resolution(slot, Some(env), home2, content2),
        resolution(slot, Some(env), home1, content1) == (if is_valid_hex(env) {
            Ok(bytes_of_hex(env))
        } else {
            Err(Failure::InvalidEncoding { source: var_name_of(slot) })
        }),
{
}

} // verus!
