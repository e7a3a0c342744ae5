//! Where the API token comes from, and where it is kept.
use vstd::prelude::*;
use crate::error::{CodaError, CodaErrorV};
use crate::json::{Json, JsonV};
use crate::text::{extend_str, string_of, trim, trim_str, join_path, join_path_exec};

verus! {

/// The environment variable that may hold the token.
pub const TOKEN_ENV_VAR: &'static str = "CODA_API_TOKEN";

/// The token kept in a credential file: its contents without surrounding
/// white space, when anything is left.
pub open spec fn stored_token_spec(contents: Seq<char>) -> Option<Seq<char>> {
    if trim(contents).len() == 0 { None } else { Some(trim(contents)) }
}

pub fn stored_token(contents: &str) -> (r: Option<String>)
    ensures
        match r { Some(t) => Some(t@), None => None } == stored_token_spec(contents@),
{
    let t = trim_str(contents);
    if t.as_str().is_empty() {
        proof { assert(t@.len() == 0); }
        None
    } else {
        Some(t)
    }
}

/// The token in order of precedence: the `--token` flag, a non-empty
/// `CODA_API_TOKEN`, the credential file; an error where the file could not be
/// read, and `NoToken` where there is none.
pub open spec fn resolve_token_spec(
    flag: Option<Seq<char>>,
    env: Option<Seq<char>>,
    file: Result<Option<Seq<char>>, CodaErrorV>,
) -> Result<Seq<char>, CodaErrorV> {
    match flag {
        Some(t) => Ok(t),
        None => match env {
            Some(t) if t.len() > 0 => Ok(t),
            _ => match file {
                Err(e) => Err(e),
                Ok(Some(c)) => match stored_token_spec(c) {
                    Some(t) => Ok(t),
                    None => Err(CodaErrorV::NoToken),
                },
                Ok(None) => Err(CodaErrorV::NoToken),
            },
        },
    }
}

/// Resolves the API token from (in order of precedence):
/// 1. --token CLI flag
/// 2. CODA_API_TOKEN environment variable
/// 3. Stored credential file (its contents, or `None` where there is no file)
pub fn resolve_token(
    flag_token: Option<&str>,
    env_token: Option<&str>,
    stored: Result<Option<String>, CodaError>,
) -> (r: Result<String, CodaError>)
    ensures
        match r { Ok(t) => Ok(t@), Err(e) => Err(e@) } == resolve_token_spec(
            match flag_token { Some(t) => Some(t@), None => None },
            match env_token { Some(t) => Some(t@), None => None },
            match stored { Ok(Some(c)) => Ok(Some(c@)), Ok(None) => Ok(None), Err(e) => Err(e@) },
        ),
{
    if let Some(t) = flag_token {
        return Ok(t.to_owned());
    }
    if let Some(t) = env_token {
        if !t.is_empty() {
            proof { assert(t@.len() > 0); }
            return Ok(t.to_owned());
        }
        proof { assert(t@.len() == 0); }
    }
    match stored {
        Err(e) => Err(e),
        Ok(Some(c)) => match stored_token(c.as_str()) {
            Some(t) => Ok(t),
            None => Err(CodaError::NoToken),
        },
        Ok(None) => Err(CodaError::NoToken),
    }
}

/// The credential file under the user's configuration directory.
pub open spec fn credential_path_spec(config_dir: Option<Seq<char>>) -> Result<Seq<char>, CodaErrorV> {
    match config_dir {
        Some(d) => Ok(join_path(join_path(d, "coda"@), "credentials"@)),
        None => Err(CodaErrorV::Other("Could not determine config directory"@)),
    }
}

pub fn credential_path(config_dir: Option<&str>) -> (r: Result<String, CodaError>)
    ensures
        match r { Ok(p) => Ok(p@), Err(e) => Err(e@) } == credential_path_spec(
            match config_dir { Some(d) => Some(d@), None => None }),
{
    match config_dir {
        Some(d) => {
            let a = join_path_exec(d, "coda");
            Ok(join_path_exec(a.as_str(), "credentials"))
        },
        None => Err(CodaError::Other("Could not determine config directory".to_owned())),
    }
}

/// Returns the path where credentials are stored (for display purposes).
pub fn credential_path_display(config_dir: Option<&str>) -> (r: String)
    ensures
        r@ == match credential_path_spec(match config_dir { Some(d) => Some(d@), None => None }) {
            Ok(p) => p,
            Err(_) => "<unknown>"@,
        },
{
    match credential_path(config_dir) {
        Ok(p) => p,
        Err(_) => "<unknown>".to_owned(),
    }
}

/// The token that `auth login` goes on with: the one given, else the pasted
/// line without surrounding white space; an empty one is refused.
pub open spec fn login_token_spec(given: Option<Seq<char>>, pasted: Seq<char>) -> Result<Seq<char>, CodaErrorV> {
    let t = match given { Some(t) => t, None => trim(pasted) };
    if t.len() == 0 {
        Err(CodaErrorV::Validation("Token cannot be empty. Run `coda auth login` to try again."@))
    } else {
        Ok(t)
    }
}

pub fn login_token(given: Option<&str>, pasted: &str) -> (r: Result<String, CodaError>)
    ensures
        match r { Ok(t) => Ok(t@), Err(e) => Err(e@) } == login_token_spec(
            match given { Some(t) => Some(t@), None => None }, pasted@),
{
    let t = match given {
        Some(t) => t.to_owned(),
        None => trim_str(pasted),
    };
    if t.as_str().is_empty() {
        proof { assert(t@.len() == 0); }
        return Err(CodaError::Validation("Token cannot be empty. Run `coda auth login` to try again.".to_owned()));
    }
    Ok(t)
}

/// The name that `whoami` answers with, or `unknown`.
pub fn whoami_name(resp: &Json) -> (r: String)
    ensures
        r@ == match resp@.get_str("name"@) { Some(n) => n, None => "unknown"@ },
{
    match resp.get_str("name") {
        Some(n) => n.to_owned(),
        None => "unknown".to_owned(),
    }
}

/// The line `auth status` prints.
pub open spec fn status_line_spec(authenticated: bool, from_env: bool, path: Seq<char>) -> Seq<char> {
    if !authenticated {
        "Not authenticated. Run `coda auth login` or set CODA_API_TOKEN."@
    } else if from_env {
        "Authenticated via CODA_API_TOKEN environment variable"@
    } else {
        "Authenticated via credential file ("@ + path + ")"@
    }
}

pub fn status_line(authenticated: bool, from_env: bool, path: &str) -> (r: String)
    ensures
        r@ == status_line_spec(authenticated, from_env, path@),
{
    if !authenticated {
        return "Not authenticated. Run `coda auth login` or set CODA_API_TOKEN.".to_owned();
    }
    if from_env {
        return "Authenticated via CODA_API_TOKEN environment variable".to_owned();
    }
    let mut v: Vec<char> = Vec::new();
    extend_str(&mut v, "Authenticated via credential file (");
    extend_str(&mut v, path);
    extend_str(&mut v, ")");
    assert(v@ =~= status_line_spec(authenticated, from_env, path@));
    string_of(v.as_slice())
}

/// The line `auth logout` prints.
pub open spec fn logout_line_spec(removed: bool, path: Seq<char>) -> Seq<char> {
    if removed { "Token removed from "@ + path } else { "No stored token found."@ }
}

pub fn logout_line(removed: bool, path: &str) -> (r: String)
    ensures
        r@ == logout_line_spec(removed, path@),
{
    if !removed {
        return "No stored token found.".to_owned();
    }
    let mut v: Vec<char> = Vec::new();
    extend_str(&mut v, "Token removed from ");
    extend_str(&mut v, path);
    assert(v@ =~= logout_line_spec(removed, path@));
    string_of(v.as_slice())
}

} // verus!
