//! The kernel's migration rule: only a kernel migrates, and only to a newer
//! version, versions being compared as semantic versions.
use vstd::prelude::*;
use vstd::string::StringExecFns;
use crate::common::ContractError;

verus! {

/// What `semver::Version::parse` makes of `text`: `None` if it is a valid
/// version, else the error's text.
pub uninterp spec fn semver_parse_error(text: Seq<char>) -> Option<Seq<char>>;

/// Whether the version `a` is older than the version `b` (`<` on `semver::Version`).
pub uninterp spec fn semver_lt(a: Seq<char>, b: Seq<char>) -> bool;

/// `semver::Version::parse`: whether `text` is a version, and the error's
/// text if not. The contract names the outcome; what the text says is left
/// to the name.
#[verifier::external_body]
fn version_parse_error(text: &String) -> (r: Option<String>)
    ensures
        match r {
            None => semver_parse_error(text@) is None,
            Some(m) => semver_parse_error(text@) == Some(m@),
        },
{
    match semver::Version::parse(text) {
        Ok(_) => None,
        Err(e) => Some(e.to_string()),
    }
}

/// `<` on `semver::Version`, on two texts that parse as versions. The
/// contract names the result.
#[verifier::external_body]
fn version_lt(a: &String, b: &String) -> (r: bool)
    requires
        semver_parse_error(a@) is None,
        semver_parse_error(b@) is None,
    ensures
        r == semver_lt(a@, b@),
{
    semver::Version::parse(a).unwrap() < semver::Version::parse(b).unwrap()
}

/// The name the kernel is stored under.
pub open spec fn kernel_name() -> Seq<char> {
    "crates.io:andromeda-kernel"@
}

/// Whether `e` is a generic error saying that `text` is not a version.
pub open spec fn is_semver_error(e: ContractError, text: Seq<char>) -> bool {
    e matches ContractError::Std { msg } && msg@ == "Semver: "@ + semver_parse_error(text)->0
}

/// `migrate`: the kernel at `new_version` replaces a stored contract only if
/// it is a kernel (`stored_contract`) at an older version (`stored_version`);
/// both versions must parse.
pub fn migrate(new_version: &String, stored_contract: &String, stored_version: &String) -> (r: Result<(), ContractError>)
    ensures
        semver_parse_error(new_version@) is Some ==> (r matches Err(e) && is_semver_error(e, new_version@)),
        semver_parse_error(new_version@) is None && semver_parse_error(stored_version@) is Some
            ==> (r matches Err(e) && is_semver_error(e, stored_version@)),
        semver_parse_error(new_version@) is None && semver_parse_error(stored_version@) is None ==> {
            if stored_contract@ != kernel_name() {
                r matches Err(ContractError::CannotMigrate { previous_contract }) && previous_contract@ == stored_contract@
            } else if !semver_lt(stored_version@, new_version@) {
                r matches Err(ContractError::CannotMigrate { previous_contract }) && previous_contract@ == stored_version@
            } else {
                r is Ok
            }
        },
{
    if let Some(e) = version_parse_error(new_version) {
        return Err(ContractError::Std { msg: "Semver: ".to_owned().concat(e.as_str()) });
    }
    if let Some(e) = version_parse_error(stored_version) {
        return Err(ContractError::Std { msg: "Semver: ".to_owned().concat(e.as_str()) });
    }
    if *stored_contract != "crates.io:andromeda-kernel".to_owned() {
        return Err(ContractError::CannotMigrate { previous_contract: stored_contract.clone() });
    }
    if !version_lt(stored_version, new_version) {
        return Err(ContractError::CannotMigrate { previous_contract: stored_version.clone() });
    }
    Ok(())
}

} // verus!
