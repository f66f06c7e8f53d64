//! Small shared pieces: the optional-string wrapper used for hostnames and
//! hashes, wall-clock access, and hostname discovery.

use vstd::prelude::*;

use crate::error::NudgeError;
use crate::error::Result;

verus! {

/// A wrapper around a string whose absence is meaningful: rendered as
/// `<anonymous>` when displayed and serialised as a null when absent.
#[derive(Debug)]
pub struct AnonymousString(pub Option<String>);

impl Clone for AnonymousString {
    fn clone(&self) -> (r: Self)
        ensures
            r@ == self@,
    {
        match &self.0 {
            Option::Some(s) => AnonymousString(Option::Some(s.clone())),
            Option::None => AnonymousString(Option::None),
        }
    }
}

impl View for AnonymousString {
    type V = Option<Seq<char>>;

    open spec fn view(&self) -> Option<Seq<char>> {
        match self.0 {
            Option::Some(s) => Option::Some(s@),
            Option::None => Option::None,
        }
    }
}

impl PartialEq for AnonymousString {
    fn eq(&self, other: &AnonymousString) -> (r: bool) {
        match (&self.0, &other.0) {
            (Option::Some(a), Option::Some(b)) => *a == *b,
            (Option::None, Option::None) => true,
            _ => false,
        }
    }
}

impl vstd::std_specs::cmp::PartialEqSpecImpl for AnonymousString {
    open spec fn obeys_eq_spec() -> bool {
        true
    }

    open spec fn eq_spec(&self, other: &AnonymousString) -> bool {
        self@ == other@
    }
}

impl AnonymousString {
    /// The text shown to a user: the inner string, or `<anonymous>`.
    pub fn display_text(&self) -> (r: String)
        ensures
            match self@ {
                Option::Some(s) => r@ == s,
                Option::None => r@ == "<anonymous>"@,
            },
    {
        match &self.0 {
            Option::Some(s) => s.clone(),
            Option::None => "<anonymous>".to_owned(),
        }
    }
}

/// Relies on std::time::SystemTime: milliseconds since the Unix epoch as the
/// machine's clock reports them; nothing can be promised of the value.
#[verifier::external_body]
pub fn current_unix_millis() -> u64 {
    std::time::SystemTime::now()
        .duration_since(std::time::SystemTime::UNIX_EPOCH)
        .map(|d| d.as_millis() as u64)
        .unwrap_or(0)
}

/// Relies on gethostname::gethostname: the machine's hostname, where it is
/// valid Unicode; the value depends on the machine alone, so nothing can be
/// promised of it.
#[verifier::external_body]
fn hostname_lookup() -> Option<String> {
    gethostname::gethostname().into_string().ok()
}

/// The system's hostname, or `HostnameError` where the OS reports none that
/// is valid Unicode.
pub fn get_hostname() -> (r: Result<String>)
    ensures
        r is Err ==> (r matches Err(e) && e is HostnameError),
{
    match hostname_lookup() {
        Option::Some(name) => Result::Ok(name),
        Option::None => Result::Err(NudgeError::HostnameError),
    }
}

/// Either an anonymous marker (when `hide` is set) or the hostname.
pub fn hide_or_get_hostname(hide: bool) -> (r: Result<AnonymousString>)
    ensures
        hide ==> (r matches Ok(a) && a@ is None),
        r is Err ==> (r matches Err(e) && e is HostnameError),
{
    if hide {
        Result::Ok(AnonymousString(Option::None))
    } else {
        match get_hostname() {
            Result::Ok(name) => Result::Ok(AnonymousString(Option::Some(name))),
            Result::Err(e) => Result::Err(e),
        }
    }
}

} // verus!
