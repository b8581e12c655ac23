//! API keys: the keychain accounts they are stored under, and which
//! providers have one.
use vstd::prelude::*;

use crate::text::{chars_of, is_blank, is_blank_str, str_eq, string_from_chars};

verus! {

/// Whether a usable key is saved for each provider.
#[derive(Debug, Clone, Copy, PartialEq, Eq, Structural)]
pub struct ProviderStatus {
    pub gemini: bool,
    pub openai: bool,
    pub deepgram: bool,
    pub google_service_account: bool,
}

/// A key lookup found a key that is not blank.
pub open spec fn usable(lookup: Result<String, String>) -> bool {
    lookup matches Ok(s) && !is_blank(s@)
}

fn is_usable(lookup: &Result<String, String>) -> (r: bool)
    ensures
        r == usable(*lookup),
{
    match lookup {
        Ok(s) => !is_blank_str(s.as_str()),
        Err(_) => false,
    }
}

/// Which providers have a usable key, from the keychain lookups of
/// "gemini", "openai", "deepgram" and "googleServiceAccount".
pub fn provider_status(
    gemini: &Result<String, String>,
    openai: &Result<String, String>,
    deepgram: &Result<String, String>,
    google_service_account: &Result<String, String>,
) -> (r: ProviderStatus)
    ensures
        r.gemini == usable(*gemini),
        r.openai == usable(*openai),
        r.deepgram == usable(*deepgram),
        r.google_service_account == usable(*google_service_account),
{
    ProviderStatus {
        gemini: is_usable(gemini),
        openai: is_usable(openai),
        deepgram: is_usable(deepgram),
        google_service_account: is_usable(google_service_account),
    }
}

/// The keychain service the keys are stored under.
pub open spec fn service_name() -> Seq<char> {
    "com.aimhack.enja"@
}

/// The providers that have a key.
pub open spec fn known_provider(p: Seq<char>) -> bool {
    p == "gemini"@ || p == "openai"@ || p == "deepgram"@ || p == "googleServiceAccount"@
}

pub open spec fn unknown_provider_message() -> Seq<char> {
    "未知のプロバイダーです。"@
}

/// The keychain account of a provider's key: the service, a dot, the provider.
pub fn account_name(provider: &str) -> (r: Result<String, String>)
    ensures
        known_provider(provider@) ==> (r matches Ok(a) && a@ == service_name() + "."@ + provider@),
        !known_provider(provider@) ==> (r matches Err(e) && e@ == unknown_provider_message()),
{
    if str_eq(provider, "gemini") || str_eq(provider, "openai") || str_eq(provider, "deepgram")
        || str_eq(provider, "googleServiceAccount") {
        let mut v = chars_of("com.aimhack.enja.");
        let p = chars_of(provider);
        crate::text::append_chars(&mut v, &p);
        proof {
            reveal_strlit("com.aimhack.enja.");
            reveal_strlit("com.aimhack.enja");
            reveal_strlit(".");
        }
        assert(v@ =~= service_name() + "."@ + provider@);
        Ok(string_from_chars(&v))
    } else {
        Err(crate::text::owned("未知のプロバイダーです。"))
    }
}

} // verus!
