//! Privacy levels and the caching policy that each of them applies.

use crate::text::str_eq;
use std::str::FromStr;
use vstd::prelude::*;

verus! {

/// How much of a request the proxy hides and how freely it caches.
#[derive(Clone, Copy, Debug, PartialEq, Eq, Structural)]
pub enum PrivacyMode {
    Strict,
    Balanced,
    Dev,
}

/// Whether `text` is `word`, character by character. The lengths are
/// compared first: two words of different lengths are told apart by that.
pub open spec fn is_word(text: Seq<char>, word: Seq<char>) -> bool {
    text.len() == word.len() && text == word
}

/// The methods whose responses `Strict` may serve from the cache.
pub open spec fn spec_is_cacheable_method(method: Seq<char>) -> bool {
    ||| is_word(method, "getAccountInfo"@)
    ||| is_word(method, "getBalance"@)
    ||| is_word(method, "getLatestBlockhash"@)
    ||| is_word(method, "getSlot"@)
    ||| is_word(method, "getBlock"@)
}

/// The narrower set of methods that `Balanced` may serve from the cache.
pub open spec fn spec_is_balanced_cacheable(method: Seq<char>) -> bool {
    ||| is_word(method, "getLatestBlockhash"@)
    ||| is_word(method, "getSlot"@)
    ||| is_word(method, "getBalance"@)
}

/// The caching policy as a function of level and method name.
pub open spec fn spec_should_cache(mode: PrivacyMode, method: Seq<char>) -> bool {
    match mode {
        PrivacyMode::Strict => spec_is_cacheable_method(method),
        PrivacyMode::Balanced => spec_is_balanced_cacheable(method),
        PrivacyMode::Dev => false,
    }
}

/// Whether outbound requests are rewritten into canonical form.
pub open spec fn spec_should_normalize_outbound(mode: PrivacyMode) -> bool {
    mode != PrivacyMode::Dev
}

impl PrivacyMode {
    /// Decides whether a response to `method` may be cached at this level.
    pub fn should_cache(self, method: &str) -> (cacheable: bool)
        ensures
            cacheable == spec_should_cache(self, method@),
    {
        match self {
            PrivacyMode::Strict => is_cacheable_method(method),
            PrivacyMode::Balanced => {
                str_eq(method, "getLatestBlockhash") || str_eq(method, "getSlot") || str_eq(
                    method,
                    "getBalance",
                )
            },
            PrivacyMode::Dev => false,
        }
    }

    /// Decides whether requests are canonicalized before they go upstream.
    pub fn should_normalize_outbound(self) -> (normalize: bool)
        ensures
            normalize == spec_should_normalize_outbound(self),
    {
        match self {
            PrivacyMode::Dev => false,
            _ => true,
        }
    }
}

/// Membership in the fixed set of read-only methods that are safe to cache.
pub fn is_cacheable_method(method: &str) -> (cacheable: bool)
    ensures
        cacheable == spec_is_cacheable_method(method@),
{
    str_eq(method, "getAccountInfo") || str_eq(method, "getBalance") || str_eq(
        method,
        "getLatestBlockhash",
    ) || str_eq(method, "getSlot") || str_eq(method, "getBlock")
}

/// What `str::to_lowercase` returns: the text with every character in its
/// Unicode lower case.
pub uninterp spec fn lowercase(text: Seq<char>) -> Seq<char>;

/// `str::to_lowercase` of the standard library. The lower-case form of a
/// text depends on the text alone, which is all that the contract claims.
#[verifier::external_body]
fn to_lowercase(text: &str) -> (lower: String)
    ensures
        lower@ == lowercase(text@),
{
    text.to_lowercase()
}

/// The level that a lower-case name stands for.
pub open spec fn spec_mode_named(name: Seq<char>) -> Option<PrivacyMode> {
    if is_word(name, "strict"@) {
        Some(PrivacyMode::Strict)
    } else if is_word(name, "balanced"@) {
        Some(PrivacyMode::Balanced)
    } else if is_word(name, "dev"@) {
        Some(PrivacyMode::Dev)
    } else {
        None
    }
}

/// The level that a text names, whatever its case.
pub open spec fn spec_parse_mode(value: Seq<char>) -> Option<PrivacyMode> {
    spec_mode_named(lowercase(value))
}

/// The name of a level, in lower case.
pub open spec fn spec_mode_name(mode: PrivacyMode) -> Seq<char> {
    match mode {
        PrivacyMode::Strict => "strict"@,
        PrivacyMode::Balanced => "balanced"@,
        PrivacyMode::Dev => "dev"@,
    }
}

impl PrivacyMode {
    /// Reads a level from its name in lower case; any other text is refused.
    pub fn from_name(name: &str) -> (mode: Result<PrivacyMode, ()>)
        ensures
            match spec_mode_named(name@) {
                Some(expected) => mode == Ok::<PrivacyMode, ()>(expected),
                None => mode is Err,
            },
    {
        if str_eq(name, "strict") {
            Ok(PrivacyMode::Strict)
        } else if str_eq(name, "balanced") {
            Ok(PrivacyMode::Balanced)
        } else if str_eq(name, "dev") {
            Ok(PrivacyMode::Dev)
        } else {
            Err(())
        }
    }

    /// Reads a level from its name, in any case; any other text is refused.
    pub fn parse(value: &str) -> (mode: Result<PrivacyMode, ()>)
        ensures
            match spec_parse_mode(value@) {
                Some(expected) => mode == Ok::<PrivacyMode, ()>(expected),
                None => mode is Err,
            },
    {
        let lower = to_lowercase(value);
        PrivacyMode::from_name(lower.as_str())
    }

    /// The name of the level, in lower case.
    pub fn to_string(&self) -> (name: String)
        ensures
            name@ == spec_mode_name(*self),
    {
        match self {
            PrivacyMode::Strict => "strict".to_owned(),
            PrivacyMode::Balanced => "balanced".to_owned(),
            PrivacyMode::Dev => "dev".to_owned(),
        }
    }
}

impl FromStr for PrivacyMode {
    type Err = ();

    fn from_str(value: &str) -> (mode: Result<PrivacyMode, ()>)
        ensures
            match spec_parse_mode(value@) {
                Some(expected) => mode == Ok::<PrivacyMode, ()>(expected),
                None => mode is Err,
            },
    {
        PrivacyMode::parse(value)
    }
}

/// What `Balanced` caches, `Strict` caches too, and `Dev` caches nothing.
pub proof fn lemma_levels_nest(method: Seq<char>)
    ensures
        spec_should_cache(PrivacyMode::Balanced, method) ==> spec_should_cache(
            PrivacyMode::Strict,
            method,
        ),
        !spec_should_cache(PrivacyMode::Dev, method),
{
}

/// A request that names no method is cacheable at no level.
pub proof fn lemma_empty_method_is_not_cacheable(mode: PrivacyMode)
    ensures
        !spec_should_cache(mode, Seq::<char>::empty()),
{
    reveal_strlit("getAccountInfo");
    reveal_strlit("getBalance");
    reveal_strlit("getLatestBlockhash");
    reveal_strlit("getSlot");
    reveal_strlit("getBlock");
}

/// Every level is read back from its name.
pub proof fn lemma_name_round_trip(mode: PrivacyMode)
    ensures
        spec_mode_named(spec_mode_name(mode)) == Some(mode),
{
    reveal_strlit("strict");
    reveal_strlit("balanced");
    reveal_strlit("dev");
}

} // verus!
