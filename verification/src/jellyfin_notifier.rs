//! The notifier for Jellyfin: that for Emby without the prefix of the Emby interface.

use crate::config::EmbyConfig;
use crate::config::JellyfinConfig;
use crate::emby_notifier;
use crate::emby_notifier::EmbyNotifier;
use vstd::prelude::*;
use vstd::string::*;

verus! {

broadcast use vstd::string::group_string_axioms;

/// Jellyfin speaks the language of Emby.
pub type JellyfinNotifier = EmbyNotifier;

/// The settings for Jellyfin as settings for Emby.
pub open spec fn as_emby(c: JellyfinConfig) -> EmbyConfig {
    EmbyConfig {
        enabled: c.enabled,
        url: c.url,
        api_token: c.api_token,
        debounce_seconds: c.debounce_seconds,
        cache_minutes: c.cache_minutes,
        fallback_full_refresh: c.fallback_full_refresh,
        max_retries: c.max_retries,
        retry_delay_ms: c.retry_delay_ms,
        full_refresh_cooldown_seconds: c.full_refresh_cooldown_seconds,
        path_mapping: c.path_mapping,
    }
}

/// A notifier for Jellyfin.
pub fn new(config: JellyfinConfig) -> (r: JellyfinNotifier)
    requires
        emby_notifier::set_or(config.cache_minutes, 15) * 60 <= u64::MAX,
    ensures
        r.set_up(as_emby(config), "Jellyfin"@, ""@),
        r.idle(),
{
    let emby_config = EmbyConfig {
        enabled: config.enabled,
        url: config.url,
        api_token: config.api_token,
        debounce_seconds: config.debounce_seconds,
        cache_minutes: config.cache_minutes,
        fallback_full_refresh: config.fallback_full_refresh,
        max_retries: config.max_retries,
        retry_delay_ms: config.retry_delay_ms,
        full_refresh_cooldown_seconds: config.full_refresh_cooldown_seconds,
        path_mapping: config.path_mapping,
    };
    EmbyNotifier::new_internal(emby_config, "Jellyfin", "")
}

} // verus!
