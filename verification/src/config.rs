//! The application's settings, with their defaults.

use vstd::prelude::*;
use crate::text::owned;

verus! {

/// The application's settings: the large-file threshold, how many items
/// go to the remote advisor and how to reach it, the scan's extra
/// exclusion patterns, and the colour theme.
#[derive(Clone, Debug)]
pub struct AppConfig {
    pub large_file_threshold_mb: u64,
    pub max_ai_items: usize,
    pub api_key: Option<String>,
    pub ai_base_url: String,
    pub ai_model: String,
    pub strict_file_ai_remote_only: bool,
    pub exclude_patterns: Vec<String>,
    pub theme: String,
}

/// The default large-file threshold, in megabytes.
pub const DEFAULT_LARGE_FILE_THRESHOLD_MB: u64 = 512;

/// The default number of items sent to the remote advisor.
pub const DEFAULT_MAX_AI_ITEMS: usize = 20;

pub fn default_ai_base_url() -> (r: String)
    ensures
        r@ == "https://api.openai.com"@,
{
    owned("https://api.openai.com")
}

pub fn default_ai_model() -> (r: String)
    ensures
        r@ == "gpt-4.1-mini"@,
{
    owned("gpt-4.1-mini")
}

pub fn default_theme() -> (r: String)
    ensures
        r@ == "dark"@,
{
    owned("dark")
}

impl Default for AppConfig {
    fn default() -> (c: AppConfig)
        ensures
            c.large_file_threshold_mb == DEFAULT_LARGE_FILE_THRESHOLD_MB,
            c.max_ai_items == DEFAULT_MAX_AI_ITEMS,
            c.api_key is None,
            c.ai_base_url@ == "https://api.openai.com"@,
            c.ai_model@ == "gpt-4.1-mini"@,
            !c.strict_file_ai_remote_only,
            c.exclude_patterns@.len() == 0,
            c.theme@ == "dark"@,
    {
        AppConfig {
            large_file_threshold_mb: DEFAULT_LARGE_FILE_THRESHOLD_MB,
            max_ai_items: DEFAULT_MAX_AI_ITEMS,
            api_key: None,
            ai_base_url: default_ai_base_url(),
            ai_model: default_ai_model(),
            strict_file_ai_remote_only: false,
            exclude_patterns: Vec::new(),
            theme: default_theme(),
        }
    }
}

/// The large-file threshold in bytes; `None` where it does not fit.
pub fn large_file_threshold_bytes(mb: u64) -> (r: Option<u64>)
    ensures
        match r {
            Some(b) => b == mb * 1048576,
            None => mb * 1048576 > u64::MAX,
        },
{
    mb.checked_mul(1048576)
}

} // verus!
