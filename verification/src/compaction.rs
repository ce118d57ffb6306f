//! Compaction: when a conversation grows too long, its older part is replaced by a summary.

use vstd::prelude::*;

pub mod budget;
pub mod conversation;
pub mod cut;
pub mod estimate;
pub mod plan;
pub mod summary;

verus! {

/// When to compact, and how much to keep.
#[derive(Clone, Copy, Debug, PartialEq, Eq, Structural)]
pub struct CompactionSettings {
    /// Whether to compact without being asked.
    pub enabled: bool,
    /// Tokens held back for the summary's prompt and answer.
    pub reserve_tokens: u32,
    /// About how many tokens of recent conversation to keep as they are.
    pub keep_recent_tokens: u32,
}

/// The tokens held back where the settings do not say.
pub const DEFAULT_RESERVE_TOKENS: u32 = 16_384;

/// The tokens kept where the settings do not say.
pub const DEFAULT_KEEP_RECENT_TOKENS: u32 = 20_000;

impl CompactionSettings {
    /// The settings that hold where none are given.
    pub open spec fn standard() -> CompactionSettings {
        CompactionSettings {
            enabled: true,
            reserve_tokens: DEFAULT_RESERVE_TOKENS,
            keep_recent_tokens: DEFAULT_KEEP_RECENT_TOKENS,
        }
    }
}

impl Default for CompactionSettings {
    fn default() -> (r: CompactionSettings)
        ensures
            r == CompactionSettings::standard(),
            r.enabled && r.reserve_tokens == 16384 && r.keep_recent_tokens == 20000,
    {
        CompactionSettings {
            enabled: true,
            reserve_tokens: DEFAULT_RESERVE_TOKENS,
            keep_recent_tokens: DEFAULT_KEEP_RECENT_TOKENS,
        }
    }
}

/// A context of `context_tokens` is to be compacted.
pub open spec fn is_due(
    context_tokens: u64,
    context_window: u32,
    settings: CompactionSettings,
) -> bool {
    settings.enabled && context_tokens > (context_window as nat * 4) / 5
}

/// Whether a context of `context_tokens` is to be compacted: it fills more than four fifths of
/// the window, and compaction is enabled.
pub fn should_compact(context_tokens: u64, context_window: u32, settings: &CompactionSettings) -> (r:
    bool)
    ensures
        r == (settings.enabled && context_tokens > (context_window as nat * 4) / 5),
        r <==> settings.enabled && 5 * context_tokens > 4 * context_window,
        r == is_due(context_tokens, context_window, *settings),
{
    if !settings.enabled {
        return false;
    }
    let window = context_window as u64;
    let threshold = (window * 4) / 5;
    context_tokens > threshold
}

/// Compaction is due as soon as more than four fifths of the window are filled, and then stays due
/// as the context grows; where it is not enabled it never is.
pub proof fn law_compaction_is_due_at_four_fifths(
    context_tokens: u64,
    more: u64,
    context_window: u32,
    settings: CompactionSettings,
)
    ensures
        settings.enabled ==> (is_due(context_tokens, context_window, settings) <==> 5
            * context_tokens > 4 * context_window),
        !settings.enabled ==> !is_due(context_tokens, context_window, settings),
        is_due(context_tokens, context_window, settings) && more >= context_tokens ==> is_due(
            more,
            context_window,
            settings,
        ),
{
}

/// Where nothing else is set, compaction is enabled, holds back 16384 tokens and keeps 20000.
pub proof fn law_standard_settings()
    ensures
        CompactionSettings::standard().enabled,
        CompactionSettings::standard().reserve_tokens == 16384,
        CompactionSettings::standard().keep_recent_tokens == 20000,
{
}

} // verus!
