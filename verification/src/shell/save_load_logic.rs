//! What the shell says about saving and loading, and when the recovery banner shows.
use vstd::prelude::*;

use super::menu::{RecoveryBannerState, SaveLoadState};
use crate::persistence::store::{RecoveryStartupPolicy, SavedSessionSummary};
use crate::text::push_text;

verus! {

/// The messages among `errors`, in order.
pub open spec fn spec_present_messages(errors: Seq<Option<String>>) -> Seq<Seq<char>>
    decreases errors.len(),
{
    if errors.len() == 0 {
        Seq::empty()
    } else {
        spec_present_messages(errors.drop_last()) + match errors.last() {
            Some(message) => seq![message@],
            None => Seq::empty(),
        }
    }
}

/// The texts joined with single spaces.
pub open spec fn spec_join_spaced(parts: Seq<Seq<char>>) -> Seq<char>
    decreases parts.len(),
{
    if parts.len() == 0 {
        Seq::empty()
    } else if parts.len() == 1 {
        parts[0]
    } else {
        spec_join_spaced(parts.drop_last()) + " "@ + parts.last()
    }
}

/// The persistence errors that occurred, joined into one line; none when none occurred.
pub fn combine_persistence_errors(errors: Vec<Option<String>>) -> (r: Option<String>)
    ensures
        spec_present_messages(errors@).len() == 0 ==> r is None,
        spec_present_messages(errors@).len() > 0 ==> (r matches Some(line) && line@ == spec_join_spaced(
            spec_present_messages(errors@),
        )),
{
    let mut line = String::new();
    let mut count: usize = 0;
    let mut i: usize = 0;
    while i < errors.len()
        invariant
            i <= errors@.len(),
            count == spec_present_messages(errors@.take(i as int)).len(),
            line@ == spec_join_spaced(spec_present_messages(errors@.take(i as int))),
            count <= i,
        decreases errors@.len() - i,
    {
        let ghost parts = spec_present_messages(errors@.take(i as int));
        proof {
            assert(errors@.take(i + 1).drop_last() =~= errors@.take(i as int));
            assert(errors@.take(i + 1).last() == errors@[i as int]);
        }
        match &errors[i] {
            Some(message) => {
                if count > 0 {
                    push_text(&mut line, " ");
                }
                push_text(&mut line, message.as_str());
                proof {
                    let next = parts + seq![message@];
                    assert(next.drop_last() =~= parts);
                    if count == 0 {
                        assert(line@ =~= next[0]);
                    }
                }
                count = count + 1;
            },
            None => {
                proof {
                    assert(parts + Seq::<Seq<char>>::empty() =~= parts);
                }
            },
        }
        i = i + 1;
    }
    proof {
        assert(errors@.take(i as int) =~= errors@);
    }
    if count == 0 {
        None
    } else {
        Some(line)
    }
}

/// The message after a manual save: `Saved match as <label>.`
pub fn manual_save_message(summary: &SavedSessionSummary) -> (r: String)
    ensures
        r@ == "Saved match as "@ + summary.label@ + "."@,
{
    let mut text = String::from_str("Saved match as ");
    push_text(&mut text, summary.label.as_str());
    push_text(&mut text, ".");
    text
}

/// The message after deleting a save: `Deleted save <slot id>.`
pub fn deleted_save_message(slot_id: &str) -> (r: String)
    ensures
        r@ == "Deleted save "@ + slot_id@ + "."@,
{
    let mut text = String::from_str("Deleted save ");
    push_text(&mut text, slot_id);
    push_text(&mut text, ".");
    text
}

/// The recovery banner's label: the recovery record's label.
pub fn recovery_banner_label(recovery: Option<&SavedSessionSummary>) -> (r: Option<String>)
    ensures
        match recovery {
            Some(summary) => r matches Some(label) && label@ == summary.label@,
            None => r is None,
        },
{
    match recovery {
        Some(summary) => Some(summary.label.clone()),
        None => None,
    }
}

/// Whether the recovery banner is hidden.
pub open spec fn spec_banner_hidden(banner: RecoveryBannerState) -> bool {
    !banner.available && !banner.dirty && banner.label is None
}

/// Whether `banner` is what the shell shows for the cached recovery record of `save_state`:
/// the record's label, unless there is none or the policy ignores recovery.
pub open spec fn spec_banner_shows(save_state: SaveLoadState, banner: RecoveryBannerState) -> bool {
    match save_state.recovery {
        Some(summary) => if save_state.settings.recovery_policy == RecoveryStartupPolicy::Ignore {
            spec_banner_hidden(banner)
        } else {
            banner.available && !banner.dirty && (banner.label matches Some(label) && label@ == summary.label@)
        },
        None => spec_banner_hidden(banner),
    }
}

/// Hides the recovery banner.
pub fn hide_recovery_banner(recovery_banner: &mut RecoveryBannerState)
    ensures
        spec_banner_hidden(*final(recovery_banner)),
{
    recovery_banner.available = false;
    recovery_banner.dirty = false;
    recovery_banner.label = None;
}

/// Shows the banner for a stored recovery record unless the policy ignores recovery, and hides
/// it otherwise.
pub fn sync_cached_recovery_visibility(save_state: &SaveLoadState, recovery_banner: &mut RecoveryBannerState)
    ensures
        spec_banner_shows(*save_state, *final(recovery_banner)),
{
    let summary = match &save_state.recovery {
        Some(summary) => summary,
        None => {
            hide_recovery_banner(recovery_banner);
            return ;
        },
    };
    if save_state.settings.recovery_policy == RecoveryStartupPolicy::Ignore {
        hide_recovery_banner(recovery_banner);
        return ;
    }
    recovery_banner.available = true;
    recovery_banner.dirty = false;
    recovery_banner.label = recovery_banner_label(Some(summary));
}

pub open spec fn spec_recovery_policy_status_copy(policy: RecoveryStartupPolicy) -> Seq<char> {
    match policy {
        RecoveryStartupPolicy::Resume => "Resume automatically routes the stored interrupted session through MatchLoading."@,
        RecoveryStartupPolicy::Ask => "Ask keeps interrupted-session recovery visible without forcing a startup route."@,
        RecoveryStartupPolicy::Ignore => "Ignore hides interrupted-session affordances without deleting the stored snapshot."@,
    }
}

/// What the settings screen says about a recovery policy.
pub fn recovery_policy_status_copy(policy: RecoveryStartupPolicy) -> (r: &'static str)
    ensures
        r@ == spec_recovery_policy_status_copy(policy),
{
    match policy {
        RecoveryStartupPolicy::Resume => "Resume automatically routes the stored interrupted session through MatchLoading.",
        RecoveryStartupPolicy::Ask => "Ask keeps interrupted-session recovery visible without forcing a startup route.",
        RecoveryStartupPolicy::Ignore => "Ignore hides interrupted-session affordances without deleting the stored snapshot.",
    }
}

/// Each recovery policy's explanation starts with the policy's own name (Resume, Ask or
/// Ignore), so distinct policies are explained apart.
pub proof fn law_recovery_policy_copy_names_policy(a: RecoveryStartupPolicy, b: RecoveryStartupPolicy)
    ensures
        spec_recovery_policy_status_copy(RecoveryStartupPolicy::Resume).subrange(0, 6) == "Resume"@,
        spec_recovery_policy_status_copy(RecoveryStartupPolicy::Ask).subrange(0, 3) == "Ask"@,
        spec_recovery_policy_status_copy(RecoveryStartupPolicy::Ignore).subrange(0, 6) == "Ignore"@,
        spec_recovery_policy_status_copy(a) == spec_recovery_policy_status_copy(b) ==> a == b,
{
    reveal_strlit("Resume automatically routes the stored interrupted session through MatchLoading.");
    reveal_strlit("Ask keeps interrupted-session recovery visible without forcing a startup route.");
    reveal_strlit("Ignore hides interrupted-session affordances without deleting the stored snapshot.");
    reveal_strlit("Resume");
    reveal_strlit("Ask");
    reveal_strlit("Ignore");
    assert(spec_recovery_policy_status_copy(RecoveryStartupPolicy::Resume).subrange(0, 6) =~= "Resume"@);
    assert(spec_recovery_policy_status_copy(RecoveryStartupPolicy::Ask).subrange(0, 3) =~= "Ask"@);
    assert(spec_recovery_policy_status_copy(RecoveryStartupPolicy::Ignore).subrange(0, 6) =~= "Ignore"@);
    if spec_recovery_policy_status_copy(a) == spec_recovery_policy_status_copy(b) {
        assert(spec_recovery_policy_status_copy(a)[1] == spec_recovery_policy_status_copy(b)[1]);
    }
}

} // verus!
