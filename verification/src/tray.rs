//! What a service's status-bar item shows: whether it is shown at all, its
//! title, its menu summary and its reset countdown.
use crate::estimator::{is_weekly, is_weekly_tier};
use crate::text::{push_decimal, same_text};
use crate::types::{
    QuotaTier, ServiceQuota, StatusBarDisplayConfig, SufficiencyState, TierEstimateView,
};
use vstd::prelude::*;

verus! {

/// Whether a status-bar item shows anything: an icon, a percentage or a state.
pub fn status_bar_has_content(display: &StatusBarDisplayConfig) -> (shown: bool)
    ensures
        shown == (display.show_icon || display.show_percentage || display.show_state_text),
{
    display.show_icon || display.show_percentage || display.show_state_text
}

/// Whether `list` holds `item`.
pub open spec fn lists(list: Seq<String>, item: Seq<char>) -> bool {
    exists|i: int| 0 <= i < list.len() && #[trigger] list[i]@ == item
}

/// Whether `list` holds `item`.
pub fn contains_text(list: &[String], item: &str) -> (found: bool)
    ensures
        found == lists(list@, item@),
{
    let mut i: usize = 0;
    while i < list.len()
        invariant
            i <= list@.len(),
            forall|j: int| 0 <= j < i ==> #[trigger] list@[j]@ != item@,
        decreases list@.len() - i,
    {
        if same_text(list[i].as_str(), item) {
            return true;
        }
        i += 1;
    }
    false
}

/// A service's status-bar item is shown when the service is monitored, chosen
/// for the status bar, and the item has some content.
pub fn service_tray_enabled(
    selected_services: &[String],
    status_bar_services: &[String],
    display: &StatusBarDisplayConfig,
    service: &str,
) -> (enabled: bool)
    ensures
        enabled == (lists(selected_services@, service@) && lists(status_bar_services@, service@) && (
        display.show_icon || display.show_percentage || display.show_state_text)),
{
    contains_text(selected_services, service) && contains_text(status_bar_services, service)
        && status_bar_has_content(display)
}

/// The short state word of the status bar.
pub open spec fn short_label(state: SufficiencyState) -> Seq<char> {
    match state {
        SufficiencyState::Enough => "够"@,
        SufficiencyState::Tight => "偏紧"@,
        SufficiencyState::NotEnough => "不够"@,
        SufficiencyState::Unknown => "未知"@,
    }
}

/// The short state word of the status bar.
pub fn short_state_label(state: SufficiencyState) -> (label: &'static str)
    ensures
        label@ == short_label(state),
{
    match state {
        SufficiencyState::Enough => "够",
        SufficiencyState::Tight => "偏紧",
        SufficiencyState::NotEnough => "不够",
        SufficiencyState::Unknown => "未知",
    }
}

/// The state of the first weekly estimate, if any.
pub open spec fn weekly_estimate_state<P>(estimates: Seq<TierEstimateView<P>>) -> Option<SufficiencyState>
    decreases estimates.len(),
{
    if estimates.len() == 0 {
        None
    } else if is_weekly(estimates[0].tier@) {
        Some(estimates[0].estimate.state)
    } else {
        weekly_estimate_state(estimates.drop_first())
    }
}

/// The short state word of the first weekly estimate; unknown without one.
pub fn weekly_state<P>(estimates: &[TierEstimateView<P>]) -> (label: &'static str)
    ensures
        label@ == short_label(
            match weekly_estimate_state(estimates@) {
                Some(state) => state,
                None => SufficiencyState::Unknown,
            },
        ),
{
    let mut i: usize = 0;
    proof {
        assert(estimates@.skip(0) =~= estimates@);
    }
    while i < estimates.len()
        invariant
            i <= estimates@.len(),
            weekly_estimate_state(estimates@) == weekly_estimate_state(estimates@.skip(i as int)),
        decreases estimates@.len() - i,
    {
        proof {
            assert(estimates@.skip(i as int).drop_first() =~= estimates@.skip(i + 1));
        }
        if is_weekly_tier(estimates[i].tier.as_str()) {
            return short_state_label(estimates[i].estimate.state);
        }
        i += 1;
    }
    proof {
        assert(estimates@.skip(i as int) =~= Seq::<TierEstimateView<P>>::empty());
    }
    short_state_label(SufficiencyState::Unknown)
}

/// The utilization of the first tier named `name`.
pub open spec fn first_named<P>(tiers: Seq<QuotaTier<P>>, name: Seq<char>) -> Option<P>
    decreases tiers.len(),
{
    if tiers.len() == 0 {
        None
    } else if tiers[0].name@ == name {
        Some(tiers[0].utilization)
    } else {
        first_named(tiers.drop_first(), name)
    }
}

/// The utilization of the first weekly tier.
pub open spec fn first_weekly<P>(tiers: Seq<QuotaTier<P>>) -> Option<P>
    decreases tiers.len(),
{
    if tiers.len() == 0 {
        None
    } else if is_weekly(tiers[0].name@) {
        Some(tiers[0].utilization)
    } else {
        first_weekly(tiers.drop_first())
    }
}

/// The utilization of the tier named `name` of a successful quota.
pub open spec fn named_utilization<P>(quota: Option<ServiceQuota<P>>, name: Seq<char>) -> Option<P> {
    match quota {
        Some(q) => if q.success {
            first_named(q.tiers@, name)
        } else {
            None
        },
        None => None,
    }
}

/// The utilization of the weekly tier of a successful quota.
pub open spec fn weekly_utilization<P>(quota: Option<ServiceQuota<P>>) -> Option<P> {
    match quota {
        Some(q) => if q.success {
            first_weekly(q.tiers@)
        } else {
            None
        },
        None => None,
    }
}

/// The utilization of the first tier named `name` of a successful quota.
pub fn tier_pct<P: Copy>(quota: &Option<ServiceQuota<P>>, name: &str) -> (pct: Option<P>)
    ensures
        pct == named_utilization(*quota, name@),
{
    let q = match quota {
        Some(q) => q,
        None => return None,
    };
    if !q.success {
        return None;
    }
    let mut i: usize = 0;
    proof {
        assert(q.tiers@.skip(0) =~= q.tiers@);
    }
    while i < q.tiers.len()
        invariant
            i <= q.tiers@.len(),
            first_named(q.tiers@, name@) == first_named(q.tiers@.skip(i as int), name@),
            *quota == Some(*q),
            q.success,
        decreases q.tiers@.len() - i,
    {
        proof {
            assert(q.tiers@.skip(i as int).drop_first() =~= q.tiers@.skip(i + 1));
        }
        if same_text(q.tiers[i].name.as_str(), name) {
            proof {
                assert(q.tiers@.skip(i as int)[0] == q.tiers@[i as int]);
            }
            return Some(q.tiers[i].utilization);
        }
        i += 1;
    }
    proof {
        assert(q.tiers@.skip(i as int) =~= Seq::<QuotaTier<P>>::empty());
    }
    None
}

/// The utilization of the first weekly tier of a successful quota.
pub fn weekly_pct<P: Copy>(quota: &Option<ServiceQuota<P>>) -> (pct: Option<P>)
    ensures
        pct == weekly_utilization(*quota),
{
    let q = match quota {
        Some(q) => q,
        None => return None,
    };
    if !q.success {
        return None;
    }
    let mut i: usize = 0;
    proof {
        assert(q.tiers@.skip(0) =~= q.tiers@);
    }
    while i < q.tiers.len()
        invariant
            i <= q.tiers@.len(),
            first_weekly(q.tiers@) == first_weekly(q.tiers@.skip(i as int)),
            *quota == Some(*q),
            q.success,
        decreases q.tiers@.len() - i,
    {
        proof {
            assert(q.tiers@.skip(i as int).drop_first() =~= q.tiers@.skip(i + 1));
        }
        if is_weekly_tier(q.tiers[i].name.as_str()) {
            proof {
                assert(q.tiers@.skip(i as int)[0] == q.tiers@[i as int]);
            }
            return Some(q.tiers[i].utilization);
        }
        i += 1;
    }
    proof {
        assert(q.tiers@.skip(i as int) =~= Seq::<QuotaTier<P>>::empty());
    }
    None
}

/// Whether `text` is what `pct_text` answered for `pct`.
pub open spec fn rendered<P, F: Fn(&P) -> String>(pct_text: F, pct: P, text: Seq<char>) -> bool {
    exists|s: String| s@ == text && #[trigger] call_ensures(pct_text, (&pct,), s)
}

/// Whether `title` is the status-bar title: the five-hour percentage (`h`),
/// else the weekly one (`w`), else `w--%`, when percentages are shown; the
/// weekly state word when states are shown; joined by a space. Percentages are
/// written by `pct_text`.
pub open spec fn is_service_title<P, F: Fn(&P) -> String>(
    title: Seq<char>,
    quota: Option<ServiceQuota<P>>,
    estimates: Seq<TierEstimateView<P>>,
    display: StatusBarDisplayConfig,
    pct_text: F,
) -> bool {
    let state = short_label(
        match weekly_estimate_state(estimates) {
            Some(state) => state,
            None => SufficiencyState::Unknown,
        },
    );
    exists|pct: Seq<char>| {
        &&& #[trigger] percentage_part(pct, quota, pct_text)
        &&& title == if display.show_percentage && display.show_state_text {
            pct + " "@ + state
        } else if display.show_percentage {
            pct
        } else if display.show_state_text {
            state
        } else {
            Seq::empty()
        }
    }
}

/// Whether `part` is the percentage part of a status-bar title.
pub open spec fn percentage_part<P, F: Fn(&P) -> String>(part: Seq<char>, quota: Option<ServiceQuota<P>>, pct_text: F) -> bool {
    match named_utilization(quota, "five_hour"@) {
        Some(h) => exists|t: Seq<char>| #[trigger] rendered(pct_text, h, t) && part == "h"@ + t + "%"@,
        None => match weekly_utilization(quota) {
            Some(w) => exists|t: Seq<char>| #[trigger] rendered(pct_text, w, t) && part == "w"@ + t + "%"@,
            None => part == "w--%"@,
        },
    }
}

/// The status-bar title of a service; `pct_text` writes a percentage.
pub fn service_title<P: Copy, F: Fn(&P) -> String>(
    quota: &Option<ServiceQuota<P>>,
    estimates: &[TierEstimateView<P>],
    display: &StatusBarDisplayConfig,
    pct_text: F,
) -> (title: String)
    requires
        forall|p: &P| #[trigger] call_requires(pct_text, (p,)),
    ensures
        is_service_title(title@, *quota, estimates@, *display, pct_text),
{
    let pct = match tier_pct(quota, "five_hour") {
        Some(h) => {
            let t = pct_text(&h);
            let mut part = String::from_str("h");
            part.append(t.as_str());
            part.append("%");
            proof {
                assert(rendered(pct_text, h, t@));
            }
            part
        },
        None => match weekly_pct(quota) {
            Some(w) => {
                let t = pct_text(&w);
                let mut part = String::from_str("w");
                part.append(t.as_str());
                part.append("%");
                proof {
                    assert(rendered(pct_text, w, t@));
                }
                part
            },
            None => String::from_str("w--%"),
        },
    };
    proof {
        assert(percentage_part(pct@, *quota, pct_text));
    }
    let state = weekly_state(estimates);
    let title = if display.show_percentage && display.show_state_text {
        let mut title = pct.clone();
        title.append(" ");
        title.append(state);
        title
    } else if display.show_percentage {
        pct.clone()
    } else if display.show_state_text {
        String::from_str(state)
    } else {
        String::new()
    };
    proof {
        assert(title@ =~= if display.show_percentage && display.show_state_text {
            pct@ + " "@ + state@
        } else if display.show_percentage {
            pct@
        } else if display.show_state_text {
            state@
        } else {
            Seq::empty()
        });
    }
    title
}

/// The reset countdown of a remaining time: minutes below an hour, hours and
/// minutes below a day, otherwise days and hours; nothing once it is over.
pub open spec fn countdown_of(remaining: int) -> Seq<char> {
    if remaining <= 0 {
        Seq::empty()
    } else if remaining < 3_600 {
        crate::text::decimal_text((remaining / 60) as nat) + "m"@
    } else if remaining < 86_400 {
        crate::text::decimal_text((remaining / 3_600) as nat) + "h"@ + crate::text::decimal_text(
            ((remaining % 3_600) / 60) as nat,
        ) + "m"@
    } else {
        crate::text::decimal_text((remaining / 86_400) as nat) + "d"@ + crate::text::decimal_text(
            ((remaining % 86_400) / 3_600) as nat,
        ) + "h"@
    }
}

/// The reset countdown of a remaining time in seconds.
pub fn countdown_text(remaining: i64) -> (text: String)
    ensures
        text@ == countdown_of(remaining as int),
{
    let mut text = String::new();
    if remaining <= 0 {
        return text;
    }
    if remaining < 3_600 {
        push_decimal(&mut text, (remaining / 60) as u64);
        text.append("m");
    } else if remaining < 86_400 {
        push_decimal(&mut text, (remaining / 3_600) as u64);
        text.append("h");
        push_decimal(&mut text, ((remaining % 3_600) / 60) as u64);
        text.append("m");
    } else {
        push_decimal(&mut text, (remaining / 86_400) as u64);
        text.append("d");
        push_decimal(&mut text, ((remaining % 86_400) / 3_600) as u64);
        text.append("h");
    }
    proof {
        assert(text@ =~= countdown_of(remaining as int));
    }
    text
}

/// The reset countdown of `tier` at `now_secs`; nothing when its reset time
/// is missing, unreadable or past.
pub fn tier_countdown<P>(tier: &QuotaTier<P>, now_secs: i64) -> (text: String)
    requires
        -crate::estimator::TIME_LIMIT <= now_secs <= crate::estimator::TIME_LIMIT,
    ensures
        text@ == match crate::types::opt_str(tier.resets_at) {
            Some(t) => match crate::estimator::rfc3339_seconds(t) {
                Some(reset_at) => countdown_of(reset_at - now_secs),
                None => Seq::empty(),
            },
            None => Seq::empty(),
        },
{
    match &tier.resets_at {
        Some(text) => match crate::estimator::parse_rfc3339_seconds(text.as_str()) {
            Some(reset_at) => countdown_text(reset_at - now_secs),
            None => String::new(),
        },
        None => String::new(),
    }
}

/// How long ago the last update was, for whole seconds `secs`.
pub open spec fn age_of(secs: nat) -> Seq<char> {
    if secs < 60 {
        crate::text::decimal_text(secs) + "s ago"@
    } else if secs < 3_600 {
        crate::text::decimal_text(secs / 60) + "m ago"@
    } else {
        crate::text::decimal_text(secs / 3_600) + "h ago"@
    }
}

/// How long ago the last update was, for whole seconds `secs`.
pub fn age_text(secs: u64) -> (text: String)
    ensures
        text@ == age_of(secs as nat),
{
    let mut text = String::new();
    if secs < 60 {
        push_decimal(&mut text, secs);
        text.append("s ago");
    } else if secs < 3_600 {
        push_decimal(&mut text, secs / 60);
        text.append("m ago");
    } else {
        push_decimal(&mut text, secs / 3_600);
        text.append("h ago");
    }
    proof {
        assert(text@ =~= age_of(secs as nat));
    }
    text
}

/// Whether `part` is `prefix` followed by the rendered percentage and `%`, or
/// by `--%` when there is no percentage.
pub open spec fn pct_or_dashes<P, F: Fn(&P) -> String>(part: Seq<char>, prefix: Seq<char>, pct: Option<P>, pct_text: F) -> bool {
    match pct {
        Some(p) => exists|t: Seq<char>| #[trigger] rendered(pct_text, p, t) && part == prefix + t + "%"@,
        None => part == prefix + "--%"@,
    }
}

/// `prefix` and the rendered percentage and `%`, or `--%` without one.
fn pct_part<P: Copy, F: Fn(&P) -> String>(prefix: &str, pct: Option<P>, pct_text: &F) -> (part: String)
    requires
        forall|p: &P| #[trigger] call_requires(*pct_text, (p,)),
    ensures
        pct_or_dashes(part@, prefix@, pct, *pct_text),
{
    let mut part = String::from_str(prefix);
    match pct {
        Some(p) => {
            let t = pct_text(&p);
            proof {
                assert(rendered(*pct_text, p, t@));
            }
            part.append(t.as_str());
            part.append("%");
        },
        None => {
            part.append("--%");
        },
    }
    part
}

/// The menu summary of a service: `h<five-hour>% · w<weekly>% · <state>`.
pub fn service_summary<P: Copy, F: Fn(&P) -> String>(
    quota: &Option<ServiceQuota<P>>,
    estimates: &[TierEstimateView<P>],
    pct_text: F,
) -> (summary: String)
    requires
        forall|p: &P| #[trigger] call_requires(pct_text, (p,)),
    ensures
        exists|h: Seq<char>, w: Seq<char>|
            #[trigger] pct_or_dashes(h, "h"@, named_utilization(*quota, "five_hour"@), pct_text)
                && #[trigger] pct_or_dashes(w, "w"@, weekly_utilization(*quota), pct_text) && summary@ == h
                + " · "@ + w + " · "@ + short_label(
                match weekly_estimate_state(estimates@) {
                    Some(state) => state,
                    None => SufficiencyState::Unknown,
                },
            ),
{
    let h = pct_part("h", tier_pct(quota, "five_hour"), &pct_text);
    let w = pct_part("w", weekly_pct(quota), &pct_text);
    let mut summary = h.clone();
    summary.append(" · ");
    summary.append(w.as_str());
    summary.append(" · ");
    summary.append(weekly_state(estimates));
    proof {
        assert(pct_or_dashes(h@, "h"@, named_utilization(*quota, "five_hour"@), pct_text));
        assert(pct_or_dashes(w@, "w"@, weekly_utilization(*quota), pct_text));
    }
    summary
}

} // verus!
