//! Command-line overrides of the configuration, each written `key=value`.

use vstd::prelude::*;
use vstd::string::*;
use vstd::utf8::is_ascii_chars;
use crate::config::{
    lemma_named_is_lowercase_name, lemma_notification_names_read_back, Config, ConfigView, MonitorConfigView, NotificationConfigView, NotificationType,
};
use crate::text::{
    all_digits, ascii_lowercase, chars_of, decimal_value, is_float_literal, without_plus, is_float_text, lowercase, parse_u64, parsed_u64, text_eq,
    is_white_space, to_lowercase, trim, trim_bounds, trim_end, trim_start,
};

verus! {

/// What became of one override; the caller reports it.
#[derive(Clone, Copy, Debug, PartialEq, Eq, Structural)]
pub enum OverrideOutcome {
    /// The override holds no `=`.
    Malformed,
    /// `notifications.type` was set.
    NotificationTypeSet,
    /// `notifications.type` names no known type; nothing changed.
    UnknownNotificationType,
    /// `monitor.check_interval_seconds` was set to the value given.
    CheckIntervalSet(u64),
    /// `monitor.check_interval_seconds` is no unsigned number; nothing changed.
    InvalidCheckInterval,
    /// `monitor.cpu_threshold_percent` was set.
    CpuThresholdSet,
    /// `monitor.cpu_threshold_percent` is no number; nothing changed.
    InvalidCpuThreshold,
    /// `monitor.memory_threshold_percent` was set.
    MemoryThresholdSet,
    /// `monitor.memory_threshold_percent` is no number; nothing changed.
    InvalidMemoryThreshold,
    /// `monitor.disk_threshold_percent` was set.
    DiskThresholdSet,
    /// `monitor.disk_threshold_percent` is no number; nothing changed.
    InvalidDiskThreshold,
    /// The key names no setting; nothing changed.
    UnknownKey,
}

/// `k` is the index of the first `=` in `s`, or the length of `s` if it holds
/// none.
pub open spec fn is_first_separator(s: Seq<char>, k: int) -> bool {
    &&& 0 <= k <= s.len()
    &&& forall|j: int| 0 <= j < k ==> #[trigger] s[j] != '='
    &&& k < s.len() ==> s[k] == '='
}

/// The index of the first `=` in `s`, or the length of `s`.
pub open spec fn separator_index(s: Seq<char>) -> int {
    choose|k: int| is_first_separator(s, k)
}

/// The trimmed key and value of an override: the text before its first `=`
/// and the text after it. None if it holds no `=`.
pub open spec fn override_parts(ov: Seq<char>) -> Option<(Seq<char>, Seq<char>)> {
    let k = separator_index(ov);
    if k < ov.len() {
        Some((trim(ov.take(k)), trim(ov.skip(k + 1))))
    } else {
        None
    }
}

/// The settings that overrides can change, each with its new value where it
/// changes.
pub struct ConfigChange {
    pub notification_type: Option<NotificationType>,
    pub check_interval_seconds: Option<u64>,
    pub cpu_threshold_percent: Option<Seq<char>>,
    pub memory_threshold_percent: Option<Seq<char>>,
    pub disk_threshold_percent: Option<Seq<char>>,
}

/// The change that changes nothing.
pub open spec fn no_change() -> ConfigChange {
    ConfigChange {
        notification_type: None,
        check_interval_seconds: None,
        cpu_threshold_percent: None,
        memory_threshold_percent: None,
        disk_threshold_percent: None,
    }
}

/// The new value where there is one, else the old.
pub open spec fn new_or<A>(new: Option<A>, old: A) -> A {
    match new {
        Some(v) => v,
        None => old,
    }
}

/// `c` with the change `ch` made.
pub open spec fn changed(c: ConfigView, ch: ConfigChange) -> ConfigView {
    ConfigView {
        monitor: MonitorConfigView {
            check_interval_seconds: new_or(
                ch.check_interval_seconds,
                c.monitor.check_interval_seconds,
            ),
            cpu_threshold_percent: new_or(ch.cpu_threshold_percent, c.monitor.cpu_threshold_percent),
            memory_threshold_percent: new_or(
                ch.memory_threshold_percent,
                c.monitor.memory_threshold_percent,
            ),
            disk_threshold_percent: new_or(
                ch.disk_threshold_percent,
                c.monitor.disk_threshold_percent,
            ),
        },
        notifications: NotificationConfigView {
            notification_type: new_or(ch.notification_type, c.notifications.notification_type),
            ..c.notifications
        },
    }
}

/// The later value where there is one, else the earlier.
pub open spec fn later_or<A>(earlier: Option<A>, later: Option<A>) -> Option<A> {
    match later {
        Some(v) => Some(v),
        None => earlier,
    }
}

/// The change `a` followed by the change `b`.
pub open spec fn then(a: ConfigChange, b: ConfigChange) -> ConfigChange {
    ConfigChange {
        notification_type: later_or(a.notification_type, b.notification_type),
        check_interval_seconds: later_or(a.check_interval_seconds, b.check_interval_seconds),
        cpu_threshold_percent: later_or(a.cpu_threshold_percent, b.cpu_threshold_percent),
        memory_threshold_percent: later_or(a.memory_threshold_percent, b.memory_threshold_percent),
        disk_threshold_percent: later_or(a.disk_threshold_percent, b.disk_threshold_percent),
    }
}

/// What one override changes, and its outcome; neither depends on the
/// configuration it is applied to.
pub open spec fn override_effect(ov: Seq<char>) -> (ConfigChange, OverrideOutcome) {
    match override_parts(ov) {
        None => (no_change(), OverrideOutcome::Malformed),
        Some((key, value)) => if key == "notifications.type"@ {
            match NotificationType::named(lowercase(value)) {
                Some(t) => (
                    ConfigChange { notification_type: Some(t), ..no_change() },
                    OverrideOutcome::NotificationTypeSet,
                ),
                None => (no_change(), OverrideOutcome::UnknownNotificationType),
            }
        } else if key == "monitor.check_interval_seconds"@ {
            match parsed_u64(value) {
                Some(v) => (
                    ConfigChange { check_interval_seconds: Some(v), ..no_change() },
                    OverrideOutcome::CheckIntervalSet(v),
                ),
                None => (no_change(), OverrideOutcome::InvalidCheckInterval),
            }
        } else if key == "monitor.cpu_threshold_percent"@ {
            if is_float_literal(value) {
                (
                    ConfigChange { cpu_threshold_percent: Some(value), ..no_change() },
                    OverrideOutcome::CpuThresholdSet,
                )
            } else {
                (no_change(), OverrideOutcome::InvalidCpuThreshold)
            }
        } else if key == "monitor.memory_threshold_percent"@ {
            if is_float_literal(value) {
                (
                    ConfigChange { memory_threshold_percent: Some(value), ..no_change() },
                    OverrideOutcome::MemoryThresholdSet,
                )
            } else {
                (no_change(), OverrideOutcome::InvalidMemoryThreshold)
            }
        } else if key == "monitor.disk_threshold_percent"@ {
            if is_float_literal(value) {
                (
                    ConfigChange { disk_threshold_percent: Some(value), ..no_change() },
                    OverrideOutcome::DiskThresholdSet,
                )
            } else {
                (no_change(), OverrideOutcome::InvalidDiskThreshold)
            }
        } else {
            (no_change(), OverrideOutcome::UnknownKey)
        },
    }
}

/// What one override does to the configuration `c`, and its outcome.
pub open spec fn override_step(c: ConfigView, ov: Seq<char>) -> (ConfigView, OverrideOutcome) {
    (changed(c, override_effect(ov).0), override_effect(ov).1)
}

/// The configuration after the overrides `ovs`, applied in order.
pub open spec fn overrides_applied(c: ConfigView, ovs: Seq<Seq<char>>) -> ConfigView
    decreases ovs.len(),
{
    if ovs.len() == 0 {
        c
    } else {
        override_step(overrides_applied(c, ovs.drop_last()), ovs.last()).0
    }
}

/// The texts of a list of overrides.
pub open spec fn override_texts(overrides: Seq<String>) -> Seq<Seq<char>> {
    overrides.map_values(|s: String| s@)
}

/// Splits an override at its first `=` into its trimmed key and value.
pub fn split_override<'a>(ov: &'a str) -> (r: Option<(&'a str, &'a str)>)
    ensures
        match override_parts(ov@) {
            None => r is None,
            Some((key, value)) => r matches Some((k, v)) && k@ == key && v@ == value,
        },
{
    let v = chars_of(ov);
    let n = v.len();
    let mut k: usize = 0;
    while k < n && v[k] != '='
        invariant
            v@ == ov@,
            n == v@.len(),
            k <= n,
            forall|j: int| 0 <= j < k ==> #[trigger] v@[j] != '=',
        decreases n - k,
    {
        k = k + 1;
    }
    assert(is_first_separator(ov@, k as int));
    assert forall|j: int| is_first_separator(ov@, j) implies j == k by {
        if j < k {
            assert(ov@[j] != '=');
        } else if j > k {
            assert(ov@[k as int] == '=');
        }
    }
    assert(separator_index(ov@) == k);
    if k == n {
        return None;
    }
    let (a, b) = trim_bounds(&v, 0, k);
    let (c, d) = trim_bounds(&v, k + 1, n);
    assert(v@.subrange(0, k as int) =~= ov@.take(k as int));
    assert(v@.subrange(k + 1, n as int) =~= ov@.skip(k + 1));
    Some((ov.substring_char(a, b), ov.substring_char(c, d)))
}

/// Applies one override to `config` and reports what became of it. The key
/// and value are trimmed; `notifications.type` takes `console`, `webhook` or
/// `email` in any letter case, `monitor.check_interval_seconds` an unsigned
/// number and the three thresholds a floating-point number. A value that does
/// not read, an unknown key and an override without `=` change nothing.
pub fn apply_override(config: &mut Config, ov: &str) -> (r: OverrideOutcome)
    ensures
        (final(config)@, r) == override_step(old(config)@, ov@),
        stores_accepted_value(old(config)@, ov@, final(config)@, r),
{
    proof {
        lemma_accepted_override_stores_its_value(config@, ov@);
    }
    let (key, value) = match split_override(ov) {
        None => {
            return OverrideOutcome::Malformed;
        },
        Some(parts) => parts,
    };
    if text_eq(key, "notifications.type") {
        let lower = to_lowercase(value);
        match NotificationType::from_lowercase(lower.as_str()) {
            Ok(t) => {
                config.notifications.notification_type = t;
                OverrideOutcome::NotificationTypeSet
            },
            Err(_) => OverrideOutcome::UnknownNotificationType,
        }
    } else if text_eq(key, "monitor.check_interval_seconds") {
        match parse_u64(value) {
            Some(v) => {
                config.monitor.check_interval_seconds = v;
                OverrideOutcome::CheckIntervalSet(v)
            },
            None => OverrideOutcome::InvalidCheckInterval,
        }
    } else if text_eq(key, "monitor.cpu_threshold_percent") {
        if is_float_text(value) {
            config.monitor.cpu_threshold_percent = String::from_str(value);
            OverrideOutcome::CpuThresholdSet
        } else {
            OverrideOutcome::InvalidCpuThreshold
        }
    } else if text_eq(key, "monitor.memory_threshold_percent") {
        if is_float_text(value) {
            config.monitor.memory_threshold_percent = String::from_str(value);
            OverrideOutcome::MemoryThresholdSet
        } else {
            OverrideOutcome::InvalidMemoryThreshold
        }
    } else if text_eq(key, "monitor.disk_threshold_percent") {
        if is_float_text(value) {
            config.monitor.disk_threshold_percent = String::from_str(value);
            OverrideOutcome::DiskThresholdSet
        } else {
            OverrideOutcome::InvalidDiskThreshold
        }
    } else {
        OverrideOutcome::UnknownKey
    }
}

/// Applies the overrides in order, each as [`apply_override`] does, and
/// reports the outcome of each, in the same order.
pub fn apply_overrides(config: &mut Config, overrides: &[String]) -> (r: Vec<OverrideOutcome>)
    ensures
        final(config)@ == overrides_applied(old(config)@, override_texts(overrides@)),
        r@.len() == overrides@.len(),
        forall|i: int|
            0 <= i < overrides@.len() ==> #[trigger] r@[i] == override_step(
                overrides_applied(old(config)@, override_texts(overrides@).take(i)),
                overrides@[i]@,
            ).1,
{
    let ghost start = config@;
    let ghost texts = override_texts(overrides@);
    let mut outcomes: Vec<OverrideOutcome> = Vec::new();
    let mut i: usize = 0;
    assert(texts.take(0) =~= Seq::<Seq<char>>::empty());
    while i < overrides.len()
        invariant
            i <= overrides@.len(),
            texts == override_texts(overrides@),
            config@ == overrides_applied(start, texts.take(i as int)),
            outcomes@.len() == i,
            forall|j: int|
                0 <= j < i ==> #[trigger] outcomes@[j] == override_step(
                    overrides_applied(start, texts.take(j)),
                    overrides@[j]@,
                ).1,
        decreases overrides@.len() - i,
    {
        let outcome = apply_override(config, overrides[i].as_str());
        outcomes.push(outcome);
        assert(texts.take(i + 1).drop_last() =~= texts.take(i as int));
        assert(texts.take(i + 1).last() == overrides@[i as int]@);
        i = i + 1;
    }
    assert(texts.take(overrides@.len() as int) =~= texts);
    outcomes
}

/// Applying the overrides `a` and then the overrides `b` gives the
/// configuration that applying `a` followed by `b` in one list gives.
pub proof fn lemma_overrides_compose(c: ConfigView, a: Seq<Seq<char>>, b: Seq<Seq<char>>)
    ensures
        overrides_applied(overrides_applied(c, a), b) == overrides_applied(c, a + b),
    decreases b.len(),
{
    if b.len() == 0 {
        assert(a + b =~= a);
    } else {
        lemma_overrides_compose(c, a, b.drop_last());
        assert((a + b).drop_last() =~= a + b.drop_last());
        assert((a + b).last() == b.last());
    }
}

/// An override that is rejected (malformed, with an unknown key, or with a
/// value that does not read) leaves the configuration as it was.
pub proof fn lemma_rejected_override_changes_nothing(c: ConfigView, ov: Seq<char>)
    requires
        !(override_step(c, ov).1 is NotificationTypeSet || override_step(c, ov).1 is CheckIntervalSet
            || override_step(c, ov).1 is CpuThresholdSet || override_step(c, ov).1 is MemoryThresholdSet
            || override_step(c, ov).1 is DiskThresholdSet),
    ensures
        override_step(c, ov).0 == c,
{
}

/// The change that a list of overrides makes, later overrides winning.
pub open spec fn overrides_change(ovs: Seq<Seq<char>>) -> ConfigChange
    decreases ovs.len(),
{
    if ovs.len() == 0 {
        no_change()
    } else {
        then(overrides_change(ovs.drop_last()), override_effect(ovs.last()).0)
    }
}

/// Making one change and then another is making the two as one.
proof fn lemma_changed_then(c: ConfigView, a: ConfigChange, b: ConfigChange)
    ensures
        changed(changed(c, a), b) == changed(c, then(a, b)),
{
}

/// A list of overrides makes one change to the configuration, whatever the
/// configuration: for each setting, the value of the last override that sets
/// it.
pub proof fn lemma_overrides_make_one_change(c: ConfigView, ovs: Seq<Seq<char>>)
    ensures
        overrides_applied(c, ovs) == changed(c, overrides_change(ovs)),
    decreases ovs.len(),
{
    if ovs.len() > 0 {
        lemma_overrides_make_one_change(c, ovs.drop_last());
        lemma_changed_then(c, overrides_change(ovs.drop_last()), override_effect(ovs.last()).0);
    }
}

/// Applying a list of overrides twice gives what applying it once gives.
pub proof fn lemma_overrides_idempotent(c: ConfigView, ovs: Seq<Seq<char>>)
    ensures
        overrides_applied(overrides_applied(c, ovs), ovs) == overrides_applied(c, ovs),
{
    lemma_overrides_make_one_change(c, ovs);
    lemma_overrides_make_one_change(overrides_applied(c, ovs), ovs);
    let e = overrides_change(ovs);
    lemma_changed_then(c, e, e);
    assert(then(e, e) == e);
}

/// The override `ov` has the key `key`.
pub open spec fn names_key(ov: Seq<char>, key: Seq<char>) -> bool {
    override_parts(ov) matches Some((k, _)) && k == key
}

/// A setting changes only through an override that names its key.
pub proof fn lemma_setting_changes_only_when_named(c: ConfigView, ovs: Seq<Seq<char>>)
    ensures
        (forall|i: int| 0 <= i < ovs.len() ==> !names_key(#[trigger] ovs[i], "notifications.type"@))
            ==> overrides_applied(c, ovs).notifications.notification_type
            == c.notifications.notification_type,
        (forall|i: int|
            0 <= i < ovs.len() ==> !names_key(#[trigger] ovs[i], "monitor.check_interval_seconds"@))
            ==> overrides_applied(c, ovs).monitor.check_interval_seconds
            == c.monitor.check_interval_seconds,
        (forall|i: int|
            0 <= i < ovs.len() ==> !names_key(#[trigger] ovs[i], "monitor.cpu_threshold_percent"@))
            ==> overrides_applied(c, ovs).monitor.cpu_threshold_percent
            == c.monitor.cpu_threshold_percent,
        (forall|i: int|
            0 <= i < ovs.len() ==> !names_key(
                #[trigger] ovs[i],
                "monitor.memory_threshold_percent"@,
            )) ==> overrides_applied(c, ovs).monitor.memory_threshold_percent
            == c.monitor.memory_threshold_percent,
        (forall|i: int|
            0 <= i < ovs.len() ==> !names_key(#[trigger] ovs[i], "monitor.disk_threshold_percent"@))
            ==> overrides_applied(c, ovs).monitor.disk_threshold_percent
            == c.monitor.disk_threshold_percent,
    decreases ovs.len(),
{
    if ovs.len() > 0 {
        let p = ovs.drop_last();
        lemma_setting_changes_only_when_named(c, p);
        assert forall|i: int| 0 <= i < p.len() implies p[i] == ovs[i] by {}
        let x = ovs.last();
        assert(ovs[ovs.len() - 1] == x);
    }
}

/// No override changes the webhook URL or the email settings.
pub proof fn lemma_overrides_keep_delivery_targets(c: ConfigView, ovs: Seq<Seq<char>>)
    ensures
        overrides_applied(c, ovs).notifications.webhook_url == c.notifications.webhook_url,
        overrides_applied(c, ovs).notifications.email_config == c.notifications.email_config,
    decreases ovs.len(),
{
    if ovs.len() > 0 {
        lemma_overrides_keep_delivery_targets(c, ovs.drop_last());
    }
}

/// Overrides keep every threshold a text that `str::parse::<f64>` accepts.
pub proof fn lemma_overrides_keep_thresholds_readable(c: ConfigView, ovs: Seq<Seq<char>>)
    requires
        c.monitor.thresholds_are_float_literals(),
    ensures
        overrides_applied(c, ovs).monitor.thresholds_are_float_literals(),
    decreases ovs.len(),
{
    if ovs.len() > 0 {
        lemma_overrides_keep_thresholds_readable(c, ovs.drop_last());
    }
}

/// The override text `key=value`.
pub open spec fn override_text(key: Seq<char>, value: Seq<char>) -> Seq<char> {
    key + seq!['='] + value
}

/// A key of a setting: not empty, without `=` and without white space.
pub open spec fn is_plain_key(key: Seq<char>) -> bool {
    &&& key.len() > 0
    &&& forall|i: int| 0 <= i < key.len() ==> #[trigger] key[i] != '=' && !is_white_space(key[i])
}

/// `key=value` splits into `key` and `value` when the key is plain and the
/// value has no white space around it.
proof fn lemma_parts_of_override_text(key: Seq<char>, value: Seq<char>)
    requires
        is_plain_key(key),
        trim(value) == value,
    ensures
        override_parts(override_text(key, value)) == Some((key, value)),
{
    let s = override_text(key, value);
    let k = key.len() as int;
    assert(s[k] == '=');
    assert forall|j: int| 0 <= j < k implies #[trigger] s[j] != '=' by {
        assert(s[j] == key[j]);
    }
    assert(is_first_separator(s, k));
    let c = separator_index(s);
    assert(is_first_separator(s, c));
    if c < k {
        assert(s[c] == key[c]);
    }
    if c > k {
        assert(s[k] != '=');
    }
    assert(c == k);
    assert(s.take(k) =~= key);
    assert(s.skip(k + 1) =~= value);
    assert(!is_white_space(key[0]));
    assert(trim_start(key) == key);
    assert(!is_white_space(key.last()));
    assert(trim_end(key) == key);
}

/// The keys of the five settings are plain keys.
proof fn lemma_setting_keys_are_plain()
    ensures
        is_plain_key("notifications.type"@),
        is_plain_key("monitor.check_interval_seconds"@),
        is_plain_key("monitor.cpu_threshold_percent"@),
        is_plain_key("monitor.memory_threshold_percent"@),
        is_plain_key("monitor.disk_threshold_percent"@),
        "notifications.type"@ != "monitor.check_interval_seconds"@,
        "notifications.type"@ != "monitor.cpu_threshold_percent"@,
        "notifications.type"@ != "monitor.memory_threshold_percent"@,
        "notifications.type"@ != "monitor.disk_threshold_percent"@,
        "monitor.check_interval_seconds"@ != "monitor.cpu_threshold_percent"@,
        "monitor.check_interval_seconds"@ != "monitor.memory_threshold_percent"@,
        "monitor.check_interval_seconds"@ != "monitor.disk_threshold_percent"@,
        "monitor.cpu_threshold_percent"@ != "monitor.memory_threshold_percent"@,
        "monitor.cpu_threshold_percent"@ != "monitor.disk_threshold_percent"@,
        "monitor.memory_threshold_percent"@ != "monitor.disk_threshold_percent"@,
{
    reveal_strlit("notifications.type");
    reveal_strlit("monitor.check_interval_seconds");
    reveal_strlit("monitor.cpu_threshold_percent");
    reveal_strlit("monitor.memory_threshold_percent");
    reveal_strlit("monitor.disk_threshold_percent");
    assert("notifications.type"@[0] != "monitor.check_interval_seconds"@[0]);
    assert("notifications.type"@[0] != "monitor.cpu_threshold_percent"@[0]);
    assert("notifications.type"@[0] != "monitor.memory_threshold_percent"@[0]);
    assert("notifications.type"@[0] != "monitor.disk_threshold_percent"@[0]);
    assert("monitor.check_interval_seconds"@.len() != "monitor.cpu_threshold_percent"@.len());
    assert("monitor.check_interval_seconds"@.len() != "monitor.memory_threshold_percent"@.len());
    assert("monitor.check_interval_seconds"@[8] != "monitor.disk_threshold_percent"@[8]);
    assert("monitor.cpu_threshold_percent"@.len() != "monitor.memory_threshold_percent"@.len());
    assert("monitor.cpu_threshold_percent"@.len() != "monitor.disk_threshold_percent"@.len());
    assert("monitor.memory_threshold_percent"@.len() != "monitor.disk_threshold_percent"@.len());
}

/// The settings other than the notification type are as in `c`.
pub open spec fn same_but_notification_type(d: ConfigView, c: ConfigView) -> bool {
    &&& d.monitor == c.monitor
    &&& d.notifications.webhook_url == c.notifications.webhook_url
    &&& d.notifications.email_config == c.notifications.email_config
}

/// `d` differs from `c` at most in the monitor settings.
pub open spec fn same_notifications(d: ConfigView, c: ConfigView) -> bool {
    d.notifications == c.notifications
}

/// What an accepted override did, read off its outcome `out`, from the
/// configuration `c` to `d`: a new notification type is the one whose
/// lowercase name is the lowercased value; a new check interval is the number
/// that the value reads as; a new threshold is the value itself, a text that
/// `str::parse::<f64>` accepts. Every other setting keeps its value.
pub open spec fn stores_accepted_value(
    c: ConfigView,
    ov: Seq<char>,
    d: ConfigView,
    out: OverrideOutcome,
) -> bool {
    &&& out is NotificationTypeSet ==> (override_parts(ov) matches Some((k, v)) && k
            == "notifications.type"@ && d.notifications.notification_type.lowercase_name()
            == lowercase(v) && same_but_notification_type(d, c))
        &&& out matches OverrideOutcome::CheckIntervalSet(n) ==> (override_parts(ov) matches Some(
            (k, v),
        ) && k == "monitor.check_interval_seconds"@ && parsed_u64(v) == Some(n)
            && d.monitor.check_interval_seconds == n && d.monitor.cpu_threshold_percent
            == c.monitor.cpu_threshold_percent && d.monitor.memory_threshold_percent
            == c.monitor.memory_threshold_percent && d.monitor.disk_threshold_percent
            == c.monitor.disk_threshold_percent && same_notifications(d, c))
        &&& out is CpuThresholdSet ==> (override_parts(ov) matches Some((k, v)) && k
            == "monitor.cpu_threshold_percent"@ && is_float_literal(v)
            && d.monitor.cpu_threshold_percent == v && d.monitor.check_interval_seconds
            == c.monitor.check_interval_seconds && d.monitor.memory_threshold_percent
            == c.monitor.memory_threshold_percent && d.monitor.disk_threshold_percent
            == c.monitor.disk_threshold_percent && same_notifications(d, c))
        &&& out is MemoryThresholdSet ==> (override_parts(ov) matches Some((k, v)) && k
            == "monitor.memory_threshold_percent"@ && is_float_literal(v)
            && d.monitor.memory_threshold_percent == v && d.monitor.check_interval_seconds
            == c.monitor.check_interval_seconds && d.monitor.cpu_threshold_percent
            == c.monitor.cpu_threshold_percent && d.monitor.disk_threshold_percent
            == c.monitor.disk_threshold_percent && same_notifications(d, c))
        &&& out is DiskThresholdSet ==> (override_parts(ov) matches Some((k, v)) && k
            == "monitor.disk_threshold_percent"@ && is_float_literal(v)
            && d.monitor.disk_threshold_percent == v && d.monitor.check_interval_seconds
            == c.monitor.check_interval_seconds && d.monitor.cpu_threshold_percent
            == c.monitor.cpu_threshold_percent && d.monitor.memory_threshold_percent
            == c.monitor.memory_threshold_percent && same_notifications(d, c))
}

/// Every override stores the value it accepts, as `stores_accepted_value`
/// says, and nothing else.
pub proof fn lemma_accepted_override_stores_its_value(c: ConfigView, ov: Seq<char>)
    ensures
        stores_accepted_value(c, ov, override_step(c, ov).0, override_step(c, ov).1),
{
    match override_parts(ov) {
        Some((k, v)) => {
            if k == "notifications.type"@ {
                match NotificationType::named(lowercase(v)) {
                    Some(t) => {
                        lemma_named_is_lowercase_name(lowercase(v), t);
                    },
                    None => {},
                }
            }
        },
        None => {},
    }
}

/// `notifications.type=<value>`, with the value in any letter case that
/// lowercases to the name of a type `t`, sets the notification type to `t`
/// and changes nothing else, whatever the configuration.
pub proof fn lemma_type_override_sets_the_named_type(
    c: ConfigView,
    t: NotificationType,
    v: Seq<char>,
)
    requires
        trim(v) == v,
        lowercase(v) == t.lowercase_name(),
    ensures
        override_step(c, override_text("notifications.type"@, v)).1 is NotificationTypeSet,
        override_step(c, override_text("notifications.type"@, v)).0.notifications.notification_type
            == t,
        same_but_notification_type(
            override_step(c, override_text("notifications.type"@, v)).0,
            c,
        ),
{
    lemma_setting_keys_are_plain();
    lemma_parts_of_override_text("notifications.type"@, v);
    lemma_notification_names_read_back(t, t);
}

/// `notifications.type=<name>`, with `name` the lowercase name or the shown
/// name of a type `t`, sets the notification type to `t`.
pub proof fn lemma_type_override_by_name(c: ConfigView, t: NotificationType)
    ensures
        override_step(c, override_text("notifications.type"@, t.lowercase_name())).0.notifications.notification_type
            == t,
        override_step(c, override_text("notifications.type"@, t.display_name())).0.notifications.notification_type
            == t,
{
    lemma_notification_names_read_back(t, t);
    lemma_named_is_lowercase_name(lowercase(t.display_name()), t);
    reveal_strlit("console");
    reveal_strlit("webhook");
    reveal_strlit("email");
    reveal_strlit("Console");
    reveal_strlit("Webhook");
    reveal_strlit("Email");
    assert(is_ascii_chars(t.lowercase_name()));
    assert(ascii_lowercase("console"@) =~= "console"@);
    assert(ascii_lowercase("webhook"@) =~= "webhook"@);
    assert(ascii_lowercase("email"@) =~= "email"@);
    assert(trim(t.lowercase_name()) == t.lowercase_name());
    assert(trim(t.display_name()) == t.display_name());
    lemma_type_override_sets_the_named_type(c, t, t.lowercase_name());
    lemma_type_override_sets_the_named_type(c, t, t.display_name());
}

/// `monitor.check_interval_seconds=<digits>`, for digits whose number fits in
/// a `u64`, sets the check interval to that number and changes nothing else,
/// whatever the configuration.
pub proof fn lemma_interval_override_sets_the_number(c: ConfigView, v: Seq<char>)
    requires
        v.len() > 0,
        all_digits(v),
        decimal_value(v) <= u64::MAX,
    ensures
        override_step(c, override_text("monitor.check_interval_seconds"@, v)).1
            == OverrideOutcome::CheckIntervalSet(decimal_value(v) as u64),
        override_step(c, override_text("monitor.check_interval_seconds"@, v)).0
            == changed(
            c,
            ConfigChange { check_interval_seconds: Some(decimal_value(v) as u64), ..no_change() },
        ),
        override_step(c, override_text("monitor.check_interval_seconds"@, v)).0.monitor.check_interval_seconds
            == decimal_value(v),
{
    lemma_setting_keys_are_plain();
    assert(!is_white_space(v[0]) && !is_white_space(v.last()));
    assert(trim_start(v) == v);
    assert(trim_end(v) == v);
    lemma_parts_of_override_text("monitor.check_interval_seconds"@, v);
    assert(without_plus(v) == v);
}

/// `monitor.<cpu|memory|disk>_threshold_percent=<value>`, for a value that
/// `str::parse::<f64>` accepts and that has no white space around it, sets
/// that threshold to the value and changes nothing else, whatever the
/// configuration.
pub proof fn lemma_threshold_override_stores_the_value(c: ConfigView, v: Seq<char>)
    requires
        trim(v) == v,
        is_float_literal(v),
    ensures
        override_step(c, override_text("monitor.cpu_threshold_percent"@, v)).1 is CpuThresholdSet,
        override_step(c, override_text("monitor.cpu_threshold_percent"@, v)).0 == changed(
            c,
            ConfigChange { cpu_threshold_percent: Some(v), ..no_change() },
        ),
        override_step(c, override_text("monitor.cpu_threshold_percent"@, v)).0.monitor.cpu_threshold_percent
            == v,
        override_step(c, override_text("monitor.memory_threshold_percent"@, v)).1 is MemoryThresholdSet,
        override_step(c, override_text("monitor.memory_threshold_percent"@, v)).0.monitor.memory_threshold_percent
            == v,
        override_step(c, override_text("monitor.disk_threshold_percent"@, v)).1 is DiskThresholdSet,
        override_step(c, override_text("monitor.disk_threshold_percent"@, v)).0.monitor.disk_threshold_percent
            == v,
{
    lemma_setting_keys_are_plain();
    lemma_parts_of_override_text("monitor.cpu_threshold_percent"@, v);
    lemma_parts_of_override_text("monitor.memory_threshold_percent"@, v);
    lemma_parts_of_override_text("monitor.disk_threshold_percent"@, v);
}

/// Overrides that are refused leave every configuration as it is, each with
/// its own outcome: one without `=` is malformed; a plain key that names none
/// of the five settings is unknown; a type value that lowercases to no type
/// name, an interval value that does not read as a `u64`, and a threshold
/// value that `str::parse::<f64>` does not accept are each reported invalid.
pub proof fn lemma_refused_overrides(c: ConfigView, key: Seq<char>, v: Seq<char>, ov: Seq<char>)
    requires
        trim(v) == v,
    ensures
        (forall|i: int| 0 <= i < ov.len() ==> #[trigger] ov[i] != '=') ==> override_step(c, ov)
            == (c, OverrideOutcome::Malformed),
        is_plain_key(key) && key != "notifications.type"@ && key
            != "monitor.check_interval_seconds"@ && key != "monitor.cpu_threshold_percent"@ && key
            != "monitor.memory_threshold_percent"@ && key != "monitor.disk_threshold_percent"@
            ==> override_step(c, override_text(key, v)) == (c, OverrideOutcome::UnknownKey),
        (forall|t: NotificationType| lowercase(v) != #[trigger] t.lowercase_name()) ==> override_step(
            c,
            override_text("notifications.type"@, v),
        ) == (c, OverrideOutcome::UnknownNotificationType),
        parsed_u64(v) is None ==> override_step(
            c,
            override_text("monitor.check_interval_seconds"@, v),
        ) == (c, OverrideOutcome::InvalidCheckInterval),
        !is_float_literal(v) ==> override_step(c, override_text("monitor.cpu_threshold_percent"@, v))
            == (c, OverrideOutcome::InvalidCpuThreshold),
        !is_float_literal(v) ==> override_step(
            c,
            override_text("monitor.memory_threshold_percent"@, v),
        ) == (c, OverrideOutcome::InvalidMemoryThreshold),
        !is_float_literal(v) ==> override_step(c, override_text("monitor.disk_threshold_percent"@, v))
            == (c, OverrideOutcome::InvalidDiskThreshold),
{
    lemma_setting_keys_are_plain();
    if forall|i: int| 0 <= i < ov.len() ==> #[trigger] ov[i] != '=' {
        assert(is_first_separator(ov, ov.len() as int));
        let k = separator_index(ov);
        if k < ov.len() {
            assert(ov[k] != '=');
        }
    }
    if is_plain_key(key) {
        lemma_parts_of_override_text(key, v);
    }
    lemma_parts_of_override_text("notifications.type"@, v);
    lemma_parts_of_override_text("monitor.check_interval_seconds"@, v);
    lemma_parts_of_override_text("monitor.cpu_threshold_percent"@, v);
    lemma_parts_of_override_text("monitor.memory_threshold_percent"@, v);
    lemma_parts_of_override_text("monitor.disk_threshold_percent"@, v);
    if forall|t: NotificationType| lowercase(v) != #[trigger] t.lowercase_name() {
        if let Some(t) = NotificationType::named(lowercase(v)) {
            lemma_named_is_lowercase_name(lowercase(v), t);
        }
    }
    assert(c == changed(c, no_change()));
}

} // verus!
