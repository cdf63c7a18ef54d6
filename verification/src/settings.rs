//! Application and repository settings, and the editors table.

use vstd::prelude::*;

use crate::git::runner::opt_text;
use crate::text::{chars_eq_str, chars_of, string_of, trim, trim_str};

verus! {

#[derive(Debug, Clone)]
pub struct AppSettings {
    pub notify_on_conflict: bool,
    pub notify_on_complete: bool,
    pub default_merge_strategy: String,
    pub managed_clones_root: Option<String>,
    pub share_anonymous_usage: bool,
    pub analytics_consent_decided: bool,
}

/// A row of the editors table as shown to the user.
#[derive(Debug)]
pub struct EditorRow {
    pub id: i64,
    pub name: String,
    pub command: String,
    pub detected_path: Option<String>,
    pub is_preferred: bool,
    pub last_verified_at: Option<i64>,
}

#[derive(Debug)]
pub struct DiagnosticsInfo {
    pub db_path: String,
    pub repo_count: i64,
    pub pipeline_count: i64,
    pub editor_count: i64,
    pub github_connected: bool,
    pub mode: String,
}

/// The settings to change; `None` leaves a setting as it is.
#[derive(Debug)]
pub struct UpdateAppSettingsRequest {
    pub notify_on_conflict: Option<bool>,
    pub notify_on_complete: Option<bool>,
    pub default_merge_strategy: Option<String>,
    pub managed_clones_root: Option<String>,
    pub share_anonymous_usage: Option<bool>,
    pub analytics_consent_decided: Option<bool>,
}

/// The settings of one repository to change.
#[derive(Debug)]
pub struct UpdateRepoSettingsRequest {
    pub repo_id: i64,
    pub working_copy_mode: Option<String>,
    pub default_merge_strategy: Option<String>,
}

pub open spec fn is_merge_strategy(v: Seq<char>) -> bool {
    v == "auto"@ || v == "merge"@ || v == "squash"@ || v == "rebase"@
}

pub open spec fn merge_strategy_error() -> Seq<char> {
    "Merge strategy must be auto, merge, squash, or rebase"@
}

pub fn validate_merge_strategy(value: &str) -> (r: Result<(), String>)
    ensures
        r is Ok <==> is_merge_strategy(value@),
        r matches Err(e) ==> e@ == merge_strategy_error(),
{
    let v = chars_of(value);
    if chars_eq_str(v.as_slice(), "auto") || chars_eq_str(v.as_slice(), "merge") || chars_eq_str(
        v.as_slice(),
        "squash",
    ) || chars_eq_str(v.as_slice(), "rebase") {
        Ok(())
    } else {
        Err(String::from_str("Merge strategy must be auto, merge, squash, or rebase"))
    }
}

/// How a stored flag reads: `1`/`true` set, `0`/`false` clear, absent the
/// default, any other text set.
pub open spec fn flag_value(stored: Option<Seq<char>>, default: bool) -> bool {
    match stored {
        None => default,
        Some(v) => if v == "1"@ || v == "true"@ {
            true
        } else if v == "0"@ || v == "false"@ {
            false
        } else {
            v != "0"@
        },
    }
}

pub fn setting_flag(stored: Option<&String>, default: bool) -> (b: bool)
    ensures
        b == flag_value(
            match stored {
                Some(s) => Some(s@),
                None => None,
            },
            default,
        ),
{
    match stored {
        None => default,
        Some(v) => {
            let c = chars_of(v.as_str());
            if chars_eq_str(c.as_slice(), "1") || chars_eq_str(c.as_slice(), "true") {
                true
            } else if chars_eq_str(c.as_slice(), "0") || chars_eq_str(c.as_slice(), "false") {
                false
            } else {
                !chars_eq_str(c.as_slice(), "0")
            }
        },
    }
}

/// The keys under which the settings are stored.
pub open spec fn key_notify_conflict() -> Seq<char> {
    "notify_on_conflict"@
}

pub open spec fn key_notify_complete() -> Seq<char> {
    "notify_on_complete"@
}

pub open spec fn key_default_merge() -> Seq<char> {
    "default_merge_strategy"@
}

pub open spec fn key_clones_root() -> Seq<char> {
    "managed_clones_root"@
}

pub open spec fn key_share_usage() -> Seq<char> {
    "share_anonymous_usage"@
}

pub open spec fn key_consent_decided() -> Seq<char> {
    "analytics_consent_decided"@
}

/// The settings that the stored values give: both notifications, sharing
/// and the consent flag default to set, the merge strategy to `auto`.
pub fn app_settings(
    notify_on_conflict: Option<String>,
    notify_on_complete: Option<String>,
    default_merge_strategy: Option<String>,
    managed_clones_root: Option<String>,
    share_anonymous_usage: Option<String>,
    analytics_consent_decided: Option<String>,
) -> (s: AppSettings)
    ensures
        s.notify_on_conflict == flag_value(opt_text(notify_on_conflict), true),
        s.notify_on_complete == flag_value(opt_text(notify_on_complete), true),
        s.default_merge_strategy@ == (match default_merge_strategy {
            Some(v) => v@,
            None => "auto"@,
        }),
        opt_text(s.managed_clones_root) == opt_text(managed_clones_root),
        s.share_anonymous_usage == flag_value(opt_text(share_anonymous_usage), true),
        s.analytics_consent_decided == flag_value(opt_text(analytics_consent_decided), true),
{
    AppSettings {
        notify_on_conflict: setting_flag(notify_on_conflict.as_ref(), true),
        notify_on_complete: setting_flag(notify_on_complete.as_ref(), true),
        default_merge_strategy: match default_merge_strategy {
            Some(v) => v,
            None => String::from_str("auto"),
        },
        managed_clones_root,
        share_anonymous_usage: setting_flag(share_anonymous_usage.as_ref(), true),
        analytics_consent_decided: setting_flag(analytics_consent_decided.as_ref(), true),
    }
}

/// A change to the settings table: store `value` under `key`, or remove
/// the key when `value` is `None`.
#[derive(Debug)]
pub struct SettingWrite {
    pub key: String,
    pub value: Option<String>,
}

pub open spec fn write_views(ws: Seq<SettingWrite>) -> Seq<(Seq<char>, Option<Seq<char>>)> {
    ws.map_values(|w: SettingWrite| (w.key@, opt_text(w.value)))
}

pub open spec fn flag_text(v: bool) -> Seq<char> {
    if v {
        "1"@
    } else {
        "0"@
    }
}

pub open spec fn flag_write(key: Seq<char>, v: Option<bool>) -> Seq<(Seq<char>, Option<Seq<char>>)> {
    match v {
        Some(b) => seq![(key, Some(flag_text(b)))],
        None => seq![],
    }
}

/// The writes that a settings update makes, in order, up to the first
/// invalid value; and whether the update is refused.
pub open spec fn settings_update_spec(
    notify_on_conflict: Option<bool>,
    notify_on_complete: Option<bool>,
    default_merge_strategy: Option<Seq<char>>,
    managed_clones_root: Option<Seq<char>>,
    share_anonymous_usage: Option<bool>,
    analytics_consent_decided: Option<bool>,
) -> (Seq<(Seq<char>, Option<Seq<char>>)>, Option<Seq<char>>) {
    let first = flag_write(key_notify_conflict(), notify_on_conflict) + flag_write(
        key_notify_complete(),
        notify_on_complete,
    );
    match default_merge_strategy {
        Some(v) if !is_merge_strategy(v) => (first, Some(merge_strategy_error())),
        _ => {
            let merge = match default_merge_strategy {
                Some(v) => seq![(key_default_merge(), Some(v))],
                None => seq![],
            };
            let root = match managed_clones_root {
                Some(v) => if trim(v).len() == 0 {
                    seq![(key_clones_root(), None)]
                } else {
                    seq![(key_clones_root(), Some(trim(v)))]
                },
                None => seq![],
            };
            (
                first + merge + root + flag_write(key_share_usage(), share_anonymous_usage)
                    + flag_write(key_consent_decided(), analytics_consent_decided),
                None,
            )
        },
    }
}

fn push_flag(ws: &mut Vec<SettingWrite>, key: &str, v: Option<bool>)
    ensures
        write_views(final(ws)@) == write_views(old(ws)@) + flag_write(key@, v),
{
    let ghost before = write_views(ws@);
    match v {
        Some(b) => {
            let t = if b {
                String::from_str("1")
            } else {
                String::from_str("0")
            };
            ws.push(SettingWrite { key: String::from_str(key), value: Some(t) });
            assert(write_views(ws@) =~= before + flag_write(key@, v));
        },
        None => {
            assert(write_views(ws@) =~= before + flag_write(key@, v));
        },
    }
}

/// The writes of a settings update, and the refusal, if any, that follows them.
pub fn settings_update(request: &UpdateAppSettingsRequest) -> (r: (
    Vec<SettingWrite>,
    Result<(), String>,
))
    ensures
        ({
            let (ws, err) = settings_update_spec(
                request.notify_on_conflict,
                request.notify_on_complete,
                opt_text(request.default_merge_strategy),
                opt_text(request.managed_clones_root),
                request.share_anonymous_usage,
                request.analytics_consent_decided,
            );
            &&& write_views(r.0@) == ws
            &&& (err matches Some(e) ==> (r.1 matches Err(x) && x@ == e))
            &&& (err is None ==> r.1 is Ok)
        }),
{
    let mut ws: Vec<SettingWrite> = Vec::new();
    assert(write_views(ws@) =~= seq![]);
    push_flag(&mut ws, "notify_on_conflict", request.notify_on_conflict);
    push_flag(&mut ws, "notify_on_complete", request.notify_on_complete);
    let ghost first = write_views(ws@);
    assert(first =~= flag_write(key_notify_conflict(), request.notify_on_conflict) + flag_write(
        key_notify_complete(),
        request.notify_on_complete,
    ));
    match &request.default_merge_strategy {
        Some(v) => {
            match validate_merge_strategy(v.as_str()) {
                Err(e) => {
                    return (ws, Err(e));
                },
                Ok(()) => {},
            }
            let ghost before = write_views(ws@);
            ws.push(SettingWrite { key: String::from_str("default_merge_strategy"), value: Some(v.clone()) });
            assert(write_views(ws@) =~= before + seq![(key_default_merge(), Some(v@))]);
        },
        None => {},
    }
    let ghost after_merge = write_views(ws@);
    match &request.managed_clones_root {
        Some(v) => {
            let t = trim_str(v.as_str());
            let ghost before = write_views(ws@);
            if t.len() == 0 {
                ws.push(SettingWrite { key: String::from_str("managed_clones_root"), value: None });
                assert(write_views(ws@) =~= before + seq![(key_clones_root(), None::<Seq<char>>)]);
            } else {
                ws.push(
                    SettingWrite {
                        key: String::from_str("managed_clones_root"),
                        value: Some(string_of(t.as_slice())),
                    },
                );
                assert(write_views(ws@) =~= before + seq![(key_clones_root(), Some(trim(v@)))]);
            }
        },
        None => {},
    }
    push_flag(&mut ws, "share_anonymous_usage", request.share_anonymous_usage);
    push_flag(&mut ws, "analytics_consent_decided", request.analytics_consent_decided);
    proof {
        let merge = match opt_text(request.default_merge_strategy) {
            Some(v) => seq![(key_default_merge(), Some(v))],
            None => seq![],
        };
        let root = match opt_text(request.managed_clones_root) {
            Some(v) => if trim(v).len() == 0 {
                seq![(key_clones_root(), None)]
            } else {
                seq![(key_clones_root(), Some(trim(v)))]
            },
            None => seq![],
        };
        assert(after_merge =~= first + merge);
        assert(write_views(ws@) =~= first + merge + root + flag_write(
            key_share_usage(),
            request.share_anonymous_usage,
        ) + flag_write(key_consent_decided(), request.analytics_consent_decided));
    }
    (ws, Ok(()))
}

/// A change to a repository's row: store `value` in `column`.
#[derive(Debug)]
pub struct RepoWrite {
    pub column: String,
    pub value: String,
}

pub open spec fn repo_write_views(ws: Seq<RepoWrite>) -> Seq<(Seq<char>, Seq<char>)> {
    ws.map_values(|w: RepoWrite| (w.column@, w.value@))
}

/// The writes that a repository settings update makes, in order, up to the
/// first refusal; and the refusal, if any. The working copy is either an
/// existing local clone or a clone that the application manages.
pub open spec fn repo_update_spec(mode: Option<Seq<char>>, strategy: Option<Seq<char>>) -> (
    Seq<(Seq<char>, Seq<char>)>,
    Option<Seq<char>>,
) {
    match mode {
        Some(m) if m != "existing_local"@ && m != "managed"@ => (
            seq![],
            Some("Invalid working copy mode"@),
        ),
        _ => {
            let first = match mode {
                Some(m) => seq![("working_copy_mode"@, m)],
                None => seq![],
            };
            match strategy {
                Some(s) => if is_merge_strategy(s) {
                    (first + seq![("default_merge_strategy"@, s)], None)
                } else {
                    (first, Some(merge_strategy_error()))
                },
                None => (first, None),
            }
        },
    }
}

pub fn repo_settings_update(request: &UpdateRepoSettingsRequest) -> (r: (
    Vec<RepoWrite>,
    Result<(), String>,
))
    ensures
        ({
            let (ws, err) = repo_update_spec(
                opt_text(request.working_copy_mode),
                opt_text(request.default_merge_strategy),
            );
            &&& repo_write_views(r.0@) == ws
            &&& (err matches Some(e) ==> (r.1 matches Err(x) && x@ == e))
            &&& (err is None ==> r.1 is Ok)
        }),
{
    let mut ws: Vec<RepoWrite> = Vec::new();
    assert(repo_write_views(ws@) =~= seq![]);
    match &request.working_copy_mode {
        Some(mode) => {
            let m = chars_of(mode.as_str());
            let existing = chars_eq_str(m.as_slice(), "existing_local");
            let managed = chars_eq_str(m.as_slice(), "managed");
            if !existing && !managed {
                return (ws, Err(String::from_str("Invalid working copy mode")));
            }
            ws.push(RepoWrite { column: String::from_str("working_copy_mode"), value: mode.clone() });
            assert(repo_write_views(ws@) =~= seq![("working_copy_mode"@, mode@)]);
        },
        None => {},
    }
    let ghost first = repo_write_views(ws@);
    match &request.default_merge_strategy {
        Some(s) => {
            match validate_merge_strategy(s.as_str()) {
                Err(e) => {
                    return (ws, Err(e));
                },
                Ok(()) => {},
            }
            ws.push(RepoWrite { column: String::from_str("default_merge_strategy"), value: s.clone() });
            assert(repo_write_views(ws@) =~= first + seq![("default_merge_strategy"@, s@)]);
        },
        None => {},
    }
    (ws, Ok(()))
}

/// A row of the editors table as stored, with the preference as a number.
pub fn editor_row(
    id: i64,
    name: String,
    command: String,
    detected_path: Option<String>,
    is_preferred: i64,
    last_verified_at: Option<i64>,
) -> (row: EditorRow)
    ensures
        row.id == id,
        row.name == name,
        row.command == command,
        row.detected_path == detected_path,
        row.is_preferred == (is_preferred != 0),
        row.last_verified_at == last_verified_at,
{
    EditorRow {
        id,
        name,
        command,
        detected_path,
        is_preferred: is_preferred != 0,
        last_verified_at,
    }
}


/// The settings table after a sequence of writes.
pub open spec fn apply_writes(
    m: Map<Seq<char>, Seq<char>>,
    ws: Seq<(Seq<char>, Option<Seq<char>>)>,
) -> Map<Seq<char>, Seq<char>>
    decreases ws.len(),
{
    if ws.len() == 0 {
        m
    } else {
        let m2 = apply_writes(m, ws.drop_last());
        match ws.last().1 {
            Some(v) => m2.insert(ws.last().0, v),
            None => m2.remove(ws.last().0),
        }
    }
}

/// The value stored under a key, if any.
pub open spec fn stored(m: Map<Seq<char>, Seq<char>>, key: Seq<char>) -> Option<Seq<char>> {
    if m.contains_key(key) {
        Some(m[key])
    } else {
        None
    }
}

/// The settings as read from the table, with their defaults.
pub struct SettingsView {
    pub notify_on_conflict: bool,
    pub notify_on_complete: bool,
    pub default_merge_strategy: Seq<char>,
    pub managed_clones_root: Option<Seq<char>>,
    pub share_anonymous_usage: bool,
    pub analytics_consent_decided: bool,
}

pub open spec fn read_settings(m: Map<Seq<char>, Seq<char>>) -> SettingsView {
    SettingsView {
        notify_on_conflict: flag_value(stored(m, key_notify_conflict()), true),
        notify_on_complete: flag_value(stored(m, key_notify_complete()), true),
        default_merge_strategy: match stored(m, key_default_merge()) {
            Some(v) => v,
            None => "auto"@,
        },
        managed_clones_root: stored(m, key_clones_root()),
        share_anonymous_usage: flag_value(stored(m, key_share_usage()), true),
        analytics_consent_decided: flag_value(stored(m, key_consent_decided()), true),
    }
}

proof fn lemma_apply_concat(
    m: Map<Seq<char>, Seq<char>>,
    a: Seq<(Seq<char>, Option<Seq<char>>)>,
    b: Seq<(Seq<char>, Option<Seq<char>>)>,
)
    ensures
        apply_writes(m, a + b) == apply_writes(apply_writes(m, a), b),
    decreases b.len(),
{
    if b.len() == 0 {
        assert(a + b =~= a);
    } else {
        lemma_apply_concat(m, a, b.drop_last());
        assert((a + b).drop_last() =~= a + b.drop_last());
        assert((a + b).last() == b.last());
    }
}

proof fn lemma_apply_other(
    m: Map<Seq<char>, Seq<char>>,
    ws: Seq<(Seq<char>, Option<Seq<char>>)>,
    k: Seq<char>,
)
    requires
        forall|i: int| 0 <= i < ws.len() ==> (#[trigger] ws[i]).0 != k,
    ensures
        stored(apply_writes(m, ws), k) == stored(m, k),
    decreases ws.len(),
{
    if ws.len() > 0 {
        lemma_apply_other(m, ws.drop_last(), k);
        assert(ws[ws.len() - 1].0 != k);
    }
}

proof fn lemma_apply_one(m: Map<Seq<char>, Seq<char>>, k: Seq<char>, v: Option<Seq<char>>)
    ensures
        stored(apply_writes(m, seq![(k, v)]), k) == v,
{
    let ws = seq![(k, v)];
    assert(ws.drop_last() =~= Seq::<(Seq<char>, Option<Seq<char>>)>::empty());
}

proof fn lemma_flag_round_trip(b: bool, d: bool)
    ensures
        flag_value(Some(flag_text(b)), d) == b,
{
    reveal_strlit("1");
    reveal_strlit("0");
    reveal_strlit("true");
    reveal_strlit("false");
    assert("0"@ != "1"@) by {
        assert("0"@[0] != "1"@[0]);
    }
    assert("0"@ != "true"@) by {
        assert("0"@.len() != "true"@.len());
    }
}

proof fn lemma_keys_distinct()
    ensures
        key_notify_conflict() != key_notify_complete(),
        key_notify_conflict() != key_default_merge(),
        key_notify_conflict() != key_clones_root(),
        key_notify_conflict() != key_share_usage(),
        key_notify_conflict() != key_consent_decided(),
        key_notify_complete() != key_default_merge(),
        key_notify_complete() != key_clones_root(),
        key_notify_complete() != key_share_usage(),
        key_notify_complete() != key_consent_decided(),
        key_default_merge() != key_clones_root(),
        key_default_merge() != key_share_usage(),
        key_default_merge() != key_consent_decided(),
        key_clones_root() != key_share_usage(),
        key_clones_root() != key_consent_decided(),
        key_share_usage() != key_consent_decided(),
{
    reveal_strlit("notify_on_conflict");
    reveal_strlit("notify_on_complete");
    reveal_strlit("default_merge_strategy");
    reveal_strlit("managed_clones_root");
    reveal_strlit("share_anonymous_usage");
    reveal_strlit("analytics_consent_decided");
    assert(key_notify_conflict()[12] != key_notify_complete()[12]);
    assert(key_notify_conflict()[0] != key_default_merge()[0]);
    assert(key_notify_conflict()[0] != key_clones_root()[0]);
    assert(key_notify_conflict()[0] != key_share_usage()[0]);
    assert(key_notify_conflict()[0] != key_consent_decided()[0]);
    assert(key_notify_complete()[0] != key_default_merge()[0]);
    assert(key_notify_complete()[0] != key_clones_root()[0]);
    assert(key_notify_complete()[0] != key_share_usage()[0]);
    assert(key_notify_complete()[0] != key_consent_decided()[0]);
    assert(key_default_merge()[0] != key_clones_root()[0]);
    assert(key_default_merge()[0] != key_share_usage()[0]);
    assert(key_default_merge()[0] != key_consent_decided()[0]);
    assert(key_clones_root()[0] != key_share_usage()[0]);
    assert(key_clones_root()[0] != key_consent_decided()[0]);
    assert(key_share_usage()[0] != key_consent_decided()[0]);
}

/// The writes for one key touch only that key.
pub open spec fn only_key(ws: Seq<(Seq<char>, Option<Seq<char>>)>, k: Seq<char>) -> bool {
    forall|i: int| 0 <= i < ws.len() ==> (#[trigger] ws[i]).0 == k
}

proof fn lemma_part(
    m: Map<Seq<char>, Seq<char>>,
    parts: Seq<Seq<(Seq<char>, Option<Seq<char>>)>>,
    keys: Seq<Seq<char>>,
    j: int,
)
    requires
        parts.len() == keys.len(),
        0 <= j < parts.len(),
        forall|a: int, b: int| 0 <= a < b < keys.len() ==> keys[a] != keys[b],
        forall|a: int| 0 <= a < parts.len() ==> only_key(#[trigger] parts[a], keys[a]),
        parts[j].len() <= 1,
    ensures
        stored(apply_writes(m, concat_all(parts)), keys[j]) == (if parts[j].len() == 0 {
            stored(m, keys[j])
        } else {
            parts[j][0].1
        }),
    decreases parts.len(),
{
    let n = parts.len();
    let front = parts.drop_last();
    lemma_apply_concat(m, concat_all(front), parts.last());
    if j == n - 1 {
        lemma_concat_keys(front, keys.drop_last(), keys[j]);
        lemma_apply_other(m, concat_all(front), keys[j]);
        if parts[j].len() == 1 {
            assert(parts[j] =~= seq![(keys[j], parts[j][0].1)]);
            lemma_apply_one(apply_writes(m, concat_all(front)), keys[j], parts[j][0].1);
        } else {
            assert(parts[j] =~= Seq::<(Seq<char>, Option<Seq<char>>)>::empty());
        }
    } else {
        lemma_part(m, front, keys.drop_last(), j);
        assert(keys[j] != keys[n - 1]);
        assert(only_key(parts[n - 1], keys[n - 1]));
        lemma_apply_other(apply_writes(m, concat_all(front)), parts.last(), keys[j]);
    }
}

/// The writes of all parts, in order.
pub open spec fn concat_all(parts: Seq<Seq<(Seq<char>, Option<Seq<char>>)>>) -> Seq<
    (Seq<char>, Option<Seq<char>>),
>
    decreases parts.len(),
{
    if parts.len() == 0 {
        seq![]
    } else {
        concat_all(parts.drop_last()) + parts.last()
    }
}

proof fn lemma_concat_keys(
    parts: Seq<Seq<(Seq<char>, Option<Seq<char>>)>>,
    keys: Seq<Seq<char>>,
    k: Seq<char>,
)
    requires
        parts.len() == keys.len(),
        forall|a: int| 0 <= a < parts.len() ==> only_key(#[trigger] parts[a], keys[a]),
        forall|a: int| 0 <= a < keys.len() ==> keys[a] != k,
    ensures
        forall|i: int| 0 <= i < concat_all(parts).len() ==> (#[trigger] concat_all(parts)[i]).0 != k,
    decreases parts.len(),
{
    if parts.len() > 0 {
        let front = parts.drop_last();
        lemma_concat_keys(front, keys.drop_last(), k);
        let c = concat_all(front);
        let l = parts.last();
        assert forall|i: int| 0 <= i < (c + l).len() implies (#[trigger] (c + l)[i]).0 != k by {
            if i < c.len() {
                assert((c + l)[i] == c[i]);
            } else {
                assert((c + l)[i] == l[i - c.len()]);
                assert(only_key(parts[parts.len() - 1], keys[keys.len() - 1]));
            }
        }
    }
}

/// Updating the settings and reading them back gives the values asked for,
/// and the earlier values of the settings that the update leaves out. A blank
/// clones root clears it; a given one is stored trimmed.
#[verifier::rlimit(50)]
pub proof fn settings_read_back_update(
    m: Map<Seq<char>, Seq<char>>,
    notify_on_conflict: Option<bool>,
    notify_on_complete: Option<bool>,
    default_merge_strategy: Option<Seq<char>>,
    managed_clones_root: Option<Seq<char>>,
    share_anonymous_usage: Option<bool>,
    analytics_consent_decided: Option<bool>,
)
    requires
        default_merge_strategy matches Some(v) ==> is_merge_strategy(v),
    ensures
        ({
            let (ws, err) = settings_update_spec(
                notify_on_conflict,
                notify_on_complete,
                default_merge_strategy,
                managed_clones_root,
                share_anonymous_usage,
                analytics_consent_decided,
            );
            let before = read_settings(m);
            let after = read_settings(apply_writes(m, ws));
            &&& err is None
            &&& after.notify_on_conflict == (match notify_on_conflict {
                Some(b) => b,
                None => before.notify_on_conflict,
            })
            &&& after.notify_on_complete == (match notify_on_complete {
                Some(b) => b,
                None => before.notify_on_complete,
            })
            &&& after.default_merge_strategy == (match default_merge_strategy {
                Some(v) => v,
                None => before.default_merge_strategy,
            })
            &&& after.managed_clones_root == (match managed_clones_root {
                Some(v) => if trim(v).len() == 0 {
                    None
                } else {
                    Some(trim(v))
                },
                None => before.managed_clones_root,
            })
            &&& after.share_anonymous_usage == (match share_anonymous_usage {
                Some(b) => b,
                None => before.share_anonymous_usage,
            })
            &&& after.analytics_consent_decided == (match analytics_consent_decided {
                Some(b) => b,
                None => before.analytics_consent_decided,
            })
        }),
{
    lemma_keys_distinct();
    let f1 = flag_write(key_notify_conflict(), notify_on_conflict);
    let f2 = flag_write(key_notify_complete(), notify_on_complete);
    let f3: Seq<(Seq<char>, Option<Seq<char>>)> = match default_merge_strategy {
        Some(v) => seq![(key_default_merge(), Some(v))],
        None => seq![],
    };
    let f4: Seq<(Seq<char>, Option<Seq<char>>)> = match managed_clones_root {
        Some(v) => if trim(v).len() == 0 {
            seq![(key_clones_root(), None)]
        } else {
            seq![(key_clones_root(), Some(trim(v)))]
        },
        None => seq![],
    };
    let f5 = flag_write(key_share_usage(), share_anonymous_usage);
    let f6 = flag_write(key_consent_decided(), analytics_consent_decided);
    let p0 = Seq::<Seq<(Seq<char>, Option<Seq<char>>)>>::empty();
    let p1 = p0.push(f1);
    let p2 = p1.push(f2);
    let p3 = p2.push(f3);
    let p4 = p3.push(f4);
    let p5 = p4.push(f5);
    let parts = p5.push(f6);
    assert(p1.drop_last() =~= p0);
    assert(p2.drop_last() =~= p1);
    assert(p3.drop_last() =~= p2);
    assert(p4.drop_last() =~= p3);
    assert(p5.drop_last() =~= p4);
    assert(parts.drop_last() =~= p5);
    assert(concat_all(p0) =~= Seq::<(Seq<char>, Option<Seq<char>>)>::empty());
    assert(concat_all(p1) == concat_all(p0) + f1);
    assert(concat_all(p2) == concat_all(p1) + f2);
    assert(concat_all(p3) == concat_all(p2) + f3);
    assert(concat_all(p4) == concat_all(p3) + f4);
    assert(concat_all(p5) == concat_all(p4) + f5);
    assert(concat_all(parts) == concat_all(p5) + f6);
    let keys = seq![
        key_notify_conflict(),
        key_notify_complete(),
        key_default_merge(),
        key_clones_root(),
        key_share_usage(),
        key_consent_decided(),
    ];
    assert(parts =~= seq![f1, f2, f3, f4, f5, f6]);
    assert forall|a: int, b: int| 0 <= a < b < keys.len() implies keys[a] != keys[b] by {}
    assert forall|a: int| 0 <= a < parts.len() implies only_key(#[trigger] parts[a], keys[a]) by {}
    let ws = settings_update_spec(
        notify_on_conflict,
        notify_on_complete,
        default_merge_strategy,
        managed_clones_root,
        share_anonymous_usage,
        analytics_consent_decided,
    ).0;
    assert(ws =~= concat_all(parts));
    lemma_part(m, parts, keys, 0);
    lemma_part(m, parts, keys, 1);
    lemma_part(m, parts, keys, 2);
    lemma_part(m, parts, keys, 3);
    lemma_part(m, parts, keys, 4);
    lemma_part(m, parts, keys, 5);
    if let Some(b) = notify_on_conflict {
        lemma_flag_round_trip(b, true);
    }
    if let Some(b) = notify_on_complete {
        lemma_flag_round_trip(b, true);
    }
    if let Some(b) = share_anonymous_usage {
        lemma_flag_round_trip(b, true);
    }
    if let Some(b) = analytics_consent_decided {
        lemma_flag_round_trip(b, true);
    }
}

/// Only a listed editor can be preferred.
pub fn check_editor_exists(exists: bool) -> (r: Result<(), String>)
    ensures
        r is Ok <==> exists,
        r matches Err(e) ==> e@ == "Editor not found"@,
{
    if exists {
        Ok(())
    } else {
        Err(String::from_str("Editor not found"))
    }
}

/// A change to the stored editors when one is made the preferred editor.
#[derive(PartialEq, Eq, Structural, Clone, Copy, Debug)]
pub enum EditorWrite {
    /// No editor is preferred.
    ClearPreferred,
    /// The editor with this id is preferred.
    Prefer { id: i64 },
}

/// The stored editors' preferred flags, by id, after the writes.
pub open spec fn apply_editor_writes(prefs: Map<i64, bool>, ws: Seq<EditorWrite>) -> Map<i64, bool>
    decreases ws.len(),
{
    if ws.len() == 0 {
        prefs
    } else {
        let before = apply_editor_writes(prefs, ws.drop_last());
        match ws.last() {
            EditorWrite::ClearPreferred => Map::new(|k: i64| before.dom().contains(k), |k: i64| false),
            EditorWrite::Prefer { id } => if before.dom().contains(id) {
                before.insert(id, true)
            } else {
                before
            },
        }
    }
}

/// Making an editor the preferred one: refused unless it is listed, else
/// every editor is unmarked and then this one marked.
pub fn preferred_editor_writes(editor_id: i64, exists: bool) -> (r: Result<Vec<EditorWrite>, String>)
    ensures
        r is Ok <==> exists,
        r matches Err(e) ==> e@ == "Editor not found"@,
        r matches Ok(ws) ==> ws@ == seq![EditorWrite::ClearPreferred, EditorWrite::Prefer { id: editor_id }],
{
    check_editor_exists(exists)?;
    let ws = vec![EditorWrite::ClearPreferred, EditorWrite::Prefer { id: editor_id }];
    assert(ws@ =~= seq![EditorWrite::ClearPreferred, EditorWrite::Prefer { id: editor_id }]);
    Ok(ws)
}

/// After an editor is made the preferred one, exactly one editor is
/// preferred, and it is that one; the set of editors is unchanged.
pub proof fn exactly_one_editor_preferred(prefs: Map<i64, bool>, editor_id: i64, ws: Seq<EditorWrite>)
    requires
        prefs.dom().contains(editor_id),
        ws == seq![EditorWrite::ClearPreferred, EditorWrite::Prefer { id: editor_id }],
    ensures
        apply_editor_writes(prefs, ws).dom() == prefs.dom(),
        apply_editor_writes(prefs, ws)[editor_id],
        forall|k: i64| #[trigger] prefs.dom().contains(k) && k != editor_id ==> !apply_editor_writes(prefs, ws)[k],
{
    let one = ws.drop_last();
    assert(one.drop_last() =~= seq![]);
    assert(one.last() == EditorWrite::ClearPreferred);
    assert(apply_editor_writes(prefs, one.drop_last()) == prefs);
    let cleared = apply_editor_writes(prefs, one);
    assert(cleared == Map::new(|k: i64| prefs.dom().contains(k), |k: i64| false));
    assert(cleared.dom() =~= prefs.dom());
    assert(apply_editor_writes(prefs, ws) == cleared.insert(editor_id, true));
    assert(apply_editor_writes(prefs, ws).dom() =~= prefs.dom());
}

/// Disconnecting must have removed a connected repository.
pub fn check_repo_removed(rows_affected: u64) -> (r: Result<(), String>)
    ensures
        r is Ok <==> rows_affected > 0,
        r matches Err(e) ==> e@ == "Repository not found"@,
{
    if rows_affected == 0 {
        Err(String::from_str("Repository not found"))
    } else {
        Ok(())
    }
}

} // verus!
