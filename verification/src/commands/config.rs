//! `kron config`: reading and writing the keys of the project
//! configuration.
//!
//! Keys are the top-level `name`, `kron_version`, `project_path`,
//! `kron_data_path` and `created_at`, and the settings
//! `settings.conflict_threshold_minutes`, `settings.auto_resolve` and
//! `settings.context_refresh_minutes`. Only `name` and the settings can be
//! written; a written value reads back as written.

use vstd::prelude::*;
use crate::error::{debug_quoted, debug_str, KronError, Result};
use crate::model::{AutoResolve, Project};
use crate::text::{chars_of, decimal_str, fmt_u32, lower_seq, owned, parse_u32, parse_u32_spec, str_eq, to_ascii_lowercase};

verus! {

/// The value a key reads as, or `None` for an unknown key.
pub open spec fn config_get(p: Project, key: Seq<char>) -> Option<Seq<char>> {
    if key == "name"@ {
        Some(p.name@)
    } else if key == "kron_version"@ {
        Some(p.kron_version@)
    } else if key == "project_path"@ {
        Some(p.project_path@)
    } else if key == "kron_data_path"@ {
        Some(p.kron_data_path@)
    } else if key == "created_at"@ {
        Some(p.created_at@)
    } else if key == "settings.conflict_threshold_minutes"@ {
        Some(decimal_str(p.settings.conflict_threshold_minutes as nat))
    } else if key == "settings.auto_resolve"@ {
        Some(p.settings.auto_resolve.name())
    } else if key == "settings.context_refresh_minutes"@ {
        Some(decimal_str(p.settings.context_refresh_minutes as nat))
    } else {
        None
    }
}

pub open spec fn unknown_key_message(key: Seq<char>) -> Seq<char> {
    "unknown config key: "@ + debug_quoted(key) + " (try `kron config list`)"@
}

/// The config keys are pairwise distinct.
proof fn lemma_config_keys_distinct()
    ensures
        "name"@ != "kron_version"@,
        "name"@ != "project_path"@,
        "name"@ != "kron_data_path"@,
        "name"@ != "created_at"@,
        "name"@ != "settings.conflict_threshold_minutes"@,
        "name"@ != "settings.auto_resolve"@,
        "name"@ != "settings.context_refresh_minutes"@,
        "kron_version"@ != "settings.conflict_threshold_minutes"@,
        "kron_version"@ != "settings.auto_resolve"@,
        "kron_version"@ != "settings.context_refresh_minutes"@,
        "project_path"@ != "settings.conflict_threshold_minutes"@,
        "project_path"@ != "settings.auto_resolve"@,
        "project_path"@ != "settings.context_refresh_minutes"@,
        "kron_data_path"@ != "settings.conflict_threshold_minutes"@,
        "kron_data_path"@ != "settings.auto_resolve"@,
        "kron_data_path"@ != "settings.context_refresh_minutes"@,
        "created_at"@ != "settings.conflict_threshold_minutes"@,
        "created_at"@ != "settings.auto_resolve"@,
        "created_at"@ != "settings.context_refresh_minutes"@,
        "settings.conflict_threshold_minutes"@ != "settings.auto_resolve"@,
        "settings.conflict_threshold_minutes"@ != "settings.context_refresh_minutes"@,
        "settings.auto_resolve"@ != "settings.context_refresh_minutes"@,
{
    reveal_strlit("name");
    reveal_strlit("kron_version");
    reveal_strlit("project_path");
    reveal_strlit("kron_data_path");
    reveal_strlit("created_at");
    reveal_strlit("settings.conflict_threshold_minutes");
    reveal_strlit("settings.auto_resolve");
    reveal_strlit("settings.context_refresh_minutes");
    assert("name"@.len() == 4);
    assert("kron_version"@.len() == 12);
    assert("project_path"@.len() == 12);
    assert("kron_data_path"@.len() == 14);
    assert("created_at"@.len() == 10);
    assert("settings.conflict_threshold_minutes"@.len() == 35);
    assert("settings.auto_resolve"@.len() == 21);
    assert("settings.context_refresh_minutes"@.len() == 32);
}

/// Look up a single config value, formatted as a string.
pub fn get_value(project: &Project, key: &str) -> (res: Result<String>)
    ensures
        match config_get(*project, key@) {
            Some(v) => res matches Ok(s) && s@ == v,
            None => res matches Err(KronError::Cli(m)) && m@ == unknown_key_message(key@),
        },
{
    if str_eq(key, "name") {
        Ok(project.name.clone())
    } else if str_eq(key, "kron_version") {
        Ok(project.kron_version.clone())
    } else if str_eq(key, "project_path") {
        Ok(project.project_path.clone())
    } else if str_eq(key, "kron_data_path") {
        Ok(project.kron_data_path.clone())
    } else if str_eq(key, "created_at") {
        Ok(project.created_at.clone())
    } else if str_eq(key, "settings.conflict_threshold_minutes") {
        Ok(fmt_u32(project.settings.conflict_threshold_minutes))
    } else if str_eq(key, "settings.auto_resolve") {
        Ok(owned(project.settings.auto_resolve.as_str()))
    } else if str_eq(key, "settings.context_refresh_minutes") {
        Ok(fmt_u32(project.settings.context_refresh_minutes))
    } else {
        Err(KronError::Cli(unknown_key(key)))
    }
}

fn unknown_key(key: &str) -> (res: String)
    ensures
        res@ == unknown_key_message(key@),
{
    let mut m = owned("unknown config key: ");
    let q = debug_str(key);
    m.append(q.as_str());
    m.append(" (try `kron config list`)");
    m
}

/// An auto-resolve strategy by its lower-case name.
pub open spec fn auto_resolve_named(word: Seq<char>) -> Option<AutoResolve> {
    if word == "prompt"@ {
        Some(AutoResolve::Prompt)
    } else if word == "latest"@ {
        Some(AutoResolve::Latest)
    } else if word == "manual"@ {
        Some(AutoResolve::Manual)
    } else {
        None
    }
}

/// What a successful write changes.
pub enum ConfigChange {
    Name,
    ConflictThreshold(u32),
    ContextRefresh(u32),
    AutoResolve(AutoResolve),
}

/// A positive integer setting: its value, or the error message.
pub open spec fn minutes_setting(key: Seq<char>, raw: Seq<char>, field: Seq<char>) -> core::result::Result<u32, Seq<char>> {
    match parse_u32_spec(raw) {
        None => Err("expected integer for "@ + key + ", got "@ + debug_quoted(raw)),
        Some(n) => if n == 0 {
            Err(field + " must be >= 1"@)
        } else {
            Ok(n)
        },
    }
}

/// What writing `raw` to `key` does: the change, or the refusal message.
pub open spec fn config_set_spec(key: Seq<char>, raw: Seq<char>) -> core::result::Result<ConfigChange, Seq<char>> {
    if key == "name"@ {
        if raw.len() == 0 {
            Err("name must not be empty"@)
        } else {
            Ok(ConfigChange::Name)
        }
    } else if key == "settings.conflict_threshold_minutes"@ {
        match minutes_setting(key, raw, "conflict_threshold_minutes"@) {
            Ok(n) => Ok(ConfigChange::ConflictThreshold(n)),
            Err(m) => Err(m),
        }
    } else if key == "settings.context_refresh_minutes"@ {
        match minutes_setting(key, raw, "context_refresh_minutes"@) {
            Ok(n) => Ok(ConfigChange::ContextRefresh(n)),
            Err(m) => Err(m),
        }
    } else if key == "settings.auto_resolve"@ {
        match auto_resolve_named(lower_seq(raw)) {
            Some(a) => Ok(ConfigChange::AutoResolve(a)),
            None => Err("auto_resolve must be one of: prompt | latest | manual (got "@ + debug_quoted(
                lower_seq(raw),
            ) + ")"@),
        }
    } else if key == "kron_version"@ {
        Err("kron_version is read-only (set by `kron init`)"@)
    } else if key == "project_path"@ || key == "kron_data_path"@ || key == "created_at"@ {
        Err(key + " is read-only"@)
    } else {
        Err(unknown_key_message(key))
    }
}

/// `q` is `p` with `change` applied (`raw` being the written text).
pub open spec fn changed(p: Project, q: Project, change: ConfigChange, raw: Seq<char>) -> bool {
    &&& q.kron_version == p.kron_version
    &&& q.project_path == p.project_path
    &&& q.kron_data_path == p.kron_data_path
    &&& q.created_at == p.created_at
    &&& match change {
        ConfigChange::Name => q.name@ == raw && q.settings == p.settings,
        ConfigChange::ConflictThreshold(n) => q.name == p.name && q.settings
            == (crate::model::ProjectSettings { conflict_threshold_minutes: n, ..p.settings }),
        ConfigChange::ContextRefresh(n) => q.name == p.name && q.settings
            == (crate::model::ProjectSettings { context_refresh_minutes: n, ..p.settings }),
        ConfigChange::AutoResolve(a) => q.name == p.name && q.settings
            == (crate::model::ProjectSettings { auto_resolve: a, ..p.settings }),
    }
}

fn parse_minutes(key: &str, raw: &str, field: &str) -> (res: Result<u32>)
    ensures
        match minutes_setting(key@, raw@, field@) {
            Ok(n) => res == Ok::<u32, KronError>(n),
            Err(m) => res matches Err(KronError::Cli(e)) && e@ == m,
        },
{
    let cs = chars_of(raw);
    match parse_u32(cs.as_slice()) {
        None => {
            let mut m = owned("expected integer for ");
            m.append(key);
            m.append(", got ");
            let q = debug_str(raw);
            m.append(q.as_str());
            Err(KronError::Cli(m))
        },
        Some(n) => {
            if n == 0 {
                let mut m = owned(field);
                m.append(" must be >= 1");
                Err(KronError::Cli(m))
            } else {
                Ok(n)
            }
        },
    }
}

/// Write `raw` to `key`, returning the value as it now reads. A refused
/// write leaves the project unchanged.
pub fn set_value(project: &mut Project, key: &str, raw: &str) -> (res: Result<String>)
    ensures
        match config_set_spec(key@, raw@) {
            Err(m) => (res matches Err(KronError::Cli(e)) && e@ == m) && *final(project) == *old(project),
            Ok(change) => changed(*old(project), *final(project), change, raw@) && (res matches Ok(
                v,
            ) && config_get(*final(project), key@) == Some(v@)),
        },
        key@ == "settings.auto_resolve"@ ==> (res matches Ok(v) ==> v@ == lower_seq(raw@)
            && final(project).settings.auto_resolve.name() == lower_seq(raw@)),
{
    proof {
        lemma_config_keys_distinct();
    }
    if str_eq(key, "name") {
        if chars_of(raw).len() == 0 {
            return Err(KronError::Cli(owned("name must not be empty")));
        }
        project.name = owned(raw);
        Ok(project.name.clone())
    } else if str_eq(key, "settings.conflict_threshold_minutes") {
        let n = parse_minutes(key, raw, "conflict_threshold_minutes")?;
        project.settings.conflict_threshold_minutes = n;
        Ok(fmt_u32(n))
    } else if str_eq(key, "settings.context_refresh_minutes") {
        let n = parse_minutes(key, raw, "context_refresh_minutes")?;
        project.settings.context_refresh_minutes = n;
        Ok(fmt_u32(n))
    } else if str_eq(key, "settings.auto_resolve") {
        let normalized = to_ascii_lowercase(raw);
        let value = if str_eq(normalized.as_str(), "prompt") {
            AutoResolve::Prompt
        } else if str_eq(normalized.as_str(), "latest") {
            AutoResolve::Latest
        } else if str_eq(normalized.as_str(), "manual") {
            AutoResolve::Manual
        } else {
            let mut m = owned("auto_resolve must be one of: prompt | latest | manual (got ");
            let q = debug_str(normalized.as_str());
            m.append(q.as_str());
            m.append(")");
            return Err(KronError::Cli(m));
        };
        project.settings.auto_resolve = value;
        Ok(owned(value.as_str()))
    } else if str_eq(key, "kron_version") {
        Err(KronError::Cli(owned("kron_version is read-only (set by `kron init`)")))
    } else if str_eq(key, "project_path") || str_eq(key, "kron_data_path") || str_eq(key, "created_at") {
        let mut m = owned(key);
        m.append(" is read-only");
        Err(KronError::Cli(m))
    } else {
        Err(KronError::Cli(unknown_key(key)))
    }
}

/// A strategy found by its name is the one with that name: writing
/// `settings.auto_resolve` and reading it back gives the word written
/// (in lower case).
pub proof fn lemma_auto_resolve_named_reads_back(word: Seq<char>)
    ensures
        auto_resolve_named(word) matches Some(a) ==> a.name() == word,
{
}

} // verus!
