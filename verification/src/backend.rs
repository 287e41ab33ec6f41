//! Hosted-backend configuration and its health report.
use vstd::prelude::*;
use crate::settings::config::BackendSettings;
use crate::text::{all_whitespace, is_blank, owned};

verus! {

broadcast use vstd::string::group_string_axioms;

/// Connection details of the hosted backend.
#[derive(Debug)]
pub struct SupabaseConfig {
    pub url: String,
    pub anon_key: String,
    pub project_ref: String,
}

/// Both the URL and the key hold something other than white space.
pub open spec fn configured_spec(c: SupabaseConfig) -> bool {
    !all_whitespace(c.url@) && !all_whitespace(c.anon_key@)
}

/// Names of the settings that are blank, in the order URL, key, project.
pub open spec fn missing_spec(c: SupabaseConfig) -> Seq<Seq<char>> {
    let a = if all_whitespace(c.url@) {
        seq!["SUPABASE_URL"@]
    } else {
        Seq::empty()
    };
    let b = if all_whitespace(c.anon_key@) {
        seq!["SUPABASE_ANON_KEY"@]
    } else {
        Seq::empty()
    };
    let p = if all_whitespace(c.project_ref@) {
        seq!["SUPABASE_PROJECT_REF"@]
    } else {
        Seq::empty()
    };
    a + b + p
}

/// Strings taken by their characters.
pub open spec fn strings_view(v: Seq<String>) -> Seq<Seq<char>> {
    v.map_values(|s: String| s@)
}

impl Default for SupabaseConfig {
    fn default() -> (r: Self)
        ensures
            r.url@.len() == 0,
            r.anon_key@.len() == 0,
            r.project_ref@.len() == 0,
    {
        SupabaseConfig { url: String::new(), anon_key: String::new(), project_ref: String::new() }
    }
}

impl SupabaseConfig {
    /// The configuration the settings hold.
    pub fn from_settings(settings: &BackendSettings) -> (r: Self)
        ensures
            r.url@ == settings.supabase_url@,
            r.anon_key@ == settings.supabase_anon_key@,
            r.project_ref@ == settings.supabase_project_ref@,
    {
        SupabaseConfig {
            url: settings.supabase_url.clone(),
            anon_key: settings.supabase_anon_key.clone(),
            project_ref: settings.supabase_project_ref.clone(),
        }
    }

    /// The environment's configuration when it is complete, else the settings'.
    pub fn from_env_or_settings(env_config: SupabaseConfig, settings: &BackendSettings) -> (r: Self)
        ensures
            configured_spec(env_config) ==> r == env_config,
            !configured_spec(env_config) ==> r.url@ == settings.supabase_url@ && r.anon_key@
                == settings.supabase_anon_key@ && r.project_ref@ == settings.supabase_project_ref@,
    {
        if env_config.is_configured() {
            env_config
        } else {
            Self::from_settings(settings)
        }
    }

    /// Both the URL and the key are set.
    pub fn is_configured(&self) -> (b: bool)
        ensures
            b == configured_spec(*self),
    {
        !is_blank(self.url.as_str()) && !is_blank(self.anon_key.as_str())
    }

    /// Short status text.
    pub fn status_label(&self) -> (r: &'static str)
        ensures
            configured_spec(*self) ==> r@ == "Supabase connected"@,
            !configured_spec(*self) ==> r@ == "Supabase not configured"@,
    {
        if self.is_configured() {
            "Supabase connected"
        } else {
            "Supabase not configured"
        }
    }

    /// The names of the blank settings.
    pub fn missing_fields(&self) -> (r: Vec<String>)
        ensures
            strings_view(r@) == missing_spec(*self),
    {
        let mut missing: Vec<String> = Vec::new();
        if is_blank(self.url.as_str()) {
            missing.push(owned("SUPABASE_URL"));
        }
        if is_blank(self.anon_key.as_str()) {
            missing.push(owned("SUPABASE_ANON_KEY"));
        }
        if is_blank(self.project_ref.as_str()) {
            missing.push(owned("SUPABASE_PROJECT_REF"));
        }
        assert(strings_view(missing@) =~= missing_spec(*self));
        missing
    }
}

/// Whether the backend can be used.
#[derive(Debug)]
pub enum BackendHealth {
    Ready,
    MissingConfig(Vec<String>),
}

/// `parts` joined with `sep` between neighbours.
pub open spec fn join_with(parts: Seq<Seq<char>>, sep: Seq<char>) -> Seq<char>
    decreases parts.len(),
{
    if parts.len() == 0 {
        Seq::empty()
    } else if parts.len() == 1 {
        parts[0]
    } else {
        join_with(parts.drop_last(), sep) + sep + parts.last()
    }
}

/// Join strings with `sep` between neighbours.
pub fn join_strings(parts: &Vec<String>, sep: &str) -> (r: String)
    ensures
        r@ == join_with(strings_view(parts@), sep@),
{
    let mut out = String::new();
    let mut i: usize = 0;
    while i < parts.len()
        invariant
            i <= parts.len(),
            out@ == join_with(strings_view(parts@.subrange(0, i as int)), sep@),
        decreases parts.len() - i,
    {
        let ghost pre = strings_view(parts@.subrange(0, i as int));
        let ghost cur = strings_view(parts@.subrange(0, i + 1));
        assert(cur.drop_last() =~= pre);
        assert(cur.last() == parts@[i as int]@);
        if i > 0 {
            out.append(sep);
        }
        out.append(parts[i].as_str());
        i = i + 1;
    }
    assert(parts@.subrange(0, parts@.len() as int) =~= parts@);
    out
}

impl BackendHealth {
    /// Ready when configured, else the list of missing settings.
    pub fn from_config(config: &SupabaseConfig) -> (r: Self)
        ensures
            configured_spec(*config) ==> r is Ready,
            !configured_spec(*config) ==> (r matches BackendHealth::MissingConfig(f) && strings_view(
                f@,
            ) == missing_spec(*config)),
    {
        if config.is_configured() {
            BackendHealth::Ready
        } else {
            BackendHealth::MissingConfig(config.missing_fields())
        }
    }

    /// Status text: `Supabase ready`, or `Missing config: ` and the names joined by `, `.
    pub fn label(&self) -> (r: String)
        ensures
            self is Ready ==> r@ == "Supabase ready"@,
            self matches BackendHealth::MissingConfig(f) ==> r@ == "Missing config: "@ + join_with(
                strings_view(f@),
                ", "@,
            ),
    {
        match self {
            BackendHealth::Ready => owned("Supabase ready"),
            BackendHealth::MissingConfig(fields) => {
                let mut s = owned("Missing config: ");
                let j = join_strings(fields, ", ");
                s.append(j.as_str());
                s
            },
        }
    }
}

} // verus!
