//! The selector settings read from `config.toml`.
use crate::text::{join_path, opt_view, path_join};
use vstd::prelude::*;
use vstd::string::StringExecFns;

verus! {

/// The whole configuration file.
#[derive(Debug, Clone)]
pub struct AppConfig {
    pub selector: SelectorConfig,
}

/// How the interactive selector looks and orders its items.
#[derive(Debug, Clone)]
pub struct SelectorConfig {
    pub height: String,
    pub layout: String,
    pub prompt: String,
    pub no_sort: bool,
    pub score_offset: i32,
    pub priority_rules: Vec<PriorityRule>,
    pub color_rules: Vec<ColorRule>,
}

/// Names that match `pattern` are ranked in tier `priority` (lower first).
#[derive(Debug, Clone)]
pub struct PriorityRule {
    pub pattern: String,
    pub priority: u32,
}

/// Names that match `pattern` are shown behind the ANSI escape `ansi`.
#[derive(Debug, Clone)]
pub struct ColorRule {
    pub pattern: String,
    /// ANSI escape sequence to prefix the context name.
    pub ansi: String,
}

/// The selector settings that no configuration file changes.
pub open spec fn is_default_selector(s: SelectorConfig) -> bool {
    &&& s.height@ == "100%"@
    &&& s.layout@ == "default"@
    &&& s.prompt@ == "> "@
    &&& !s.no_sort
    &&& s.score_offset == 10
    &&& s.priority_rules@.len() == 0
    &&& s.color_rules@.len() == 0
}

pub fn default_height() -> (r: String)
    ensures
        r@ == "100%"@,
{
    String::from_str("100%")
}

pub fn default_layout() -> (r: String)
    ensures
        r@ == "default"@,
{
    String::from_str("default")
}

pub fn default_prompt() -> (r: String)
    ensures
        r@ == "> "@,
{
    String::from_str("> ")
}

pub fn default_score_offset() -> (r: i32)
    ensures
        r == 10,
{
    10
}

impl Default for SelectorConfig {
    fn default() -> (r: Self)
        ensures
            is_default_selector(r),
    {
        SelectorConfig {
            height: default_height(),
            layout: default_layout(),
            prompt: default_prompt(),
            no_sort: false,
            score_offset: default_score_offset(),
            priority_rules: Vec::new(),
            color_rules: Vec::new(),
        }
    }
}

impl Default for AppConfig {
    fn default() -> (r: Self)
        ensures
            is_default_selector(r.selector),
    {
        AppConfig { selector: SelectorConfig::default() }
    }
}

/// The directory that holds the configuration: `XDG_CONFIG_HOME` where it
/// is set, else `.config` under the home directory, else `.config`.
pub open spec fn config_base(xdg: Option<Seq<char>>, home: Option<Seq<char>>) -> Seq<char> {
    match xdg {
        Some(x) => x,
        None => match home {
            Some(h) => join_path(h, ".config"@),
            None => ".config"@,
        },
    }
}

/// Where the configuration file is, given the value of `XDG_CONFIG_HOME`
/// and the home directory: `kubesess/config.toml` under `config_base`.
pub fn config_path_from(xdg: Option<String>, home: Option<String>) -> (r: String)
    ensures
        r@ == join_path(
            join_path(
                config_base(opt_view(xdg), opt_view(home)),
                "kubesess"@,
            ),
            "config.toml"@,
        ),
{
    let base = match xdg {
        Some(x) => x,
        None => match home {
            Some(h) => path_join(h.as_str(), ".config"),
            None => String::from_str(".config"),
        },
    };
    let dir = path_join(base.as_str(), "kubesess");
    path_join(dir.as_str(), "config.toml")
}

} // verus!
