//! Defaults of the settings, and what a change of the settings sets off.
use vstd::prelude::*;
use crate::text::views;

verus! {

/// The model used when the settings name none.
pub open spec fn default_model_name() -> Seq<char> {
    "base.en"@
}

/// The model used when the settings name none (see `default_model_name`).
pub fn default_model() -> (m: String)
    ensures
        m@ == default_model_name(),
{
    String::from_str("base.en")
}

/// Beam width used for decoding when the settings do not name one.
pub fn default_beam_size() -> (n: u32)
    ensures
        n == 2,
{
    2
}

/// Whether silence trimming is on when the settings do not say.
pub fn default_use_vad() -> (b: bool)
    ensures
        !b,
{
    false
}

/// Whether saving new settings has to load another model: exactly when the
/// model name changed.
pub fn needs_model_reload(old_model: &String, new_model: &String) -> (b: bool)
    ensures
        b == (old_model@ != new_model@),
{
    !(*old_model == *new_model)
}

/// Directory used in place of the user's configuration or data directory
/// when the system names none.
pub const FALLBACK_DIR: &'static str = ".";

/// Where the settings file lies below the configuration directory.
pub open spec fn config_file_parts() -> Seq<Seq<char>> {
    seq!["bvoice"@, "config.toml"@]
}

/// The path components of the settings file below the configuration
/// directory (see `config_file_parts`).
pub fn config_file_components() -> (parts: Vec<String>)
    ensures
        views(parts@) == config_file_parts(),
{
    let mut parts: Vec<String> = Vec::new();
    parts.push(String::from_str("bvoice"));
    parts.push(String::from_str("config.toml"));
    assert(views(parts@) =~= config_file_parts());
    parts
}

} // verus!
