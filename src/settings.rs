//! Actions and values of the command-line settings protocol.

use vstd::prelude::*;
use vstd::string::StringSliceAdditionalSpecFns;
use crate::config::{default_config, AnimationSource, Config};
use crate::text::bytes_equal;

verus! {

/// What a settings action asks for.
#[derive(Debug, Clone, Copy, PartialEq, Eq, Structural)]
pub enum SettingsAction {
    /// Store this configuration (the defaults).
    Save(Config),
    /// No action has that id.
    Unknown,
}

/// Decides the action with the given id: `reset` stores the defaults,
/// every other id is unknown.
pub fn action(id: &str) -> (r: SettingsAction)
    ensures
        id.spec_bytes() == "reset".spec_bytes() ==> r == SettingsAction::Save(default_config()),
        id.spec_bytes() != "reset".spec_bytes() ==> r == SettingsAction::Unknown,
{
    if bytes_equal(id.as_bytes(), "reset".as_bytes()) {
        SettingsAction::Save(Config::default())
    } else {
        SettingsAction::Unknown
    }
}

/// The metric source a settings value names: `CpuUsage`, `Frequency` or
/// `Temperature`.
pub fn source_from_name(name: &str) -> (r: Option<AnimationSource>)
    ensures
        name.spec_bytes() == "CpuUsage".spec_bytes() ==> r == Some(AnimationSource::CpuUsage),
        name.spec_bytes() == "Frequency".spec_bytes() ==> r == Some(AnimationSource::Frequency),
        name.spec_bytes() == "Temperature".spec_bytes() ==> r == Some(AnimationSource::Temperature),
        name.spec_bytes() != "CpuUsage".spec_bytes() && name.spec_bytes() != "Frequency".spec_bytes()
            && name.spec_bytes() != "Temperature".spec_bytes() ==> r is None,
{
    proof {
        reveal_strlit("CpuUsage");
        reveal_strlit("Frequency");
        reveal_strlit("Temperature");
        vstd::string::is_ascii_spec_bytes("CpuUsage");
        vstd::string::is_ascii_spec_bytes("Frequency");
        vstd::string::is_ascii_spec_bytes("Temperature");
        assert("CpuUsage".spec_bytes().len() == 8);
        assert("Frequency".spec_bytes().len() == 9);
        assert("Temperature".spec_bytes().len() == 11);
    }
    let b = name.as_bytes();
    if bytes_equal(b, "CpuUsage".as_bytes()) {
        Some(AnimationSource::CpuUsage)
    } else if bytes_equal(b, "Frequency".as_bytes()) {
        Some(AnimationSource::Frequency)
    } else if bytes_equal(b, "Temperature".as_bytes()) {
        Some(AnimationSource::Temperature)
    } else {
        None
    }
}

/// The name a settings value uses for a metric source.
pub fn source_name(source: AnimationSource) -> (r: &'static str)
    ensures
        r@ == match source {
            AnimationSource::CpuUsage => "CpuUsage"@,
            AnimationSource::Frequency => "Frequency"@,
            AnimationSource::Temperature => "Temperature"@,
        },
{
    match source {
        AnimationSource::CpuUsage => "CpuUsage",
        AnimationSource::Frequency => "Frequency",
        AnimationSource::Temperature => "Temperature",
    }
}

} // verus!
