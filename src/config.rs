//! Configuration values that the bridging logic reads.
use vstd::prelude::*;
use vstd::string::StringExecFns;

verus! {

/// Process-wide settings.
pub struct General {
    pub log_level: String,
    pub listen_address: String,
    pub base_url: String,
}

/// One configured pair of channels eligible for mirroring.
pub struct Bridge {
    pub channels: [String; 2],
    pub bidirectional: Option<bool>,
    pub insert_zws_into_names: Option<bool>,
    pub exclude_filters: Vec<String>,
    pub filter_mode: FilterMode,
}

/// What the exclude filters of a link are matched against.
#[derive(Clone, Copy, Debug, PartialEq, Eq, Structural)]
pub enum FilterMode {
    /// The fully rendered outgoing text.
    FinalMessage,
    /// The raw contents of the incoming message.
    SourceMessage,
}

impl Default for FilterMode {
    fn default() -> (r: Self)
        ensures
            r == FilterMode::FinalMessage,
    {
        FilterMode::FinalMessage
    }
}

/// Message presentation settings: display names for platforms, as
/// `(platform, alias)` pairs with distinct platforms.
pub struct Message {
    pub platform_aliases: Vec<(String, String)>,
}

/// A bridge mirrors both ways unless it says otherwise.
pub open spec fn bridge_bidirectional(b: Bridge) -> bool {
    match b.bidirectional {
        Some(x) => x,
        None => true,
    }
}

/// A bridge marks names only where it asks to.
pub open spec fn bridge_insert_zws(b: Bridge) -> bool {
    match b.insert_zws_into_names {
        Some(x) => x,
        None => false,
    }
}

/// The exclude patterns of a bridge, in configured order.
pub open spec fn bridge_patterns(b: Bridge) -> Seq<Seq<char>> {
    b.exclude_filters@.map_values(|p: String| p@)
}

impl Bridge {
    /// Whether the bridge mirrors in both directions (the default).
    pub fn is_bidirectional(&self) -> (r: bool)
        ensures
            r == bridge_bidirectional(*self),
    {
        match self.bidirectional {
            Some(x) => x,
            None => true,
        }
    }

    /// Whether the bridge marks user names (off by default).
    pub fn inserts_zws(&self) -> (r: bool)
        ensures
            r == bridge_insert_zws(*self),
    {
        match self.insert_zws_into_names {
            Some(x) => x,
            None => false,
        }
    }
}

/// The log level used when none is configured.
pub fn default_log_level() -> (r: String)
    ensures
        r@ == "info"@,
{
    String::from_str("info")
}

/// The listen address used when none is configured.
pub fn default_listen_address() -> (r: String)
    ensures
        r@ == "0.0.0.0:8000"@,
{
    String::from_str("0.0.0.0:8000")
}

} // verus!
