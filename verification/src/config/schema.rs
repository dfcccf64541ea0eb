//! The configuration file's contents and the stack screen position.

use crate::gnome::dbus_proxy::MonitorInfo;
use crate::text::str_equals;
use vstd::prelude::*;
use vstd::std_specs::convert::FromSpecImpl;
use vstd::string::StringExecFns;

verus! {

#[verifier::external_type_specification]
#[verifier::external_body]
pub struct ExIoError(std::io::Error);

#[verifier::external_type_specification]
#[verifier::external_body]
pub struct ExTomlDeError(toml::de::Error);

/// Valid positions for the stack screen relative to other monitors.
#[derive(Debug, Clone, Copy, PartialEq, Eq, Structural)]
pub enum StackScreenPosition {
    Left,
    Right,
}

/// Errors specific to tiler configuration.
#[derive(Debug)]
pub enum ConfigError {
    /// The `stack_screen_position` value is not "left" or "right".
    InvalidStackScreenPosition(String),
    /// An I/O error occurred while reading the config file.
    Io(std::io::Error),
    /// The config file contains invalid TOML.
    Parse(toml::de::Error),
}

/// What `str::to_lowercase` returns for a string.
pub uninterp spec fn lowercase_of(s: Seq<char>) -> Seq<char>;

/// Whether every character is ASCII.
pub open spec fn all_ascii(s: Seq<char>) -> bool {
    forall|i: int| 0 <= i < s.len() ==> (#[trigger] s[i] as int) < 128
}

/// The ASCII lowercase of a character: `A`-`Z` become `a`-`z`, all else is kept.
pub open spec fn ascii_lower(c: char) -> char {
    if 'A' <= c && c <= 'Z' {
        ((c as int) + 32) as char
    } else {
        c
    }
}

/// The ASCII lowercase of a string.
pub open spec fn ascii_lowercase(s: Seq<char>) -> Seq<char> {
    s.map_values(|c: char| ascii_lower(c))
}

/// `str::to_lowercase`: the result is the name `lowercase_of` applied to the
/// input's characters (the Unicode lowercase mapping, which depends on the
/// characters alone). On ASCII input that mapping is the ASCII one, which
/// the contract states; for other characters it states nothing more.
#[verifier::external_body]
fn to_lowercase(s: &str) -> (r: String)
    ensures
        r@ == lowercase_of(s@),
        all_ascii(s@) ==> r@ == ascii_lowercase(s@),
{
    s.to_lowercase()
}

/// The display text of a `std::io::Error` (its `to_string`). Nothing is
/// stated of the text: for an OS error it comes from the platform's error
/// strings.
#[verifier::external_body]
fn io_error_text(e: &std::io::Error) -> String {
    e.to_string()
}

/// The display text of a `toml::de::Error` (its `to_string`): the parser's
/// own rendering of the message and the offending span. Nothing is stated
/// of the text.
#[verifier::external_body]
fn toml_error_text(e: &toml::de::Error) -> String {
    e.to_string()
}

/// The position a lowercased name stands for.
pub open spec fn position_named(lower: Seq<char>) -> Option<StackScreenPosition> {
    if lower == "left"@ {
        Some(StackScreenPosition::Left)
    } else if lower == "right"@ {
        Some(StackScreenPosition::Right)
    } else {
        None
    }
}

/// `i` is the first monitor with the smallest `x`.
pub open spec fn is_first_leftmost(monitors: Seq<MonitorInfo>, i: int) -> bool {
    &&& 0 <= i < monitors.len()
    &&& forall|j: int| 0 <= j < monitors.len() ==> monitors[i].x <= #[trigger] monitors[j].x
    &&& forall|j: int| 0 <= j < i ==> monitors[i].x < #[trigger] monitors[j].x
}

/// `i` is the last monitor with the largest `x`.
pub open spec fn is_last_rightmost(monitors: Seq<MonitorInfo>, i: int) -> bool {
    &&& 0 <= i < monitors.len()
    &&& forall|j: int| 0 <= j < monitors.len() ==> #[trigger] monitors[j].x <= monitors[i].x
    &&& forall|j: int| i < j < monitors.len() ==> #[trigger] monitors[j].x < monitors[i].x
}

/// The monitor index a position picks: the first leftmost monitor for
/// `Left`, the last rightmost one for `Right`.
pub open spec fn picks(pos: StackScreenPosition, monitors: Seq<MonitorInfo>, i: int) -> bool {
    match pos {
        StackScreenPosition::Left => is_first_leftmost(monitors, i),
        StackScreenPosition::Right => is_last_rightmost(monitors, i),
    }
}

/// The text of the invalid-position error for a value.
pub open spec fn invalid_position_text(v: Seq<char>) -> Seq<char> {
    "invalid stack_screen_position '"@ + v + "': expected 'left' or 'right'"@
}

impl StackScreenPosition {
    /// The position named by an already lowercased string, if any.
    pub fn from_lowercase(lower: &str) -> (r: Option<Self>)
        ensures
            r == position_named(lower@),
    {
        if str_equals(lower, "left") {
            Some(Self::Left)
        } else if str_equals(lower, "right") {
            Some(Self::Right)
        } else {
            None
        }
    }

    /// Parse a position string, returning an error for unrecognized values.
    /// The comparison ignores case.
    pub fn parse(s: &str) -> (r: Result<Self, ConfigError>)
        ensures
            match r {
                Ok(p) => position_named(lowercase_of(s@)) == Some(p),
                Err(e) => position_named(lowercase_of(s@)) is None && (e matches ConfigError::InvalidStackScreenPosition(v) && v@ == s@),
            },
            all_ascii(s@) ==> match r {
                Ok(p) => position_named(ascii_lowercase(s@)) == Some(p),
                Err(_) => position_named(ascii_lowercase(s@)) is None,
            },
    {
        let lower = to_lowercase(s);
        match Self::from_lowercase(lower.as_str()) {
            Some(p) => Ok(p),
            None => Err(ConfigError::InvalidStackScreenPosition(String::from_str(s))),
        }
    }

    /// Resolve the stack screen index from a list of monitors.
    ///
    /// For "left", picks the monitor with the smallest x coordinate (the
    /// first one on a tie). For "right", picks the monitor with the largest
    /// x coordinate (the last one on a tie).
    /// Returns `None` if the monitor list is empty.
    pub fn resolve_index(&self, monitors: &[MonitorInfo]) -> (r: Option<usize>)
        ensures
            r is None <==> monitors@.len() == 0,
            r matches Some(i) ==> picks(*self, monitors@, i as int),
    {
        if monitors.len() == 0 {
            return None;
        }
        let mut best: usize = 0;
        let mut i: usize = 1;
        while i < monitors.len()
            invariant
                1 <= i <= monitors@.len(),
                best < i,
                match *self {
                    StackScreenPosition::Left => {
                        &&& forall|j: int| 0 <= j < i ==> monitors@[best as int].x <= #[trigger] monitors@[j].x
                        &&& forall|j: int| 0 <= j < best ==> monitors@[best as int].x < #[trigger] monitors@[j].x
                    },
                    StackScreenPosition::Right => {
                        &&& forall|j: int| 0 <= j < i ==> #[trigger] monitors@[j].x <= monitors@[best as int].x
                        &&& forall|j: int| best < j < i ==> #[trigger] monitors@[j].x < monitors@[best as int].x
                    },
                },
            decreases monitors@.len() - i,
        {
            let better = match self {
                StackScreenPosition::Left => monitors[i].x < monitors[best].x,
                StackScreenPosition::Right => monitors[i].x >= monitors[best].x,
            };
            if better {
                best = i;
            }
            i = i + 1;
        }
        Some(best)
    }
}

impl ConfigError {
    /// The error's human-readable message: the invalid value for a bad
    /// position, else a prefix naming the kind of failure followed by the
    /// underlying error's own text.
    pub fn message(&self) -> (r: String)
        ensures
            self matches ConfigError::InvalidStackScreenPosition(v) ==> r@ == invalid_position_text(v@),
            self is Io ==> exists|t: Seq<char>| r@ == "config I/O error: "@ + t,
            self is Parse ==> exists|t: Seq<char>| r@ == "config parse error: "@ + t,
    {
        match self {
            ConfigError::InvalidStackScreenPosition(v) => {
                let s = String::from_str("invalid stack_screen_position '");
                let s = s.concat(v.as_str());
                s.concat("': expected 'left' or 'right'")
            },
            ConfigError::Io(e) => {
                let text = io_error_text(e);
                let r = String::from_str("config I/O error: ").concat(text.as_str());
                assert(r@ == "config I/O error: "@ + text@);
                r
            },
            ConfigError::Parse(e) => {
                let text = toml_error_text(e);
                let r = String::from_str("config parse error: ").concat(text.as_str());
                assert(r@ == "config parse error: "@ + text@);
                r
            },
        }
    }

    /// Whether the error wraps an underlying cause (I/O and TOML errors do).
    pub fn has_source(&self) -> (r: bool)
        ensures
            r == !(self is InvalidStackScreenPosition),
    {
        match self {
            ConfigError::InvalidStackScreenPosition(_) => false,
            ConfigError::Io(_) => true,
            ConfigError::Parse(_) => true,
        }
    }
}

impl From<std::io::Error> for ConfigError {
    fn from(e: std::io::Error) -> (r: Self) {
        ConfigError::Io(e)
    }
}

impl FromSpecImpl<std::io::Error> for ConfigError {
    open spec fn obeys_from_spec() -> bool {
        true
    }

    open spec fn from_spec(v: std::io::Error) -> Self {
        ConfigError::Io(v)
    }
}

impl From<toml::de::Error> for ConfigError {
    fn from(e: toml::de::Error) -> (r: Self) {
        ConfigError::Parse(e)
    }
}

impl FromSpecImpl<toml::de::Error> for ConfigError {
    open spec fn obeys_from_spec() -> bool {
        true
    }

    open spec fn from_spec(v: toml::de::Error) -> Self {
        ConfigError::Parse(v)
    }
}

/// The daemon's configuration.
#[derive(Debug, Clone, PartialEq, Eq)]
pub struct TilerConfig {
    pub stack_screen_position: String,
}

impl Default for TilerConfig {
    fn default() -> (r: Self)
        ensures
            r.stack_screen_position@ == "left"@,
    {
        Self { stack_screen_position: String::from_str("left") }
    }
}

impl TilerConfig {
    /// Validate the configuration, returning a typed error for invalid values.
    pub fn validate(&self) -> (r: Result<(), ConfigError>)
        ensures
            r is Ok <==> position_named(lowercase_of(self.stack_screen_position@)) is Some,
            all_ascii(self.stack_screen_position@) ==> (r is Ok <==> position_named(
                ascii_lowercase(self.stack_screen_position@),
            ) is Some),
            r matches Err(e) ==> (e matches ConfigError::InvalidStackScreenPosition(v) && v@
                == self.stack_screen_position@),
    {
        match StackScreenPosition::parse(self.stack_screen_position.as_str()) {
            Ok(_) => Ok(()),
            Err(e) => Err(e),
        }
    }

    /// Parse and return the stack screen position.
    pub fn stack_position(&self) -> (r: Result<StackScreenPosition, ConfigError>)
        ensures
            match r {
                Ok(p) => position_named(lowercase_of(self.stack_screen_position@)) == Some(p),
                Err(e) => position_named(lowercase_of(self.stack_screen_position@)) is None && (e matches ConfigError::InvalidStackScreenPosition(v) && v@
                    == self.stack_screen_position@),
            },
            all_ascii(self.stack_screen_position@) ==> match r {
                Ok(p) => position_named(ascii_lowercase(self.stack_screen_position@)) == Some(p),
                Err(_) => position_named(ascii_lowercase(self.stack_screen_position@)) is None,
            },
    {
        StackScreenPosition::parse(self.stack_screen_position.as_str())
    }
}

/// Where the configuration file is read from.
#[derive(Debug, Clone, Copy, PartialEq, Eq, Structural)]
pub enum ConfigLocation {
    /// The path named by `$TILER_CONFIG`.
    Override,
    /// `$XDG_CONFIG_HOME/tiler/config.toml`.
    XdgConfigHome,
    /// `$HOME/.config/tiler/config.toml` (`/tmp` standing in for an unset `$HOME`).
    HomeConfig,
    /// `/etc/tiler/config.toml`.
    System,
}

/// The location chosen from what is set and what exists: an explicit
/// override wins; else the user's file if it exists; else the system file
/// if it exists; else the user's file (so that loading falls back to the
/// defaults). The user's file is under `$XDG_CONFIG_HOME` when that is set,
/// else under `$HOME/.config`.
pub open spec fn config_location_for(has_override: bool, has_xdg: bool, user_exists: bool, system_exists: bool) -> ConfigLocation {
    let user = if has_xdg {
        ConfigLocation::XdgConfigHome
    } else {
        ConfigLocation::HomeConfig
    };
    if has_override {
        ConfigLocation::Override
    } else if user_exists {
        user
    } else if system_exists {
        ConfigLocation::System
    } else {
        user
    }
}

/// Choose where to read the configuration from, given whether
/// `$TILER_CONFIG` and `$XDG_CONFIG_HOME` are set and whether the user's and
/// the system's files exist.
pub fn config_location(has_override: bool, has_xdg: bool, user_exists: bool, system_exists: bool) -> (r: ConfigLocation)
    ensures
        r == config_location_for(has_override, has_xdg, user_exists, system_exists),
{
    let user = if has_xdg {
        ConfigLocation::XdgConfigHome
    } else {
        ConfigLocation::HomeConfig
    };
    if has_override {
        ConfigLocation::Override
    } else if user_exists {
        user
    } else if system_exists {
        ConfigLocation::System
    } else {
        user
    }
}

/// The configuration is read from the first of these that applies: the
/// override when `$TILER_CONFIG` is set; the user's file when it exists; the
/// system file when it exists, whether or not `$XDG_CONFIG_HOME` is set; and
/// else the user's file. The user's file is under `$XDG_CONFIG_HOME` exactly
/// when that is set.
pub proof fn law_config_location_order(has_override: bool, has_xdg: bool, user_exists: bool, system_exists: bool)
    ensures
        ({
            let r = config_location_for(has_override, has_xdg, user_exists, system_exists);
            let user = if has_xdg { ConfigLocation::XdgConfigHome } else { ConfigLocation::HomeConfig };
            &&& has_override ==> r == ConfigLocation::Override
            &&& !has_override && user_exists ==> r == user
            &&& !has_override && !user_exists && system_exists ==> r == ConfigLocation::System
            &&& !has_override && !user_exists && !system_exists ==> r == user
            &&& (r == ConfigLocation::System) == (!has_override && !user_exists && system_exists)
            &&& (r == ConfigLocation::XdgConfigHome) ==> has_xdg
            &&& (r == ConfigLocation::HomeConfig) ==> !has_xdg
        }),
{
}

} // verus!

