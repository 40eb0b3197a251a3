//! The configuration: where its file is, what it may say, and what holds where it says nothing.
//!
//! A missing file means defaults; a file that fails to parse is an error, because falling back to
//! defaults silently would mask typos.

use vstd::arithmetic::power2::{lemma_pow2_adds, lemma_pow2_pos, lemma_pow2_strictly_increases, pow2};
use vstd::prelude::*;
use vstd::string::{is_ascii_spec_bytes, StringSliceAdditionalSpecFns};

verus! {

/// Screen corner that the stack grows from.
#[derive(Debug, Clone, Copy, PartialEq, Eq, Structural)]
pub enum Corner {
    TopRight,
    TopLeft,
    BottomRight,
    BottomLeft,
}

impl Default for Corner {
    fn default() -> (corner: Self)
        ensures
            corner == Corner::TopRight,
    {
        Corner::TopRight
    }
}

impl Corner {
    /// How the configuration file writes the corner.
    pub open spec fn name(self) -> Seq<char> {
        match self {
            Corner::TopRight => "top-right"@,
            Corner::TopLeft => "top-left"@,
            Corner::BottomRight => "bottom-right"@,
            Corner::BottomLeft => "bottom-left"@,
        }
    }

    /// Whether the stack is anchored to the bottom edge (the newest card sits nearest the corner,
    /// so the stack grows upward).
    pub fn is_bottom(self) -> (bottom: bool)
        ensures
            bottom == (self == Corner::BottomRight || self == Corner::BottomLeft),
    {
        matches!(self, Corner::BottomRight | Corner::BottomLeft)
    }

    /// The corner that the configuration file writes as `s`; any other text is an error that says
    /// what was expected.
    pub fn from_str(s: &str) -> (corner: Result<Corner, String>)
        ensures
            corner matches Ok(corner) ==> corner.name() == s@,
            corner matches Err(message) ==> {
                &&& forall|corner: Corner| #[trigger] corner.name() != s@
                &&& message@ == unknown_corner(s@)
            },
    {
        if *s == *"top-right" {
            Ok(Corner::TopRight)
        } else if *s == *"top-left" {
            Ok(Corner::TopLeft)
        } else if *s == *"bottom-right" {
            Ok(Corner::BottomRight)
        } else if *s == *"bottom-left" {
            Ok(Corner::BottomLeft)
        } else {
            let mut message =
                "expected \"top-right\", \"top-left\", \"bottom-right\" or \"bottom-left\", got \"".to_owned();
            message.append(s);
            message.append("\"");
            Err(message)
        }
    }
}

/// What is said of a text that names no corner.
pub open spec fn unknown_corner(s: Seq<char>) -> Seq<char> {
    "expected \"top-right\", \"top-left\", \"bottom-right\" or \"bottom-left\", got \""@ + s + "\""@
}

impl std::str::FromStr for Corner {
    type Err = String;

    /// The same as [`Corner::from_str`], for `str::parse`.
    fn from_str(s: &str) -> (corner: Result<Self, Self::Err>)
        ensures
            corner matches Ok(corner) ==> corner.name() == s@,
            corner matches Err(message) ==> {
                &&& forall|corner: Corner| #[trigger] corner.name() != s@
                &&& message@ == unknown_corner(s@)
            },
    {
        Corner::from_str(s)
    }
}

/// No two corners are written alike.
pub proof fn law_corner_names_differ(a: Corner, b: Corner)
    requires
        a.name() == b.name(),
    ensures
        a == b,
{
    reveal_strlit("top-right");
    reveal_strlit("top-left");
    reveal_strlit("bottom-right");
    reveal_strlit("bottom-left");
    assert("top-right"@.len() == 9 && "top-left"@.len() == 8);
    assert("bottom-right"@.len() == 12 && "bottom-left"@.len() == 11);
}

/// How opaque a card is: a single precision number by its IEEE 754 bits.
#[derive(Debug, Clone, Copy, PartialEq, Eq, Structural)]
pub struct Opacity {
    pub bits: u32,
}

/// The bits of 1.0, a card that nothing shines through.
pub const OPAQUE_BITS: u32 = 0x3f80_0000;

/// The bits of 0.8, the opacity of cards where the configuration does not say.
pub const DEFAULT_OPACITY_BITS: u32 = 0x3f4c_cccd;

impl Opacity {
    /// The exponent field of the number.
    pub open spec fn exponent(self) -> nat {
        (self.bits / 0x80_0000 % 0x100) as nat
    }

    /// The fraction field of the number.
    pub open spec fn fraction(self) -> nat {
        (self.bits % 0x80_0000) as nat
    }

    /// The number times 2 to the 149, which is whole; `None` for infinities and for what is no
    /// number.
    pub open spec fn scaled(self) -> Option<int> {
        let magnitude = if self.exponent() == 0 {
            self.fraction()
        } else {
            (0x80_0000 + self.fraction()) as nat * pow2((self.exponent() - 1) as nat)
        };
        if self.exponent() == 0xff {
            None
        } else if self.bits < 0x8000_0000 {
            Some(magnitude as int)
        } else {
            Some(-magnitude)
        }
    }

    /// Whether the number lies between 0 and 1, both included.
    pub open spec fn in_unit_range(self) -> bool {
        self.scaled() matches Some(scaled) && 0 <= scaled <= pow2(149)
    }

    /// Full opacity.
    pub fn opaque() -> (opacity: Opacity)
        ensures
            opacity == (Opacity { bits: OPAQUE_BITS }),
    {
        Opacity { bits: OPAQUE_BITS }
    }

    /// Whether the number lies between 0 and 1, both included.
    pub fn is_valid(self) -> (valid: bool)
        ensures
            valid == self.in_unit_range(),
    {
        proof {
            self.lemma_unit_range();
        }
        self.bits <= OPAQUE_BITS || self.bits == 0x8000_0000
    }

    /// Positive numbers are ordered as their bits are, and of the others only negative zero lies
    /// between 0 and 1.
    proof fn lemma_unit_range(self)
        ensures
            self.in_unit_range() == (self.bits <= OPAQUE_BITS || self.bits == 0x8000_0000),
    {
        let e = self.exponent();
        let f = self.fraction();
        lemma_pow2_adds(23, 126);
        assert(pow2(23) == 0x80_0000) by {
            vstd::arithmetic::power2::lemma2_to64();
        }
        if e > 0 {
            let p = pow2((e - 1) as nat);
            lemma_pow2_pos((e - 1) as nat);
            let m = (0x80_0000 + f) as nat;
            assert(m * p > 0) by (nonlinear_arith)
                requires
                    m > 0,
                    p > 0,
            ;
            if e <= 126 {
                if e < 126 {
                    lemma_pow2_strictly_increases((e - 1) as nat, 125);
                }
                lemma_pow2_adds(1, 125);
                vstd::arithmetic::power2::lemma2_to64();
                assert(2 * pow2(125) == pow2(126));
                assert(m * p <= 0x100_0000 * pow2(125)) by (nonlinear_arith)
                    requires
                        m <= 0x100_0000,
                        p <= pow2(125),
                ;
            } else if e == 127 {
                assert(m * p <= 0x80_0000 * p <==> f == 0) by (nonlinear_arith)
                    requires
                        m == 0x80_0000 + f,
                        p > 0,
                ;
            } else {
                lemma_pow2_strictly_increases(126, (e - 1) as nat);
                assert(m * p > 0x80_0000 * pow2(126)) by (nonlinear_arith)
                    requires
                        m >= 0x80_0000,
                        p > pow2(126),
                ;
            }
        } else {
            lemma_pow2_strictly_increases(23, 149);
        }
    }
}

/// The configuration of the daemon.
#[derive(Debug)]
pub struct Config {
    /// Output to pin the stack to. `None` leaves it to the compositor.
    pub output: Option<String>,
    /// Screen corner the stack grows from.
    pub corner: Corner,
    /// Card width in logical pixels.
    pub width: u32,
    /// Margin off the screen edges, logical pixels.
    pub margin: i32,
    /// Gap between stacked cards, logical pixels.
    pub gap: u32,
    /// Cards shown at once; the rest collapse into a "+N more" line.
    pub max_visible: usize,
    /// Card fill translucency.
    pub opacity: Opacity,
    /// Expiry for notifications that leave it to the server, in milliseconds. 0 is never.
    pub default_timeout: u64,
}

impl Default for Config {
    fn default() -> (config: Self)
        ensures
            config == default_config(),
    {
        Config {
            output: None,
            corner: Corner::TopRight,
            width: 360,
            margin: 8,
            gap: 8,
            max_visible: 8,
            opacity: Opacity { bits: DEFAULT_OPACITY_BITS },
            default_timeout: 5000,
        }
    }
}

/// The configuration that holds where there is no file.
pub open spec fn default_config() -> Config {
    Config {
        output: None,
        corner: Corner::TopRight,
        width: 360,
        margin: 8,
        gap: 8,
        max_visible: 8,
        opacity: Opacity { bits: DEFAULT_OPACITY_BITS },
        default_timeout: 5000,
    }
}

/// What a configuration file says; `None` for what it leaves out.
#[derive(Debug)]
pub struct Settings {
    pub output: Option<String>,
    pub corner: Option<Corner>,
    pub width: Option<u32>,
    pub margin: Option<i32>,
    pub gap: Option<u32>,
    pub max_visible: Option<usize>,
    pub opacity: Option<Opacity>,
    pub default_timeout: Option<u64>,
}

impl Settings {
    /// The configuration of a file that says this: the defaults hold for what is left out.
    pub open spec fn config(self) -> Config {
        let fallback = default_config();
        Config {
            output: self.output,
            corner: self.corner.unwrap_or(fallback.corner),
            width: self.width.unwrap_or(fallback.width),
            margin: self.margin.unwrap_or(fallback.margin),
            gap: self.gap.unwrap_or(fallback.gap),
            max_visible: self.max_visible.unwrap_or(fallback.max_visible),
            opacity: self.opacity.unwrap_or(fallback.opacity),
            default_timeout: self.default_timeout.unwrap_or(fallback.default_timeout),
        }
    }

    /// The configuration of a file that says this: the defaults hold for what is left out.
    pub fn into_config(self) -> (config: Config)
        ensures
            config == self.config(),
    {
        let fallback = Config::default();
        Config {
            output: self.output,
            corner: self.corner.unwrap_or(fallback.corner),
            width: self.width.unwrap_or(fallback.width),
            margin: self.margin.unwrap_or(fallback.margin),
            gap: self.gap.unwrap_or(fallback.gap),
            max_visible: self.max_visible.unwrap_or(fallback.max_visible),
            opacity: self.opacity.unwrap_or(fallback.opacity),
            default_timeout: self.default_timeout.unwrap_or(fallback.default_timeout),
        }
    }
}

/// What came of looking for a configuration file and reading it.
#[derive(Debug)]
pub enum ConfigSource {
    /// The environment names no place for it.
    NoPath,
    /// There is no such file.
    Missing,
    /// The file cannot be read; the text says why.
    Unreadable(String),
    /// The file cannot be parsed; the text is the report.
    Malformed(String),
    Parsed(Settings),
}

/// Why there is no configuration.
#[derive(Debug)]
pub enum ConfigError {
    Unreadable(String),
    Malformed(String),
    /// The width must be positive.
    ZeroWidth,
    /// The opacity must lie between 0 and 1.
    OpacityOutOfRange(Opacity),
}

impl Config {
    /// Whether the daemon can run with the configuration.
    pub open spec fn is_valid(self) -> bool {
        self.width > 0 && self.opacity.in_unit_range()
    }

    /// The configuration that a source gives, or why it gives none.
    pub open spec fn of_source(source: ConfigSource) -> Result<Config, ConfigError> {
        match source {
            ConfigSource::NoPath => Ok(default_config()),
            ConfigSource::Missing => Ok(default_config()),
            ConfigSource::Unreadable(reason) => Err(ConfigError::Unreadable(reason)),
            ConfigSource::Malformed(report) => Err(ConfigError::Malformed(report)),
            ConfigSource::Parsed(settings) => if settings.config().width == 0 {
                Err(ConfigError::ZeroWidth)
            } else if !settings.config().opacity.in_unit_range() {
                Err(ConfigError::OpacityOutOfRange(settings.config().opacity))
            } else {
                Ok(settings.config())
            },
        }
    }

    /// Loads the configuration from what came of reading its file. No file means the defaults; a
    /// file that cannot be read or parsed is an error, and so is a width of zero or an opacity
    /// that does not lie between 0 and 1.
    pub fn load(source: ConfigSource) -> (config: Result<Config, ConfigError>)
        ensures
            config == Config::of_source(source),
    {
        match source {
            ConfigSource::NoPath => Ok(Config::default()),
            ConfigSource::Missing => Ok(Config::default()),
            ConfigSource::Unreadable(reason) => Err(ConfigError::Unreadable(reason)),
            ConfigSource::Malformed(report) => Err(ConfigError::Malformed(report)),
            ConfigSource::Parsed(settings) => {
                let config = settings.into_config();
                if config.width == 0 {
                    Err(ConfigError::ZeroWidth)
                } else if !config.opacity.is_valid() {
                    Err(ConfigError::OpacityOutOfRange(config.opacity))
                } else {
                    Ok(config)
                }
            },
        }
    }

    /// Which of the outputs the stack is pinned to, given the name of each: the first one with the
    /// configured name. `None` leaves it to the compositor.
    pub fn pick_output(&self, names: &[Option<String>]) -> (output: Option<usize>)
        ensures
            output matches Some(i) ==> {
                &&& i < names@.len()
                &&& self.wants_output(names@[i as int])
                &&& forall|j: int| 0 <= j < i ==> !self.wants_output(#[trigger] names@[j])
            },
            output is None ==> forall|j: int|
                0 <= j < names@.len() ==> !self.wants_output(#[trigger] names@[j]),
    {
        let mut at: usize = 0;
        while at < names.len()
            invariant
                at <= names@.len(),
                forall|j: int| 0 <= j < at ==> !self.wants_output(#[trigger] names@[j]),
            decreases names@.len() - at,
        {
            if let (Some(wanted), Some(name)) = (&self.output, &names[at]) {
                if *name.as_str() == *wanted.as_str() {
                    return Some(at);
                }
            }
            at = at + 1;
        }
        None
    }

    /// Whether an output with the given name is the configured one.
    pub open spec fn wants_output(self, name: Option<String>) -> bool {
        self.output is Some && name is Some && name->0@ == self.output->0@
    }

    /// Where the configuration file is, given the values of `$PRISM_NOTIFY_CONFIG`,
    /// `$XDG_CONFIG_HOME` and `$HOME`: the first of them, else `prism-notify/config.kdl` below the
    /// second, else below `.config` in the third.
    pub open spec fn path_of(
        own: Option<Seq<u8>>,
        xdg_config_home: Option<Seq<u8>>,
        home: Option<Seq<u8>>,
    ) -> Option<Seq<u8>> {
        match (own, xdg_config_home, home) {
            (Some(path), _, _) => Some(path),
            (None, Some(base), _) => Some(config_below(base)),
            (None, None, Some(home)) => Some(
                config_below(joined(home, ".config".spec_bytes())),
            ),
            (None, None, None) => None,
        }
    }

    /// Where the configuration file is: `$PRISM_NOTIFY_CONFIG`, else
    /// `$XDG_CONFIG_HOME/prism-notify/config.kdl`, else `~/.config/prism-notify/config.kdl`.
    pub fn path(
        own: Option<Vec<u8>>,
        xdg_config_home: Option<Vec<u8>>,
        home: Option<Vec<u8>>,
    ) -> (path: Option<Vec<u8>>)
        ensures
            opt_bytes(path) == Config::path_of(
                opt_bytes(own),
                opt_bytes(xdg_config_home),
                opt_bytes(home),
            ),
    {
        if let Some(path) = own {
            return Some(path);
        }
        let mut base = match xdg_config_home {
            Some(base) => base,
            None => match home {
                Some(home) => {
                    let mut base = home;
                    join(&mut base, ".config");
                    base
                },
                None => {
                    return None;
                },
            },
        };
        join(&mut base, "prism-notify");
        join(&mut base, "config.kdl");
        Some(base)
    }
}

/// The bytes of an optional path.
pub open spec fn opt_bytes(path: Option<Vec<u8>>) -> Option<Seq<u8>> {
    match path {
        Some(path) => Some(path@),
        None => None,
    }
}

/// A path with a relative component behind it: a slash parts the two, unless the path is empty or
/// ends with one.
pub open spec fn joined(base: Seq<u8>, component: Seq<u8>) -> Seq<u8> {
    if base.len() > 0 && base.last() != 0x2f {
        base.push(0x2f) + component
    } else {
        base + component
    }
}

/// The configuration file below a directory for configurations.
pub open spec fn config_below(base: Seq<u8>) -> Seq<u8> {
    joined(joined(base, "prism-notify".spec_bytes()), "config.kdl".spec_bytes())
}

/// Puts a relative component behind a path.
fn join(path: &mut Vec<u8>, component: &str)
    ensures
        final(path)@ == joined(old(path)@, component.spec_bytes()),
{
    let len: usize = path.len();
    if len > 0 && path[len - 1] != 0x2f {
        path.push(0x2f);
    }
    let bytes = component.as_bytes();
    let mut at: usize = 0;
    let ghost base = path@;
    while at < bytes.len()
        invariant
            at <= bytes@.len(),
            path@ == base + bytes@.take(at as int),
        decreases bytes@.len() - at,
    {
        path.push(bytes[at]);
        assert(path@ =~= base + bytes@.take(at + 1));
        at = at + 1;
    }
    assert(bytes@.take(at as int) =~= bytes@);
    assert(path@ =~= joined(old(path)@, component.spec_bytes()));
}

/// The daemon runs only with valid configurations: what loads is valid.
pub proof fn law_loaded_config_is_valid(source: ConfigSource)
    ensures
        Config::of_source(source) matches Ok(config) ==> config.is_valid(),
        default_config().is_valid(),
{
    let opacity = default_config().opacity;
    opacity.lemma_unit_range();
}

/// A file that says nothing is as good as no file.
pub proof fn law_empty_file_means_defaults(settings: Settings)
    requires
        settings.output is None,
        settings.corner is None,
        settings.width is None,
        settings.margin is None,
        settings.gap is None,
        settings.max_visible is None,
        settings.opacity is None,
        settings.default_timeout is None,
    ensures
        Config::of_source(ConfigSource::Parsed(settings)) == Config::of_source(
            ConfigSource::Missing,
        ),
{
    law_loaded_config_is_valid(ConfigSource::Missing);
}

/// How each corner is written, and what is said of any other text.
pub proof fn law_corners_are_written(s: Seq<char>)
    ensures
        Corner::TopRight.name() == "top-right"@,
        Corner::TopLeft.name() == "top-left"@,
        Corner::BottomRight.name() == "bottom-right"@,
        Corner::BottomLeft.name() == "bottom-left"@,
        unknown_corner(s)
            == "expected \"top-right\", \"top-left\", \"bottom-right\" or \"bottom-left\", got \""@
            + s + "\""@,
{
}

/// The bits of the numbers from 0 to 1: those up to the bits of 1.0, and those of negative zero.
pub proof fn law_opacity_range(opacity: Opacity)
    ensures
        opacity.in_unit_range() <==> opacity.bits <= 0x3f80_0000 || opacity.bits == 0x8000_0000,
{
    opacity.lemma_unit_range();
}

/// What holds where there is no file, or where the file says nothing of it.
pub proof fn law_defaults()
    ensures
        default_config().output is None,
        default_config().corner == Corner::TopRight,
        default_config().width == 360,
        default_config().margin == 8,
        default_config().gap == 8,
        default_config().max_visible == 8,
        default_config().opacity.bits == 0x3f4c_cccd,
        default_config().default_timeout == 5000,
{
}

/// What a file says holds, and the defaults hold for what it leaves out. A width of 0 and an
/// opacity that is not between 0 and 1 are refused, the width first; nothing else is.
pub proof fn law_settings_hold(settings: Settings)
    ensures
        ({
            let loaded = Config::of_source(ConfigSource::Parsed(settings));
            let bits = if settings.opacity is Some {
                settings.opacity->0.bits
            } else {
                0x3f4c_cccdu32
            };
            if settings.width == Some(0u32) {
                loaded == Err::<Config, ConfigError>(ConfigError::ZeroWidth)
            } else if bits > 0x3f80_0000 && bits != 0x8000_0000 {
                loaded == Err::<Config, ConfigError>(
                    ConfigError::OpacityOutOfRange(Opacity { bits }),
                )
            } else {
                &&& loaded is Ok
                &&& loaded->Ok_0.output == settings.output
                &&& settings.corner matches Some(corner) ==> loaded->Ok_0.corner == corner
                &&& settings.corner is None ==> loaded->Ok_0.corner == Corner::TopRight
                &&& settings.width matches Some(width) ==> loaded->Ok_0.width == width
                &&& settings.width is None ==> loaded->Ok_0.width == 360
                &&& settings.margin matches Some(margin) ==> loaded->Ok_0.margin == margin
                &&& settings.margin is None ==> loaded->Ok_0.margin == 8
                &&& settings.gap matches Some(gap) ==> loaded->Ok_0.gap == gap
                &&& settings.gap is None ==> loaded->Ok_0.gap == 8
                &&& settings.max_visible matches Some(most) ==> loaded->Ok_0.max_visible == most
                &&& settings.max_visible is None ==> loaded->Ok_0.max_visible == 8
                &&& loaded->Ok_0.opacity.bits == bits
                &&& settings.default_timeout matches Some(ms) ==> loaded->Ok_0.default_timeout == ms
                &&& settings.default_timeout is None ==> loaded->Ok_0.default_timeout == 5000
            }
        }),
{
    settings.config().opacity.lemma_unit_range();
}

/// No file means the defaults; a file that cannot be read or parsed is an error that says why.
pub proof fn law_sources(text: String)
    ensures
        Config::of_source(ConfigSource::NoPath) == Ok::<Config, ConfigError>(default_config()),
        Config::of_source(ConfigSource::Missing) == Ok::<Config, ConfigError>(default_config()),
        Config::of_source(ConfigSource::Unreadable(text)) == Err::<Config, ConfigError>(
            ConfigError::Unreadable(text),
        ),
        Config::of_source(ConfigSource::Malformed(text)) == Err::<Config, ConfigError>(
            ConfigError::Malformed(text),
        ),
{
}

/// An output is the configured one exactly if it has the configured name.
pub proof fn law_configured_output(config: Config, name: Option<String>)
    ensures
        config.output is None ==> !config.wants_output(name),
        name is None ==> !config.wants_output(name),
        config.output is Some && name is Some ==> (config.wants_output(name) <==> config.output->0@
            == name->0@),
{
}

/// The bytes of the components of the path.
proof fn lemma_component_bytes()
    ensures
        "prism-notify".spec_bytes() == Seq::new(12, |i: int| "prism-notify"@[i] as u8),
        "config.kdl".spec_bytes() == Seq::new(10, |i: int| "config.kdl"@[i] as u8),
        ".config".spec_bytes() == Seq::new(7, |i: int| ".config"@[i] as u8),
        "/prism-notify/config.kdl".spec_bytes() == seq![0x2fu8] + "prism-notify".spec_bytes()
            + seq![0x2fu8] + "config.kdl".spec_bytes(),
        "prism-notify/config.kdl".spec_bytes() == "prism-notify".spec_bytes() + seq![0x2fu8]
            + "config.kdl".spec_bytes(),
        "prism-notify"@.len() == 12 && "prism-notify"@[11] == 'y',
        ".config"@.len() == 7 && ".config"@[6] == 'g',
{
    reveal_strlit("prism-notify");
    reveal_strlit("config.kdl");
    reveal_strlit(".config");
    reveal_strlit("/prism-notify/config.kdl");
    reveal_strlit("prism-notify/config.kdl");
    is_ascii_spec_bytes("prism-notify");
    is_ascii_spec_bytes("config.kdl");
    is_ascii_spec_bytes(".config");
    is_ascii_spec_bytes("/prism-notify/config.kdl");
    is_ascii_spec_bytes("prism-notify/config.kdl");
    assert("/prism-notify/config.kdl".spec_bytes() =~= seq![0x2fu8] + "prism-notify".spec_bytes()
        + seq![0x2fu8] + "config.kdl".spec_bytes());
    assert("prism-notify/config.kdl".spec_bytes() =~= "prism-notify".spec_bytes() + seq![0x2fu8]
        + "config.kdl".spec_bytes());
}

/// The path that is given outright wins; else the file is `prism-notify/config.kdl` below the
/// directory for configurations, else below `.config` in the home directory, with one slash where
/// the directory ends without one.
pub proof fn law_file_is_looked_for_in_order(
    own: Seq<u8>,
    base: Seq<u8>,
    xdg: Option<Seq<u8>>,
    home: Option<Seq<u8>>,
)
    ensures
        Config::path_of(Some(own), xdg, home) == Some(own),
        base.len() > 0 && base.last() != 0x2f ==> {
            &&& Config::path_of(None, Some(base), home) == Some(
                base + "/prism-notify/config.kdl".spec_bytes(),
            )
            &&& Config::path_of(None, None, Some(base)) == Some(
                base + seq![0x2fu8] + ".config".spec_bytes()
                    + "/prism-notify/config.kdl".spec_bytes(),
            )
        },
        base.len() == 0 || base.last() == 0x2f ==> {
            &&& Config::path_of(None, Some(base), home) == Some(
                base + "prism-notify/config.kdl".spec_bytes(),
            )
            &&& Config::path_of(None, None, Some(base)) == Some(
                base + ".config".spec_bytes() + "/prism-notify/config.kdl".spec_bytes(),
            )
        },
        Config::path_of(None, None, None) is None,
{
    lemma_component_bytes();
    let name = "prism-notify".spec_bytes();
    let file = "config.kdl".spec_bytes();
    let dot = ".config".spec_bytes();
    assert(name.len() == 12 && name[11] == 'y' as u8);
    assert(dot.len() == 7 && dot[6] == 'g' as u8);
    let below = joined(base, name);
    assert(below.last() == name[11]);
    let nested = joined(base, dot);
    assert(nested.last() == dot[6]);
    let deep = joined(nested, name);
    assert(deep.last() == name[11]);
    if base.len() > 0 && base.last() != 0x2f {
        assert(config_below(base) =~= base + "/prism-notify/config.kdl".spec_bytes());
        assert(config_below(nested) =~= base + seq![0x2fu8] + dot
            + "/prism-notify/config.kdl".spec_bytes());
    } else {
        assert(config_below(base) =~= base + "prism-notify/config.kdl".spec_bytes());
        assert(config_below(nested) =~= base + dot + "/prism-notify/config.kdl".spec_bytes());
    }
}

/// An optional path is there exactly if its bytes are, and they are its own.
pub proof fn law_optional_path(path: Option<Vec<u8>>)
    ensures
        opt_bytes(path) is Some <==> path is Some,
        path matches Some(own) ==> opt_bytes(path) == Some(own@),
{
}

/// Each setting that a file gives is taken as it is, and each that it leaves out has its default,
/// whatever the others are.
pub proof fn law_each_setting_alone(settings: Settings)
    ensures
        settings.config().output == settings.output,
        settings.config().corner == (if settings.corner is Some {
            settings.corner->0
        } else {
            Corner::TopRight
        }),
        settings.config().width == (if settings.width is Some {
            settings.width->0
        } else {
            360
        }),
        settings.config().margin == (if settings.margin is Some {
            settings.margin->0
        } else {
            8
        }),
        settings.config().gap == (if settings.gap is Some {
            settings.gap->0
        } else {
            8
        }),
        settings.config().max_visible == (if settings.max_visible is Some {
            settings.max_visible->0
        } else {
            8
        }),
        settings.config().opacity.bits == (if settings.opacity is Some {
            settings.opacity->0.bits
        } else {
            0x3f4c_cccd
        }),
        settings.config().default_timeout == (if settings.default_timeout is Some {
            settings.default_timeout->0
        } else {
            5000
        }),
{
}

} // verus!
