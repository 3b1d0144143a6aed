//! Geocoder providers, configuration files, environment overrides, the
//! precedence that combines them, and the locations of the application's files.
use vstd::prelude::*;

use crate::text::{
    ascii_lower, ascii_lower_char, chars_of, concat, is_ascii_text, is_blank, is_white_space,
    lowercase, owned, push_char, same_text, to_lowercase, trim, trim_end, trim_start, trim_text,
};

verus! {

/// Supported geocoder backends.
#[derive(Clone, Copy, PartialEq, Eq, Debug, Structural)]
pub enum GeocoderProvider {
    Nominatim,
    Locationiq,
    Mapbox,
    Opencage,
    Google,
}

/// The lower-case name under which a provider is shown.
pub open spec fn provider_name(p: GeocoderProvider) -> Seq<char> {
    match p {
        GeocoderProvider::Nominatim => "nominatim"@,
        GeocoderProvider::Locationiq => "locationiq"@,
        GeocoderProvider::Mapbox => "mapbox"@,
        GeocoderProvider::Opencage => "opencage"@,
        GeocoderProvider::Google => "google"@,
    }
}

/// The provider that a normalized (lower-case, trimmed) name or alias denotes.
pub open spec fn provider_from_name(n: Seq<char>) -> Option<GeocoderProvider> {
    if n == "nominatim"@ || n == "osm"@ {
        Some(GeocoderProvider::Nominatim)
    } else if n == "locationiq"@ || n == "iq"@ {
        Some(GeocoderProvider::Locationiq)
    } else if n == "mapbox"@ {
        Some(GeocoderProvider::Mapbox)
    } else if n == "opencage"@ || n == "cage"@ {
        Some(GeocoderProvider::Opencage)
    } else if n == "google"@ || n == "googlemaps"@ {
        Some(GeocoderProvider::Google)
    } else {
        None
    }
}

/// The provider that user text names: the text is lower-cased, then trimmed.
pub open spec fn parse_provider(s: Seq<char>) -> Option<GeocoderProvider> {
    provider_from_name(trim(lowercase(s)))
}

/// The provider that ASCII user text names: its ASCII letters lower-cased,
/// then trimmed.
pub open spec fn parse_ascii_provider(s: Seq<char>) -> Option<GeocoderProvider> {
    provider_from_name(trim(ascii_lower(s)))
}

impl GeocoderProvider {
    /// The provider's lower-case name.
    pub fn as_str(&self) -> (r: &'static str)
        ensures
            r@ == provider_name(*self),
    {
        match self {
            GeocoderProvider::Nominatim => "nominatim",
            GeocoderProvider::Locationiq => "locationiq",
            GeocoderProvider::Mapbox => "mapbox",
            GeocoderProvider::Opencage => "opencage",
            GeocoderProvider::Google => "google",
        }
    }

    /// The provider's lower-case name, as an owned string.
    pub fn to_string(&self) -> (r: String)
        ensures
            r@ == provider_name(*self),
    {
        owned(self.as_str())
    }

    /// The provider that a normalized name or alias denotes, if any.
    pub fn from_name(n: &str) -> (r: Option<GeocoderProvider>)
        ensures
            r == provider_from_name(n@),
    {
        if same_text(n, "nominatim") || same_text(n, "osm") {
            Some(GeocoderProvider::Nominatim)
        } else if same_text(n, "locationiq") || same_text(n, "iq") {
            Some(GeocoderProvider::Locationiq)
        } else if same_text(n, "mapbox") {
            Some(GeocoderProvider::Mapbox)
        } else if same_text(n, "opencage") || same_text(n, "cage") {
            Some(GeocoderProvider::Opencage)
        } else if same_text(n, "google") || same_text(n, "googlemaps") {
            Some(GeocoderProvider::Google)
        } else {
            None
        }
    }

    /// Parses a provider name, case-insensitively and ignoring surrounding
    /// white space; unknown names give an error message that quotes the text.
    pub fn parse_name(s: &str) -> (r: Result<GeocoderProvider, String>)
        ensures
            match parse_provider(s@) {
                Some(p) => r == Ok::<GeocoderProvider, String>(p),
                None => r is Err && r->Err_0@ == "Unknown geocoder provider: "@ + s@,
            },
            is_ascii_text(s@) ==> match parse_ascii_provider(s@) {
                Some(p) => r == Ok::<GeocoderProvider, String>(p),
                None => r is Err,
            },
    {
        let lower = to_lowercase(s);
        let normalized = trim_text(lower.as_str());
        match GeocoderProvider::from_name(normalized.as_str()) {
            Some(p) => Ok(p),
            None => Err(concat("Unknown geocoder provider: ", s)),
        }
    }
}

impl Default for GeocoderProvider {
    fn default() -> (r: Self)
        ensures
            r == GeocoderProvider::Nominatim,
    {
        GeocoderProvider::Nominatim
    }
}

impl std::str::FromStr for GeocoderProvider {
    type Err = String;

    fn from_str(s: &str) -> (r: Result<Self, Self::Err>)
        ensures
            match parse_provider(s@) {
                Some(p) => r == Ok::<GeocoderProvider, String>(p),
                None => r is Err && r->Err_0@ == "Unknown geocoder provider: "@ + s@,
            },
            is_ascii_text(s@) ==> match parse_ascii_provider(s@) {
                Some(p) => r == Ok::<GeocoderProvider, String>(p),
                None => r is Err,
            },
    {
        GeocoderProvider::parse_name(s)
    }
}

/// The view of an optional string.
pub open spec fn opt_text(o: Option<String>) -> Option<Seq<char>> {
    match o {
        Some(s) => Some(s@),
        None => None,
    }
}

/// Optional file-based configuration (the TOML layout), every field optional.
#[derive(Clone, Debug)]
pub struct ConfigFile {
    pub provider: Option<String>,
    pub api_key: Option<String>,
    pub cache_enabled: Option<bool>,
    pub timeout_seconds: Option<u64>,
    pub user_agent: Option<String>,
    pub geocoder_url: Option<String>,
    pub reverse_geocoder_url: Option<String>,
}

/// The mathematical content of a [`ConfigFile`].
pub struct ConfigFileView {
    pub provider: Option<Seq<char>>,
    pub api_key: Option<Seq<char>>,
    pub cache_enabled: Option<bool>,
    pub timeout_seconds: Option<u64>,
    pub user_agent: Option<Seq<char>>,
    pub geocoder_url: Option<Seq<char>>,
    pub reverse_geocoder_url: Option<Seq<char>>,
}

impl View for ConfigFile {
    type V = ConfigFileView;

    open spec fn view(&self) -> ConfigFileView {
        ConfigFileView {
            provider: opt_text(self.provider),
            api_key: opt_text(self.api_key),
            cache_enabled: self.cache_enabled,
            timeout_seconds: self.timeout_seconds,
            user_agent: opt_text(self.user_agent),
            geocoder_url: opt_text(self.geocoder_url),
            reverse_geocoder_url: opt_text(self.reverse_geocoder_url),
        }
    }
}

/// A file that sets nothing.
pub open spec fn empty_file() -> ConfigFileView {
    ConfigFileView {
        provider: None,
        api_key: None,
        cache_enabled: None,
        timeout_seconds: None,
        user_agent: None,
        geocoder_url: None,
        reverse_geocoder_url: None,
    }
}

impl Default for ConfigFile {
    fn default() -> (r: Self)
        ensures
            r@ == empty_file(),
    {
        ConfigFile {
            provider: None,
            api_key: None,
            cache_enabled: None,
            timeout_seconds: None,
            user_agent: None,
            geocoder_url: None,
            reverse_geocoder_url: None,
        }
    }
}

/// Application configuration settings.
#[derive(Clone, Debug)]
pub struct Config {
    pub provider: GeocoderProvider,
    pub api_key: Option<String>,
    pub geocoder_url: String,
    pub reverse_geocoder_url: String,
    pub user_agent: String,
    pub cache_enabled: bool,
    pub timeout_seconds: u64,
}

/// The mathematical content of a [`Config`].
pub struct ConfigView {
    pub provider: GeocoderProvider,
    pub api_key: Option<Seq<char>>,
    pub geocoder_url: Seq<char>,
    pub reverse_geocoder_url: Seq<char>,
    pub user_agent: Seq<char>,
    pub cache_enabled: bool,
    pub timeout_seconds: u64,
}

impl View for Config {
    type V = ConfigView;

    open spec fn view(&self) -> ConfigView {
        ConfigView {
            provider: self.provider,
            api_key: opt_text(self.api_key),
            geocoder_url: self.geocoder_url@,
            reverse_geocoder_url: self.reverse_geocoder_url@,
            user_agent: self.user_agent@,
            cache_enabled: self.cache_enabled,
            timeout_seconds: self.timeout_seconds,
        }
    }
}

/// The built-in defaults.
pub open spec fn default_config() -> ConfigView {
    ConfigView {
        provider: GeocoderProvider::Nominatim,
        api_key: None,
        geocoder_url: "https://nominatim.openstreetmap.org/search"@,
        reverse_geocoder_url: "https://nominatim.openstreetmap.org/reverse"@,
        user_agent: "locsim/0.1.0 (https://github.com/locsim/locsim; universal-location-simulator)"@,
        cache_enabled: true,
        timeout_seconds: 10,
    }
}

/// `c` with every setting that the file gives replaced; a provider name that
/// does not parse leaves the provider as it was.
pub open spec fn with_file(c: ConfigView, f: ConfigFileView) -> ConfigView {
    ConfigView {
        provider: match f.provider {
            Some(p) => match parse_provider(p) {
                Some(q) => q,
                None => c.provider,
            },
            None => c.provider,
        },
        api_key: match f.api_key {
            Some(k) => Some(k),
            None => c.api_key,
        },
        geocoder_url: match f.geocoder_url {
            Some(u) => u,
            None => c.geocoder_url,
        },
        reverse_geocoder_url: match f.reverse_geocoder_url {
            Some(u) => u,
            None => c.reverse_geocoder_url,
        },
        user_agent: match f.user_agent {
            Some(u) => u,
            None => c.user_agent,
        },
        cache_enabled: match f.cache_enabled {
            Some(b) => b,
            None => c.cache_enabled,
        },
        timeout_seconds: match f.timeout_seconds {
            Some(t) => t,
            None => c.timeout_seconds,
        },
    }
}

/// `c` with a file applied when there is one.
pub open spec fn with_opt_file(c: ConfigView, f: Option<ConfigFileView>) -> ConfigView {
    match f {
        Some(f) => with_file(c, f),
        None => c,
    }
}

/// The values of the environment variables that configuration reads; `None`
/// stands for a variable that is not set (or not valid Unicode).
pub struct EnvVars {
    /// `LOCSIM_PROVIDER`
    pub provider: Option<String>,
    /// `LOCSIM_API_KEY`
    pub locsim_api_key: Option<String>,
    /// `LOCATIONIQ_API_KEY`
    pub locationiq_api_key: Option<String>,
    /// `MAPBOX_ACCESS_TOKEN`
    pub mapbox_access_token: Option<String>,
    /// `OPENCAGE_API_KEY`
    pub opencage_api_key: Option<String>,
    /// `GOOGLE_MAPS_API_KEY`
    pub google_maps_api_key: Option<String>,
    /// `LOCSIM_GEOCODER_URL`
    pub geocoder_url: Option<String>,
    /// `LOCSIM_REVERSE_GEOCODER_URL`
    pub reverse_geocoder_url: Option<String>,
    /// `LOCSIM_USER_AGENT`
    pub user_agent: Option<String>,
    /// `LOCSIM_CACHE_ENABLED`
    pub cache_enabled: Option<String>,
    /// `LOCSIM_TIMEOUT`
    pub timeout: Option<String>,
}

/// The mathematical content of [`EnvVars`].
pub struct EnvView {
    pub provider: Option<Seq<char>>,
    pub locsim_api_key: Option<Seq<char>>,
    pub locationiq_api_key: Option<Seq<char>>,
    pub mapbox_access_token: Option<Seq<char>>,
    pub opencage_api_key: Option<Seq<char>>,
    pub google_maps_api_key: Option<Seq<char>>,
    pub geocoder_url: Option<Seq<char>>,
    pub reverse_geocoder_url: Option<Seq<char>>,
    pub user_agent: Option<Seq<char>>,
    pub cache_enabled: Option<Seq<char>>,
    pub timeout: Option<Seq<char>>,
}

impl View for EnvVars {
    type V = EnvView;

    open spec fn view(&self) -> EnvView {
        EnvView {
            provider: opt_text(self.provider),
            locsim_api_key: opt_text(self.locsim_api_key),
            locationiq_api_key: opt_text(self.locationiq_api_key),
            mapbox_access_token: opt_text(self.mapbox_access_token),
            opencage_api_key: opt_text(self.opencage_api_key),
            google_maps_api_key: opt_text(self.google_maps_api_key),
            geocoder_url: opt_text(self.geocoder_url),
            reverse_geocoder_url: opt_text(self.reverse_geocoder_url),
            user_agent: opt_text(self.user_agent),
            cache_enabled: opt_text(self.cache_enabled),
            timeout: opt_text(self.timeout),
        }
    }
}

/// An environment in which none of the variables is set.
pub open spec fn empty_env() -> EnvView {
    EnvView {
        provider: None,
        locsim_api_key: None,
        locationiq_api_key: None,
        mapbox_access_token: None,
        opencage_api_key: None,
        google_maps_api_key: None,
        geocoder_url: None,
        reverse_geocoder_url: None,
        user_agent: None,
        cache_enabled: None,
        timeout: None,
    }
}

impl EnvVars {
    /// An environment in which none of the variables is set.
    pub fn none() -> (r: EnvVars)
        ensures
            r@ == empty_env(),
    {
        EnvVars {
            provider: None,
            locsim_api_key: None,
            locationiq_api_key: None,
            mapbox_access_token: None,
            opencage_api_key: None,
            google_maps_api_key: None,
            geocoder_url: None,
            reverse_geocoder_url: None,
            user_agent: None,
            cache_enabled: None,
            timeout: None,
        }
    }
}

/// The variable that holds the key specifically for a provider: none for
/// Nominatim, which needs no key.
pub open spec fn provider_key_var(e: EnvView, p: GeocoderProvider) -> Option<Seq<char>> {
    match p {
        GeocoderProvider::Nominatim => None,
        GeocoderProvider::Locationiq => e.locationiq_api_key,
        GeocoderProvider::Mapbox => e.mapbox_access_token,
        GeocoderProvider::Opencage => e.opencage_api_key,
        GeocoderProvider::Google => e.google_maps_api_key,
    }
}

/// The API key that the environment gives for the active provider `p`:
/// `LOCSIM_API_KEY` when it is set, else the variable specific to `p`
/// (`LOCATIONIQ_API_KEY`, `MAPBOX_ACCESS_TOKEN`, `OPENCAGE_API_KEY` or
/// `GOOGLE_MAPS_API_KEY`).
pub open spec fn env_api_key(e: EnvView, p: GeocoderProvider) -> Option<Seq<char>> {
    if e.locsim_api_key is Some {
        e.locsim_api_key
    } else {
        provider_key_var(e, p)
    }
}

/// Whether a digit character.
pub open spec fn is_digit(c: char) -> bool {
    '0' <= c && c <= '9'
}

/// The decimal value of a string of digits.
pub open spec fn digits_value(s: Seq<char>) -> int
    decreases s.len(),
{
    if s.len() == 0 {
        0
    } else {
        digits_value(s.drop_last()) * 10 + (s.last() as int - '0' as int)
    }
}

/// Whether `s` is non-empty and made of digits only.
pub open spec fn all_digits(s: Seq<char>) -> bool {
    s.len() > 0 && forall|i: int| 0 <= i < s.len() ==> is_digit(#[trigger] s[i])
}

/// The digits that follow an optional leading `+`.
pub open spec fn unsigned_digits(s: Seq<char>) -> Seq<char> {
    if s.len() > 0 && s[0] == '+' {
        s.drop_first()
    } else {
        s
    }
}

/// What `str::parse::<u64>` gives: an optional `+` followed by at least one
/// decimal digit and nothing else, whose value fits in 64 bits.
pub open spec fn u64_text(s: Seq<char>) -> Option<u64> {
    let d = unsigned_digits(s);
    if all_digits(d) && digits_value(d) <= u64::MAX {
        Some(digits_value(d) as u64)
    } else {
        None
    }
}

/// The value of a run of digits is not negative.
proof fn lemma_digits_value_nonneg(s: Seq<char>)
    requires
        forall|i: int| 0 <= i < s.len() ==> is_digit(#[trigger] s[i]),
    ensures
        digits_value(s) >= 0,
    decreases s.len(),
{
    if s.len() > 0 {
        lemma_digits_value_nonneg(s.drop_last());
        assert(is_digit(s[s.len() - 1]));
    }
}

/// A prefix of a run of digits has no greater value than the whole.
proof fn lemma_digits_value_monotone(s: Seq<char>, k: int)
    requires
        0 <= k <= s.len(),
        forall|i: int| 0 <= i < s.len() ==> is_digit(#[trigger] s[i]),
    ensures
        digits_value(s.take(k)) <= digits_value(s),
    decreases s.len() - k,
{
    if k < s.len() {
        lemma_digits_value_monotone(s.drop_last(), k);
        assert(s.drop_last().take(k) =~= s.take(k));
        lemma_digits_value_nonneg(s.drop_last());
        assert(is_digit(s[s.len() - 1]));
    } else {
        assert(s.take(k) =~= s);
    }
}

/// Parses a decimal `u64` the way `str::parse::<u64>` does.
pub fn parse_u64(s: &str) -> (r: Option<u64>)
    ensures
        r == u64_text(s@),
{
    let v = chars_of(s);
    let mut i: usize = 0;
    if v.len() > 0 && v[0] == '+' {
        i = 1;
    }
    let ghost d = unsigned_digits(v@);
    assert(d =~= v@.skip(i as int));
    if i >= v.len() {
        return None;
    }
    let mut value: u64 = 0;
    while i < v.len()
        invariant
            v@ == s@,
            d == unsigned_digits(v@),
            d == v@.skip(v@.len() - d.len()),
            v@.len() - d.len() <= i <= v@.len(),
            forall|k: int| 0 <= k < i - (v@.len() - d.len()) ==> is_digit(#[trigger] d[k]),
            value == digits_value(d.take(i - (v@.len() - d.len()))),
        decreases v.len() - i,
    {
        let c = v[i];
        let ghost j = i - (v@.len() - d.len());
        assert(d[j] == c);
        if !('0' <= c && c <= '9') {
            assert(!all_digits(d));
            return None;
        }
        let digit = (c as u32 - '0' as u32) as u64;
        assert(d.take(j + 1).drop_last() =~= d.take(j));
        match value.checked_mul(10) {
            Some(m) => match m.checked_add(digit) {
                Some(n) => {
                    value = n;
                },
                None => {
                    proof {
                        if all_digits(d) {
                            lemma_digits_value_monotone(d, j + 1);
                        }
                    }
                    return None;
                },
            },
            None => {
                proof {
                    if all_digits(d) {
                        lemma_digits_value_monotone(d, j + 1);
                    }
                }
                return None;
            },
        }
        i = i + 1;
    }
    proof {
        assert(d.take(d.len() as int) =~= d);
    }
    Some(value)
}

/// The provider after the environment is applied to `c`: the one that
/// `LOCSIM_PROVIDER` names when it parses, else `c`'s.
pub open spec fn env_provider(c: ConfigView, e: EnvView) -> GeocoderProvider {
    match e.provider {
        Some(p) => match parse_provider(p) {
            Some(q) => q,
            None => c.provider,
        },
        None => c.provider,
    }
}

/// `c` with the environment's overrides applied, the API key variables being
/// read for `key_provider`: the provider that `LOCSIM_PROVIDER` names when it
/// parses, the API key that the environment gives for `key_provider` unless
/// it is blank, the URLs and user agent as given, caching off exactly when the
/// variable is `0` or `false` in any case, and a timeout that parses as a `u64`.
pub open spec fn with_env_for(c: ConfigView, e: EnvView, key_provider: GeocoderProvider) -> ConfigView {
    ConfigView {
        provider: env_provider(c, e),
        api_key: match env_api_key(e, key_provider) {
            Some(k) => if is_blank(k) {
                c.api_key
            } else {
                Some(k)
            },
            None => c.api_key,
        },
        geocoder_url: match e.geocoder_url {
            Some(u) => u,
            None => c.geocoder_url,
        },
        reverse_geocoder_url: match e.reverse_geocoder_url {
            Some(u) => u,
            None => c.reverse_geocoder_url,
        },
        user_agent: match e.user_agent {
            Some(u) => u,
            None => c.user_agent,
        },
        cache_enabled: match e.cache_enabled {
            Some(v) => v != "0"@ && lowercase(v) != "false"@,
            None => c.cache_enabled,
        },
        timeout_seconds: match e.timeout {
            Some(t) => match u64_text(t) {
                Some(n) => n,
                None => c.timeout_seconds,
            },
            None => c.timeout_seconds,
        },
    }
}

/// `c` with the environment's overrides applied, the API key variables being
/// read for the provider that the environment leaves.
pub open spec fn with_env(c: ConfigView, e: EnvView) -> ConfigView {
    with_env_for(c, e, env_provider(c, e))
}

/// The configuration that the defaults and the files give.
pub open spec fn files_config(global: Option<ConfigFileView>, local: Option<ConfigFileView>) -> ConfigView {
    with_opt_file(with_opt_file(default_config(), global), local)
}

/// The configuration that results from the defaults, then the global file,
/// then the project-local file, then the environment.
pub open spec fn loaded_config(
    global: Option<ConfigFileView>,
    local: Option<ConfigFileView>,
    env: EnvView,
) -> ConfigView {
    with_env(with_opt_file(with_opt_file(default_config(), global), local), env)
}

/// `c` with the command line's options applied: each option that is given
/// replaces its setting.
pub open spec fn with_cli(
    c: ConfigView,
    geocoder_url: Option<Seq<char>>,
    provider: Option<GeocoderProvider>,
    api_key: Option<Seq<char>>,
) -> ConfigView {
    ConfigView {
        provider: match provider {
            Some(p) => p,
            None => c.provider,
        },
        api_key: match api_key {
            Some(k) => Some(k),
            None => c.api_key,
        },
        geocoder_url: match geocoder_url {
            Some(u) => u,
            None => c.geocoder_url,
        },
        ..c
    }
}

/// The settings that command-line options give; `None` where an option is
/// not given.
pub struct CliOverrides {
    /// `--geocoder-url`
    pub geocoder_url: Option<String>,
    /// `--provider`
    pub provider: Option<GeocoderProvider>,
    /// `--api-key`
    pub api_key: Option<String>,
}

/// The mathematical content of [`CliOverrides`].
pub struct CliView {
    pub geocoder_url: Option<Seq<char>>,
    pub provider: Option<GeocoderProvider>,
    pub api_key: Option<Seq<char>>,
}

impl View for CliOverrides {
    type V = CliView;

    open spec fn view(&self) -> CliView {
        CliView {
            geocoder_url: opt_text(self.geocoder_url),
            provider: self.provider,
            api_key: opt_text(self.api_key),
        }
    }
}

/// A command line that gives none of the options.
pub open spec fn no_cli() -> CliView {
    CliView { geocoder_url: None, provider: None, api_key: None }
}

/// The provider that is finally used: the command line's, else the one that
/// the environment leaves after the files.
pub open spec fn final_provider(
    global: Option<ConfigFileView>,
    local: Option<ConfigFileView>,
    env: EnvView,
    cli: CliView,
) -> GeocoderProvider {
    match cli.provider {
        Some(p) => p,
        None => env_provider(files_config(global, local), env),
    }
}

/// The configuration that results from the defaults, then the global file,
/// then the project-local file, then the environment, then the command line;
/// the provider-specific API key variable is read for the provider that is
/// finally used.
pub open spec fn resolved_config(
    global: Option<ConfigFileView>,
    local: Option<ConfigFileView>,
    env: EnvView,
    cli: CliView,
) -> ConfigView {
    with_cli(
        with_env_for(files_config(global, local), env, final_provider(global, local, env, cli)),
        cli.geocoder_url,
        cli.provider,
        cli.api_key,
    )
}

/// The view of an optional file.
pub open spec fn opt_file(f: Option<ConfigFile>) -> Option<ConfigFileView> {
    match f {
        Some(f) => Some(f@),
        None => None,
    }
}

impl Config {
    /// Combines the configuration sources with precedence
    /// defaults < global file < local file < environment variables.
    /// A file that is missing or does not parse is passed as `None`.
    pub fn load(global: Option<ConfigFile>, local: Option<ConfigFile>, env: &EnvVars) -> (r: Config)
        ensures
            r@ == loaded_config(opt_file(global), opt_file(local), env@),
    {
        let mut config = Config::default_values();
        if let Some(f) = &global {
            config.apply_file(f);
        }
        if let Some(f) = &local {
            config.apply_file(f);
        }
        config.apply_env_vars(env);
        config
    }

    /// Combines the configuration sources with precedence defaults < global
    /// file < local file < environment variables < command-line options; the
    /// provider-specific API key variable is read for the provider that is
    /// finally used.
    pub fn resolve(
        global: Option<ConfigFile>,
        local: Option<ConfigFile>,
        env: &EnvVars,
        cli: CliOverrides,
    ) -> (r: Config)
        ensures
            r@ == resolved_config(opt_file(global), opt_file(local), env@, cli@),
    {
        let mut config = Config::default_values();
        if let Some(f) = &global {
            config.apply_file(f);
        }
        if let Some(f) = &local {
            config.apply_file(f);
        }
        config.apply_env_for(env, cli.provider);
        config.apply_cli(cli.geocoder_url, cli.provider, cli.api_key);
        config
    }

    /// The built-in defaults.
    pub fn default_values() -> (r: Config)
        ensures
            r@ == default_config(),
    {
        Config {
            provider: GeocoderProvider::Nominatim,
            api_key: None,
            geocoder_url: owned("https://nominatim.openstreetmap.org/search"),
            reverse_geocoder_url: owned("https://nominatim.openstreetmap.org/reverse"),
            user_agent: owned(
                "locsim/0.1.0 (https://github.com/locsim/locsim; universal-location-simulator)",
            ),
            cache_enabled: true,
            timeout_seconds: 10,
        }
    }

    /// Applies every setting that a configuration file gives.
    pub fn apply_file(&mut self, file: &ConfigFile)
        ensures
            final(self)@ == with_file(old(self)@, file@),
    {
        if let Some(p) = &file.provider {
            if let Ok(provider) = GeocoderProvider::parse_name(p.as_str()) {
                self.provider = provider;
            }
        }
        if let Some(key) = &file.api_key {
            self.api_key = Some(key.clone());
        }
        if let Some(url) = &file.geocoder_url {
            self.geocoder_url = url.clone();
        }
        if let Some(r_url) = &file.reverse_geocoder_url {
            self.reverse_geocoder_url = r_url.clone();
        }
        if let Some(ua) = &file.user_agent {
            self.user_agent = ua.clone();
        }
        if let Some(cache) = file.cache_enabled {
            self.cache_enabled = cache;
        }
        if let Some(timeout) = file.timeout_seconds {
            self.timeout_seconds = timeout;
        }
    }

    /// Applies the environment's overrides.
    pub fn apply_env_vars(&mut self, env: &EnvVars)
        ensures
            final(self)@ == with_env(old(self)@, env@),
    {
        self.apply_env_for(env, None);
    }

    /// Applies the environment's overrides, reading the provider-specific API
    /// key variable for `key_provider`, or, without one, for the provider that
    /// the environment leaves.
    fn apply_env_for(&mut self, env: &EnvVars, key_provider: Option<GeocoderProvider>)
        ensures
            final(self)@ == with_env_for(
                old(self)@,
                env@,
                match key_provider {
                    Some(p) => p,
                    None => env_provider(old(self)@, env@),
                },
            ),
    {
        if let Some(val) = &env.provider {
            if let Ok(provider) = GeocoderProvider::parse_name(val.as_str()) {
                self.provider = provider;
            }
        }
        let for_provider = match key_provider {
            Some(p) => p,
            None => self.provider,
        };
        let key = if env.locsim_api_key.is_some() {
            &env.locsim_api_key
        } else {
            match for_provider {
                GeocoderProvider::Nominatim => &None,
                GeocoderProvider::Locationiq => &env.locationiq_api_key,
                GeocoderProvider::Mapbox => &env.mapbox_access_token,
                GeocoderProvider::Opencage => &env.opencage_api_key,
                GeocoderProvider::Google => &env.google_maps_api_key,
            }
        };
        if let Some(k) = key {
            let t = trim_text(k.as_str());
            if !t.as_str().is_empty() {
                self.api_key = Some(k.clone());
            }
        }
        if let Some(url) = &env.geocoder_url {
            self.geocoder_url = url.clone();
        }
        if let Some(url) = &env.reverse_geocoder_url {
            self.reverse_geocoder_url = url.clone();
        }
        if let Some(ua) = &env.user_agent {
            self.user_agent = ua.clone();
        }
        if let Some(v) = &env.cache_enabled {
            let lower = to_lowercase(v.as_str());
            self.cache_enabled = !same_text(v.as_str(), "0") && !same_text(lower.as_str(), "false");
        }
        if let Some(t) = &env.timeout {
            if let Some(parsed) = parse_u64(t.as_str()) {
                self.timeout_seconds = parsed;
            }
        }
    }

    /// Applies the command line's options: the geocoder URL, the provider and
    /// the API key, each where it is given.
    pub fn apply_cli(
        &mut self,
        geocoder_url: Option<String>,
        provider: Option<GeocoderProvider>,
        api_key: Option<String>,
    )
        ensures
            final(self)@ == with_cli(old(self)@, opt_text(geocoder_url), provider, opt_text(api_key)),
    {
        if let Some(url) = geocoder_url {
            self.geocoder_url = url;
        }
        if let Some(p) = provider {
            self.provider = p;
        }
        if let Some(key) = api_key {
            self.api_key = Some(key);
        }
    }
}

/// A path made of a directory and a file name within it, with `/` between
/// them unless the directory is empty or already ends with `/`.
pub open spec fn join_path(dir: Seq<char>, name: Seq<char>) -> Seq<char> {
    if dir.len() == 0 || dir.last() == '/' {
        dir + name
    } else {
        dir + seq!['/'] + name
    }
}

/// Joins a file name onto a directory.
pub fn join(dir: &str, name: &str) -> (r: String)
    ensures
        r@ == join_path(dir@, name@),
{
    let v = chars_of(dir);
    let mut r = owned(dir);
    if v.len() > 0 && v[v.len() - 1] != '/' {
        push_char(&mut r, '/');
    }
    r.append(name);
    r
}

/// The project-local configuration files, in the order in which they are tried.
pub open spec fn local_config_names() -> Seq<Seq<char>> {
    seq![".locsim.toml"@, ".locsimrc"@, "locsim.toml"@]
}

/// The first of the first `n` local configuration names (at most all of them)
/// whose flag in `present` is set.
pub open spec fn first_present(present: Seq<bool>, n: int) -> Option<Seq<char>>
    decreases n,
{
    if n <= 0 {
        None
    } else {
        match first_present(present, n - 1) {
            Some(p) => Some(p),
            None => if n - 1 < present.len() && n - 1 < 3 && present[n - 1] {
                Some(local_config_names()[n - 1])
            } else {
                None
            },
        }
    }
}

/// Once a candidate is found, looking at more candidates finds the same one.
proof fn lemma_first_present_stays(present: Seq<bool>, n: int, m: int)
    requires
        n <= m,
        first_present(present, n) is Some,
    ensures
        first_present(present, m) == first_present(present, n),
    decreases m - n,
{
    if n < m {
        lemma_first_present_stays(present, n, m - 1);
    }
}

/// Helpers that locate configuration, state and export files.
pub struct AppPaths;

impl AppPaths {
    /// The global configuration file in the data directory.
    pub fn global_config_file(config_dir: &str) -> (r: String)
        ensures
            r@ == join_path(config_dir@, "config.toml"@),
    {
        join(config_dir, "config.toml")
    }

    /// The project-local configuration file names, in the order tried.
    pub fn local_config_candidates() -> (r: Vec<String>)
        ensures
            crate::text::views(r@) == local_config_names(),
    {
        let mut r: Vec<String> = Vec::new();
        r.push(owned(".locsim.toml"));
        r.push(owned(".locsimrc"));
        r.push(owned("locsim.toml"));
        assert(crate::text::views(r@) =~= local_config_names());
        r
    }

    /// The first project-local configuration file that is present, where
    /// `present[i]` tells whether the `i`-th candidate is an existing file.
    pub fn local_config_file(present: &Vec<bool>) -> (r: Option<String>)
        ensures
            opt_text(r) == first_present(present@, 3),
    {
        let names = AppPaths::local_config_candidates();
        assert(names@.len() == crate::text::views(names@).len());
        let mut i: usize = 0;
        while i < 3
            invariant
                i <= 3,
                names@.len() == 3,
                crate::text::views(names@) == local_config_names(),
                first_present(present@, i as int) is None,
            decreases 3 - i,
        {
            if i < present.len() && present[i] {
                let found = names[i].clone();
                assert(crate::text::views(names@)[i as int] == names@[i as int]@);
                proof {
                    lemma_first_present_stays(present@, i + 1, 3);
                }
                return Some(found);
            }
            i = i + 1;
        }
        None
    }

    /// The file that holds the current simulated location.
    pub fn current_location_file(config_dir: &str) -> (r: String)
        ensures
            r@ == join_path(config_dir@, "current_location.json"@),
    {
        join(config_dir, "current_location.json")
    }

    /// The geocoding cache file.
    pub fn cache_file(config_dir: &str) -> (r: String)
        ensures
            r@ == join_path(config_dir@, "geocode_cache.json"@),
    {
        join(config_dir, "geocode_cache.json")
    }

    /// The GPX waypoint file for simulators and IDEs.
    pub fn gpx_file(config_dir: &str) -> (r: String)
        ensures
            r@ == join_path(config_dir@, "simulated_location.gpx"@),
    {
        join(config_dir, "simulated_location.gpx")
    }

    /// The Chrome DevTools Protocol geolocation override file.
    pub fn cdp_file(config_dir: &str) -> (r: String)
        ensures
            r@ == join_path(config_dir@, "cdp_geolocation.json"@),
    {
        join(config_dir, "cdp_geolocation.json")
    }

    /// The bookmarks file.
    pub fn bookmarks_file(config_dir: &str) -> (r: String)
        ensures
            r@ == join_path(config_dir@, "bookmarks.json"@),
    {
        join(config_dir, "bookmarks.json")
    }

    /// The environment script: PowerShell on Windows, a shell script elsewhere.
    pub fn env_script_file(config_dir: &str, windows: bool) -> (r: String)
        ensures
            r@ == join_path(config_dir@, if windows { "locsim_env.ps1"@ } else { "locsim_env.sh"@ }),
    {
        if windows {
            join(config_dir, "locsim_env.ps1")
        } else {
            join(config_dir, "locsim_env.sh")
        }
    }
}

/// With no configuration file and no environment variable set, the loaded
/// configuration is the built-in defaults.
pub proof fn law_no_sources_gives_defaults()
    ensures
        loaded_config(None, None, empty_env()) == default_config(),
{
}

/// A configuration file that sets nothing leaves the configuration unchanged.
pub proof fn law_empty_file_changes_nothing(c: ConfigView)
    ensures
        with_file(c, empty_file()) == c,
{
}

/// Applying the same configuration file twice has the effect of applying it once.
pub proof fn law_file_is_idempotent(c: ConfigView, f: ConfigFileView)
    ensures
        with_file(with_file(c, f), f) == with_file(c, f),
{
}

/// The project-local file takes precedence over the global file: every setting
/// that the local file gives (a provider only when its name parses) is the
/// setting after both are applied, whatever the global file says.
pub proof fn law_local_file_wins(c: ConfigView, global: ConfigFileView, local: ConfigFileView)
    ensures
        ({
            let r = with_file(with_file(c, global), local);
            &&& local.provider matches Some(p) ==> (parse_provider(p) is Some ==> r.provider
                == parse_provider(p)->Some_0)
            &&& local.api_key is Some ==> r.api_key == local.api_key
            &&& local.geocoder_url matches Some(u) ==> r.geocoder_url == u
            &&& local.reverse_geocoder_url matches Some(u) ==> r.reverse_geocoder_url == u
            &&& local.user_agent matches Some(u) ==> r.user_agent == u
            &&& local.cache_enabled matches Some(b) ==> r.cache_enabled == b
            &&& local.timeout_seconds matches Some(t) ==> r.timeout_seconds == t
        }),
{
}

/// Environment variables take precedence over both configuration files: every
/// setting that the environment gives validly is the loaded setting, whatever
/// the files say.
pub proof fn law_environment_wins(
    global: Option<ConfigFileView>,
    local: Option<ConfigFileView>,
    e: EnvView,
)
    ensures
        ({
            let r = loaded_config(global, local, e);
            &&& e.provider matches Some(p) ==> (parse_provider(p) is Some ==> r.provider
                == parse_provider(p)->Some_0)
            &&& env_api_key(e, r.provider) matches Some(k) ==> (!is_blank(k) ==> r.api_key == Some(k))
            &&& e.geocoder_url matches Some(u) ==> r.geocoder_url == u
            &&& e.reverse_geocoder_url matches Some(u) ==> r.reverse_geocoder_url == u
            &&& e.user_agent matches Some(u) ==> r.user_agent == u
            &&& e.cache_enabled matches Some(v) ==> r.cache_enabled == (v != "0"@ && lowercase(v)
                != "false"@)
            &&& e.timeout matches Some(t) ==> (u64_text(t) is Some ==> r.timeout_seconds
                == u64_text(t)->Some_0)
        }),
{
}

/// A provider-specific key variable is the key of its own provider only:
/// without `LOCSIM_API_KEY`, and without the variable of the provider that is
/// active once the environment is applied, the environment leaves the API key
/// as it was, whatever other key variables are set.
pub proof fn law_key_variables_are_provider_specific(c: ConfigView, e: EnvView)
    requires
        e.locsim_api_key is None,
        provider_key_var(e, with_env(c, e).provider) is None,
    ensures
        with_env(c, e).api_key == c.api_key,
{
}

/// A setting that neither the environment nor the local file gives validly
/// comes from the global file when that file gives it.
pub proof fn law_global_file_used_when_not_overridden(
    global: ConfigFileView,
    local: Option<ConfigFileView>,
    e: EnvView,
)
    ensures
        ({
            let r = loaded_config(Some(global), local, e);
            let l = match local {
                Some(f) => f,
                None => empty_file(),
            };
            &&& global.provider matches Some(p) ==> (parse_provider(p) is Some && (
            l.provider matches Some(q) ==> parse_provider(q) is None) && (
            e.provider matches Some(q) ==> parse_provider(q) is None) ==> r.provider
                == parse_provider(p)->Some_0)
            &&& global.api_key is Some ==> (l.api_key is None && (env_api_key(e, r.provider) matches Some(k)
                ==> is_blank(k)) ==> r.api_key == global.api_key)
            &&& global.geocoder_url matches Some(u) ==> (l.geocoder_url is None
                && e.geocoder_url is None ==> r.geocoder_url == u)
            &&& global.reverse_geocoder_url matches Some(u) ==> (l.reverse_geocoder_url is None
                && e.reverse_geocoder_url is None ==> r.reverse_geocoder_url == u)
            &&& global.user_agent matches Some(u) ==> (l.user_agent is None && e.user_agent is None
                ==> r.user_agent == u)
            &&& global.cache_enabled matches Some(b) ==> (l.cache_enabled is None
                && e.cache_enabled is None ==> r.cache_enabled == b)
            &&& global.timeout_seconds matches Some(t) ==> (l.timeout_seconds is None && (
            e.timeout matches Some(v) ==> u64_text(v) is None) ==> r.timeout_seconds == t)
        }),
{
}

/// Command-line options take precedence over every other source: each option
/// that is given is the resulting setting, whatever the files and the
/// environment say.
pub proof fn law_command_line_wins(
    global: Option<ConfigFileView>,
    local: Option<ConfigFileView>,
    e: EnvView,
    cli: CliView,
)
    ensures
        ({
            let r = resolved_config(global, local, e, cli);
            &&& cli.geocoder_url matches Some(u) ==> r.geocoder_url == u
            &&& cli.provider matches Some(p) ==> r.provider == p
            &&& cli.api_key is Some ==> r.api_key == cli.api_key
        }),
{
}

/// Without command-line options, the configuration is the one that the
/// defaults, the files and the environment give.
pub proof fn law_no_options_gives_loaded_config(
    global: Option<ConfigFileView>,
    local: Option<ConfigFileView>,
    e: EnvView,
)
    ensures
        resolved_config(global, local, e, no_cli()) == loaded_config(global, local, e),
{
}

/// The API key is the `--api-key` option, else a `LOCSIM_API_KEY` that is
/// set, else the key variable of the provider that is finally used (the
/// `--provider` option, else the environment's, else the files'); a key
/// variable that is blank leaves the key that the files give.
pub proof fn law_api_key_precedence(
    global: Option<ConfigFileView>,
    local: Option<ConfigFileView>,
    e: EnvView,
    cli: CliView,
)
    ensures
        ({
            let r = resolved_config(global, local, e, cli);
            r.api_key == match cli.api_key {
                Some(k) => Some(k),
                None => match env_api_key(e, r.provider) {
                    Some(k) => if is_blank(k) {
                        files_config(global, local).api_key
                    } else {
                        Some(k)
                    },
                    None => files_config(global, local).api_key,
                },
            }
        }),
{
}

/// A provider chosen on the command line takes its own key variable from the
/// environment (for example `MAPBOX_ACCESS_TOKEN` with `--provider mapbox`),
/// whatever provider the files and the environment name.
pub proof fn law_provider_option_takes_its_key_variable(
    global: Option<ConfigFileView>,
    local: Option<ConfigFileView>,
    e: EnvView,
    cli: CliView,
)
    requires
        cli.api_key is None,
        e.locsim_api_key is None,
        cli.provider is Some,
        provider_key_var(e, cli.provider->Some_0) matches Some(k) && !is_blank(k),
    ensures
        resolved_config(global, local, e, cli).api_key == provider_key_var(e, cli.provider->Some_0),
{
}

/// A name made of the letters `a` to `z` is ASCII, is its own ASCII
/// lower-case form, and is its own trimmed form.
proof fn lemma_lower_letters(n: Seq<char>)
    requires
        n.len() > 0,
        forall|i: int| 0 <= i < n.len() ==> 'a' <= #[trigger] n[i] && n[i] <= 'z',
    ensures
        is_ascii_text(n),
        ascii_lower(n) == n,
        trim(n) == n,
{
    assert(ascii_lower(n) =~= n) by {
        assert forall|i: int| 0 <= i < n.len() implies #[trigger] ascii_lower(n)[i] == n[i] by {
            assert(ascii_lower_char(n[i]) == n[i]);
        }
    }
    assert(!is_white_space(n[0]));
    assert(trim_start(n) == n);
    assert(!is_white_space(n.last()));
    assert(trim_end(n) == n);
}

/// Every provider's shown name parses back to that provider, both as a
/// normalized name and as user text: the name is ASCII, so its lower-case
/// form is known.
pub proof fn law_provider_name_round_trip(p: GeocoderProvider)
    ensures
        provider_from_name(provider_name(p)) == Some(p),
        is_ascii_text(provider_name(p)),
        parse_ascii_provider(provider_name(p)) == Some(p),
{
    reveal_strlit("nominatim");
    reveal_strlit("osm");
    reveal_strlit("locationiq");
    reveal_strlit("iq");
    reveal_strlit("mapbox");
    reveal_strlit("opencage");
    reveal_strlit("cage");
    reveal_strlit("google");
    reveal_strlit("googlemaps");
    let n = provider_name(p);
    assert forall|i: int| 0 <= i < n.len() implies 'a' <= #[trigger] n[i] && n[i] <= 'z' by {
    }
    lemma_lower_letters(n);
    assert(n[0] != "osm"@[0] || n.len() != "osm"@.len());
    match p {
        GeocoderProvider::Nominatim => {},
        GeocoderProvider::Locationiq => {
            assert(n[0] != "nominatim"@[0]);
        },
        GeocoderProvider::Mapbox => {
            assert(n[0] != "nominatim"@[0]);
            assert(n[0] != "locationiq"@[0]);
            assert(n.len() != "iq"@.len());
        },
        GeocoderProvider::Opencage => {
            assert(n[0] != "nominatim"@[0]);
            assert(n[0] != "locationiq"@[0]);
            assert(n.len() != "iq"@.len());
            assert(n[0] != "mapbox"@[0]);
        },
        GeocoderProvider::Google => {
            assert(n[0] != "nominatim"@[0]);
            assert(n[0] != "locationiq"@[0]);
            assert(n.len() != "iq"@.len());
            assert(n[0] != "mapbox"@[0]);
            assert(n[0] != "opencage"@[0]);
            assert(n[0] != "cage"@[0]);
        },
    }
}

} // verus!
