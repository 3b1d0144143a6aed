use locsim::bookmarks::{BookmarkError, BookmarkManager, Bookmarks};
use locsim::commands::{
    bookmark_action, choose_action, is_affirmative, menu_choice, BookmarkAction, CliAction,
    CliRequest, MenuChoice,
};
use locsim::config::{parse_u64, AppPaths, CliOverrides, Config, ConfigFile, EnvVars, GeocoderProvider};
use locsim::geocode::{
    check_status, check_success, first_segment_of, formatted_forward, formatted_reverse,
    google_status, locationiq_forward, mapbox_forward, mapbox_reverse, nominatim_forward,
    nominatim_reverse, prepare_query, required_api_key, status_context, FormattedResult,
    GeoCache, GeocodeError, MapboxFeature, NominatimAddress, NominatimItem,
};
use locsim::location::{label_or_fallback, wrap_address};
use locsim::text::is_blank_text;
use locsim::platform::{
    gpx_document, quick_xml_escape, AndroidBridge, CommandOutcome, GeoFixRun, GeoFixStep,
};

fn no_env() -> EnvVars {
    EnvVars::none()
}

// ---------------------------------------------------------------------------
// Configuration
// ---------------------------------------------------------------------------

#[test]
fn test_default_config() {
    let config = Config::load(None, None, &no_env());
    assert_eq!(config.provider, GeocoderProvider::Nominatim);
    assert!(config.geocoder_url.contains("nominatim"));
    assert!(config.user_agent.contains("locsim"));
    assert!(config.cache_enabled);
    assert_eq!(config.timeout_seconds, 10);
}

fn config_file_from_toml(text: &str) -> ConfigFile {
    let table: toml::Table = text.parse().unwrap();
    let s = |k: &str| table.get(k).and_then(|v| v.as_str()).map(|v| v.to_string());
    ConfigFile {
        provider: s("provider"),
        api_key: s("api_key"),
        cache_enabled: table.get("cache_enabled").and_then(|v| v.as_bool()),
        timeout_seconds: table
            .get("timeout_seconds")
            .and_then(|v| v.as_integer())
            .map(|v| v as u64),
        user_agent: s("user_agent"),
        geocoder_url: s("geocoder_url"),
        reverse_geocoder_url: s("reverse_geocoder_url"),
    }
}

#[test]
fn test_config_from_toml_file() {
    let toml_str = r#"
            provider = "mapbox"
            api_key = "pk.test_12345"
            cache_enabled = false
            timeout_seconds = 25
            user_agent = "custom-agent/2.0"
        "#;

    let parsed: ConfigFile = config_file_from_toml(toml_str);
    let mut config = Config::default_values();
    config.apply_file(&parsed);

    assert_eq!(config.provider, GeocoderProvider::Mapbox);
    assert_eq!(config.api_key.as_deref(), Some("pk.test_12345"));
    assert!(!config.cache_enabled);
    assert_eq!(config.timeout_seconds, 25);
    assert_eq!(config.user_agent, "custom-agent/2.0");
}

#[test]
fn test_geocoder_provider_parsing() {
    assert_eq!("nominatim".parse::<GeocoderProvider>().unwrap(), GeocoderProvider::Nominatim);
    assert_eq!("osm".parse::<GeocoderProvider>().unwrap(), GeocoderProvider::Nominatim);
    assert_eq!("locationiq".parse::<GeocoderProvider>().unwrap(), GeocoderProvider::Locationiq);
    assert_eq!("mapbox".parse::<GeocoderProvider>().unwrap(), GeocoderProvider::Mapbox);
    assert_eq!("opencage".parse::<GeocoderProvider>().unwrap(), GeocoderProvider::Opencage);
    assert_eq!("google".parse::<GeocoderProvider>().unwrap(), GeocoderProvider::Google);
    assert!("invalid".parse::<GeocoderProvider>().is_err());
}

#[test]
fn provider_parsing_ignores_case_space_and_knows_aliases() {
    assert_eq!(GeocoderProvider::parse_name("  MapBox ").unwrap(), GeocoderProvider::Mapbox);
    assert_eq!(GeocoderProvider::parse_name("IQ").unwrap(), GeocoderProvider::Locationiq);
    assert_eq!(GeocoderProvider::parse_name("cage").unwrap(), GeocoderProvider::Opencage);
    assert_eq!(GeocoderProvider::parse_name("GoogleMaps").unwrap(), GeocoderProvider::Google);
    assert_eq!(
        GeocoderProvider::parse_name("bing").unwrap_err(),
        "Unknown geocoder provider: bing"
    );
}

#[test]
fn provider_names_round_trip() {
    for p in [
        GeocoderProvider::Nominatim,
        GeocoderProvider::Locationiq,
        GeocoderProvider::Mapbox,
        GeocoderProvider::Opencage,
        GeocoderProvider::Google,
    ] {
        assert_eq!(GeocoderProvider::parse_name(p.as_str()).unwrap(), p);
    }
    assert_eq!(GeocoderProvider::Opencage.to_string(), "opencage");
    assert_eq!(GeocoderProvider::default(), GeocoderProvider::Nominatim);
}

#[test]
fn config_unknown_provider_in_file_keeps_current() {
    let mut config = Config::default_values();
    let mut f = ConfigFile::default();
    f.provider = Some("nowhere".to_string());
    config.apply_file(&f);
    assert_eq!(config.provider, GeocoderProvider::Nominatim);
}

#[test]
fn config_precedence_local_over_global_env_over_both() {
    let mut global = ConfigFile::default();
    global.geocoder_url = Some("https://global.example/search".to_string());
    global.timeout_seconds = Some(30);
    global.provider = Some("google".to_string());
    let mut local = ConfigFile::default();
    local.geocoder_url = Some("https://local.example/search".to_string());
    let mut env = no_env();
    env.provider = Some("OpenCage".to_string());
    let config = Config::load(Some(global), Some(local), &env);
    assert_eq!(config.geocoder_url, "https://local.example/search");
    assert_eq!(config.timeout_seconds, 30);
    assert_eq!(config.provider, GeocoderProvider::Opencage);
}

#[test]
fn command_line_options_override_environment_and_files() {
    let mut local = ConfigFile::default();
    local.geocoder_url = Some("https://local.example/search".to_string());
    local.api_key = Some("file-key".to_string());
    let mut env = no_env();
    env.provider = Some("mapbox".to_string());
    env.locsim_api_key = Some("env-key".to_string());
    env.timeout = Some("42".to_string());
    let config = Config::resolve(
        None,
        Some(local),
        &env,
        CliOverrides {
            geocoder_url: Some("https://cli.example/search".to_string()),
            provider: Some(GeocoderProvider::Google),
            api_key: Some("cli-key".to_string()),
        },
    );
    assert_eq!(config.geocoder_url, "https://cli.example/search");
    assert_eq!(config.provider, GeocoderProvider::Google);
    assert_eq!(config.api_key.as_deref(), Some("cli-key"));
    assert_eq!(config.timeout_seconds, 42);

    let unchanged = Config::resolve(None, None, &env, no_cli());
    assert_eq!(unchanged.provider, GeocoderProvider::Mapbox);
    assert_eq!(unchanged.api_key.as_deref(), Some("env-key"));
    assert_eq!(unchanged.geocoder_url, "https://nominatim.openstreetmap.org/search");
}

fn no_cli() -> CliOverrides {
    CliOverrides { geocoder_url: None, provider: None, api_key: None }
}

fn cli_provider(p: GeocoderProvider) -> CliOverrides {
    CliOverrides { geocoder_url: None, provider: Some(p), api_key: None }
}

#[test]
fn provider_option_reads_its_own_key_variable() {
    // export MAPBOX_ACCESS_TOKEN=...; locsim "..." --provider mapbox
    let mut env = no_env();
    env.mapbox_access_token = Some("pk.token".to_string());
    let config = Config::resolve(None, None, &env, cli_provider(GeocoderProvider::Mapbox));
    assert_eq!(config.provider, GeocoderProvider::Mapbox);
    assert_eq!(config.api_key.as_deref(), Some("pk.token"));
    assert!(required_api_key(config.provider, None, &config.api_key).is_ok());

    // export LOCATIONIQ_API_KEY=...; locsim "..." --provider locationiq
    let mut env = no_env();
    env.locationiq_api_key = Some("iq.key".to_string());
    let config = Config::resolve(None, None, &env, cli_provider(GeocoderProvider::Locationiq));
    assert_eq!(config.api_key.as_deref(), Some("iq.key"));

    // The command line's provider decides which variable is read, not the environment's.
    let mut env = no_env();
    env.provider = Some("google".to_string());
    env.google_maps_api_key = Some("goog".to_string());
    env.mapbox_access_token = Some("pk.token".to_string());
    let config = Config::resolve(None, None, &env, cli_provider(GeocoderProvider::Mapbox));
    assert_eq!(config.provider, GeocoderProvider::Mapbox);
    assert_eq!(config.api_key.as_deref(), Some("pk.token"));

    // Without its variable, the provider keeps the key of the files.
    let mut file = ConfigFile::default();
    file.api_key = Some("from-file".to_string());
    let mut env = no_env();
    env.google_maps_api_key = Some("goog".to_string());
    let config = Config::resolve(Some(file), None, &env, cli_provider(GeocoderProvider::Opencage));
    assert_eq!(config.api_key.as_deref(), Some("from-file"));

    // Without command-line options, resolving is loading.
    let mut env = no_env();
    env.provider = Some("mapbox".to_string());
    env.mapbox_access_token = Some("pk.token".to_string());
    let loaded = Config::load(None, None, &env);
    let resolved = Config::resolve(None, None, &env, no_cli());
    assert!(same_config(&loaded, &resolved));
}

fn same_config(a: &Config, b: &Config) -> bool {
    a.provider == b.provider
        && a.api_key == b.api_key
        && a.geocoder_url == b.geocoder_url
        && a.reverse_geocoder_url == b.reverse_geocoder_url
        && a.user_agent == b.user_agent
        && a.cache_enabled == b.cache_enabled
        && a.timeout_seconds == b.timeout_seconds
}

#[test]
fn config_empty_file_and_repeated_file() {
    let base = Config::load(None, None, &no_env());
    let mut c = base.clone();
    c.apply_file(&ConfigFile::default());
    assert!(same_config(&c, &base));

    let mut f = ConfigFile::default();
    f.provider = Some("iq".to_string());
    f.cache_enabled = Some(false);
    f.user_agent = Some("agent/1".to_string());
    let mut once = base.clone();
    once.apply_file(&f);
    let mut twice = once.clone();
    twice.apply_file(&f);
    assert!(same_config(&once, &twice));
    assert_eq!(once.provider, GeocoderProvider::Locationiq);
    assert!(!once.cache_enabled);
    assert_eq!(once.user_agent, "agent/1");
}

#[test]
fn config_env_api_key_chain_and_blank_key() {
    // A provider-specific variable is not taken for another provider.
    let mut env = no_env();
    env.provider = Some("google".to_string());
    env.mapbox_access_token = Some("pk.map".to_string());
    let config = Config::load(None, None, &env);
    assert_eq!(config.provider, GeocoderProvider::Google);
    assert_eq!(config.api_key, None);

    // The active provider's own variable is taken.
    env.google_maps_api_key = Some("goog".to_string());
    let config = Config::load(None, None, &env);
    assert_eq!(config.api_key.as_deref(), Some("goog"));

    // The provider may come from a file; its variable then applies.
    let mut file = ConfigFile::default();
    file.provider = Some("mapbox".to_string());
    let mut env = no_env();
    env.mapbox_access_token = Some("pk.map".to_string());
    env.opencage_api_key = Some("cage".to_string());
    let config = Config::load(Some(file), None, &env);
    assert_eq!(config.api_key.as_deref(), Some("pk.map"));

    // Nominatim takes no provider-specific variable.
    let mut env = no_env();
    env.locationiq_api_key = Some("iq".to_string());
    let config = Config::load(None, None, &env);
    assert_eq!(config.api_key, None);

    // LOCSIM_API_KEY applies to every provider, and comes first.
    env.locsim_api_key = Some("general".to_string());
    env.provider = Some("iq".to_string());
    let config = Config::load(None, None, &env);
    assert_eq!(config.api_key.as_deref(), Some("general"));

    // A blank key leaves the key that the files gave.
    let mut file = ConfigFile::default();
    file.api_key = Some("from-file".to_string());
    let mut env = no_env();
    env.provider = Some("mapbox".to_string());
    env.locsim_api_key = Some("   ".to_string());
    env.mapbox_access_token = Some("ignored".to_string());
    let config = Config::load(Some(file), None, &env);
    assert_eq!(config.api_key.as_deref(), Some("from-file"));
}

#[test]
fn config_env_cache_and_timeout() {
    let mut env = no_env();
    env.cache_enabled = Some("FALSE".to_string());
    env.timeout = Some("+42".to_string());
    let config = Config::load(None, None, &env);
    assert!(!config.cache_enabled);
    assert_eq!(config.timeout_seconds, 42);

    let mut env = no_env();
    env.cache_enabled = Some("0".to_string());
    env.timeout = Some("12s".to_string());
    let config = Config::load(None, None, &env);
    assert!(!config.cache_enabled);
    assert_eq!(config.timeout_seconds, 10);

    let mut env = no_env();
    env.cache_enabled = Some("no".to_string());
    env.timeout = Some("18446744073709551616".to_string());
    let config = Config::load(None, None, &env);
    assert!(config.cache_enabled);
    assert_eq!(config.timeout_seconds, 10);

    let mut env = no_env();
    env.timeout = Some("18446744073709551615".to_string());
    env.user_agent = Some("agent/1".to_string());
    env.reverse_geocoder_url = Some("https://r.example".to_string());
    let config = Config::load(None, None, &env);
    assert_eq!(config.timeout_seconds, u64::MAX);
    assert_eq!(config.user_agent, "agent/1");
    assert_eq!(config.reverse_geocoder_url, "https://r.example");
}

#[test]
fn parse_u64_follows_std() {
    for s in ["0", "7", "+15", "0010", "18446744073709551615", "", "+", "-1", " 1", "1 ", "1_0", "18446744073709551616", "99999999999999999999x"] {
        assert_eq!(parse_u64(s), s.parse::<u64>().ok(), "input {:?}", s);
    }
}

#[test]
fn app_paths_in_data_directory() {
    assert_eq!(AppPaths::global_config_file("/home/u/.config/locsim"), "/home/u/.config/locsim/config.toml");
    assert_eq!(AppPaths::current_location_file("/d/"), "/d/current_location.json");
    assert_eq!(AppPaths::cache_file("/d"), "/d/geocode_cache.json");
    assert_eq!(AppPaths::gpx_file("/d"), "/d/simulated_location.gpx");
    assert_eq!(AppPaths::cdp_file("/d"), "/d/cdp_geolocation.json");
    assert_eq!(AppPaths::bookmarks_file("/d"), "/d/bookmarks.json");
    assert_eq!(AppPaths::env_script_file("/d", true), "/d/locsim_env.ps1");
    assert_eq!(AppPaths::env_script_file("/d", false), "/d/locsim_env.sh");
    assert_eq!(AppPaths::bookmarks_file(""), "bookmarks.json");
}

#[test]
fn local_config_file_first_present() {
    assert_eq!(AppPaths::local_config_file(&vec![false, true, true]).as_deref(), Some(".locsimrc"));
    assert_eq!(AppPaths::local_config_file(&vec![true, true, true]).as_deref(), Some(".locsim.toml"));
    assert_eq!(AppPaths::local_config_file(&vec![false, false, true]).as_deref(), Some("locsim.toml"));
    assert_eq!(AppPaths::local_config_file(&vec![false, false, false]), None);
    assert_eq!(AppPaths::local_config_file(&vec![]), None);
    assert_eq!(AppPaths::local_config_candidates(), vec![".locsim.toml", ".locsimrc", "locsim.toml"]);
}

// ---------------------------------------------------------------------------
// Bookmarks
// ---------------------------------------------------------------------------

#[derive(Debug, Clone, PartialEq)]
struct Spot {
    name: &'static str,
    latitude: f64,
}

#[test]
fn test_bookmark_lifecycle() {
    let mut bookmarks: Bookmarks<Spot> = Bookmarks::new();

    // Initially empty
    assert!(bookmarks.list().is_empty());
    assert_eq!(bookmarks.get("home"), None);

    // Save a bookmark
    let loc_home = Spot { name: "Home Office", latitude: 37.7749 };
    bookmarks.save("home", loc_home).expect("Save bookmark");

    // Save second bookmark
    let loc_work = Spot { name: "Work HQ", latitude: 40.7128 };
    bookmarks.save("work", loc_work).expect("Save bookmark");

    // Case-insensitive retrieval
    let retrieved = bookmarks.get("HOME").expect("Should find home");
    assert_eq!(retrieved.name, "Home Office");
    assert_eq!(retrieved.latitude, 37.7749);

    // List
    let list = bookmarks.list();
    assert_eq!(list.len(), 2);
    assert_eq!(list[0].0, "home");
    assert_eq!(list[1].0, "work");

    // Delete
    assert!(bookmarks.delete("Work"));
    assert_eq!(bookmarks.list().len(), 1);
    assert_eq!(bookmarks.get("work"), None);

    // Delete non-existent
    assert!(!bookmarks.delete("nonexistent"));
}

#[test]
fn test_empty_bookmark_name_errors() {
    let mut bookmarks: Bookmarks<Spot> = Bookmarks::new();
    let loc = Spot { name: "Test", latitude: 10.0 };
    assert!(matches!(bookmarks.save("   ", loc), Err(BookmarkError::EmptyName)));
    assert_eq!(bookmarks.len(), 0);
}

#[test]
fn bookmarks_listed_in_name_order_and_trimmed() {
    let mut b: Bookmarks<u32> = Bookmarks::new();
    b.save("  work ", 2).unwrap();
    b.save("cafe", 3).unwrap();
    b.save("Home", 1).unwrap();
    b.save("work", 4).unwrap();
    let list = b.into_list();
    let names: Vec<&str> = list.iter().map(|(k, _)| k.as_str()).collect();
    assert_eq!(names, vec!["Home", "cafe", "work"]);
    assert_eq!(list[2].1, 4);
}

#[test]
fn bookmark_lookup_prefers_first_in_order_and_delete_removes_all_cases() {
    let mut b: Bookmarks<u32> = Bookmarks::new();
    b.insert("home".to_string(), 2);
    b.insert("Home".to_string(), 1);
    assert_eq!(b.get(" HOME "), Some(&1));
    assert!(b.delete("hOmE"));
    assert_eq!(b.len(), 0);
}

#[test]
fn bookmark_manager_paths() {
    let m = BookmarkManager::new("/data/locsim");
    assert_eq!(m.path(), "/data/locsim/bookmarks.json");
    let m = BookmarkManager::with_path("/tmp/test_bookmarks.json".to_string());
    assert_eq!(m.path(), "/tmp/test_bookmarks.json");
}

// ---------------------------------------------------------------------------
// Location text
// ---------------------------------------------------------------------------

#[test]
fn formatted_address_wraps_at_fifty_bytes() {
    let address = "Rajkot - Morbi Highway, Rajkot Taluka, Gujarat, India - 360003, Extra Long District Name Here";
    let wrapped = wrap_address(address, 11);
    assert_eq!(
        wrapped,
        "Rajkot - Morbi Highway, Rajkot Taluka, Gujarat\n           India - 360003, Extra Long District Name Here"
    );
    for line in wrapped.split('\n') {
        assert!(line.trim().len() <= 50);
    }
}

#[test]
fn formatted_address_skips_blank_items_and_keeps_blank_address() {
    assert_eq!(wrap_address(" a ,, b ,", 2), "a, b");
    assert_eq!(wrap_address(" , ,", 4), " , ,");
    assert_eq!(wrap_address("", 4), "");
    let long = "x".repeat(60);
    assert_eq!(wrap_address(&format!("{},y", long), 1), format!("{}\n y", long));
}

#[test]
fn labels_fall_back_when_blank() {
    assert_eq!(label_or_fallback("  Marwadi University ", "10.00000, 20.00000".to_string()), "Marwadi University");
    assert_eq!(label_or_fallback("  ", "10.00000, 20.00000".to_string()), "10.00000, 20.00000");
}

// ---------------------------------------------------------------------------
// Platform
// ---------------------------------------------------------------------------

#[test]
fn test_gpx_generation() {
    let gpx = gpx_document("12.345678", "98.765432", "Test Point", "Test Address <>&");
    assert!(gpx.contains(r#"lat="12.345678""#));
    assert!(gpx.contains(r#"lon="98.765432""#));
    assert!(gpx.contains("<name>Test Point</name>"));
    assert!(gpx.contains("&lt;&gt;&amp;"));
}

#[test]
fn gpx_document_is_exact() {
    let gpx = gpx_document("1.000000", "2.000000", "A", "B");
    assert_eq!(
        gpx,
        "<?xml version=\"1.0\" encoding=\"UTF-8\"?>\n<gpx version=\"1.1\" creator=\"locsim\" xmlns=\"http://www.topografix.com/GPX/1/1\">\n  <wpt lat=\"1.000000\" lon=\"2.000000\">\n    <name>A</name>\n    <desc>B</desc>\n  </wpt>\n</gpx>\n"
    );
}

#[test]
fn xml_escape_all_markup() {
    assert_eq!(quick_xml_escape(r#"a&b<c>d"e'f"#), "a&amp;b&lt;c&gt;d&quot;e&apos;f");
    assert_eq!(quick_xml_escape("plain text é"), "plain text é");
}

#[test]
fn test_parse_adb_devices() {
    let sample = "List of devices attached\nemulator-5554\tdevice\nemulator-5556\tdevice\noffline-device\toffline\n";
    let parsed = AndroidBridge::parse_adb_devices(sample);
    assert_eq!(parsed, vec!["emulator-5554", "emulator-5556"]);
}

#[test]
fn test_parse_adb_empty() {
    let sample = "List of devices attached\n\n";
    let parsed = AndroidBridge::parse_adb_devices(sample);
    assert!(parsed.is_empty());
}

#[test]
fn parse_adb_devices_crlf_and_emulator_state() {
    let sample = "List of devices attached\r\nemulator-5554 emulator\r\nserial-1  device product:x\r\nbad\r\n";
    assert_eq!(AndroidBridge::parse_adb_devices(sample), vec!["emulator-5554", "serial-1"]);
    assert!(AndroidBridge::parse_adb_devices("").is_empty());
    assert!(AndroidBridge::parse_adb_devices("emulator-5554\tdevice").is_empty());
}

#[test]
fn adb_version_first_line() {
    assert_eq!(AndroidBridge::adb_version_line("Android Debug Bridge version 1.0.41\nVersion 34\n"), "Android Debug Bridge version 1.0.41");
    assert_eq!(AndroidBridge::adb_version_line(""), "ADB");
    assert_eq!(AndroidBridge::adb_version_line("\nsecond"), "");
    let st = AndroidBridge::status_from(Some("  v1 \n"), vec!["emulator-5554".to_string()]);
    assert!(st.adb_available);
    assert_eq!(st.adb_version.as_deref(), Some("v1"));
    assert_eq!(st.running_emulators, vec!["emulator-5554"]);
    let st = AndroidBridge::status_from(None, vec!["x".to_string()]);
    assert!(!st.adb_available && st.adb_version.is_none() && st.running_emulators.is_empty());
}

fn run_args(step: &GeoFixStep) -> Vec<String> {
    match step {
        GeoFixStep::Run(a) => a.clone(),
        _ => panic!("expected a command"),
    }
}

#[test]
fn geo_fix_to_listed_devices_with_fallback() {
    let listed = vec!["emulator-5554".to_string(), "emulator-5556".to_string()];
    let (mut run, step) = GeoFixRun::start(None, listed, "2.294481".to_string(), "48.858370".to_string(), Some("35.0".to_string()));
    assert_eq!(run_args(&step), vec!["-s", "emulator-5554", "emu", "geo", "fix", "2.294481", "48.858370", "35.0"]);
    let step = run.advance(CommandOutcome::Failed);
    match &step {
        GeoFixStep::Fallback(a) => assert_eq!(a, &vec!["-s", "emulator-5554", "shell", "cmd", "location", "set-location", "48.858370", "2.294481"]),
        _ => panic!("expected the fallback"),
    }
    let step = run.advance(CommandOutcome::CouldNotRun("ignored".to_string()));
    assert_eq!(run_args(&step)[1], "emulator-5556");
    let step = run.advance(CommandOutcome::Succeeded);
    match step {
        GeoFixStep::Done(Ok(d)) => assert_eq!(d, vec!["emulator-5554", "emulator-5556"]),
        _ => panic!("expected the end"),
    }
}

#[test]
fn geo_fix_stops_when_adb_cannot_run() {
    let (mut run, step) = GeoFixRun::start(Some("emulator-5554"), vec![], "1.0".to_string(), "2.0".to_string(), None);
    assert_eq!(run_args(&step), vec!["-s", "emulator-5554", "emu", "geo", "fix", "1.0", "2.0"]);
    match run.advance(CommandOutcome::CouldNotRun("not found".to_string())) {
        GeoFixStep::Done(Err(e)) => assert_eq!(e, "Failed to execute adb command: not found"),
        _ => panic!("expected an error"),
    }
    let (_, step) = GeoFixRun::start(None, vec![], "1.0".to_string(), "2.0".to_string(), None);
    assert!(matches!(step, GeoFixStep::Done(Ok(ref d)) if d.is_empty()));
}

// ---------------------------------------------------------------------------
// Geocoding
// ---------------------------------------------------------------------------

fn config_default() -> Config {
    Config::load(None, None, &no_env())
}

#[test]
fn test_create_geocoder_nominatim_no_key_required() {
    let config = config_default();
    let res = required_api_key(GeocoderProvider::Nominatim, None, &config.api_key);
    assert!(res.is_ok());
}

#[test]
fn test_create_geocoder_missing_api_key() {
    let config = config_default();
    let res = required_api_key(GeocoderProvider::Mapbox, None, &config.api_key);
    assert!(matches!(res, Err(GeocodeError::MissingApiKey(_))));

    let res2 = required_api_key(GeocoderProvider::Google, None, &config.api_key);
    assert!(matches!(res2, Err(GeocodeError::MissingApiKey(_))));
}

#[test]
fn test_create_geocoder_with_api_key() {
    let config = config_default();
    let res = required_api_key(GeocoderProvider::Mapbox, Some("pk.test123".to_string()), &config.api_key);
    assert!(res.is_ok());

    let res2 = required_api_key(GeocoderProvider::Locationiq, Some("iq_test_key".to_string()), &config.api_key);
    assert!(res2.is_ok());
}

#[test]
fn api_key_comes_from_argument_then_config() {
    let from_config = Some("cfg".to_string());
    assert_eq!(required_api_key(GeocoderProvider::Opencage, Some("arg".to_string()), &from_config).unwrap().as_deref(), Some("arg"));
    assert_eq!(required_api_key(GeocoderProvider::Opencage, None, &from_config).unwrap().as_deref(), Some("cfg"));
    match required_api_key(GeocoderProvider::Google, None, &None) {
        Err(GeocodeError::MissingApiKey(m)) => assert_eq!(m, "Google Maps"),
        _ => panic!("expected a missing key"),
    }
    assert_eq!(required_api_key(GeocoderProvider::Nominatim, Some("k".to_string()), &None).unwrap(), None);
}

#[test]
fn empty_query_not_found() {
    match prepare_query("   ") {
        Err(GeocodeError::NotFound(m)) => assert_eq!(m, "Empty query provided"),
        _ => panic!("expected not found"),
    }
    assert_eq!(prepare_query("  Eiffel Tower ").unwrap(), "Eiffel Tower");
}

#[test]
fn http_status_judgement() {
    assert!(matches!(check_status(429, "429 Too Many Requests", "HTTP status: "), Err(GeocodeError::RateLimited)));
    match check_status(404, "404 Not Found", status_context(GeocoderProvider::Nominatim, false)) {
        Err(GeocodeError::Service(m)) => assert_eq!(m, "HTTP status: 404 Not Found"),
        _ => panic!("expected a service error"),
    }
    assert!(check_status(200, "200 OK", "x").is_ok());
    match check_success(429, "429 Too Many Requests", status_context(GeocoderProvider::Google, true)) {
        Err(GeocodeError::Service(m)) => assert_eq!(m, "Google Maps reverse HTTP status: 429 Too Many Requests"),
        _ => panic!("expected a service error"),
    }
}

#[test]
fn google_status_field() {
    assert!(matches!(google_status("OVER_QUERY_LIMIT", &None, "q"), Err(GeocodeError::RateLimited)));
    assert!(matches!(google_status("ZERO_RESULTS", &None, "q"), Err(GeocodeError::NotFound(ref m)) if m == "q"));
    assert!(matches!(google_status("REQUEST_DENIED", &Some("bad key".to_string()), "q"), Err(GeocodeError::Service(ref m)) if m == "bad key"));
    assert!(matches!(google_status("INVALID_REQUEST", &None, "q"), Err(GeocodeError::Service(ref m)) if m == "INVALID_REQUEST"));
    assert!(google_status("OK", &None, "q").is_ok());
}

fn item(name: Option<&str>, display: Option<&str>, address: Option<NominatimAddress>) -> NominatimItem {
    NominatimItem {
        name: name.map(|s| s.to_string()),
        display_name: display.map(|s| s.to_string()),
        lat: "48.8583701".to_string(),
        lon: "2.2944813".to_string(),
        address,
    }
}

fn empty_address() -> NominatimAddress {
    NominatimAddress { road: None, suburb: None, city: None, town: None, village: None, county: None, state: None, country: None, postcode: None }
}

#[test]
fn nominatim_forward_name_and_address() {
    let mut a = empty_address();
    a.road = Some("Avenue Anatole France".to_string());
    a.town = Some("Paris".to_string());
    a.county = Some("ignored".to_string());
    a.country = Some("France".to_string());
    a.postcode = Some("75007".to_string());
    let items = vec![item(Some("Eiffel Tower"), Some("Tour Eiffel, 5, Avenue"), Some(a))];
    let p = nominatim_forward(&items, "eiffel").unwrap();
    assert_eq!(p.name, "Eiffel Tower");
    assert_eq!(p.address, "Avenue Anatole France, Paris, France - 75007");

    let items = vec![item(Some("  "), Some(" Tour Eiffel , Paris"), Some(empty_address()))];
    let p = nominatim_forward(&items, "eiffel").unwrap();
    assert_eq!(p.name, "Tour Eiffel");
    assert_eq!(p.address, " Tour Eiffel , Paris");

    let items = vec![item(None, None, None)];
    let p = nominatim_forward(&items, "eiffel").unwrap();
    assert_eq!(p.name, "eiffel");
    assert_eq!(p.address, "eiffel");

    assert!(matches!(nominatim_forward(&vec![], "nowhere"), Err(GeocodeError::NotFound(ref m)) if m == "nowhere"));
}

#[test]
fn locationiq_and_reverse_use_display_name() {
    let mut a = empty_address();
    a.road = Some("Road".to_string());
    let items = vec![item(None, Some("Big Ben, London"), Some(a))];
    let p = locationiq_forward(&items, "big ben").unwrap();
    assert_eq!(p.name, "Big Ben");
    assert_eq!(p.address, "Big Ben, London");

    let p = nominatim_reverse(&item(None, None, None), "37.77490, -122.41940");
    assert_eq!(p.name, "37.77490");
    assert_eq!(p.address, "37.77490, -122.41940");
}

#[test]
fn mapbox_results() {
    let f = vec![MapboxFeature { text: Some("Central Park".to_string()), place_name: None, has_center: true }];
    let p = mapbox_forward(&f, "central park").unwrap();
    assert_eq!(p.name, "Central Park");
    assert_eq!(p.address, "Central Park");
    let f = vec![MapboxFeature { text: None, place_name: Some("NYC".to_string()), has_center: false }];
    assert!(matches!(mapbox_forward(&f, "q"), Err(GeocodeError::ParseError(ref m)) if m == "Missing center coordinate from Mapbox"));
    assert!(matches!(mapbox_reverse(&vec![], "1.000000, 2.000000", "1.00000, 2.00000"), Err(GeocodeError::NotFound(ref m)) if m == "1.000000, 2.000000"));
    let f = vec![MapboxFeature { text: None, place_name: None, has_center: false }];
    let p = mapbox_reverse(&f, "1.000000, 2.000000", "1.00000, 2.00000").unwrap();
    assert_eq!(p.name, "1.00000, 2.00000");
}

#[test]
fn opencage_and_google_results() {
    let r = vec![FormattedResult { formatted: Some("Colosseum, Rome, Italy".to_string()), has_location: true }];
    let p = formatted_forward(GeocoderProvider::Opencage, &r, "colosseum").unwrap();
    assert_eq!(p.name, "Colosseum");
    assert_eq!(p.address, "Colosseum, Rome, Italy");
    let r = vec![FormattedResult { formatted: None, has_location: false }];
    assert!(matches!(formatted_forward(GeocoderProvider::Google, &r, "q"), Err(GeocodeError::ParseError(ref m)) if m == "Missing geometry location in Google response"));
    assert!(matches!(formatted_forward(GeocoderProvider::Opencage, &r, "q"), Err(GeocodeError::ParseError(ref m)) if m == "Missing geometry in OpenCage response"));
    let p = formatted_reverse(&r, "1.000000, 2.000000", "1.00000, 2.00000").unwrap();
    assert_eq!(p.address, "1.00000, 2.00000");
    assert_eq!(p.name, "1.00000");
    assert_eq!(first_segment_of("  a b , c"), "a b");
}

#[test]
fn test_cached_geocoder_hit() {
    let mut cache: GeoCache<Spot> = GeoCache::new(true);
    let key = GeoCache::<Spot>::normalize_key("Marwadi University");
    assert!(cache.lookup(&key).is_none());
    let rajkot = Spot { name: "Marwadi University", latitude: 22.3688 };
    assert!(cache.record(key.clone(), rajkot.clone()));
    let res = cache.lookup(&GeoCache::<Spot>::normalize_key("  marwadi UNIVERSITY ")).unwrap();
    assert_eq!(res.name, "Marwadi University");
    assert_eq!(res.latitude, 22.3688);
    assert_eq!(key, "marwadi university");
    assert_eq!(cache.entries().len(), 1);
}

#[test]
fn disabled_cache_keeps_nothing() {
    let mut cache: GeoCache<u32> = GeoCache::new(false);
    assert!(!cache.record("k".to_string(), 1));
    assert!(cache.lookup("k").is_none());
    assert!(cache.entries().is_empty());
    let mut cache: GeoCache<u32> = GeoCache::new(true);
    cache.record("k".to_string(), 1);
    cache.record("k".to_string(), 2);
    cache.record("j".to_string(), 3);
    assert_eq!(cache.lookup("k"), Some(&2));
    assert_eq!(cache.entries().len(), 2);
}

// ---------------------------------------------------------------------------
// Command line and prompts
// ---------------------------------------------------------------------------

fn request() -> CliRequest {
    CliRequest {
        has_subcommand: false,
        completions: false,
        reset: false,
        bookmarks: false,
        delete_bookmark: false,
        use_bookmark: false,
        save: false,
        show: false,
        clear: false,
        interactive: false,
        reverse_args: None,
        lat: false,
        lon: false,
        query: false,
    }
}

#[test]
fn command_line_choice() {
    assert_eq!(choose_action(&request()), CliAction::Prompt);
    let mut r = request();
    r.lat = true;
    assert_eq!(choose_action(&r), CliAction::MissingCoordinate);
    r.lon = true;
    assert_eq!(choose_action(&r), CliAction::Manual);
    r.reverse_args = Some(1);
    assert_eq!(choose_action(&r), CliAction::ReverseArityError);
    r.reverse_args = Some(2);
    assert_eq!(choose_action(&r), CliAction::Reverse);
    r.show = true;
    assert_eq!(choose_action(&r), CliAction::Show);
    r.has_subcommand = true;
    assert_eq!(choose_action(&r), CliAction::Subcommand);
    let mut r = request();
    r.query = true;
    assert_eq!(choose_action(&r), CliAction::Search);
    r.clear = true;
    assert_eq!(choose_action(&r), CliAction::Clear);
}

#[test]
fn prompt_answers() {
    assert!(is_affirmative(""));
    assert!(is_affirmative("  Y "));
    assert!(is_affirmative("yes"));
    assert!(!is_affirmative("n"));
    assert!(!is_affirmative("yep"));
    assert_eq!(menu_choice("1"), MenuChoice::Search);
    assert_eq!(menu_choice("5"), MenuChoice::Bookmarks);
    assert_eq!(menu_choice("exit"), MenuChoice::Exit);
    assert_eq!(menu_choice("q"), MenuChoice::Exit);
    assert_eq!(menu_choice("8"), MenuChoice::Invalid);
    assert_eq!(bookmark_action("U"), BookmarkAction::Use);
    assert_eq!(bookmark_action("save"), BookmarkAction::Save);
    assert_eq!(bookmark_action("D"), BookmarkAction::Delete);
    assert_eq!(bookmark_action(""), BookmarkAction::List);
}

#[test]
fn error_messages() {
    assert_eq!(
        GeocodeError::MissingApiKey("Mapbox".to_string()).to_string(),
        "API key required for provider 'Mapbox'. Pass --api-key <KEY> or set environment variable."
    );
    assert_eq!(
        GeocodeError::NotFound("Atlantis".to_string()).to_string(),
        "Location not found for query: 'Atlantis'"
    );
    assert_eq!(
        GeocodeError::RateLimited.to_string(),
        "Rate limit exceeded by geocoding provider (HTTP 429). Please wait a moment."
    );
    assert_eq!(GeocodeError::Service("x".to_string()).to_string(), "Geocoding service error: x");
    assert_eq!(GeocodeError::Io("disk".to_string()).to_string(), "I/O error with cache: disk");
    assert_eq!(
        BookmarkError::NotFound("definitely_nonexistent_bookmark_123".to_string()).to_string(),
        "Bookmark 'definitely_nonexistent_bookmark_123' not found"
    );
    assert_eq!(BookmarkError::EmptyName.to_string(), "Bookmark name cannot be empty");
    assert_eq!(BookmarkError::Json("eof".to_string()).to_string(), "JSON serialization error: eof");
}

#[test]
fn settling_a_query_records_success_and_passes_errors_through() {
    let mut cache: GeoCache<u32> = GeoCache::new(true);
    let key = GeoCache::<u32>::normalize_key("Unknown Place That Does Not Exist");
    let r = cache.settle(key.clone(), Err(GeocodeError::NotFound("Unknown Place That Does Not Exist".to_string())));
    assert!(matches!(r, Err(GeocodeError::NotFound(ref m)) if m == "Unknown Place That Does Not Exist"));
    assert!(cache.lookup(&key).is_none());
    assert!(cache.entries().is_empty());

    assert_eq!(cache.settle(key.clone(), Ok(7)).unwrap(), 7);
    assert_eq!(cache.lookup(&key), Some(&7));
    assert!(matches!(cache.settle(key.clone(), Err(GeocodeError::RateLimited)), Err(GeocodeError::RateLimited)));
    assert_eq!(cache.lookup(&key), Some(&7));

    let mut off: GeoCache<u32> = GeoCache::new(false);
    assert_eq!(off.settle(key.clone(), Ok(3)).unwrap(), 3);
    assert!(off.lookup(&key).is_none());
    assert!(off.entries().is_empty());
}

#[test]
fn blank_text_is_only_white_space() {
    assert!(is_blank_text(""));
    assert!(is_blank_text(" \n\t\r\n"));
    assert!(!is_blank_text("  {}  "));
}
