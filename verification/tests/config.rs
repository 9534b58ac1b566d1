use mailgun::client::get_client;
use mailgun::config::{
    is_default_region, parse_region, region_from_lowercase, region_label, Config, Region,
    SiteConfig,
};
use mailgun::config_commands::{
    config_list, config_remove, config_set, config_set_default, config_set_in_region,
    format_api_key, is_listable, is_maskable, run_config, ConfigCommandError, ConfigCommands,
};
use mailgun::storage::{config_path, load_config, save_config, StoredConfig, StoredSite};

fn site(api_key: &str, domain: &str, region: Region) -> SiteConfig {
    SiteConfig { api_key: api_key.to_string(), domain: domain.to_string(), region }
}

#[test]
fn test_default_config() {
    let config = Config::default();
    assert_eq!(config.api_key, None);
    assert_eq!(config.domain, None);
    assert_eq!(config.region, Region::Us);
    assert!(config.sites.is_empty());
}

#[test]
fn test_region_base_url() {
    assert_eq!(Region::Us.base_url(), "https://api.mailgun.net/v3");
    assert_eq!(Region::Eu.base_url(), "https://api.eu.mailgun.net/v3");
}

#[test]
fn test_load_missing_file_returns_default() {
    let config = load_config(None);
    assert_eq!(config, Config::default());
}

#[test]
fn test_save_and_load_sites() {
    let mut config = Config::default();
    config.set_site(
        "globalcomix",
        SiteConfig {
            api_key: "key-abc123".to_string(),
            domain: "mg.globalcomix.com".to_string(),
            region: Region::Us,
        },
        true,
    );

    let file = save_config(&config);
    let loaded = load_config(Some(file));

    assert_eq!(loaded.default_site.as_deref(), Some("globalcomix"));
    let resolved = loaded.resolve_site(None).unwrap();
    assert_eq!(resolved.domain, "mg.globalcomix.com");
    assert_eq!(resolved.api_key, "key-abc123");
}

#[test]
fn test_explicit_site_overrides_default() {
    let mut config = Config::default();
    config.set_site(
        "a",
        SiteConfig { api_key: "ka".into(), domain: "a.com".into(), region: Region::Us },
        true,
    );
    config.set_site(
        "b",
        SiteConfig { api_key: "kb".into(), domain: "b.com".into(), region: Region::Eu },
        false,
    );

    assert_eq!(config.resolve_site(None).unwrap().domain, "a.com");
    assert_eq!(config.resolve_site(Some("b")).unwrap().domain, "b.com");
    assert_eq!(config.resolve_site(Some("b")).unwrap().region, Region::Eu);
}

#[test]
fn test_unknown_site_errors() {
    let config = Config::default();
    assert!(config.resolve_site(Some("nope")).is_err());
}

#[test]
fn test_legacy_flat_config_fallback() {
    // Old config files have flat api_key/domain and no sites.
    let config = Config {
        api_key: Some("key-legacy".to_string()),
        domain: Some("mangahelpers.com".to_string()),
        region: Region::Us,
        ..Default::default()
    };
    let resolved = config.resolve_site(None).unwrap();
    assert_eq!(resolved.domain, "mangahelpers.com");
    assert_eq!(resolved.api_key, "key-legacy");
}

#[test]
fn test_remove_site_reassigns_default() {
    let mut config = Config::default();
    config.set_site(
        "a",
        SiteConfig { api_key: "ka".into(), domain: "a.com".into(), region: Region::Us },
        true,
    );
    config.set_site(
        "b",
        SiteConfig { api_key: "kb".into(), domain: "b.com".into(), region: Region::Us },
        false,
    );
    assert!(config.remove_site("a"));
    assert_eq!(config.default_site.as_deref(), Some("b"));
}

#[test]
fn formats_api_keys_and_regions() {
    assert_eq!(format_api_key(None), "(not set)");
    assert_eq!(format_api_key(Some("short")), "*****");
    assert_eq!(format_api_key(Some("key-123456789")), "key-...6789");

    assert_eq!(region_label(Region::Us), "us");
    assert_eq!(region_label(Region::Eu), "eu");
    assert_eq!(parse_region("US").unwrap(), Region::Us);
    assert_eq!(parse_region("eu").unwrap(), Region::Eu);
    assert!(parse_region("ap").is_err());
}

/// A configuration file in memory.
struct File {
    content: Option<StoredConfig>,
}

impl File {
    fn run(&mut self, action: Option<ConfigCommands>) -> Result<String, ConfigCommandError> {
        let loaded = load_config(self.content.take());
        self.content = Some(save_config(&loaded));
        let outcome = run_config(Some(loaded), action, "/home/me/config.toml")?;
        if let Some(config) = outcome.save {
            self.content = Some(save_config(&config));
        }
        Ok(outcome.text)
    }

    fn load(&mut self) -> Config {
        let loaded = load_config(self.content.take());
        self.content = Some(save_config(&loaded));
        loaded
    }
}

#[test]
fn config_commands_persist_default_and_removed_sites() {
    let mut file = File { content: None };
    file.run(Some(ConfigCommands::SetSite {
        name: "prod".to_string(),
        api_key: "key-prod".to_string(),
        domain: "mg.example.com".to_string(),
        region: "eu".to_string(),
        default: true,
    }))
    .unwrap();
    file.run(Some(ConfigCommands::SetSite {
        name: "dev".to_string(),
        api_key: "key-dev".to_string(),
        domain: "dev.example.com".to_string(),
        region: "us".to_string(),
        default: false,
    }))
    .unwrap();

    let cfg = file.load();
    assert_eq!(cfg.default_site.as_deref(), Some("prod"));
    assert_eq!(cfg.sites.get("prod").unwrap().region, Region::Eu);
    assert_eq!(cfg.sites.get("dev").unwrap().domain, "dev.example.com");

    file.run(Some(ConfigCommands::Default { name: "dev".to_string() })).unwrap();
    assert_eq!(file.load().default_site.as_deref(), Some("dev"));

    file.run(Some(ConfigCommands::Remove { name: "prod".to_string() })).unwrap();
    let cfg = file.load();
    assert!(!cfg.sites.contains_key("prod"));
    assert_eq!(cfg.default_site.as_deref(), Some("dev"));
}

fn message(error: ConfigCommandError) -> String {
    match error {
        ConfigCommandError::Config(error) => error.message(),
        ConfigCommandError::NotLoaded => "not loaded".to_string(),
    }
}

#[test]
fn config_commands_handle_list_path_missing_remove_and_bad_default() {
    let mut file = File { content: None };
    file.run(None).unwrap();
    file.run(Some(ConfigCommands::List)).unwrap();
    file.run(Some(ConfigCommands::Path)).unwrap();

    file.run(Some(ConfigCommands::Remove { name: "missing".to_string() })).unwrap();
    assert!(file.load().sites.is_empty());

    let err = file.run(Some(ConfigCommands::Default { name: "missing".to_string() })).unwrap_err();
    assert!(message(err).contains("Site 'missing' not found"));
}

#[test]
fn errors_say_what_is_available() {
    let mut config = Config::default();
    assert_eq!(
        config.resolve_site(None).unwrap_err().message(),
        "No site selected and no default configured. Use -s <site> or set a default. Available sites: (none)"
    );
    config.set_site("b", site("kb", "b.com", Region::Us), false);
    config.set_site("a", site("ka", "a.com", Region::Us), false);
    assert_eq!(
        config.resolve_site(Some("c")).unwrap_err().message(),
        "Site 'c' not found. Available sites: a, b*"
    );
    assert_eq!(
        config.set_default("c").unwrap_err().message(),
        "Site 'c' not found. Available: a, b*"
    );
    assert_eq!(config.default_site.as_deref(), Some("b"));
    assert_eq!(
        parse_region("Ap").unwrap_err().message(),
        "Invalid region 'Ap'. Use 'us' or 'eu'."
    );
}

#[test]
fn a_legacy_key_without_a_domain_is_no_site() {
    let config = Config { api_key: Some("k".to_string()), ..Default::default() };
    assert!(config.resolve_site(None).is_err());
    let config = Config { domain: Some("d".to_string()), ..Default::default() };
    assert!(config.resolve_site(None).is_err());
}

#[test]
fn a_default_that_is_gone_does_not_fall_back_to_legacy_fields() {
    let config = Config {
        default_site: Some("gone".to_string()),
        api_key: Some("k".to_string()),
        domain: Some("d".to_string()),
        ..Default::default()
    };
    assert_eq!(
        config.resolve_site(None).unwrap_err().message(),
        "Site 'gone' not found. Available sites: (none)"
    );
}

#[test]
fn sites_are_listed_in_the_order_of_their_names() {
    let mut config = Config::default();
    for name in ["zeta", "Beta", "beta", "alpha", "b", "été"] {
        config.set_site(name, site("k", "d", Region::Us), name == "beta");
    }
    assert_eq!(config.list_sites(), "Beta, alpha, b, beta*, zeta, été");
    let mut sorted = config.sites.names();
    sorted.sort();
    assert_eq!(config.sites.names(), sorted);
    assert_eq!(config.sites.first_name().as_deref(), Some("Beta"));
}

#[test]
fn the_first_site_becomes_the_default_and_later_ones_do_not() {
    let mut config = Config::default();
    config.set_site("a", site("ka", "a.com", Region::Us), false);
    assert_eq!(config.default_site.as_deref(), Some("a"));
    config.set_site("b", site("kb", "b.com", Region::Us), false);
    assert_eq!(config.default_site.as_deref(), Some("a"));
    config.set_site("a", site("ka2", "a2.com", Region::Eu), false);
    assert_eq!(config.resolve_site(None).unwrap().api_key, "ka2");
    assert_eq!(config.resolve_site(Some("b")).unwrap().api_key, "kb");
}

#[test]
fn removing_the_last_site_leaves_no_default() {
    let mut config = Config::default();
    config.set_site("a", site("ka", "a.com", Region::Us), false);
    assert!(config.remove_site("a"));
    assert_eq!(config.default_site, None);
    assert!(config.sites.is_empty());
    assert_eq!(config.sites.first_name(), None);
    assert!(!config.remove_site("a"));
}

#[test]
fn removing_another_site_keeps_the_default() {
    let mut config = Config::default();
    config.set_site("a", site("ka", "a.com", Region::Us), true);
    config.set_site("b", site("kb", "b.com", Region::Us), false);
    assert!(!config.remove_site("c"));
    assert!(config.remove_site("b"));
    assert_eq!(config.default_site.as_deref(), Some("a"));
    assert!(config.resolve_site(Some("b")).is_err());
}

#[test]
fn removing_a_default_that_is_no_site_picks_another() {
    let mut config = Config::default();
    config.set_site("a", site("ka", "a.com", Region::Us), true);
    config.default_site = Some("gone".to_string());
    assert!(!config.remove_site("gone"));
    assert_eq!(config.default_site.as_deref(), Some("a"));
}

#[test]
fn saving_leaves_out_what_is_not_set() {
    let empty = save_config(&Config::default());
    assert_eq!(
        empty,
        StoredConfig { default_site: None, sites: None, api_key: None, domain: None, region: None }
    );
    let legacy = Config {
        api_key: Some("k".to_string()),
        domain: Some("d".to_string()),
        region: Region::Eu,
        ..Default::default()
    };
    assert_eq!(save_config(&legacy).region, Some(Region::Eu));
    assert_eq!(load_config(Some(save_config(&legacy))), legacy);
}

#[test]
fn a_stored_site_without_a_region_is_in_the_us() {
    let file = StoredConfig {
        default_site: None,
        sites: Some(vec![
            (
                "a".to_string(),
                StoredSite { api_key: "k".to_string(), domain: "d".to_string(), region: None },
            ),
            (
                "b".to_string(),
                StoredSite {
                    api_key: "k".to_string(),
                    domain: "d".to_string(),
                    region: Some(Region::Eu),
                },
            ),
        ]),
        api_key: None,
        domain: None,
        region: None,
    };
    let config = load_config(Some(file));
    assert_eq!(config.sites.get("a").unwrap().region, Region::Us);
    assert_eq!(config.sites.get("b").unwrap().region, Region::Eu);
    assert_eq!(config.default_site, None);
    assert!(is_default_region(&Region::Us));
    assert!(!is_default_region(&Region::Eu));
}

#[test]
fn loading_gives_back_what_was_saved() {
    let mut config = Config {
        api_key: Some("k".to_string()),
        domain: Some("d".to_string()),
        region: Region::Eu,
        ..Default::default()
    };
    config.set_site("z", site("kz", "z.com", Region::Eu), false);
    config.set_site("a", site("ka", "a.com", Region::Us), false);
    assert_eq!(load_config(Some(save_config(&config))), config);
}

#[test]
fn regions_are_read_in_capital_and_small_letters() {
    assert_eq!(parse_region("us").unwrap(), Region::Us);
    assert_eq!(parse_region("Us").unwrap(), Region::Us);
    assert_eq!(parse_region("EU").unwrap(), Region::Eu);
    assert!(parse_region("").is_err());
    assert!(parse_region("eu ").is_err());
    assert_eq!(region_from_lowercase("eu"), Some(Region::Eu));
    assert_eq!(region_from_lowercase("EU"), None);
}

#[test]
fn api_keys_are_cut_at_their_bytes() {
    assert_eq!(format_api_key(Some("")), "");
    assert_eq!(format_api_key(Some("12345678")), "********");
    assert_eq!(format_api_key(Some("123456789")), "1234...6789");
    assert_eq!(format_api_key(Some("éé")), "****");
    assert_eq!(format_api_key(Some("ééxxxéé")), "éé...éé");
    assert!(is_maskable("ééxxxéé"));
    assert!(!is_maskable("xéé-123456789"));
    assert!(is_maskable("xéé"));
}

#[test]
fn config_list_shows_all_sites() {
    let mut config = Config::default();
    config.set_site("b", site("key-123456789", "b.com", Region::Eu), true);
    config.set_site("a", site("short", "a.com", Region::Us), false);
    assert!(is_listable(&config));
    assert_eq!(
        config_list(&config, "/c.toml"),
        "Config file: /c.toml\n\n\
         a\n  domain:  a.com\n  api key: *****\n  region:  us\n\
         b *\n  domain:  b.com\n  api key: key-...6789\n  region:  eu\n"
    );
    config.set_site("c", site("xéé-123456789", "c.com", Region::Us), false);
    assert!(!is_listable(&config));
}

#[test]
fn config_list_shows_legacy_and_empty_configurations() {
    assert_eq!(
        config_list(&Config::default(), "/c.toml"),
        "Config file: /c.toml\n\nNo sites configured.\n\
         Add one with: mailgun config set <name> -k <key> -d <domain>\n"
    );
    let legacy = Config {
        api_key: Some("key-123456789".to_string()),
        domain: Some("d.com".to_string()),
        region: Region::Eu,
        ..Default::default()
    };
    assert!(is_listable(&legacy));
    assert_eq!(
        config_list(&legacy, "/c.toml"),
        "Config file: /c.toml\n\n(legacy single-site config)\n  domain:  d.com\n  \
         api key: key-...6789\n  region:  eu\n\n\
         Migrate with: mailgun config set <name> -k <key> -d <domain>\n"
    );
    let unlistable = Config {
        api_key: Some("xéé-123456789".to_string()),
        domain: Some("d.com".to_string()),
        ..Default::default()
    };
    assert!(!is_listable(&unlistable));
}

#[test]
fn config_commands_say_what_they_did() {
    let outcome = config_set(
        Config::default(),
        "prod",
        "k".to_string(),
        "d.com".to_string(),
        "EU",
        false,
        "/c.toml",
    )
    .unwrap();
    assert_eq!(outcome.text, "Site 'prod' (default) saved to /c.toml\n");
    let config = outcome.save.unwrap();
    assert_eq!(config.resolve_site(Some("prod")).unwrap().region, Region::Eu);

    let outcome = config_set_in_region(
        config,
        "dev",
        "k".to_string(),
        "d.com".to_string(),
        Region::Us,
        false,
        "/c.toml",
    );
    assert_eq!(outcome.text, "Site 'dev' saved to /c.toml\n");

    let outcome = config_set_default(outcome.save.unwrap(), "dev").unwrap();
    assert_eq!(outcome.text, "Default site set to 'dev'\n");

    let outcome = config_remove(outcome.save.unwrap(), "dev");
    assert_eq!(outcome.text, "Site 'dev' removed\n");
    let config = outcome.save.unwrap();
    assert_eq!(config.default_site.as_deref(), Some("prod"));

    let outcome = config_remove(config, "dev");
    assert_eq!(outcome.text, "Site 'dev' not found\n");
    assert!(outcome.save.is_none());
}

#[test]
fn an_unknown_region_saves_nothing() {
    let err = config_set(
        Config::default(),
        "prod",
        "k".to_string(),
        "d.com".to_string(),
        "ap",
        true,
        "/c.toml",
    )
    .unwrap_err();
    assert_eq!(message(err), "Invalid region 'ap'. Use 'us' or 'eu'.");
}

#[test]
fn a_configuration_that_cannot_be_loaded_can_only_be_replaced() {
    assert!(matches!(run_config(None, None, "/c.toml"), Err(ConfigCommandError::NotLoaded)));
    assert!(matches!(
        run_config(None, Some(ConfigCommands::Remove { name: "a".to_string() }), "/c.toml"),
        Err(ConfigCommandError::NotLoaded)
    ));
    assert!(matches!(
        run_config(None, Some(ConfigCommands::Default { name: "a".to_string() }), "/c.toml"),
        Err(ConfigCommandError::NotLoaded)
    ));
    let outcome = run_config(None, Some(ConfigCommands::Path), "/c.toml").unwrap();
    assert_eq!(outcome.text, "/c.toml\n");
    assert!(outcome.save.is_none());
    let outcome = run_config(
        None,
        Some(ConfigCommands::SetSite {
            name: "a".to_string(),
            api_key: "k".to_string(),
            domain: "d".to_string(),
            region: "us".to_string(),
            default: false,
        }),
        "/c.toml",
    )
    .unwrap();
    assert_eq!(outcome.save.unwrap().default_site.as_deref(), Some("a"));
}

#[test]
fn the_configuration_file_is_in_the_configuration_directory() {
    assert_eq!(config_path(true), vec!["mailgun-cli", "config.toml"]);
    assert_eq!(config_path(false), vec![".", "mailgun-cli", "config.toml"]);
}

#[test]
fn a_client_has_the_credentials_of_its_site() {
    let mut config = Config::default();
    config.set_site("a", site("ka", "a.com", Region::Eu), true);
    let client = get_client(&config, None).unwrap();
    let request = client.list_bounces(7);
    assert_eq!(request.url, "https://api.eu.mailgun.net/v3/a.com/bounces?limit=7");
    assert_eq!(request.user, "api");
    assert_eq!(request.password, "ka");
    assert!(get_client(&config, Some("b")).is_err());
}

#[test]
fn removing_a_new_site_restores_the_configuration() {
    let mut config = Config::default();
    config.set_site("a", site("ka", "a.com", Region::Us), true);
    let before = load_config(Some(save_config(&config)));
    config.set_site("b", site("kb", "b.com", Region::Eu), false);
    assert_ne!(config, before);
    assert!(config.remove_site("b"));
    assert_eq!(config, before);
}

#[test]
fn keys_that_differ_in_the_middle_are_listed_alike() {
    assert_eq!(format_api_key(Some("key-aaaa6789")), format_api_key(Some("key-bbbbbbb6789")));
    assert_eq!(format_api_key(Some("abc")), format_api_key(Some("xyz")));
    assert_ne!(format_api_key(Some("key-aaaa6789")), format_api_key(Some("key-aaaa6780")));
}

#[test]
fn every_configuration_command_leaves_a_default_that_resolves() {
    let mut config = Config::default();
    for name in ["c", "a", "b"] {
        config.set_site(name, site(name, "d.com", Region::Us), false);
        assert_eq!(config.resolve_site(None).unwrap().api_key, "c");
    }
    config.set_default("b").unwrap();
    assert_eq!(config.resolve_site(None).unwrap().api_key, "b");
    assert!(config.remove_site("b"));
    assert_eq!(config.resolve_site(None).unwrap().api_key, "a");
    assert!(config.remove_site("a"));
    assert_eq!(config.resolve_site(None).unwrap().api_key, "c");
}

#[test]
fn removing_the_only_site_restores_an_empty_configuration() {
    for set_default in [false, true] {
        let mut config = Config::default();
        let only = site("ka", "a.com", Region::Us);
        config.set_site("a", only.clone(), set_default);
        assert_eq!(config.sites.get("a"), Some(&only));
        assert!(config.remove_site("a"));
        assert_eq!(config, Config::default());
    }
}
