//! The commands that show and change the configuration.

use vstd::prelude::*;
use vstd::utf8::{
    decode_utf8, decode_utf8_encode_utf8, decode_utf8_split, encode_scalar, encode_utf8,
    encode_utf8_decode_utf8, encode_utf8_first_scalar, encode_utf8_valid_utf8, is_ascii_chars,
    is_char_boundary, pop_first_scalar, valid_utf8_split,
};

use crate::config::{
    commands_keep_settled, only_two_names_are_regions, parse_region, region_called, region_label,
    region_names_are_distinct, Config, ConfigError, ConfigErrorView, ConfigView, Region, SiteConfig, SiteView,
};
use crate::sites::{in_order, sorted_names, sorted_names_lists_all};
use crate::text::{
    ascii_lowercase, opt_slice_text, repeat, repeated, texts, unicode_lowercase,
};

verus! {

/// A command on the configuration.
#[derive(Debug, PartialEq)]
pub enum ConfigCommands {
    /// Adds or updates the credentials of a site.
    SetSite { name: String, api_key: String, domain: String, region: String, default: bool },
    /// Lists the configured sites.
    List,
    /// Sets the default site.
    Default { name: String },
    /// Takes a site out.
    Remove { name: String },
    /// Shows where the configuration is kept.
    Path,
}

/// Whether a key can be cut after its first and before its last four bytes, if it is long enough
/// to be cut.
pub open spec fn maskable(key: Seq<char>) -> bool {
    let bytes = encode_utf8(key);
    bytes.len() > 8 ==> is_char_boundary(bytes, 4) && is_char_boundary(bytes, bytes.len() - 4)
}

/// A key as it is listed: its first and last four bytes, or only stars where it is short.
pub open spec fn masked(key: Option<Seq<char>>) -> Seq<char> {
    match key {
        None => "(not set)"@,
        Some(key) => {
            let bytes = encode_utf8(key);
            let n = bytes.len() as int;
            if n > 8 {
                decode_utf8(bytes.subrange(0, 4)) + "..."@ + decode_utf8(bytes.subrange(n - 4, n))
            } else {
                repeated('*', bytes.len())
            }
        },
    }
}

/// Whether `format_api_key` can show a key.
pub fn is_maskable(key: &str) -> (r: bool)
    ensures
        r == maskable(key@),
{
    let n: usize = key.as_bytes().len();
    n <= 8 || (key.is_char_boundary(4) && key.is_char_boundary(n - 4))
}

/// A key as it is listed: its first and last four bytes, or only stars where it is short.
pub fn format_api_key(api_key: Option<&str>) -> (r: String)
    requires
        api_key is Some ==> maskable(api_key->0@),
    ensures
        r@ == masked(opt_slice_text(api_key)),
{
    let key = match api_key {
        Some(key) => key,
        None => return "(not set)".to_string(),
    };
    let n: usize = key.as_bytes().len();
    if n > 8 {
        let (head, _) = key.split_at(4);
        let (_, tail) = key.split_at(n - 4);
        proof {
            encode_utf8_decode_utf8(head@);
            encode_utf8_decode_utf8(tail@);
        }
        return head.to_string().concat("...").concat(tail);
    }
    proof {
        reveal_strlit("*");
    }
    repeat("*", n)
}

/// A listed key tells nothing but its first and last four bytes, and of a short key nothing but
/// its length: keys that agree in these are listed alike.
pub proof fn masked_key_hides_the_middle(a: Seq<char>, b: Seq<char>)
    requires
        encode_utf8(a).len() > 8 <==> encode_utf8(b).len() > 8,
        encode_utf8(a).len() > 8 ==> encode_utf8(a).take(4) == encode_utf8(b).take(4),
        encode_utf8(a).len() > 8 ==> encode_utf8(a).skip(encode_utf8(a).len() - 4) == encode_utf8(
            b,
        ).skip(encode_utf8(b).len() - 4),
        encode_utf8(a).len() <= 8 ==> encode_utf8(a).len() == encode_utf8(b).len(),
    ensures
        masked(Some(a)) == masked(Some(b)),
{
    let x = encode_utf8(a);
    let y = encode_utf8(b);
    if x.len() > 8 {
        assert(x.subrange(0, 4) =~= x.take(4));
        assert(y.subrange(0, 4) =~= y.take(4));
        assert(x.subrange(x.len() - 4, x.len() as int) =~= x.skip(x.len() - 4));
        assert(y.subrange(y.len() - 4, y.len() as int) =~= y.skip(y.len() - 4));
    }
}

/// The lines of one site.
pub open spec fn site_text(config: ConfigView, name: Seq<char>) -> Seq<char> {
    let site = config.sites[name];
    name + if config.default_site == Some(name) {
        " *"@
    } else {
        seq![]
    } + "\n  domain:  "@ + site.domain + "\n  api key: "@ + masked(Some(site.api_key))
        + "\n  region:  "@ + site.region.name() + "\n"@
}

/// The lines of a list of sites.
pub open spec fn sites_text(config: ConfigView, names: Seq<Seq<char>>) -> Seq<char>
    decreases names.len(),
{
    if names.len() == 0 {
        seq![]
    } else {
        sites_text(config, names.drop_last()) + site_text(config, names.last())
    }
}

/// What the user reads of a configuration that is kept at `path`.
pub open spec fn config_text(config: ConfigView, path: Seq<char>) -> Seq<char> {
    "Config file: "@ + path + "\n\n"@ + if !config.sites.dom().is_empty() {
        sites_text(config, sorted_names(config.sites))
    } else {
        match (config.api_key, config.domain) {
            (Some(api_key), Some(domain)) => "(legacy single-site config)\n  domain:  "@ + domain
                + "\n  api key: "@ + masked(Some(api_key)) + "\n  region:  "@ + config.region.name()
                + "\n\nMigrate with: mailgun config set <name> -k <key> -d <domain>\n"@,
            _ =>
                "No sites configured.\nAdd one with: mailgun config set <name> -k <key> -d <domain>\n"@,
        }
    }
}

/// Whether all the keys that are listed can be shown.
pub open spec fn listable(config: ConfigView) -> bool {
    &&& forall|name: Seq<char>| #[trigger]
        config.sites.dom().contains(name) ==> maskable(config.sites[name].api_key)
    &&& config.sites.dom().is_empty() && config.api_key is Some && config.domain is Some
        ==> maskable(config.api_key->0)
}

/// Whether `config_list` can show a configuration.
pub fn is_listable(config: &Config) -> (r: bool)
    ensures
        r == listable(config@),
        config@.sites.dom().finite(),
{
    if config.sites.is_empty() {
        return match (&config.api_key, &config.domain) {
            (Some(api_key), Some(_)) => is_maskable(api_key.as_str()),
            _ => true,
        };
    }
    let names = config.sites.names();
    let mut i: usize = 0;
    while i < names.len()
        invariant
            i <= names@.len(),
            texts(names@).to_set() == config.sites@.dom(),
            forall|j: int|
                0 <= j < i ==> maskable(config.sites@[(#[trigger] names@[j])@].api_key),
        decreases names@.len() - i,
    {
        proof {
            assert(texts(names@)[i as int] == names@[i as int]@);
            assert(texts(names@).to_set().contains(names@[i as int]@));
        }
        if let Some(site) = config.sites.get(names[i].as_str()) {
            if !is_maskable(site.api_key.as_str()) {
                return false;
            }
        }
        i += 1;
    }
    proof {
        assert forall|name: Seq<char>| #[trigger] config@.sites.dom().contains(name) implies maskable(
            config@.sites[name].api_key,
        ) by {
            assert(texts(names@).to_set().contains(name));
            let k = choose|k: int| 0 <= k < texts(names@).len() && texts(names@)[k] == name;
            assert(names@[k]@ == name);
        }
    }
    true
}

fn format_site(config: &Config, name: &str, site: &SiteConfig) -> (r: String)
    requires
        config@.sites.dom().contains(name@),
        site@ == config@.sites[name@],
        maskable(site.api_key@),
    ensures
        r@ == site_text(config@, name@),
{
    let marker = if config.is_default(name) {
        " *".to_string()
    } else {
        String::new()
    };
    name.to_string().concat(marker.as_str()).concat("\n  domain:  ").concat(
        site.domain.as_str(),
    ).concat("\n  api key: ").concat(format_api_key(Some(site.api_key.as_str())).as_str()).concat(
        "\n  region:  ",
    ).concat(region_label(site.region)).concat("\n")
}

/// What the user reads of a configuration that is kept at `path`.
pub fn config_list(config: &Config, path: &str) -> (r: String)
    requires
        listable(config@),
    ensures
        r@ == config_text(config@, path@),
        config@.sites.dom().finite(),
        in_order(sorted_names(config@.sites)),
        sorted_names(config@.sites).to_set() == config@.sites.dom(),
{
    let head = "Config file: ".to_string().concat(path).concat("\n\n");
    let empty = config.sites.is_empty();
    proof {
        sorted_names_lists_all(config@.sites);
    }
    if empty {
        let rest = match (&config.api_key, &config.domain) {
            (Some(api_key), Some(domain)) => "(legacy single-site config)\n  domain:  ".to_string().concat(
            domain.as_str()).concat("\n  api key: ").concat(
                format_api_key(Some(api_key.as_str())).as_str(),
            ).concat("\n  region:  ").concat(region_label(config.region)).concat(
                "\n\nMigrate with: mailgun config set <name> -k <key> -d <domain>\n",
            ),
            _ =>
                "No sites configured.\nAdd one with: mailgun config set <name> -k <key> -d <domain>\n".to_string(),
        };
        return head.concat(rest.as_str());
    }
    let names = config.sites.names();
    let mut out = String::new();
    let mut i: usize = 0;
    let ghost sorted = texts(names@);
    assert(sorted.take(0) =~= seq![]);
    while i < names.len()
        invariant
            i <= names@.len(),
            sorted == texts(names@),
            sorted.to_set() == config.sites@.dom(),
            listable(config@),
            out@ == sites_text(config@, sorted.take(i as int)),
        decreases names@.len() - i,
    {
        proof {
            assert(sorted[i as int] == names@[i as int]@);
            assert(sorted.to_set().contains(names@[i as int]@));
            assert(config@.sites.dom().contains(names@[i as int]@));
            assert(sorted.take(i + 1).drop_last() =~= sorted.take(i as int));
        }
        if let Some(site) = config.sites.get(names[i].as_str()) {
            out.append(format_site(config, names[i].as_str(), site).as_str());
        }
        i += 1;
    }
    assert(sorted.take(names@.len() as int) =~= sorted);
    head.concat(out.as_str())
}

/// What a command on the configuration leads to.
#[derive(Debug)]
pub struct ConfigOutcome {
    /// The configuration to save, before anything is shown.
    pub save: Option<Config>,
    /// What the user reads.
    pub text: String,
}

/// What a `ConfigOutcome` says.
#[verifier::ext_equal]
pub struct ConfigOutcomeView {
    pub save: Option<ConfigView>,
    pub text: Seq<char>,
}

impl View for ConfigOutcome {
    type V = ConfigOutcomeView;

    open spec fn view(&self) -> ConfigOutcomeView {
        ConfigOutcomeView {
            save: match self.save {
                Some(config) => Some(config@),
                None => None,
            },
            text: self.text@,
        }
    }
}

/// Whether the sites of the configuration to save, if there is one, are finitely many.
pub open spec fn saves_finite(outcome: ConfigOutcome) -> bool {
    outcome.save is Some ==> outcome.save->0@.sites.dom().finite()
}

/// Why a command on the configuration fails.
#[derive(Debug)]
pub enum ConfigCommandError {
    /// The configuration could not be loaded.
    NotLoaded,
    /// The command does not fit the configuration.
    Config(ConfigError),
}

/// What a `ConfigCommandError` says.
pub enum ConfigCommandErrorView {
    NotLoaded,
    Config(ConfigErrorView),
}

/// What a caller of a configuration command learns.
pub open spec fn command_result(
    r: Result<ConfigOutcome, ConfigCommandError>,
) -> Result<ConfigOutcomeView, ConfigCommandErrorView> {
    match r {
        Ok(outcome) => Ok(outcome@),
        Err(ConfigCommandError::NotLoaded) => Err(ConfigCommandErrorView::NotLoaded),
        Err(ConfigCommandError::Config(error)) => Err(ConfigCommandErrorView::Config(error@)),
    }
}

/// What setting a site leads to, where `lower` is the name of the region in small letters.
pub open spec fn set_outcome(
    config: ConfigView,
    name: Seq<char>,
    api_key: Seq<char>,
    domain: Seq<char>,
    region: Seq<char>,
    lower: Seq<char>,
    default: bool,
    path: Seq<char>,
) -> Result<ConfigOutcomeView, ConfigCommandErrorView> {
    match region_called(lower) {
        Some(known) => {
            let after = config.with_site(
                name,
                SiteView { api_key, domain, region: known },
                default,
            );
            Ok(
                ConfigOutcomeView {
                    save: Some(after),
                    text: "Site '"@ + name + if after.default_site == Some(name) {
                        "' (default) saved to "@
                    } else {
                        "' saved to "@
                    } + path + "\n"@,
                },
            )
        },
        None => Err(ConfigCommandErrorView::Config(ConfigErrorView::InvalidRegion { region })),
    }
}

/// What making a site the default leads to.
pub open spec fn default_outcome(
    config: ConfigView,
    name: Seq<char>,
) -> Result<ConfigOutcomeView, ConfigCommandErrorView> {
    if config.sites.dom().contains(name) {
        Ok(
            ConfigOutcomeView {
                save: Some(config.with_default(name)),
                text: "Default site set to '"@ + name + "'\n"@,
            },
        )
    } else {
        Err(
            ConfigCommandErrorView::Config(
                ConfigErrorView::DefaultNotFound { name, available: config.listing() },
            ),
        )
    }
}

/// What taking a site out leads to. Nothing is saved where there is none of that name.
pub open spec fn remove_outcome(config: ConfigView, name: Seq<char>) -> ConfigOutcomeView {
    if config.sites.dom().contains(name) {
        ConfigOutcomeView {
            save: Some(config.without_site(name)),
            text: "Site '"@ + name + "' removed\n"@,
        }
    } else {
        ConfigOutcomeView { save: None, text: "Site '"@ + name + "' not found\n"@ }
    }
}

/// Sets a site of a known region.
pub fn config_set_in_region(
    config: Config,
    name: &str,
    api_key: String,
    domain: String,
    region: Region,
    default: bool,
    path: &str,
) -> (r: ConfigOutcome)
    ensures
        set_outcome(config@, name@, api_key@, domain@, region.name(), region.name(), default, path@)
            == Ok::<ConfigOutcomeView, ConfigCommandErrorView>(r@),
        saves_finite(r),
{
    proof {
        region_names_are_distinct();
    }
    let mut config = config;
    config.set_site(name, SiteConfig { api_key, domain, region }, default);
    let marker = if config.is_default(name) {
        "' (default) saved to "
    } else {
        "' saved to "
    };
    let text = "Site '".to_string().concat(name).concat(marker).concat(path).concat("\n");
    ConfigOutcome { save: Some(config), text }
}

/// Adds or updates the credentials of a site.
pub fn config_set(
    config: Config,
    name: &str,
    api_key: String,
    domain: String,
    region: &str,
    default: bool,
    path: &str,
) -> (r: Result<ConfigOutcome, ConfigCommandError>)
    ensures
        command_result(r) == set_outcome(
            config@,
            name@,
            api_key@,
            domain@,
            region@,
            unicode_lowercase(region@),
            default,
            path@,
        ),
        is_ascii_chars(region@) ==> command_result(r) == set_outcome(
            config@,
            name@,
            api_key@,
            domain@,
            region@,
            ascii_lowercase(region@),
            default,
            path@,
        ),
        r is Ok ==> saves_finite(r->Ok_0),
{
    proof {
        region_names_are_distinct();
    }
    match parse_region(region) {
        Ok(known) => Ok(config_set_in_region(config, name, api_key, domain, known, default, path)),
        Err(error) => Err(ConfigCommandError::Config(error)),
    }
}

/// Sets the default site.
pub fn config_set_default(config: Config, name: &str) -> (r: Result<
    ConfigOutcome,
    ConfigCommandError,
>)
    ensures
        command_result(r) == default_outcome(config@, name@),
        config@.sites.dom().finite(),
        r is Ok ==> saves_finite(r->Ok_0),
{
    let mut config = config;
    match config.set_default(name) {
        Ok(()) => Ok(
            ConfigOutcome {
                save: Some(config),
                text: "Default site set to '".to_string().concat(name).concat("'\n"),
            },
        ),
        Err(error) => Err(ConfigCommandError::Config(error)),
    }
}

/// Takes a site out.
pub fn config_remove(config: Config, name: &str) -> (r: ConfigOutcome)
    ensures
        r@ == remove_outcome(config@, name@),
        config@.sites.dom().finite(),
        saves_finite(r),
{
    let mut config = config;
    if config.remove_site(name) {
        ConfigOutcome {
            save: Some(config),
            text: "Site '".to_string().concat(name).concat("' removed\n"),
        }
    } else {
        ConfigOutcome {
            save: None,
            text: "Site '".to_string().concat(name).concat("' not found\n"),
        }
    }
}

/// The region that a command names, or nothing.
pub open spec fn region_argument(action: Option<ConfigCommands>) -> Seq<char> {
    match action {
        Some(ConfigCommands::SetSite { region, .. }) => region@,
        _ => seq![],
    }
}

/// What a command on the configuration leads to. `loaded` is missing where the configuration
/// could not be loaded; setting a site then starts from an empty one. `lower` is the name of the
/// region of the command in small letters.
pub open spec fn config_outcome(
    loaded: Option<ConfigView>,
    action: Option<ConfigCommands>,
    path: Seq<char>,
    lower: Seq<char>,
) -> Result<ConfigOutcomeView, ConfigCommandErrorView> {
    match action {
        Some(ConfigCommands::Path) => Ok(ConfigOutcomeView { save: None, text: path + "\n"@ }),
        Some(ConfigCommands::SetSite { name, api_key, domain, region, default }) => set_outcome(
            match loaded {
                Some(config) => config,
                None => ConfigView::unset(),
            },
            name@,
            api_key@,
            domain@,
            region@,
            lower,
            default,
            path,
        ),
        _ => match loaded {
            None => Err(ConfigCommandErrorView::NotLoaded),
            Some(config) => match action {
                Some(ConfigCommands::Default { name }) => default_outcome(config, name@),
                Some(ConfigCommands::Remove { name }) => Ok(remove_outcome(config, name@)),
                _ => Ok(ConfigOutcomeView { save: None, text: config_text(config, path) }),
            },
        },
    }
}

/// The view of a configuration that may be missing.
pub open spec fn opt_config(config: Option<Config>) -> Option<ConfigView> {
    match config {
        Some(config) => Some(config@),
        None => None,
    }
}

/// Whether an action shows the whole configuration.
pub open spec fn lists(action: Option<ConfigCommands>) -> bool {
    action is None || action == Some(ConfigCommands::List)
}

/// Runs a command on the configuration that is kept at `path`. `loaded` is missing where the
/// configuration could not be loaded.
pub fn run_config(loaded: Option<Config>, action: Option<ConfigCommands>, path: &str) -> (r: Result<
    ConfigOutcome,
    ConfigCommandError,
>)
    requires
        lists(action) && loaded is Some ==> listable(loaded->0@),
    ensures
        command_result(r) == config_outcome(
            opt_config(loaded),
            action,
            path@,
            unicode_lowercase(region_argument(action)),
        ),
        is_ascii_chars(region_argument(action)) ==> command_result(r) == config_outcome(
            opt_config(loaded),
            action,
            path@,
            ascii_lowercase(region_argument(action)),
        ),
        r is Ok ==> saves_finite(r->Ok_0),
        lists(action) && loaded is Some ==> loaded->0@.sites.dom().finite(),
{
    match action {
        Some(ConfigCommands::Path) => {
            return Ok(ConfigOutcome { save: None, text: path.to_string().concat("\n") });
        },
        Some(ConfigCommands::SetSite { name, api_key, domain, region, default }) => {
            let config = match loaded {
                Some(config) => config,
                None => Config::default(),
            };
            return config_set(
                config,
                name.as_str(),
                api_key,
                domain,
                region.as_str(),
                default,
                path,
            );
        },
        Some(ConfigCommands::Default { name }) => match loaded {
            Some(config) => config_set_default(config, name.as_str()),
            None => Err(ConfigCommandError::NotLoaded),
        },
        Some(ConfigCommands::Remove { name }) => match loaded {
            Some(config) => Ok(config_remove(config, name.as_str())),
            None => Err(ConfigCommandError::NotLoaded),
        },
        Some(ConfigCommands::List) | None => match loaded {
            Some(config) => Ok(ConfigOutcome { save: None, text: config_list(&config, path) }),
            None => Err(ConfigCommandError::NotLoaded),
        },
    }
}

/// A command that changes a settled configuration leaves a settled one to save: the default is
/// always one of the sites, and there is one as long as there is a site.
pub proof fn commands_save_settled(
    loaded: Option<ConfigView>,
    action: Option<ConfigCommands>,
    path: Seq<char>,
    lower: Seq<char>,
)
    requires
        loaded is Some ==> loaded->0.settled() && loaded->0.sites.dom().finite(),
    ensures
        config_outcome(loaded, action, path, lower) matches Ok(outcome) ==> (
        outcome.save matches Some(config) ==> config.settled() && config.sites.dom().finite()),
{
    let config = match loaded {
        Some(config) => config,
        None => ConfigView::unset(),
    };
    match action {
        Some(ConfigCommands::SetSite { name, api_key, domain, region, default }) => {
            if let Some(known) = region_called(lower) {
                commands_keep_settled(
                    config,
                    name@,
                    SiteView { api_key: api_key@, domain: domain@, region: known },
                    default,
                );
            }
        },
        Some(ConfigCommands::Default { name }) => {
            commands_keep_settled(
                config,
                name@,
                SiteView { api_key: seq![], domain: seq![], region: Region::Us },
                false,
            );
        },
        Some(ConfigCommands::Remove { name }) => {
            commands_keep_settled(
                config,
                name@,
                SiteView { api_key: seq![], domain: seq![], region: Region::Us },
                false,
            );
        },
        _ => {},
    }
}

/// A site that was set is what the saved configuration resolves its name to.
pub proof fn set_command_is_resolved(
    loaded: Option<ConfigView>,
    name: String,
    api_key: String,
    domain: String,
    region: String,
    default: bool,
    path: Seq<char>,
    lower: Seq<char>,
)
    ensures
        config_outcome(
            loaded,
            Some(ConfigCommands::SetSite { name, api_key, domain, region, default }),
            path,
            lower,
        ) matches Ok(outcome) ==> outcome.save is Some && outcome.save->0.resolved(Some(name@)) == Ok::<
            SiteView,
            ConfigErrorView,
        >(SiteView { api_key: api_key@, domain: domain@, region: region_called(lower)->0 }),
{
}

proof fn lemma_encoded_in_parts(a: Seq<char>, b: Seq<char>)
    ensures
        encode_utf8(a + b) == encode_utf8(a) + encode_utf8(b),
        is_char_boundary(encode_utf8(a + b), encode_utf8(a).len() as int),
    decreases a.len(),
{
    let bytes = encode_utf8(a + b);
    encode_utf8_valid_utf8(a + b);
    if a.len() == 0 {
        assert(a + b =~= b);
        assert(encode_utf8(a) + encode_utf8(b) =~= encode_utf8(b));
    } else {
        let rest = a.drop_first();
        lemma_encoded_in_parts(rest, b);
        assert((a + b).drop_first() =~= rest + b);
        assert((a + b)[0] == a[0]);
        let first = encode_scalar(a[0] as u32);
        assert(bytes =~= first + encode_utf8(rest + b));
        assert(first + (encode_utf8(rest) + encode_utf8(b)) =~= (first + encode_utf8(rest))
            + encode_utf8(b));
        encode_utf8_first_scalar(a + b);
        assert(pop_first_scalar(bytes) =~= encode_utf8(rest + b));
        assert(encode_utf8(a).len() == first.len() + encode_utf8(rest).len());
    }
}

/// A key of more than eight bytes whose first and last four bytes are whole characters is listed
/// as these, with an ellipsis between them.
pub proof fn a_long_key_is_listed_by_its_ends(
    start: Seq<char>,
    middle: Seq<char>,
    end: Seq<char>,
)
    requires
        encode_utf8(start).len() == 4,
        encode_utf8(end).len() == 4,
        encode_utf8(middle).len() > 0,
    ensures
        maskable(start + middle + end),
        masked(Some(start + middle + end)) == start + "..."@ + end,
{
    let key = start + middle + end;
    let bytes = encode_utf8(key);
    lemma_encoded_in_parts(start + middle, end);
    lemma_encoded_in_parts(start, middle);
    lemma_encoded_in_parts(start, middle + end);
    assert(start + (middle + end) =~= key);
    let n = bytes.len() as int;
    assert(bytes.subrange(0, 4) =~= encode_utf8(start));
    assert(bytes.subrange(n - 4, n) =~= encode_utf8(end));
    encode_utf8_decode_utf8(start);
    encode_utf8_decode_utf8(end);
}

/// A key of up to eight bytes can always be listed, as one star for each byte, and a key that is
/// not there is said to be not set.
pub proof fn a_short_key_is_listed_by_stars(key: Seq<char>)
    requires
        encode_utf8(key).len() <= 8,
    ensures
        maskable(key),
        masked(Some(key)).len() == encode_utf8(key).len(),
        forall|i: int| 0 <= i < masked(Some(key)).len() ==> #[trigger] masked(Some(key))[i] == '*',
        masked(None) == "(not set)"@,
{
}

/// A longer key that can be listed consists of four bytes of whole characters, something, and
/// four bytes of whole characters.
pub proof fn a_listed_key_has_whole_ends(key: Seq<char>) -> (parts: (
    Seq<char>,
    Seq<char>,
    Seq<char>,
))
    requires
        maskable(key),
        encode_utf8(key).len() > 8,
    ensures
        key == parts.0 + parts.1 + parts.2,
        encode_utf8(parts.0).len() == 4,
        encode_utf8(parts.2).len() == 4,
        encode_utf8(parts.1).len() == encode_utf8(key).len() - 8,
{
    let bytes = encode_utf8(key);
    let n = bytes.len() as int;
    encode_utf8_valid_utf8(key);
    encode_utf8_decode_utf8(key);
    valid_utf8_split(bytes, 4);
    valid_utf8_split(bytes, n - 4);
    decode_utf8_split(bytes, 4);
    decode_utf8_split(bytes, n - 4);
    let start = decode_utf8(bytes.subrange(0, 4));
    let tail = decode_utf8(bytes.subrange(4, n));
    let front = decode_utf8(bytes.subrange(0, n - 4));
    let end = decode_utf8(bytes.subrange(n - 4, n));
    decode_utf8_encode_utf8(bytes.subrange(0, 4));
    decode_utf8_encode_utf8(bytes.subrange(n - 4, n));
    decode_utf8_encode_utf8(bytes.subrange(0, n - 4));
    decode_utf8_encode_utf8(bytes.subrange(4, n));
    lemma_shorter_start(key, start, tail, front, end);
    let middle = front.skip(start.len() as int);
    assert(front =~= start + middle);
    lemma_encoded_in_parts(start, middle);
    (start, middle, end)
}

proof fn lemma_shorter_start(
    key: Seq<char>,
    start: Seq<char>,
    tail: Seq<char>,
    front: Seq<char>,
    end: Seq<char>,
)
    requires
        key == start + tail,
        key == front + end,
        encode_utf8(start).len() <= encode_utf8(front).len(),
    ensures
        start.len() <= front.len(),
        start == front.take(start.len() as int),
{
    if start.len() > front.len() {
        let more = start.skip(front.len() as int);
        assert(front =~= key.take(front.len() as int));
        assert(start =~= key.take(start.len() as int));
        assert(start =~= front + more);
        lemma_encoded_in_parts(front, more);
        encode_utf8_first_scalar(more);
        assert(encode_scalar(more[0] as u32).len() > 0);
        assert(encode_utf8(more).len() > 0);
    }
    assert(start =~= front.take(start.len() as int)) by {
        assert(start =~= key.take(start.len() as int));
        assert(front =~= key.take(front.len() as int));
    }
}

/// A site is listed with its name, a star where it is the default, and its own domain, key and
/// region under their labels.
pub proof fn a_site_is_listed_under_its_labels(config: ConfigView, name: Seq<char>)
    ensures
        ({
            let site = config.sites[name];
            let rest = "\n  domain:  "@ + site.domain + "\n  api key: "@ + masked(
                Some(site.api_key),
            ) + "\n  region:  "@ + site.region.name() + "\n"@;
            &&& config.default_site == Some(name) ==> site_text(config, name) == name + " *"@ + rest
            &&& config.default_site != Some(name) ==> site_text(config, name) == name + rest
        }),
{
    let site = config.sites[name];
    let rest = "\n  domain:  "@ + site.domain + "\n  api key: "@ + masked(Some(site.api_key))
        + "\n  region:  "@ + site.region.name() + "\n"@;
    if config.default_site == Some(name) {
        assert(site_text(config, name) =~= name + " *"@ + rest);
    } else {
        assert(site_text(config, name) =~= name + rest);
    }
}

/// Sites are listed one by one: the lines of two lists of names one after another are those of
/// the first and then those of the second.
pub proof fn sites_are_listed_one_by_one(
    config: ConfigView,
    a: Seq<Seq<char>>,
    b: Seq<Seq<char>>,
    name: Seq<char>,
)
    ensures
        sites_text(config, a + b) == sites_text(config, a) + sites_text(config, b),
        sites_text(config, seq![name]) == site_text(config, name),
        sites_text(config, seq![]).len() == 0,
    decreases b.len(),
{
    let one = seq![name];
    assert(one.drop_last() =~= seq![]);
    assert(sites_text(config, one.drop_last()) =~= seq![]);
    assert(sites_text(config, one) =~= site_text(config, name));
    if b.len() == 0 {
        assert(a + b =~= a);
        assert(sites_text(config, a) + sites_text(config, b) =~= sites_text(config, a));
    } else {
        sites_are_listed_one_by_one(config, a, b.drop_last(), name);
        assert((a + b).drop_last() =~= a + b.drop_last());
        assert((a + b).last() == b.last());
        assert(sites_text(config, a + b) =~= sites_text(config, a) + sites_text(config, b));
    }
}

/// A listing starts with where the configuration is kept. Then come all sites in ascending order,
/// or where there is none, the credentials of an older file, or how to add a site.
pub proof fn a_listing_shows_all_there_is(config: ConfigView, path: Seq<char>)
    ensures
        ({
            let head = "Config file: "@ + path + "\n\n"@;
            let older = config.api_key is Some && config.domain is Some;
            &&& !config.sites.dom().is_empty() ==> config_text(config, path) == head + sites_text(
                config,
                sorted_names(config.sites),
            )
            &&& config.sites.dom().is_empty() && older ==> config_text(config, path) == head
                + "(legacy single-site config)\n  domain:  "@ + config.domain->0
                + "\n  api key: "@ + masked(config.api_key) + "\n  region:  "@
                + config.region.name()
                + "\n\nMigrate with: mailgun config set <name> -k <key> -d <domain>\n"@
            &&& config.sites.dom().is_empty() && !older ==> config_text(config, path) == head
                + "No sites configured.\nAdd one with: mailgun config set <name> -k <key> -d <domain>\n"@
        }),
{
    let head = "Config file: "@ + path + "\n\n"@;
    if config.sites.dom().is_empty() && config.api_key is Some && config.domain is Some {
        assert(config_text(config, path) =~= head + "(legacy single-site config)\n  domain:  "@
            + config.domain->0 + "\n  api key: "@ + masked(config.api_key) + "\n  region:  "@
            + config.region.name()
            + "\n\nMigrate with: mailgun config set <name> -k <key> -d <domain>\n"@);
    }
}

/// A configuration can be listed exactly where each key that is listed can be: those of all
/// sites, or where there is no site, that of an older file with key and domain.
pub proof fn listing_needs_only_the_listed_keys(config: ConfigView)
    ensures
        !config.sites.dom().is_empty() ==> (listable(config) <==> forall|name: Seq<char>|
            config.sites.dom().contains(name) ==> maskable(
                (#[trigger] config.sites[name]).api_key,
            )),
        config.sites.dom().is_empty() && (config.api_key is None || config.domain is None)
            ==> listable(config),
        config.sites.dom().is_empty() && config.api_key is Some && config.domain is Some ==> (
        listable(config) <==> maskable(config.api_key->0)),
{
    if listable(config) {
        assert forall|name: Seq<char>| config.sites.dom().contains(name) implies maskable(
            (#[trigger] config.sites[name]).api_key,
        ) by {
            assert(config.sites.dom().contains(name));
        }
    }
    if forall|name: Seq<char>|
        config.sites.dom().contains(name) ==> maskable((#[trigger] config.sites[name]).api_key) {
        assert forall|name: Seq<char>| #[trigger] config.sites.dom().contains(name) implies maskable(
            config.sites[name].api_key,
        ) by {
            assert(maskable(config.sites[name].api_key));
        }
    }
}

/// An outcome is seen whole, and so is what a caller learns of a command.
pub proof fn outcomes_are_seen_whole(outcome: ConfigOutcome, error: ConfigError, config: Config)
    ensures
        outcome.save is Some ==> outcome@.save == Some(outcome.save->0@),
        outcome.save is None ==> outcome@.save is None,
        outcome@.text == outcome.text@,
        command_result(Ok(outcome)) == Ok::<ConfigOutcomeView, ConfigCommandErrorView>(outcome@),
        command_result(Err(ConfigCommandError::NotLoaded)) == Err::<
            ConfigOutcomeView,
            ConfigCommandErrorView,
        >(ConfigCommandErrorView::NotLoaded),
        command_result(Err(ConfigCommandError::Config(error))) == Err::<
            ConfigOutcomeView,
            ConfigCommandErrorView,
        >(ConfigCommandErrorView::Config(error@)),
        opt_config(Some(config)) == Some(config@),
        opt_config(None) is None,
{
}

/// Setting a site saves the configuration with exactly that site set, and says so, and where the
/// site is now the default, that it is. A name that is no region's saves nothing and is told.
pub proof fn setting_saves_the_site(
    config: ConfigView,
    name: Seq<char>,
    api_key: Seq<char>,
    domain: Seq<char>,
    region: Seq<char>,
    lower: Seq<char>,
    default: bool,
    path: Seq<char>,
)
    ensures
        ({
            let r = set_outcome(config, name, api_key, domain, region, lower, default, path);
            let known = if lower == "us"@ {
                Region::Us
            } else {
                Region::Eu
            };
            &&& lower != "us"@ && lower != "eu"@ ==> r == Err::<
                ConfigOutcomeView,
                ConfigCommandErrorView,
            >(ConfigCommandErrorView::Config(ConfigErrorView::InvalidRegion { region }))
            &&& lower == "us"@ || lower == "eu"@ ==> {
                let after = config.with_site(
                    name,
                    SiteView { api_key, domain, region: known },
                    default,
                );
                &&& r is Ok
                &&& r->Ok_0.save == Some(after)
                &&& after.default_site == Some(name) ==> r->Ok_0.text == "Site '"@ + name
                    + "' (default) saved to "@ + path + "\n"@
                &&& after.default_site != Some(name) ==> r->Ok_0.text == "Site '"@ + name
                    + "' saved to "@ + path + "\n"@
            }
        }),
{
    only_two_names_are_regions(lower);
}

/// Choosing a default and taking a site out save exactly that change and say so. Where there is
/// no site of that name nothing is saved: choosing it fails with the sites there are, and taking
/// it out says that it was not found.
pub proof fn choosing_and_removing_need_the_site(config: ConfigView, name: Seq<char>)
    ensures
        config.sites.dom().contains(name) ==> {
            &&& default_outcome(config, name) is Ok
            &&& default_outcome(config, name)->Ok_0.save == Some(config.with_default(name))
            &&& default_outcome(config, name)->Ok_0.text == "Default site set to '"@ + name + "'\n"@
            &&& remove_outcome(config, name).save == Some(config.without_site(name))
            &&& remove_outcome(config, name).text == "Site '"@ + name + "' removed\n"@
        },
        !config.sites.dom().contains(name) ==> {
            &&& default_outcome(config, name) == Err::<ConfigOutcomeView, ConfigCommandErrorView>(
                ConfigCommandErrorView::Config(
                    ConfigErrorView::DefaultNotFound { name, available: config.listing() },
                ),
            )
            &&& remove_outcome(config, name).save is None
            &&& remove_outcome(config, name).text == "Site '"@ + name + "' not found\n"@
        },
{
}

/// Each command does what it is called: it shows the path, lists the sites, chooses a default,
/// takes a site out or sets one. Only setting a site and showing the path work where the
/// configuration could not be loaded; setting then starts from nothing.
pub proof fn commands_do_what_they_are_called(
    loaded: Option<ConfigView>,
    config: ConfigView,
    name: String,
    api_key: String,
    domain: String,
    region: String,
    default: bool,
    path: Seq<char>,
    lower: Seq<char>,
)
    ensures
        ({
            let set = Some(ConfigCommands::SetSite { name, api_key, domain, region, default });
            let choose_default = Some(ConfigCommands::Default { name });
            let remove = Some(ConfigCommands::Remove { name });
            let list = Some(ConfigCommands::List);
            let show = Some(ConfigCommands::Path);
            let failed = Err::<ConfigOutcomeView, ConfigCommandErrorView>(
                ConfigCommandErrorView::NotLoaded,
            );
            &&& config_outcome(loaded, show, path, lower) == Ok::<
                ConfigOutcomeView,
                ConfigCommandErrorView,
            >(ConfigOutcomeView { save: None, text: path + "\n"@ })
            &&& config_outcome(Some(config), set, path, lower) == set_outcome(
                config,
                name@,
                api_key@,
                domain@,
                region@,
                lower,
                default,
                path,
            )
            &&& config_outcome(None, set, path, lower) == config_outcome(
                Some(ConfigView::unset()),
                set,
                path,
                lower,
            )
            &&& config_outcome(Some(config), choose_default, path, lower) == default_outcome(
                config,
                name@,
            )
            &&& config_outcome(Some(config), remove, path, lower) == Ok::<
                ConfigOutcomeView,
                ConfigCommandErrorView,
            >(remove_outcome(config, name@))
            &&& config_outcome(Some(config), list, path, lower) == Ok::<
                ConfigOutcomeView,
                ConfigCommandErrorView,
            >(ConfigOutcomeView { save: None, text: config_text(config, path) })
            &&& config_outcome(loaded, None, path, lower) == config_outcome(
                loaded,
                list,
                path,
                lower,
            )
            &&& config_outcome(None, choose_default, path, lower) == failed
            &&& config_outcome(None, remove, path, lower) == failed
            &&& config_outcome(None, list, path, lower) == failed
            &&& region_argument(set) == region@
            &&& lists(None) && lists(list)
            &&& !lists(set) && !lists(choose_default) && !lists(remove) && !lists(show)
        }),
{
}

} // verus!
