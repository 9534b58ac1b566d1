//! The configuration: named sites, the default site, and the single site of older files.

use vstd::prelude::*;
use vstd::utf8::is_ascii_chars;

use crate::sites::{in_order, sorted_names, sorted_names_lists_all, Sites};
use crate::text::{
    ascii_lowercase, join, joined, opt_slice_text, opt_text, same_text, text_before, texts,
    to_lowercase, unicode_lowercase,
};

verus! {

/// The Mailgun region that holds an account.
#[derive(Debug, Clone, Copy, PartialEq, Eq, Structural)]
pub enum Region {
    Us,
    Eu,
}

impl Default for Region {
    fn default() -> (r: Self)
        ensures
            r == Region::Us,
    {
        Region::Us
    }
}

impl Region {
    /// The address that the requests of a region start from.
    pub open spec fn base(self) -> Seq<char> {
        match self {
            Region::Us => "https://api.mailgun.net/v3"@,
            Region::Eu => "https://api.eu.mailgun.net/v3"@,
        }
    }

    /// The name of a region in commands and listings.
    pub open spec fn name(self) -> Seq<char> {
        match self {
            Region::Us => "us"@,
            Region::Eu => "eu"@,
        }
    }

    /// The address that the requests of this region start from.
    pub fn base_url(&self) -> (r: &'static str)
        ensures
            r@ == self.base(),
    {
        match self {
            Region::Us => "https://api.mailgun.net/v3",
            Region::Eu => "https://api.eu.mailgun.net/v3",
        }
    }
}

/// Whether a region is the one that stands for an omitted region.
pub fn is_default_region(region: &Region) -> (r: bool)
    ensures
        r == (*region == Region::Us),
{
    *region == Region::default()
}

/// The name of a region.
pub fn region_label(region: Region) -> (r: &'static str)
    ensures
        r@ == region.name(),
{
    match region {
        Region::Us => "us",
        Region::Eu => "eu",
    }
}

/// The region that is called `lower`.
pub open spec fn region_called(lower: Seq<char>) -> Option<Region> {
    if lower == "us"@ {
        Some(Region::Us)
    } else if lower == "eu"@ {
        Some(Region::Eu)
    } else {
        None
    }
}

/// Each region is called by its own name and by no other's, and its name is in small letters.
pub proof fn region_names_are_distinct()
    ensures
        forall|region: Region| region_called(#[trigger] region.name()) == Some(region),
        forall|region: Region|
            is_ascii_chars(#[trigger] region.name()) && ascii_lowercase(region.name())
                == region.name(),
{
    reveal_strlit("us");
    reveal_strlit("eu");
    assert("us"@[0] != "eu"@[0]);
    assert forall|region: Region|
        is_ascii_chars(#[trigger] region.name()) && ascii_lowercase(region.name())
            == region.name() by {
        assert(ascii_lowercase(region.name()) =~= region.name());
    }
}

/// Looks a region up by its name in small letters.
pub fn region_from_lowercase(lower: &str) -> (r: Option<Region>)
    ensures
        r == region_called(lower@),
{
    if same_text(lower, "us") {
        Some(Region::Us)
    } else if same_text(lower, "eu") {
        Some(Region::Eu)
    } else {
        None
    }
}

/// Whether `r` is what reading `region` as the name `lower` gives.
pub open spec fn region_outcome(
    r: Result<Region, ConfigError>,
    region: Seq<char>,
    lower: Seq<char>,
) -> bool {
    match region_called(lower) {
        Some(known) => r == Ok::<Region, ConfigError>(known),
        None => r is Err && r->Err_0@ == ConfigErrorView::InvalidRegion { region },
    }
}

/// Reads the name of a region, in capital or small letters.
pub fn parse_region(region: &str) -> (r: Result<Region, ConfigError>)
    ensures
        region_outcome(r, region@, unicode_lowercase(region@)),
        is_ascii_chars(region@) ==> region_outcome(r, region@, ascii_lowercase(region@)),
        match r {
            Ok(Region::Us) => unicode_lowercase(region@) == "us"@,
            Ok(Region::Eu) => unicode_lowercase(region@) == "eu"@,
            Err(error) => {
                &&& unicode_lowercase(region@) != "us"@
                &&& unicode_lowercase(region@) != "eu"@
                &&& error matches ConfigError::InvalidRegion { region: named }
                &&& named@ == region@
            },
        },
        forall|known: Region|
            region@ == #[trigger] known.name() ==> r == Ok::<Region, ConfigError>(known),
{
    proof {
        region_names_are_distinct();
    }
    let lower = to_lowercase(region);
    match region_from_lowercase(lower.as_str()) {
        Some(known) => Ok(known),
        None => Err(ConfigError::InvalidRegion { region: region.to_string() }),
    }
}

/// Credentials for a single Mailgun account/domain (a "site").
#[derive(Debug, Clone, PartialEq)]
pub struct SiteConfig {
    pub api_key: String,
    pub domain: String,
    pub region: Region,
}

/// Resolved credentials used to build a client.
#[derive(Debug)]
pub struct ResolvedSite {
    pub api_key: String,
    pub domain: String,
    pub region: Region,
}

/// What a site is: its texts and its region.
pub struct SiteView {
    pub api_key: Seq<char>,
    pub domain: Seq<char>,
    pub region: Region,
}

impl View for SiteConfig {
    type V = SiteView;

    open spec fn view(&self) -> SiteView {
        SiteView { api_key: self.api_key@, domain: self.domain@, region: self.region }
    }
}

impl View for ResolvedSite {
    type V = SiteView;

    open spec fn view(&self) -> SiteView {
        SiteView { api_key: self.api_key@, domain: self.domain@, region: self.region }
    }
}

/// Why a configuration cannot serve a request.
#[derive(Debug)]
pub enum ConfigError {
    /// The selected site is not configured.
    SiteNotFound { name: String, available: String },
    /// Neither a site nor a default nor the credentials of an older file.
    NoSite { available: String },
    /// The site that should become the default is not configured.
    DefaultNotFound { name: String, available: String },
    /// No region has this name.
    InvalidRegion { region: String },
}

/// What a `ConfigError` says.
pub enum ConfigErrorView {
    SiteNotFound { name: Seq<char>, available: Seq<char> },
    NoSite { available: Seq<char> },
    DefaultNotFound { name: Seq<char>, available: Seq<char> },
    InvalidRegion { region: Seq<char> },
}

impl View for ConfigError {
    type V = ConfigErrorView;

    open spec fn view(&self) -> ConfigErrorView {
        match self {
            ConfigError::SiteNotFound { name, available } => ConfigErrorView::SiteNotFound {
                name: name@,
                available: available@,
            },
            ConfigError::NoSite { available } => ConfigErrorView::NoSite { available: available@ },
            ConfigError::DefaultNotFound { name, available } => ConfigErrorView::DefaultNotFound {
                name: name@,
                available: available@,
            },
            ConfigError::InvalidRegion { region } => ConfigErrorView::InvalidRegion {
                region: region@,
            },
        }
    }
}

impl ConfigErrorView {
    /// The message that the user reads.
    pub open spec fn text(self) -> Seq<char> {
        match self {
            ConfigErrorView::SiteNotFound { name, available } => "Site '"@ + name
                + "' not found. Available sites: "@ + available,
            ConfigErrorView::NoSite { available } =>
                "No site selected and no default configured. Use -s <site> or set a default. Available sites: "@
                + available,
            ConfigErrorView::DefaultNotFound { name, available } => "Site '"@ + name
                + "' not found. Available: "@ + available,
            ConfigErrorView::InvalidRegion { region } => "Invalid region '"@ + region
                + "'. Use 'us' or 'eu'."@,
        }
    }
}

impl ConfigError {
    /// The message that the user reads.
    pub fn message(&self) -> (r: String)
        ensures
            r@ == self@.text(),
    {
        match self {
            ConfigError::SiteNotFound { name, available } => {
                "Site '".to_string().concat(name.as_str()).concat("' not found. Available sites: ").concat(
                    available.as_str(),
                )
            },
            ConfigError::NoSite { available } => {
                "No site selected and no default configured. Use -s <site> or set a default. Available sites: ".to_string().concat(
                available.as_str())
            },
            ConfigError::DefaultNotFound { name, available } => {
                "Site '".to_string().concat(name.as_str()).concat("' not found. Available: ").concat(
                    available.as_str(),
                )
            },
            ConfigError::InvalidRegion { region } => {
                "Invalid region '".to_string().concat(region.as_str()).concat(
                    "'. Use 'us' or 'eu'.",
                )
            },
        }
    }
}

/// The sites a user has configured.
#[derive(Debug, PartialEq)]
pub struct Config {
    pub default_site: Option<String>,
    pub sites: Sites,
    /// The key of the single site of an older file, used when no named site is selected.
    pub api_key: Option<String>,
    /// The domain of the single site of an older file.
    pub domain: Option<String>,
    /// The region of the single site of an older file.
    pub region: Region,
}

/// What a configuration holds.
#[verifier::ext_equal]
pub struct ConfigView {
    pub default_site: Option<Seq<char>>,
    pub sites: Map<Seq<char>, SiteView>,
    pub api_key: Option<Seq<char>>,
    pub domain: Option<Seq<char>>,
    pub region: Region,
}

impl View for Config {
    type V = ConfigView;

    open spec fn view(&self) -> ConfigView {
        ConfigView {
            default_site: opt_text(self.default_site),
            sites: self.sites@,
            api_key: opt_text(self.api_key),
            domain: opt_text(self.domain),
            region: self.region,
        }
    }
}

/// The first of the names of `sites`, if there is any.
pub open spec fn first_of(sites: Map<Seq<char>, SiteView>) -> Option<Seq<char>> {
    if sites.dom().is_empty() {
        None
    } else {
        Some(sorted_names(sites)[0])
    }
}

impl ConfigView {
    /// The configuration without any setting.
    pub open spec fn unset() -> ConfigView {
        ConfigView {
            default_site: None,
            sites: Map::empty(),
            api_key: None,
            domain: None,
            region: Region::Us,
        }
    }

    /// The name that is looked up: the one asked for, or else the default.
    pub open spec fn selected(self, site: Option<Seq<char>>) -> Option<Seq<char>> {
        match site {
            Some(name) => Some(name),
            None => self.default_site,
        }
    }

    /// The credentials that a request uses, or why there are none.
    pub open spec fn resolved(self, site: Option<Seq<char>>) -> Result<SiteView, ConfigErrorView> {
        match self.selected(site) {
            Some(name) => if self.sites.dom().contains(name) {
                Ok(self.sites[name])
            } else {
                Err(ConfigErrorView::SiteNotFound { name, available: self.listing() })
            },
            None => match (self.api_key, self.domain) {
                (Some(api_key), Some(domain)) => Ok(
                    SiteView { api_key, domain, region: self.region },
                ),
                _ => Err(ConfigErrorView::NoSite { available: self.listing() }),
            },
        }
    }

    /// A name as it is listed: the default one with a star.
    pub open spec fn marked(self, name: Seq<char>) -> Seq<char> {
        if self.default_site == Some(name) {
            name + "*"@
        } else {
            name
        }
    }

    /// The sites in the order of their names, in one line.
    pub open spec fn listing(self) -> Seq<char> {
        let names = sorted_names(self.sites);
        if self.sites.dom().is_empty() {
            "(none)"@
        } else {
            joined(Seq::new(names.len(), |i: int| self.marked(names[i])), ", "@)
        }
    }

    /// The configuration after a site was put under `name`.
    pub open spec fn with_site(self, name: Seq<char>, site: SiteView, set_default: bool) -> ConfigView {
        ConfigView {
            sites: self.sites.insert(name, site),
            default_site: if set_default || self.default_site is None {
                Some(name)
            } else {
                self.default_site
            },
            ..self
        }
    }

    /// The configuration after the site called `name` was taken out. Where that was the default,
    /// the first of the remaining sites takes its place.
    pub open spec fn without_site(self, name: Seq<char>) -> ConfigView {
        let rest = self.sites.remove(name);
        ConfigView {
            sites: rest,
            default_site: if self.default_site == Some(name) {
                first_of(rest)
            } else {
                self.default_site
            },
            ..self
        }
    }

    /// The configuration with another default site.
    pub open spec fn with_default(self, name: Seq<char>) -> ConfigView {
        ConfigView { default_site: Some(name), ..self }
    }
}

impl Default for Config {
    fn default() -> (r: Self)
        ensures
            r@ == ConfigView::unset(),
            r@.sites.dom().finite(),
    {
        Config {
            default_site: None,
            sites: Sites::default(),
            api_key: None,
            domain: None,
            region: Region::default(),
        }
    }
}

/// What a caller of `resolve_site` learns.
pub open spec fn resolution(r: Result<ResolvedSite, ConfigError>) -> Result<SiteView, ConfigErrorView> {
    match r {
        Ok(site) => Ok(site@),
        Err(error) => Err(error@),
    }
}

impl Config {
    /// Resolves which site's credentials to use.
    ///
    /// Order: the site asked for, then the configured default site, then the credentials of an
    /// older file. An error lists the available sites.
    pub fn resolve_site(&self, site: Option<&str>) -> (r: Result<ResolvedSite, ConfigError>)
        ensures
            resolution(r) == self@.resolved(opt_slice_text(site)),
            r is Err ==> self@.sites.dom().finite(),
            site is Some && self.sites@.dom().contains(site->0@) ==> {
                &&& r is Ok
                &&& r->Ok_0.api_key@ == self.sites@[site->0@].api_key
                &&& r->Ok_0.domain@ == self.sites@[site->0@].domain
                &&& r->Ok_0.region == self.sites@[site->0@].region
            },
            site is None && self.default_site is Some && self.sites@.dom().contains(
                self.default_site->0@,
            ) ==> {
                &&& r is Ok
                &&& r->Ok_0.api_key@ == self.sites@[self.default_site->0@].api_key
                &&& r->Ok_0.domain@ == self.sites@[self.default_site->0@].domain
                &&& r->Ok_0.region == self.sites@[self.default_site->0@].region
            },
            site is None && self.default_site is None && self.api_key is Some && self.domain is Some
                ==> {
                &&& r is Ok
                &&& r->Ok_0.api_key@ == self.api_key->0@
                &&& r->Ok_0.domain@ == self.domain->0@
                &&& r->Ok_0.region == self.region
            },
    {
        let name: Option<String> = match site {
            Some(name) => Some(name.to_string()),
            None => self.default_site.clone(),
        };
        if let Some(name) = name {
            return match self.sites.get(name.as_str()) {
                Some(found) => Ok(
                    ResolvedSite {
                        api_key: found.api_key.clone(),
                        domain: found.domain.clone(),
                        region: found.region,
                    },
                ),
                None => Err(ConfigError::SiteNotFound { name, available: self.list_sites() }),
            };
        }
        match (&self.api_key, &self.domain) {
            (Some(api_key), Some(domain)) => Ok(
                ResolvedSite {
                    api_key: api_key.clone(),
                    domain: domain.clone(),
                    region: self.region,
                },
            ),
            _ => Err(ConfigError::NoSite { available: self.list_sites() }),
        }
    }

    /// Whether `name` is the default site.
    pub fn is_default(&self, name: &str) -> (r: bool)
        ensures
            r == (self@.default_site == Some(name@)),
    {
        match &self.default_site {
            Some(default) => same_text(default.as_str(), name),
            None => false,
        }
    }

    /// The names of the sites in ascending order, the default one with a star.
    pub fn list_sites(&self) -> (r: String)
        ensures
            r@ == self@.listing(),
            self@.sites.dom().finite(),
            in_order(sorted_names(self@.sites)),
            sorted_names(self@.sites).to_set() == self@.sites.dom(),
    {
        let empty = self.sites.is_empty();
        proof {
            sorted_names_lists_all(self@.sites);
        }
        if empty {
            return "(none)".to_string();
        }
        let names = self.sites.names();
        let mut labels: Vec<String> = Vec::new();
        let mut i: usize = 0;
        while i < names.len()
            invariant
                i <= names@.len(),
                labels@.len() == i,
                forall|j: int| 0 <= j < i ==> (#[trigger] labels@[j])@ == self@.marked(names@[j]@),
            decreases names@.len() - i,
        {
            let mut label = names[i].clone();
            if self.is_default(label.as_str()) {
                label.append("*");
            }
            labels.push(label);
            i += 1;
        }
        proof {
            let sorted = sorted_names(self@.sites);
            assert(sorted == texts(names@));
            assert(texts(labels@) =~= Seq::new(sorted.len(), |i: int| self@.marked(sorted[i])));
        }
        join(labels.as_slice(), ", ")
    }

    /// Adds or updates a site. It becomes the default where it should, or where there is none.
    pub fn set_site(&mut self, name: &str, site: SiteConfig, set_default: bool)
        ensures
            final(self)@ == old(self)@.with_site(name@, site@, set_default),
            old(self)@.sites.dom().finite(),
            final(self)@.sites.dom().finite(),
            final(self).api_key == old(self).api_key,
            final(self).domain == old(self).domain,
            final(self).region == old(self).region,
    {
        self.sites.insert(name.to_string(), site);
        if set_default || self.default_site.is_none() {
            self.default_site = Some(name.to_string());
        }
    }

    /// Takes a site out, and says whether there was one of that name. Where it was the default,
    /// one of the remaining sites takes its place, as long as there is one.
    pub fn remove_site(&mut self, name: &str) -> (r: bool)
        ensures
            r == old(self)@.sites.dom().contains(name@),
            final(self)@ == old(self)@.without_site(name@),
            old(self)@.sites.dom().finite(),
            final(self)@.sites.dom().finite(),
            old(self)@.default_site == Some(name@) ==> match final(self)@.default_site {
                Some(default) => final(self)@.sites.dom().contains(default),
                None => final(self)@.sites.dom().is_empty(),
            },
            final(self).api_key == old(self).api_key,
            final(self).domain == old(self).domain,
            final(self).region == old(self).region,
    {
        let removed = self.sites.remove(name);
        if self.is_default(name) {
            self.default_site = self.sites.first_name();
        }
        removed
    }

    /// Makes a configured site the default. The configuration stays as it is where there is none
    /// of that name.
    pub fn set_default(&mut self, name: &str) -> (r: Result<(), ConfigError>)
        ensures
            final(self)@.sites.dom().finite(),
            old(self)@.sites.dom().contains(name@) ==> r is Ok && final(self)@ == old(
                self,
            )@.with_default(name@),
            !old(self)@.sites.dom().contains(name@) ==> {
                &&& r is Err
                &&& r->Err_0@ == ConfigErrorView::DefaultNotFound {
                    name: name@,
                    available: old(self)@.listing(),
                }
                &&& *final(self) == *old(self)
            },
    {
        if !self.sites.contains_key(name) {
            return Err(
                ConfigError::DefaultNotFound {
                    name: name.to_string(),
                    available: self.list_sites(),
                },
            );
        }
        self.default_site = Some(name.to_string());
        Ok(())
    }
}

/// A site that was set is what its name resolves to.
pub proof fn set_site_is_resolved(c: ConfigView, name: Seq<char>, site: SiteView, set_default: bool)
    ensures
        c.with_site(name, site, set_default).resolved(Some(name)) == Ok::<SiteView, ConfigErrorView>(
            site,
        ),
{
}

/// Setting a site leaves all the others as they were.
pub proof fn set_site_keeps_others(
    c: ConfigView,
    name: Seq<char>,
    site: SiteView,
    set_default: bool,
    other: Seq<char>,
)
    requires
        other != name,
    ensures
        c.with_site(name, site, set_default).sites.dom().contains(other) == c.sites.dom().contains(
            other,
        ),
        c.sites.dom().contains(other) ==> c.with_site(name, site, set_default).resolved(Some(other))
            == c.resolved(Some(other)),
{
}

/// A site that is set as the default, or before there is one, serves the requests that ask for no
/// site; any other leaves the default as it was.
pub proof fn set_site_default_rule(c: ConfigView, name: Seq<char>, site: SiteView, set_default: bool)
    ensures
        set_default || c.default_site is None ==> c.with_site(name, site, set_default).resolved(None)
            == Ok::<SiteView, ConfigErrorView>(site),
        !set_default && c.default_site is Some ==> c.with_site(name, site, set_default).default_site
            == c.default_site,
{
}

/// Of two settings of one site the later one counts.
pub proof fn set_site_last_wins(
    c: ConfigView,
    name: Seq<char>,
    first: SiteView,
    second: SiteView,
    set_default: bool,
)
    ensures
        c.with_site(name, first, set_default).with_site(name, second, set_default) == c.with_site(
            name,
            second,
            set_default,
        ),
{
    assert(c.with_site(name, first, set_default).with_site(name, second, set_default)
        =~= c.with_site(name, second, set_default));
}

/// A site that is asked for is found whatever the default and the credentials of an older file
/// are.
pub proof fn explicit_site_overrides_default(
    c: ConfigView,
    name: Seq<char>,
    default_site: Option<Seq<char>>,
    api_key: Option<Seq<char>>,
    domain: Option<Seq<char>>,
    region: Region,
)
    requires
        c.sites.dom().contains(name),
    ensures
        (ConfigView { default_site, api_key, domain, region, ..c }).resolved(Some(name)) == Ok::<
            SiteView,
            ConfigErrorView,
        >(c.sites[name]),
{
}

/// The credentials of an older file serve only where no site is asked for and none is the
/// default, and then only where both key and domain are there.
pub proof fn older_credentials_come_last(c: ConfigView, site: Option<Seq<char>>)
    ensures
        c.selected(site) is None <==> site is None && c.default_site is None,
        c.selected(site) is None ==> (c.resolved(site) is Ok <==> c.api_key is Some && c.domain is Some),
        c.selected(site) is Some ==> (c.resolved(site) is Ok <==> c.sites.dom().contains(
            c.selected(site)->0,
        )),
{
}

/// A site that was taken out is not found any more, and the others are as they were.
pub proof fn removed_site_is_gone(c: ConfigView, name: Seq<char>, other: Seq<char>)
    ensures
        c.without_site(name).resolved(Some(name)) is Err,
        other != name ==> c.without_site(name).sites.dom().contains(other)
            == c.sites.dom().contains(other),
        other != name && c.sites.dom().contains(other) ==> c.without_site(name).resolved(Some(other))
            == c.resolved(Some(other)),
{
}

/// Taking out a site that was new restores the sites, and the whole configuration where the
/// default stayed as it was or the site was the only one.
pub proof fn remove_undoes_set(c: ConfigView, name: Seq<char>, site: SiteView, set_default: bool)
    requires
        !c.sites.dom().contains(name),
    ensures
        c.with_site(name, site, set_default).without_site(name).sites == c.sites,
        c.default_site != Some(name) && !set_default && c.default_site is Some ==> c.with_site(
            name,
            site,
            set_default,
        ).without_site(name) == c,
        c.default_site is None && c.sites.dom().is_empty() ==> c.with_site(
            name,
            site,
            set_default,
        ).without_site(name) == c,
{
    assert(c.sites.insert(name, site).remove(name) =~= c.sites);
}

impl ConfigView {
    /// Whether the default is one of the sites, and is there as soon as there is a site.
    pub open spec fn settled(self) -> bool {
        match self.default_site {
            Some(name) => self.sites.dom().contains(name),
            None => self.sites.dom().is_empty(),
        }
    }
}

/// A configuration starts out settled, and every command keeps it so: the default is always one
/// of the sites, and there is one as long as there is a site.
pub proof fn commands_keep_settled(
    c: ConfigView,
    name: Seq<char>,
    site: SiteView,
    set_default: bool,
)
    requires
        c.sites.dom().finite(),
    ensures
        ConfigView::unset().settled(),
        c.settled() ==> c.with_site(name, site, set_default).settled(),
        c.settled() ==> c.without_site(name).settled(),
        c.sites.dom().contains(name) ==> c.with_default(name).settled(),
{
    let rest = c.sites.remove(name);
    sorted_names_lists_all(rest);
    if !rest.dom().is_empty() {
        assert(sorted_names(rest).to_set().contains(sorted_names(rest)[0])) by {
            if sorted_names(rest).len() == 0 {
                assert(sorted_names(rest).to_set() =~= Set::<Seq<char>>::empty());
                assert(rest.dom() =~= Set::<Seq<char>>::empty());
            }
        }
    }
    if c.settled() && c.default_site is None {
        assert(c.sites.dom() =~= Set::<Seq<char>>::empty());
        assert(rest.dom() =~= Set::<Seq<char>>::empty());
    }
}

/// In a settled configuration with a site a request needs not ask for one.
pub proof fn settled_default_resolves(c: ConfigView)
    requires
        c.settled(),
        !c.sites.dom().is_empty(),
    ensures
        c.resolved(None) is Ok,
        c.resolved(None) == Ok::<SiteView, ConfigErrorView>(c.sites[c.default_site->0]),
{
}

/// The listing of a settled configuration stars exactly one of its names, the default.
pub proof fn listing_stars_the_default(c: ConfigView) -> (at: int)
    requires
        c.settled(),
        c.sites.dom().finite(),
        !c.sites.dom().is_empty(),
    ensures
        0 <= at < sorted_names(c.sites).len(),
        c.marked(sorted_names(c.sites)[at]) == c.default_site->0 + "*"@,
        forall|i: int|
            0 <= i < sorted_names(c.sites).len() && i != at ==> c.marked(
                #[trigger] sorted_names(c.sites)[i],
            ) == sorted_names(c.sites)[i],
{
    let names = sorted_names(c.sites);
    sorted_names_lists_all(c.sites);
    assert(names.to_set().contains(c.default_site->0));
    choose|at: int| 0 <= at < names.len() && names[at] == c.default_site->0
}

/// A configuration is seen whole: its view holds each of its fields, and that of a site its key,
/// its domain and its region.
pub proof fn configurations_are_seen_whole(c: Config, site: SiteConfig, resolved: ResolvedSite)
    ensures
        c.default_site is Some ==> c@.default_site == Some(c.default_site->0@),
        c.default_site is None ==> c@.default_site is None,
        c@.sites == c.sites@,
        c.api_key is Some ==> c@.api_key == Some(c.api_key->0@),
        c.api_key is None ==> c@.api_key is None,
        c.domain is Some ==> c@.domain == Some(c.domain->0@),
        c.domain is None ==> c@.domain is None,
        c@.region == c.region,
        site@.api_key == site.api_key@,
        site@.domain == site.domain@,
        site@.region == site.region,
        resolved@.api_key == resolved.api_key@,
        resolved@.domain == resolved.domain@,
        resolved@.region == resolved.region,
        resolution(Ok(resolved)) == Ok::<SiteView, ConfigErrorView>(resolved@),
{
}

/// Without any setting there is nothing but the first region.
pub proof fn nothing_is_set_at_first()
    ensures
        ConfigView::unset().default_site is None,
        ConfigView::unset().sites.dom().is_empty(),
        ConfigView::unset().api_key is None,
        ConfigView::unset().domain is None,
        ConfigView::unset().region == Region::Us,
{
}

/// A name is that of a region exactly where it is `us` or `eu`.
pub proof fn only_two_names_are_regions(lower: Seq<char>)
    ensures
        region_called(lower) == Some(Region::Us) <==> lower == "us"@,
        region_called(lower) == Some(Region::Eu) <==> lower == "eu"@,
        region_called(lower) is None <==> lower != "us"@ && lower != "eu"@,
{
    reveal_strlit("us");
    reveal_strlit("eu");
    assert("us"@[0] != "eu"@[0]);
}

/// What an error says of the names it is about: the message names the site or region asked for
/// between quotes, and ends in the sites there are.
pub proof fn messages_name_what_was_asked_for(
    name: String,
    available: String,
)
    ensures
        ({
            let error = ConfigError::SiteNotFound { name, available };
            error@.text() == "Site '"@ + name@ + "' not found. Available sites: "@ + available@
        }),
        ({
            let error = ConfigError::DefaultNotFound { name, available };
            error@.text() == "Site '"@ + name@ + "' not found. Available: "@ + available@
        }),
        ({
            let error = ConfigError::NoSite { available };
            error@.text()
                == "No site selected and no default configured. Use -s <site> or set a default. Available sites: "@
                + available@
        }),
        ({
            let error = ConfigError::InvalidRegion { region: name };
            error@.text() == "Invalid region '"@ + name@ + "'. Use 'us' or 'eu'."@
        }),
{
}

/// The view of an error holds what the error holds, and a caller learns no other.
pub proof fn errors_are_seen_whole(name: String, available: String, error: ConfigError)
    ensures
        (ConfigError::SiteNotFound { name, available })@ == (ConfigErrorView::SiteNotFound {
            name: name@,
            available: available@,
        }),
        (ConfigError::NoSite { available })@ == (ConfigErrorView::NoSite { available: available@ }),
        (ConfigError::DefaultNotFound { name, available })@ == (ConfigErrorView::DefaultNotFound {
            name: name@,
            available: available@,
        }),
        (ConfigError::InvalidRegion { region: name })@ == (ConfigErrorView::InvalidRegion {
            region: name@,
        }),
        resolution(Err(error)) == Err::<SiteView, ConfigErrorView>(error@),
{
}

/// A request that asks for no site is served by the default site, whatever the credentials of an
/// older file are.
pub proof fn the_default_site_comes_second(c: ConfigView, name: Seq<char>)
    requires
        c.default_site == Some(name),
        c.sites.dom().contains(name),
    ensures
        c.resolved(None) == Ok::<SiteView, ConfigErrorView>(c.sites[name]),
{
}

/// Where no site is asked for and none is the default, the credentials of an older file are used
/// as they are stored: that key, that domain and that region.
pub proof fn older_credentials_are_used_as_they_are(
    c: ConfigView,
    api_key: Seq<char>,
    domain: Seq<char>,
)
    requires
        c.default_site is None,
        c.api_key == Some(api_key),
        c.domain == Some(domain),
    ensures
        c.resolved(None) == Ok::<SiteView, ConfigErrorView>(
            SiteView { api_key, domain, region: c.region },
        ),
{
}

/// A site that is not configured is not served, and neither is a request without any site: the
/// error names the site that was looked up, if there is one, and lists those there are.
pub proof fn missing_sites_are_named(c: ConfigView, name: Seq<char>)
    ensures
        !c.sites.dom().contains(name) ==> c.resolved(Some(name)) == Err::<SiteView, ConfigErrorView>(
            ConfigErrorView::SiteNotFound { name, available: c.listing() },
        ),
        c.default_site == Some(name) && !c.sites.dom().contains(name) ==> c.resolved(None) == Err::<
            SiteView,
            ConfigErrorView,
        >(ConfigErrorView::SiteNotFound { name, available: c.listing() }),
        c.default_site is None && (c.api_key is None || c.domain is None) ==> c.resolved(None)
            == Err::<SiteView, ConfigErrorView>(
            ConfigErrorView::NoSite { available: c.listing() },
        ),
{
}

/// The listing names each site once, in ascending order and with commas between them. The name
/// of the default is followed by a star, and no other.
pub proof fn the_listing_names_each_site(c: ConfigView) -> (labels: Seq<Seq<char>>)
    requires
        c.sites.dom().finite(),
    ensures
        labels.len() == c.sites.dom().len(),
        forall|i: int|
            0 <= i < labels.len() ==> #[trigger] labels[i] == if c.default_site == Some(
                sorted_names(c.sites)[i],
            ) {
                sorted_names(c.sites)[i] + "*"@
            } else {
                sorted_names(c.sites)[i]
            },
        c.sites.dom().len() > 0 ==> c.listing() == joined(labels, ", "@),
        c.sites.dom().len() == 0 ==> c.listing() == "(none)"@,
{
    sorted_names_lists_all(c.sites);
    let names = sorted_names(c.sites);
    if c.sites.dom().len() == 0 {
        assert(c.sites.dom() =~= Set::<Seq<char>>::empty());
    }
    Seq::new(names.len(), |i: int| c.marked(names[i]))
}

/// Setting a site, taking one out and choosing a default change nothing else: not the credentials
/// of an older file, and where they should not, neither the sites nor the default.
pub proof fn changes_keep_everything_else(
    c: ConfigView,
    name: Seq<char>,
    site: SiteView,
    set_default: bool,
)
    ensures
        ({
            let after = c.with_site(name, site, set_default);
            &&& after.sites == c.sites.insert(name, site)
            &&& after.api_key == c.api_key && after.domain == c.domain && after.region == c.region
            &&& set_default || c.default_site is None ==> after.default_site == Some(name)
            &&& !set_default && c.default_site is Some ==> after.default_site == c.default_site
        }),
        ({
            let after = c.without_site(name);
            &&& after.sites == c.sites.remove(name)
            &&& after.api_key == c.api_key && after.domain == c.domain && after.region == c.region
            &&& c.default_site != Some(name) ==> after.default_site == c.default_site
        }),
        ({
            let after = c.with_default(name);
            &&& after.sites == c.sites
            &&& after.api_key == c.api_key && after.domain == c.domain && after.region == c.region
            &&& after.default_site == Some(name)
        }),
{
}

/// Where the default is taken out, the remaining site whose name comes first becomes the default,
/// and there is none where no site remains.
pub proof fn the_first_remaining_site_becomes_the_default(
    c: ConfigView,
    name: Seq<char>,
    other: Seq<char>,
)
    requires
        c.default_site == Some(name),
        c.sites.dom().finite(),
    ensures
        c.sites.remove(name).dom().is_empty() ==> c.without_site(name).default_site is None,
        c.sites.dom().contains(other) && other != name ==> {
            &&& c.without_site(name).default_site is Some
            &&& c.without_site(name).default_site->0 != name
            &&& c.sites.dom().contains(c.without_site(name).default_site->0)
            &&& c.without_site(name).default_site->0 == other || text_before(
                c.without_site(name).default_site->0,
                other,
            )
        },
{
    let rest = c.sites.remove(name);
    let names = sorted_names(rest);
    sorted_names_lists_all(rest);
    if c.sites.dom().contains(other) && other != name {
        assert(rest.dom().contains(other));
        assert(names.to_set().contains(other));
        let k = choose|k: int| 0 <= k < names.len() && names[k] == other;
        assert(names.to_set().contains(names[0]));
        if k > 0 {
            assert(text_before(names[0], names[k]));
        }
    }
}

} // verus!
