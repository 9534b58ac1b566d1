//! What a configuration file holds, and how a configuration is saved to it and loaded from it.

use vstd::prelude::*;

use crate::config::{is_default_region, Config, ConfigView, Region, SiteConfig, SiteView};
use crate::sites::{sorted_names, sorted_names_lists_all, Sites};
use crate::text::{opt_text, texts};

verus! {

/// A site as a file holds it. A file may leave the region out.
#[derive(Debug, PartialEq)]
pub struct StoredSite {
    pub api_key: String,
    pub domain: String,
    pub region: Option<Region>,
}

/// A configuration as a file holds it. A file may leave each of these out.
#[derive(Debug, PartialEq)]
pub struct StoredConfig {
    pub default_site: Option<String>,
    pub sites: Option<Vec<(String, StoredSite)>>,
    pub api_key: Option<String>,
    pub domain: Option<String>,
    pub region: Option<Region>,
}

/// What a `StoredSite` says.
pub struct StoredSiteView {
    pub api_key: Seq<char>,
    pub domain: Seq<char>,
    pub region: Option<Region>,
}

/// What a `StoredConfig` says.
#[verifier::ext_equal]
pub struct StoredConfigView {
    pub default_site: Option<Seq<char>>,
    pub sites: Option<Seq<(Seq<char>, StoredSiteView)>>,
    pub api_key: Option<Seq<char>>,
    pub domain: Option<Seq<char>>,
    pub region: Option<Region>,
}

impl View for StoredSite {
    type V = StoredSiteView;

    open spec fn view(&self) -> StoredSiteView {
        StoredSiteView { api_key: self.api_key@, domain: self.domain@, region: self.region }
    }
}

/// The table of sites of a file.
pub open spec fn table(list: Seq<(String, StoredSite)>) -> Seq<(Seq<char>, StoredSiteView)> {
    Seq::new(list.len(), |i: int| (list[i].0@, list[i].1@))
}

impl View for StoredConfig {
    type V = StoredConfigView;

    open spec fn view(&self) -> StoredConfigView {
        StoredConfigView {
            default_site: opt_text(self.default_site),
            sites: match self.sites {
                Some(list) => Some(table(list@)),
                None => None,
            },
            api_key: opt_text(self.api_key),
            domain: opt_text(self.domain),
            region: self.region,
        }
    }
}

/// A region that a file may leave out.
pub open spec fn region_or_default(region: Option<Region>) -> Region {
    match region {
        Some(region) => region,
        None => Region::Us,
    }
}

/// A site as it is saved.
pub open spec fn saved_site(site: SiteView) -> StoredSiteView {
    StoredSiteView { api_key: site.api_key, domain: site.domain, region: Some(site.region) }
}

/// A site as it is loaded.
pub open spec fn loaded_site(site: StoredSiteView) -> SiteView {
    SiteView { api_key: site.api_key, domain: site.domain, region: region_or_default(site.region) }
}

/// The sites of a configuration as they are saved, in the order of their names.
pub open spec fn saved_table(sites: Map<Seq<char>, SiteView>) -> Seq<(Seq<char>, StoredSiteView)> {
    let names = sorted_names(sites);
    Seq::new(names.len(), |i: int| (names[i], saved_site(sites[names[i]])))
}

/// The sites that a table stands for.
pub open spec fn loaded_table(list: Seq<(Seq<char>, StoredSiteView)>) -> Map<Seq<char>, SiteView>
    decreases list.len(),
{
    if list.len() == 0 {
        Map::empty()
    } else {
        loaded_table(list.drop_last()).insert(list.last().0, loaded_site(list.last().1))
    }
}

/// A configuration as it is saved: no table without sites, and no region but for one that is not
/// the default.
pub open spec fn saved(c: ConfigView) -> StoredConfigView {
    StoredConfigView {
        default_site: c.default_site,
        sites: if c.sites.dom().is_empty() {
            None
        } else {
            Some(saved_table(c.sites))
        },
        api_key: c.api_key,
        domain: c.domain,
        region: if c.region == Region::Us {
            None
        } else {
            Some(c.region)
        },
    }
}

/// The configuration that a file stands for; without a file, the one without any setting.
pub open spec fn loaded(file: Option<StoredConfigView>) -> ConfigView {
    match file {
        None => ConfigView::unset(),
        Some(file) => ConfigView {
            default_site: file.default_site,
            sites: match file.sites {
                Some(list) => loaded_table(list),
                None => Map::empty(),
            },
            api_key: file.api_key,
            domain: file.domain,
            region: region_or_default(file.region),
        },
    }
}

fn region_of(region: &Option<Region>) -> (r: Region)
    ensures
        r == region_or_default(*region),
{
    match region {
        Some(region) => *region,
        None => Region::default(),
    }
}

/// What a file should hold for `config`.
pub fn save_config(config: &Config) -> (r: StoredConfig)
    ensures
        r@ == saved(config@),
        config@.sites.dom().finite(),
{
    let sites = if config.sites.is_empty() {
        None
    } else {
        let names = config.sites.names();
        let mut list: Vec<(String, StoredSite)> = Vec::new();
        let mut i: usize = 0;
        while i < names.len()
            invariant
                i <= names@.len(),
                list@.len() == i,
                texts(names@).to_set() == config.sites@.dom(),
                forall|j: int|
                    0 <= j < i ==> {
                        &&& (#[trigger] list@[j]).0@ == names@[j]@
                        &&& list@[j].1@ == saved_site(config.sites@[names@[j]@])
                    },
            decreases names@.len() - i,
        {
            proof {
                assert(texts(names@)[i as int] == names@[i as int]@);
                assert(texts(names@).to_set().contains(names@[i as int]@));
            }
            if let Some(site) = config.sites.get(names[i].as_str()) {
                list.push(
                    (
                        names[i].clone(),
                        StoredSite {
                            api_key: site.api_key.clone(),
                            domain: site.domain.clone(),
                            region: Some(site.region),
                        },
                    ),
                );
            }
            i += 1;
        }
        proof {
            assert(texts(names@) == sorted_names(config.sites@));
            assert(table(list@) =~= saved_table(config.sites@));
        }
        Some(list)
    };
    StoredConfig {
        default_site: config.default_site.clone(),
        sites,
        api_key: config.api_key.clone(),
        domain: config.domain.clone(),
        region: if is_default_region(&config.region) {
            None
        } else {
            Some(config.region)
        },
    }
}

/// The configuration for what a file holds, or for no file.
pub fn load_config(file: Option<StoredConfig>) -> (r: Config)
    ensures
        r@ == loaded(
            match file {
                Some(file) => Some(file@),
                None => None,
            },
        ),
        r@.sites.dom().finite(),
{
    let file = match file {
        Some(file) => file,
        None => return Config::default(),
    };
    let mut sites = Sites::default();
    if let Some(list) = &file.sites {
        let mut i: usize = 0;
        assert(table(list@).take(0) =~= Seq::<(Seq<char>, StoredSiteView)>::empty());
        while i < list.len()
            invariant
                i <= list@.len(),
                sites@ == loaded_table(table(list@).take(i as int)),
                sites@.dom().finite(),
            decreases list@.len() - i,
        {
            let site = SiteConfig {
                api_key: list[i].1.api_key.clone(),
                domain: list[i].1.domain.clone(),
                region: region_of(&list[i].1.region),
            };
            sites.insert(list[i].0.clone(), site);
            proof {
                let next = table(list@).take(i + 1);
                assert(next.drop_last() =~= table(list@).take(i as int));
                assert(next.last() == table(list@)[i as int]);
            }
            i += 1;
        }
        assert(table(list@).take(list@.len() as int) =~= table(list@));
    }
    Config {
        default_site: file.default_site.clone(),
        sites,
        api_key: file.api_key.clone(),
        domain: file.domain.clone(),
        region: region_of(&file.region),
    }
}

proof fn lemma_loaded_table(list: Seq<(Seq<char>, StoredSiteView)>, name: Seq<char>)
    requires
        forall|i: int, j: int| 0 <= i < j < list.len() ==> list[i].0 != list[j].0,
    ensures
        loaded_table(list).dom().contains(name) <==> exists|i: int|
            0 <= i < list.len() && #[trigger] list[i].0 == name,
        forall|i: int|
            0 <= i < list.len() && #[trigger] list[i].0 == name ==> loaded_table(list)[name]
                == loaded_site(list[i].1),
    decreases list.len(),
{
    if list.len() > 0 {
        let rest = list.drop_last();
        lemma_loaded_table(rest, name);
        assert forall|i: int| 0 <= i < rest.len() implies #[trigger] rest[i] == list[i] by {}
        if list.last().0 == name {
            assert(list[list.len() - 1].0 == name);
        } else if loaded_table(list).dom().contains(name) {
            let i = choose|i: int| 0 <= i < rest.len() && #[trigger] rest[i].0 == name;
            assert(list[i].0 == name);
        }
        if exists|i: int| 0 <= i < list.len() && #[trigger] list[i].0 == name {
            let i = choose|i: int| 0 <= i < list.len() && #[trigger] list[i].0 == name;
            if i < rest.len() {
                assert(rest[i].0 == name);
            }
        }
        assert forall|i: int|
            0 <= i < list.len() && #[trigger] list[i].0 == name implies loaded_table(list)[name]
            == loaded_site(list[i].1) by {
            if i < rest.len() {
                assert(rest[i].0 == name);
                assert(list[i].0 != list[list.len() - 1].0);
            }
        }
    }
}

/// Loading a file gives back the configuration that was saved to it.
pub proof fn load_gives_back_what_was_saved(c: ConfigView)
    requires
        c.sites.dom().finite(),
    ensures
        loaded(Some(saved(c))) == c,
{
    let names = sorted_names(c.sites);
    let list = saved_table(c.sites);
    sorted_names_lists_all(c.sites);
    if c.sites.dom().is_empty() {
        assert(c.sites =~= Map::<Seq<char>, SiteView>::empty());
    } else {
        assert forall|i: int, j: int| 0 <= i < j < list.len() implies list[i].0 != list[j].0 by {
            assert(names[i] != names[j]);
        }
        assert forall|name: Seq<char>|
            #![trigger loaded_table(list).dom().contains(name)]
            loaded_table(list).dom().contains(name) <==> c.sites.dom().contains(name) by {
            lemma_loaded_table(list, name);
            if c.sites.dom().contains(name) {
                assert(names.to_set().contains(name));
                let i = choose|i: int| 0 <= i < names.len() && names[i] == name;
                assert(list[i].0 == name);
            }
            if loaded_table(list).dom().contains(name) {
                let i = choose|i: int| 0 <= i < list.len() && #[trigger] list[i].0 == name;
                assert(names.to_set().contains(names[i]));
            }
        }
        assert forall|name: Seq<char>| loaded_table(list).dom().contains(name) implies loaded_table(
            list,
        )[name] == c.sites[name] by {
            lemma_loaded_table(list, name);
            assert(names.to_set().contains(name));
            let i = choose|i: int| 0 <= i < names.len() && names[i] == name;
            assert(list[i].0 == name);
        }
        assert(loaded_table(list) =~= c.sites);
    }
    assert(loaded(Some(saved(c))) =~= c);
}

/// Without a file there is no setting, and an empty file is no different.
pub proof fn missing_file_is_unset()
    ensures
        loaded(None) == ConfigView::unset(),
        loaded(
            Some(
                StoredConfigView {
                    default_site: None,
                    sites: None,
                    api_key: None,
                    domain: None,
                    region: None,
                },
            ),
        ) == ConfigView::unset(),
{
}

/// The steps from the user's configuration directory to the configuration file, or from the
/// current directory where there is no such directory.
pub open spec fn path_steps(has_config_dir: bool) -> Seq<Seq<char>> {
    if has_config_dir {
        seq!["mailgun-cli"@, "config.toml"@]
    } else {
        seq!["."@, "mailgun-cli"@, "config.toml"@]
    }
}

/// The steps from the user's configuration directory to the configuration file, or from the
/// current directory where there is no such directory.
pub fn config_path(has_config_dir: bool) -> (r: Vec<String>)
    ensures
        texts(r@) == path_steps(has_config_dir),
{
    let mut steps: Vec<String> = Vec::new();
    if !has_config_dir {
        steps.push(".".to_string());
    }
    steps.push("mailgun-cli".to_string());
    steps.push("config.toml".to_string());
    assert(texts(steps@) =~= path_steps(has_config_dir));
    steps
}

/// A file is seen whole: its view holds each of its fields, and each site of its table stands in
/// its place.
pub proof fn files_are_seen_whole(file: StoredConfig, site: StoredSite)
    ensures
        file.default_site is Some ==> file@.default_site == Some(file.default_site->0@),
        file.default_site is None ==> file@.default_site is None,
        file.api_key is Some ==> file@.api_key == Some(file.api_key->0@),
        file.api_key is None ==> file@.api_key is None,
        file.domain is Some ==> file@.domain == Some(file.domain->0@),
        file.domain is None ==> file@.domain is None,
        file@.region == file.region,
        file.sites is None ==> file@.sites is None,
        file.sites is Some ==> {
            &&& file@.sites is Some
            &&& file@.sites->0.len() == file.sites->0@.len()
            &&& forall|i: int|
                0 <= i < file.sites->0@.len() ==> #[trigger] file@.sites->0[i] == (
                    file.sites->0@[i].0@,
                    file.sites->0@[i].1@,
                )
        },
        site@.api_key == site.api_key@,
        site@.domain == site.domain@,
        site@.region == site.region,
{
}

/// A file holds what the configuration holds, each thing in its own place: the default and the
/// credentials of an older file as they are, a region only where it is not the first one, and
/// each site once, under its name, with its key, its domain and its region.
pub proof fn a_file_holds_the_configuration(c: ConfigView)
    requires
        c.sites.dom().finite(),
    ensures
        saved(c).default_site == c.default_site,
        saved(c).api_key == c.api_key,
        saved(c).domain == c.domain,
        c.region == Region::Us ==> saved(c).region is None,
        c.region != Region::Us ==> saved(c).region == Some(c.region),
        c.sites.dom().len() == 0 ==> saved(c).sites is None,
        c.sites.dom().len() > 0 ==> {
            &&& saved(c).sites is Some
            &&& saved(c).sites->0.len() == c.sites.dom().len()
            &&& forall|i: int|
                0 <= i < saved(c).sites->0.len() ==> {
                    let (name, site) = #[trigger] saved(c).sites->0[i];
                    &&& name == sorted_names(c.sites)[i]
                    &&& c.sites.dom().contains(name)
                    &&& site.api_key == c.sites[name].api_key
                    &&& site.domain == c.sites[name].domain
                    &&& site.region == Some(c.sites[name].region)
                }
        },
{
    sorted_names_lists_all(c.sites);
    let names = sorted_names(c.sites);
    if c.sites.dom().len() == 0 {
        assert(c.sites.dom() =~= Set::<Seq<char>>::empty());
    } else {
        assert forall|i: int| 0 <= i < names.len() implies c.sites.dom().contains(
            #[trigger] names[i],
        ) by {
            assert(names.to_set().contains(names[i]));
        }
    }
}

/// A configuration holds what its file holds, each thing in its own place. A region that the file
/// leaves out is the first one.
pub proof fn a_configuration_holds_its_file(file: StoredConfigView)
    ensures
        loaded(Some(file)).default_site == file.default_site,
        loaded(Some(file)).api_key == file.api_key,
        loaded(Some(file)).domain == file.domain,
        file.region is Some ==> loaded(Some(file)).region == file.region->0,
        file.region is None ==> loaded(Some(file)).region == Region::Us,
        file.sites is None ==> loaded(Some(file)).sites.dom().is_empty(),
        file.sites is Some ==> loaded(Some(file)).sites == loaded_table(file.sites->0),
{
}

/// Each entry of a table adds its site under its name, with its key, its domain and its region,
/// the first one where the entry leaves it out, and leaves all other sites as they were.
pub proof fn each_entry_of_a_table_adds_its_site(
    list: Seq<(Seq<char>, StoredSiteView)>,
    name: Seq<char>,
    site: StoredSiteView,
    other: Seq<char>,
)
    ensures
        loaded_table(seq![]).dom().is_empty(),
        loaded_table(list.push((name, site))).dom().contains(name),
        loaded_table(list.push((name, site)))[name].api_key == site.api_key,
        loaded_table(list.push((name, site)))[name].domain == site.domain,
        site.region is Some ==> loaded_table(list.push((name, site)))[name].region == site.region->0,
        site.region is None ==> loaded_table(list.push((name, site)))[name].region == Region::Us,
        other != name ==> loaded_table(list.push((name, site))).dom().contains(other)
            == loaded_table(list).dom().contains(other),
        other != name && loaded_table(list).dom().contains(other) ==> loaded_table(
            list.push((name, site)),
        )[other] == loaded_table(list)[other],
{
    assert(list.push((name, site)).drop_last() =~= list);
}

/// The configuration file stands in the directory of the program, which stands in the user's
/// configuration directory, or in the current one where there is none.
pub proof fn the_file_is_at_the_end_of_the_path()
    ensures
        path_steps(true) == seq!["mailgun-cli"@, "config.toml"@],
        path_steps(false) == seq!["."@] + path_steps(true),
{
    assert(path_steps(false) =~= seq!["."@] + path_steps(true));
}

} // verus!
