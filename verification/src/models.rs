//! The launcher's data: its stored configuration, accounts, launch requests and
//! the version manifests that describe a game version.
//!
//! Key/value maps of the manifests are held as vectors of pairs. Looking a
//! key up gives the value of the first pair with that key; where no key
//! occurs twice, as in the maps they are read from, that is the value paired
//! with it (`law_lookup_finds_the_pair`).
use vstd::prelude::*;

verus! {

/// The launcher's stored settings.
#[derive(Debug, Clone, PartialEq)]
pub struct LauncherConfig {
    pub game_directory: Option<String>,
    pub java_path: Option<String>,
    pub max_memory_mb: Option<u64>,
    pub accounts: Vec<Account>,
    pub version_isolation: Option<bool>,
}

impl Default for LauncherConfig {
    fn default() -> (r: Self)
        ensures
            r.game_directory is None,
            r.java_path is None,
            r.max_memory_mb is None,
            r.accounts@.len() == 0,
            r.version_isolation is None,
    {
        LauncherConfig {
            game_directory: None,
            java_path: None,
            max_memory_mb: None,
            accounts: Vec::new(),
            version_isolation: None,
        }
    }
}

/// A player account.
#[derive(Debug, Clone, PartialEq)]
pub struct Account {
    pub player_name: String,
    pub uuid: String,
    pub account_type: String,
    pub access_token: Option<String>,
    pub is_selected: bool,
}

impl Account {
    /// A copy of this account, field for field.
    pub fn copy(&self) -> (r: Account)
        ensures
            r == *self,
    {
        let access_token = match &self.access_token {
            Some(t) => Some(t.clone()),
            None => None,
        };
        Account {
            player_name: self.player_name.clone(),
            uuid: self.uuid.clone(),
            account_type: self.account_type.clone(),
            access_token,
            is_selected: self.is_selected,
        }
    }
}

/// What the user asks for when starting the game.
#[derive(Debug, Clone, PartialEq)]
pub struct LaunchParams {
    pub version_name: String,
    pub account_index: Option<usize>,
    pub java_path: Option<String>,
    pub max_memory_mb: Option<u64>,
    pub min_memory_mb: Option<u32>,
    pub window_width: Option<u32>,
    pub window_height: Option<u32>,
    pub fullscreen: Option<bool>,
    pub game_directory: Option<String>,
    pub server_address: Option<String>,
    pub extra_jvm_args: Option<Vec<String>>,
    pub extra_game_args: Option<Vec<(String, String)>>,
}

/// A version manifest (`versions/<name>/<name>.json`).
#[derive(Debug, Clone, PartialEq)]
pub struct VersionInfo {
    pub id: String,
    pub version_type: Option<String>,
    pub main_class: Option<String>,
    pub assets: Option<String>,
    pub asset_index: Option<AssetIndex>,
    pub libraries: Option<Vec<LibraryEntry>>,
    pub arguments: Option<Arguments>,
    pub minecraft_arguments: Option<String>,
    pub java_version: Option<JavaVersion>,
    pub inherits_from: Option<String>,
    pub jar: Option<String>,
}

#[derive(Debug, Clone, PartialEq)]
pub struct AssetIndex {
    pub id: Option<String>,
    pub sha1: Option<String>,
    pub size: Option<u64>,
    pub url: Option<String>,
    pub total_size: Option<u64>,
}

#[derive(Debug, Clone, PartialEq)]
pub struct JavaVersion {
    pub component: Option<String>,
    pub major_version: Option<u32>,
}

/// The modern argument lists of a manifest.
#[derive(Debug, Clone, PartialEq)]
pub struct Arguments {
    pub game: Option<Vec<ArgumentEntry>>,
    pub jvm: Option<Vec<ArgumentEntry>>,
}

#[derive(Debug, Clone, PartialEq)]
pub enum ArgumentEntry {
    Plain(String),
    Conditional(ConditionalArgument),
}

#[derive(Debug, Clone, PartialEq)]
pub struct ConditionalArgument {
    pub rules: Option<Vec<Rule>>,
    pub value: ArgumentValue,
}

#[derive(Debug, Clone, PartialEq)]
pub enum ArgumentValue {
    Single(String),
    Multiple(Vec<String>),
}

/// An allow/disallow rule, guarded by the operating system and by features.
#[derive(Debug, Clone, PartialEq)]
pub struct Rule {
    pub action: String,
    pub os: Option<OsRule>,
    pub features: Option<Vec<(String, bool)>>,
}

#[derive(Debug, Clone, PartialEq)]
pub struct OsRule {
    pub name: Option<String>,
    pub arch: Option<String>,
    pub version: Option<String>,
}

/// A library a version needs, named `group:artifact:version`.
#[derive(Debug, Clone, PartialEq)]
pub struct LibraryEntry {
    pub name: String,
    pub downloads: Option<LibraryDownloads>,
    pub natives: Option<Vec<(String, String)>>,
    pub rules: Option<Vec<Rule>>,
    pub extract: Option<ExtractConfig>,
}

#[derive(Debug, Clone, PartialEq)]
pub struct LibraryDownloads {
    pub artifact: Option<DownloadArtifact>,
    pub classifiers: Option<Vec<(String, DownloadArtifact)>>,
}

#[derive(Debug, Clone, PartialEq)]
pub struct DownloadArtifact {
    pub url: Option<String>,
    pub sha1: Option<String>,
    pub size: Option<u64>,
    pub path: Option<String>,
}

#[derive(Debug, Clone, PartialEq)]
pub struct ExtractConfig {
    pub exclude: Option<Vec<String>>,
}

/// A library file found on disk.
#[derive(Debug, Clone, PartialEq)]
pub struct ResolvedLibrary {
    pub local_path: String,
    pub is_native: bool,
}

/// A version found in the game directory.
#[derive(Debug, Clone, PartialEq)]
pub struct LocalVersionInfo {
    pub id: String,
    pub version_type: Option<String>,
    pub has_jar: bool,
    pub inherits_from: Option<String>,
}

/// The entries of a map with their keys taken as character sequences.
pub open spec fn entry_views<V>(entries: Seq<(String, V)>) -> Seq<(Seq<char>, V)> {
    entries.map_values(|e: (String, V)| (e.0@, e.1))
}

/// The value paired with `key` in `entries` (the first such pair).
pub open spec fn spec_lookup<V>(entries: Seq<(Seq<char>, V)>, key: Seq<char>) -> Option<V>
    decreases entries.len(),
{
    if entries.len() == 0 {
        None
    } else if entries[0].0 == key {
        Some(entries[0].1)
    } else {
        spec_lookup(entries.skip(1), key)
    }
}

/// Whether no key occurs twice in `entries`, as in the map it stands for.
pub open spec fn keys_distinct<V>(entries: Seq<(Seq<char>, V)>) -> bool {
    forall|i: int, j: int|
        0 <= i < j < entries.len() ==> #[trigger] entries[i].0 != #[trigger] entries[j].0
}

/// The value paired with `key` in `entries`.
pub fn lookup<'a, V>(entries: &'a Vec<(String, V)>, key: &String) -> (r: Option<&'a V>)
    ensures
        match r {
            Some(v) => spec_lookup(entry_views(entries@), key@) == Some(*v),
            None => spec_lookup(entry_views(entries@), key@) is None,
        },
{
    let ghost ev = entry_views(entries@);
    let mut i: usize = 0;
    assert(ev.skip(0) =~= ev);
    while i < entries.len()
        invariant
            i <= entries.len(),
            ev == entry_views(entries@),
            spec_lookup(ev, key@) == spec_lookup(ev.skip(i as int), key@),
        decreases entries.len() - i,
    {
        let ghost rest = ev.skip(i as int);
        proof {
            assert(rest.skip(1) =~= ev.skip(i + 1));
            assert(rest[0] == (entries@[i as int].0@, entries@[i as int].1));
        }
        if entries[i].0 == *key {
            return Some(&entries[i].1);
        }
        i += 1;
    }
    None
}

/// Where no key occurs twice, looking up a pair's key gives that pair's
/// value.
pub proof fn law_lookup_finds_the_pair<V>(entries: Seq<(Seq<char>, V)>, i: int)
    requires
        keys_distinct(entries),
        0 <= i < entries.len(),
    ensures
        spec_lookup(entries, entries[i].0) == Some(entries[i].1),
    decreases i,
{
    if i > 0 {
        assert(entries[0].0 != entries[i].0);
        let rest = entries.skip(1);
        assert forall|a: int, b: int| 0 <= a < b < rest.len() implies #[trigger] rest[a].0
            != #[trigger] rest[b].0 by {
            assert(rest[a] == entries[a + 1] && rest[b] == entries[b + 1]);
        }
        law_lookup_finds_the_pair(rest, i - 1);
        assert(rest[i - 1] == entries[i]);
    }
}

} // verus!
