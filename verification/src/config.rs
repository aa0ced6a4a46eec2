//! Where the game lives, and the settings the launcher starts with.
use vstd::prelude::*;
use crate::models::LauncherConfig;
use crate::text::{opt_view, owned};
use crate::utils::{spec_join_path, Platform, PlatformView};

verus! {

/// The current user's home directory (`dirs::home_dir`), as text.
///
/// It depends on the environment the launcher runs in, so nothing is stated
/// of it.
#[verifier::external_body]
fn home_dir() -> (r: Option<String>) {
    dirs::home_dir().map(|p| p.to_string_lossy().to_string())
}

/// The game directory: the configured one, else `.minecraft` in the home
/// directory `home` (the current directory when there is none).
pub open spec fn spec_game_directory(
    config: LauncherConfig,
    home: Option<Seq<char>>,
    p: PlatformView,
) -> Seq<char> {
    match config.game_directory {
        Some(d) => d@,
        None => spec_join_path(
            p,
            match home {
                Some(h) => h,
                None => "."@,
            },
            ".minecraft"@,
        ),
    }
}

/// The game directory for `config`, given the home directory `home`.
pub fn game_directory_for_home(config: &LauncherConfig, home: Option<String>, platform: &Platform) -> (r:
    String)
    ensures
        r@ == spec_game_directory(*config, opt_view(home), platform@),
{
    match &config.game_directory {
        Some(d) => d.clone(),
        None => {
            proof {
                reveal_strlit(".");
                reveal_strlit(".minecraft");
            }
            let base = match home {
                Some(h) => h,
                None => owned("."),
            };
            platform.join(base.as_str(), ".minecraft")
        },
    }
}

/// The game directory for `config`: the configured one, else `.minecraft`
/// in the current user's home directory.
pub fn get_game_directory(config: &LauncherConfig, platform: &Platform) -> (r: String)
    ensures
        exists|home: Option<Seq<char>>| r@ == spec_game_directory(*config, home, platform@),
        config.game_directory matches Some(d) ==> r@ == d@,
{
    let home = home_dir();
    let ghost hv = opt_view(home);
    let r = game_directory_for_home(config, home, platform);
    assert(r@ == spec_game_directory(*config, hv, platform@));
    r
}

/// The settings the launcher starts with: those stored, or the defaults when
/// none are stored.
pub fn load_config(stored: Option<LauncherConfig>) -> (r: LauncherConfig)
    ensures
        stored matches Some(c) ==> r == c,
        stored is None ==> (r.game_directory is None && r.java_path is None && r.max_memory_mb
            is None && r.accounts@.len() == 0 && r.version_isolation is None),
{
    match stored {
        Some(c) => c,
        None => LauncherConfig::default(),
    }
}

} // verus!
