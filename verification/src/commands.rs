//! The changes the launcher's commands make to its settings and accounts,
//! and the choices a launch makes from them.
use vstd::prelude::*;
use crate::error::AppError;
use crate::models::{Account, LaunchParams, LauncherConfig};
use crate::text::owned;
use crate::utils::{random_uuid, spec_is_hyphenated_v4, spec_remove_char};

verus! {

/// Whether at most one account is marked as selected.
pub open spec fn at_most_one_selected(accounts: Seq<Account>) -> bool {
    forall|i: int, j: int|
        0 <= i < accounts.len() && 0 <= j < accounts.len() && #[trigger] accounts[i].is_selected
            && #[trigger] accounts[j].is_selected ==> i == j
}

/// `a` with its selection mark set to `selected`.
pub open spec fn with_selected(a: Account, selected: bool) -> Account {
    Account { is_selected: selected, ..a }
}

/// Sets the Java executable the launcher uses.
pub fn set_java_path(config: &mut LauncherConfig, path: Option<String>)
    ensures
        *final(config) == (LauncherConfig { java_path: path, ..*old(config) }),
{
    config.java_path = path;
}

/// Sets the game directory.
pub fn set_game_directory(config: &mut LauncherConfig, directory: String)
    ensures
        *final(config) == (LauncherConfig { game_directory: Some(directory), ..*old(config) }),
{
    config.game_directory = Some(directory);
}

/// Turns per-version game directories on or off.
pub fn set_version_isolation(config: &mut LauncherConfig, enabled: bool)
    ensures
        *final(config) == (LauncherConfig { version_isolation: Some(enabled), ..*old(config) }),
{
    config.version_isolation = Some(enabled);
}

/// Adds an offline account for `player_name`, with a new random identifier;
/// it becomes the selected account when it is the first one.
pub fn add_offline_account(config: &mut LauncherConfig, player_name: String)
    ensures
        final(config).game_directory == old(config).game_directory,
        final(config).java_path == old(config).java_path,
        final(config).max_memory_mb == old(config).max_memory_mb,
        final(config).version_isolation == old(config).version_isolation,
        final(config).accounts@.len() == old(config).accounts@.len() + 1,
        final(config).accounts@.drop_last() == old(config).accounts@,
        ({
            let a = final(config).accounts@.last();
            &&& a.player_name == player_name
            &&& exists|raw: Seq<char>|
                spec_is_hyphenated_v4(raw) && a.uuid@ == spec_remove_char(raw, '-')
            &&& a.account_type@ == "offline"@
            &&& a.access_token is None
            &&& a.is_selected == (old(config).accounts@.len() == 0)
        }),
        at_most_one_selected(old(config).accounts@) ==> at_most_one_selected(
            final(config).accounts@,
        ),
{
    let is_first = config.accounts.len() == 0;
    let account = Account {
        player_name,
        uuid: random_uuid(),
        account_type: owned("offline"),
        access_token: None,
        is_selected: is_first,
    };
    let ghost before = config.accounts@;
    config.accounts.push(account);
    assert(config.accounts@.drop_last() =~= before);
    proof {
        let s = config.accounts@;
        assert(s[before.len() as int].is_selected == (before.len() == 0));
        if at_most_one_selected(before) {
            assert forall|i: int, j: int|
                0 <= i < s.len() && 0 <= j < s.len() && #[trigger] s[i].is_selected
                    && #[trigger] s[j].is_selected implies i == j by {
                if i < before.len() && j < before.len() {
                    assert(s[i] == before[i] && s[j] == before[j]);
                }
            }
        }
    }
}

fn invalid_index() -> (r: AppError)
    ensures
        r matches AppError::AccountError(m) && m@ == "Invalid index"@,
{
    AppError::AccountError(owned("Invalid index"))
}

/// Makes the account at `index` the selected one and every other account
/// unselected; refuses an index past the end.
pub fn select_account(config: &mut LauncherConfig, index: usize) -> (r: Result<(), AppError>)
    ensures
        index >= old(config).accounts@.len() ==> (r matches Err(AppError::AccountError(m)) && m@
            == "Invalid index"@ && *final(config) == *old(config)),
        index < old(config).accounts@.len() ==> ({
            &&& r is Ok
            &&& final(config).accounts@.len() == old(config).accounts@.len()
            &&& forall|i: int|
                0 <= i < old(config).accounts@.len() ==> #[trigger] final(config).accounts@[i]
                    == with_selected(old(config).accounts@[i], i == index)
            &&& final(config).game_directory == old(config).game_directory
            &&& final(config).java_path == old(config).java_path
            &&& final(config).max_memory_mb == old(config).max_memory_mb
            &&& final(config).version_isolation == old(config).version_isolation
            &&& at_most_one_selected(final(config).accounts@)
        }),
{
    if index >= config.accounts.len() {
        return Err(invalid_index());
    }
    let ghost before = config.accounts@;
    let ghost start = *config;
    let n = config.accounts.len();
    let mut i: usize = 0;
    while i < n
        invariant
            i <= n,
            n == before.len(),
            index < n,
            config.accounts@.len() == n,
            forall|j: int|
                0 <= j < i ==> #[trigger] config.accounts@[j] == with_selected(before[j], j == index),
            forall|j: int| i <= j < n ==> #[trigger] config.accounts@[j] == before[j],
            config.game_directory == start.game_directory,
            config.java_path == start.java_path,
            config.max_memory_mb == start.max_memory_mb,
            config.version_isolation == start.version_isolation,
        decreases n - i,
    {
        let mut a = config.accounts[i].copy();
        a.is_selected = i == index;
        config.accounts.set(i, a);
        i += 1;
    }
    proof {
        let s = config.accounts@;
        assert forall|i: int, j: int|
            0 <= i < s.len() && 0 <= j < s.len() && #[trigger] s[i].is_selected
                && #[trigger] s[j].is_selected implies i == j by {
            assert(s[i] == with_selected(before[i], i == index));
            assert(s[j] == with_selected(before[j], j == index));
        }
    }
    Ok(())
}

/// Removes the account at `index`; when it was the selected one and others
/// remain, the first remaining account becomes selected. Refuses an index
/// past the end.
pub fn remove_account(config: &mut LauncherConfig, index: usize) -> (r: Result<(), AppError>)
    ensures
        index >= old(config).accounts@.len() ==> (r matches Err(AppError::AccountError(m)) && m@
            == "Invalid index"@ && *final(config) == *old(config)),
        index < old(config).accounts@.len() ==> ({
            let rest = old(config).accounts@.remove(index as int);
            &&& r is Ok
            &&& final(config).accounts@ == if old(config).accounts@[index as int].is_selected
                && rest.len() > 0 {
                rest.update(0, with_selected(rest[0], true))
            } else {
                rest
            }
            &&& final(config).game_directory == old(config).game_directory
            &&& final(config).java_path == old(config).java_path
            &&& final(config).max_memory_mb == old(config).max_memory_mb
            &&& final(config).version_isolation == old(config).version_isolation
        }),
        at_most_one_selected(old(config).accounts@) ==> at_most_one_selected(
            final(config).accounts@,
        ),
{
    if index >= config.accounts.len() {
        return Err(invalid_index());
    }
    let ghost before = config.accounts@;
    let was_selected = config.accounts[index].is_selected;
    let _removed = config.accounts.remove(index);
    let ghost rest = config.accounts@;
    assert(rest =~= before.remove(index as int));
    if was_selected && config.accounts.len() > 0 {
        let mut first = config.accounts[0].copy();
        first.is_selected = true;
        config.accounts.set(0, first);
    }
    proof {
        if at_most_one_selected(before) {
            let s = config.accounts@;
            assert forall|i: int, j: int|
                0 <= i < s.len() && 0 <= j < s.len() && #[trigger] s[i].is_selected
                    && #[trigger] s[j].is_selected implies i == j by {
                let oi = if i < index { i } else { i + 1 };
                let oj = if j < index { j } else { j + 1 };
                assert(rest[i] == before[oi]);
                assert(rest[j] == before[oj]);
                if was_selected && rest.len() > 0 {
                    if i != 0 && j != 0 {
                        assert(before[oi].is_selected && before[oj].is_selected);
                    } else if i == 0 && j != 0 {
                        assert(before[oj].is_selected);
                        assert(before[index as int].is_selected);
                    } else if j == 0 && i != 0 {
                        assert(before[oi].is_selected);
                        assert(before[index as int].is_selected);
                    }
                } else {
                    assert(before[oi].is_selected && before[oj].is_selected);
                }
            }
        }
    }
    Ok(())
}

/// The first account marked as selected, if any.
pub open spec fn spec_first_selected(accounts: Seq<Account>) -> Option<Account>
    decreases accounts.len(),
{
    if accounts.len() == 0 {
        None
    } else if accounts[0].is_selected {
        Some(accounts[0])
    } else {
        spec_first_selected(accounts.skip(1))
    }
}

/// The account a launch uses: the one at the requested index, when there is
/// one there; else the first selected account.
pub open spec fn spec_launch_account(accounts: Seq<Account>, requested: Option<usize>) -> Option<
    Account,
> {
    if requested matches Some(i) && i < accounts.len() {
        Some(accounts[requested->0 as int])
    } else {
        spec_first_selected(accounts)
    }
}

/// The account a launch with `params` uses; an error when there is none.
pub fn launch_account(config: &LauncherConfig, params: &LaunchParams) -> (r: Result<
    Account,
    AppError,
>)
    ensures
        match spec_launch_account(config.accounts@, params.account_index) {
            Some(a) => r == Ok::<Account, AppError>(a),
            None => r matches Err(AppError::AccountError(m)) && m@ == "No account"@,
        },
{
    if let Some(i) = params.account_index {
        if i < config.accounts.len() {
            return Ok(config.accounts[i].copy());
        }
    }
    let mut k: usize = 0;
    assert(config.accounts@.skip(0) =~= config.accounts@);
    while k < config.accounts.len()
        invariant
            k <= config.accounts@.len(),
            !(params.account_index matches Some(i) && i < config.accounts@.len()),
            spec_first_selected(config.accounts@) == spec_first_selected(
                config.accounts@.skip(k as int),
            ),
        decreases config.accounts.len() - k,
    {
        proof {
            assert(config.accounts@.skip(k as int).skip(1) =~= config.accounts@.skip(k + 1));
        }
        if config.accounts[k].is_selected {
            assert(config.accounts@.skip(k as int)[0] == config.accounts@[k as int]);
            return Ok(config.accounts[k].copy());
        }
        k += 1;
    }
    Err(AppError::AccountError(owned("No account")))
}

/// Whether launches use a per-version game directory (yes unless turned off).
pub fn launch_isolation(config: &LauncherConfig) -> (r: bool)
    ensures
        r == match config.version_isolation {
            Some(b) => b,
            None => true,
        },
{
    match config.version_isolation {
        Some(b) => b,
        None => true,
    }
}

// ---------------------------------------------------------------------------
// Laws
// ---------------------------------------------------------------------------

proof fn lemma_first_selected_unique(s: Seq<Account>, index: int)
    requires
        0 <= index < s.len(),
        forall|j: int| 0 <= j < s.len() ==> (#[trigger] s[j].is_selected <==> j == index),
    ensures
        spec_first_selected(s) == Some(s[index]),
    decreases s.len(),
{
    if index > 0 {
        assert forall|j: int| 0 <= j < s.skip(1).len() implies (#[trigger] s.skip(1)[j].is_selected
            <==> j == index - 1) by {
            assert(s.skip(1)[j] == s[j + 1]);
        }
        lemma_first_selected_unique(s.skip(1), index - 1);
        assert(s.skip(1)[index - 1] == s[index]);
    }
}

/// The first selected account is the earliest account that is selected; there
/// is none exactly when no account is selected.
pub proof fn law_first_selected_is_earliest(accounts: Seq<Account>)
    ensures
        spec_first_selected(accounts) is None <==> forall|k: int|
            0 <= k < accounts.len() ==> !(#[trigger] accounts[k].is_selected),
        spec_first_selected(accounts) is Some ==> exists|k: int|
            0 <= k < accounts.len() && #[trigger] accounts[k].is_selected && spec_first_selected(
                accounts,
            ) == Some(accounts[k]) && forall|m: int|
                0 <= m < k ==> !(#[trigger] accounts[m].is_selected),
    decreases accounts.len(),
{
    if accounts.len() > 0 {
        let rest = accounts.skip(1);
        law_first_selected_is_earliest(rest);
        assert forall|k: int| 0 <= k < rest.len() implies #[trigger] rest[k] == accounts[k + 1] by {}
        if accounts[0].is_selected {
            assert(accounts[0].is_selected && spec_first_selected(accounts) == Some(accounts[0]));
        } else if spec_first_selected(rest) is Some {
            let k = choose|k: int|
                0 <= k < rest.len() && #[trigger] rest[k].is_selected && spec_first_selected(rest)
                    == Some(rest[k]) && forall|m: int| 0 <= m < k ==> !(#[trigger] rest[m].is_selected);
            assert(accounts[k + 1].is_selected);
            assert forall|m: int| 0 <= m < k + 1 implies !(#[trigger] accounts[m].is_selected) by {
                if m > 0 {
                    assert(accounts[m] == rest[m - 1]);
                }
            }
        } else {
            assert forall|k: int| 0 <= k < accounts.len() implies !(
            #[trigger] accounts[k].is_selected) by {
                if k > 0 {
                    assert(accounts[k] == rest[k - 1]);
                }
            }
        }
    }
}

/// A launch that requests an account by an index within the list uses the
/// account at that index, whatever is selected; a launch that requests none,
/// or an index past the end, uses the earliest selected account, and finds
/// none only when no account is selected.
pub proof fn law_launch_uses_requested_account(accounts: Seq<Account>, requested: Option<usize>)
    ensures
        forall|i: usize|
            requested == Some(i) && i < accounts.len() ==> spec_launch_account(accounts, requested)
                == Some(#[trigger] accounts[i as int]),
        !(requested matches Some(i) && i < accounts.len()) ==> spec_launch_account(
            accounts,
            requested,
        ) == spec_first_selected(accounts),
        !(requested matches Some(i) && i < accounts.len()) ==> (spec_launch_account(
            accounts,
            requested,
        ) is None <==> forall|k: int| 0 <= k < accounts.len() ==> !(#[trigger] accounts[k].is_selected)),
{
    law_first_selected_is_earliest(accounts);
}

/// Once an account has been selected, a launch that names no account uses
/// that account.
pub proof fn law_selected_account_is_launched(
    before: Seq<Account>,
    after: Seq<Account>,
    index: int,
)
    requires
        0 <= index < before.len(),
        after.len() == before.len(),
        forall|i: int|
            0 <= i < before.len() ==> #[trigger] after[i] == with_selected(before[i], i == index),
    ensures
        spec_launch_account(after, None) == Some(with_selected(before[index], true)),
{
    assert forall|j: int| 0 <= j < after.len() implies (#[trigger] after[j].is_selected <==> j
        == index) by {
        assert(after[j] == with_selected(before[j], j == index));
    }
    lemma_first_selected_unique(after, index);
}

/// Removing the selected account, when others remain, leaves exactly one
/// account selected: the first remaining one.
pub proof fn law_removing_selected_keeps_one_selected(before: Seq<Account>, index: int)
    requires
        0 <= index < before.len(),
        before.len() > 1,
        before[index].is_selected,
        at_most_one_selected(before),
    ensures
        ({
            let rest = before.remove(index);
            let after = rest.update(0, with_selected(rest[0], true));
            &&& after[0].is_selected
            &&& forall|j: int| 1 <= j < after.len() ==> !(#[trigger] after[j].is_selected)
        }),
{
    let rest = before.remove(index);
    let after = rest.update(0, with_selected(rest[0], true));
    assert forall|j: int| 1 <= j < after.len() implies !(#[trigger] after[j].is_selected) by {
        let oj = if j < index { j } else { j + 1 };
        assert(after[j] == rest[j]);
        assert(rest[j] == before[oj]);
        if before[oj].is_selected {
            assert(oj == index);
        }
    }
}

} // verus!
