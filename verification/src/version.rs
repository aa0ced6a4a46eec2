//! The version tree of a game directory: where each version's files lie, and
//! how a version that inherits from another is completed by its parent.
use vstd::prelude::*;
use crate::error::AppError;
use crate::models::{
    ArgumentEntry, Arguments, AssetIndex, JavaVersion, LibraryEntry, LocalVersionInfo, VersionInfo,
};
use crate::text::{concat2, owned, str_eq};
use crate::utils::{
    lemma_components_append, spec_components, spec_has_drive, spec_is_path_separator,
    spec_is_plain_name, spec_join_path, spec_path_separator, Platform, PlatformView,
};

verus! {

pub open spec fn spec_versions_dir(p: PlatformView, game_dir: Seq<char>) -> Seq<char> {
    spec_join_path(p, game_dir, "versions"@)
}

pub open spec fn spec_version_dir(p: PlatformView, game_dir: Seq<char>, name: Seq<char>) -> Seq<char> {
    spec_join_path(p, spec_versions_dir(p, game_dir), name)
}

pub open spec fn spec_version_json(p: PlatformView, game_dir: Seq<char>, name: Seq<char>) -> Seq<
    char,
> {
    spec_join_path(p, spec_version_dir(p, game_dir, name), name + ".json"@)
}

pub open spec fn spec_version_jar(p: PlatformView, game_dir: Seq<char>, name: Seq<char>) -> Seq<
    char,
> {
    spec_join_path(p, spec_version_dir(p, game_dir, name), name + ".jar"@)
}

/// `<game_dir>/versions`.
pub fn get_versions_dir(game_dir: &str, platform: &Platform) -> (r: String)
    ensures
        r@ == spec_versions_dir(platform@, game_dir@),
{
    proof {
        reveal_strlit("versions");
    }
    platform.join(game_dir, "versions")
}

/// `<game_dir>/versions/<name>`.
pub fn get_version_dir(game_dir: &str, name: &str, platform: &Platform) -> (r: String)
    ensures
        r@ == spec_version_dir(platform@, game_dir@, name@),
{
    let d = get_versions_dir(game_dir, platform);
    platform.join(d.as_str(), name)
}

/// `<game_dir>/versions/<name>/<name>.json`.
pub fn get_version_json(game_dir: &str, name: &str, platform: &Platform) -> (r: String)
    ensures
        r@ == spec_version_json(platform@, game_dir@, name@),
{
    let d = get_version_dir(game_dir, name, platform);
    let file = concat2(name, ".json");
    platform.join(d.as_str(), file.as_str())
}

/// `<game_dir>/versions/<name>/<name>.jar`.
pub fn get_version_jar(game_dir: &str, name: &str, platform: &Platform) -> (r: String)
    ensures
        r@ == spec_version_jar(platform@, game_dir@, name@),
{
    let d = get_version_dir(game_dir, name, platform);
    let file = concat2(name, ".jar");
    platform.join(d.as_str(), file.as_str())
}

// ---------------------------------------------------------------------------
// Inheritance
// ---------------------------------------------------------------------------

/// The child's value where it has one, else the parent's.
pub open spec fn first_some<T>(c: Option<T>, p: Option<T>) -> Option<T> {
    if c is Some {
        c
    } else {
        p
    }
}

/// The contents of an optional list.
pub open spec fn opt_seq<T>(o: Option<Vec<T>>) -> Option<Seq<T>> {
    match o {
        Some(v) => Some(v@),
        None => None,
    }
}

/// A child's list completed by its parent's: the child's entries first, then
/// the parent's; either side alone when the other has no list.
pub open spec fn spec_extend_list<T>(c: Option<Seq<T>>, p: Option<Seq<T>>) -> Option<Seq<T>> {
    match (c, p) {
        (Some(a), Some(b)) => Some(a + b),
        (None, _) => p,
        (Some(_), None) => c,
    }
}

/// A manifest's argument lists, as sequences.
pub ghost struct ArgumentsView {
    pub game: Option<Seq<ArgumentEntry>>,
    pub jvm: Option<Seq<ArgumentEntry>>,
}

/// What a manifest holds, with its lists as sequences.
pub ghost struct VersionView {
    pub id: String,
    pub version_type: Option<String>,
    pub main_class: Option<String>,
    pub assets: Option<String>,
    pub asset_index: Option<AssetIndex>,
    pub libraries: Option<Seq<LibraryEntry>>,
    pub arguments: Option<ArgumentsView>,
    pub minecraft_arguments: Option<String>,
    pub java_version: Option<JavaVersion>,
    pub inherits_from: Option<String>,
    pub jar: Option<String>,
}

pub open spec fn arguments_view(a: Option<Arguments>) -> Option<ArgumentsView> {
    match a {
        Some(x) => Some(ArgumentsView { game: opt_seq(x.game), jvm: opt_seq(x.jvm) }),
        None => None,
    }
}

pub open spec fn version_view(v: VersionInfo) -> VersionView {
    VersionView {
        id: v.id,
        version_type: v.version_type,
        main_class: v.main_class,
        assets: v.assets,
        asset_index: v.asset_index,
        libraries: opt_seq(v.libraries),
        arguments: arguments_view(v.arguments),
        minecraft_arguments: v.minecraft_arguments,
        java_version: v.java_version,
        inherits_from: v.inherits_from,
        jar: v.jar,
    }
}

pub open spec fn version_views(v: Seq<VersionInfo>) -> Seq<VersionView> {
    v.map_values(|x: VersionInfo| version_view(x))
}

/// A child's argument lists completed by its parent's: the parent's lists
/// when the child has none, the child's when the parent has none, and
/// otherwise each of the game and JVM lists extended.
pub open spec fn spec_merge_arguments(c: Option<ArgumentsView>, p: Option<ArgumentsView>) -> Option<
    ArgumentsView,
> {
    match (c, p) {
        (None, _) => p,
        (Some(_), None) => c,
        (Some(ca), Some(pa)) => Some(
            ArgumentsView {
                game: spec_extend_list(ca.game, pa.game),
                jvm: spec_extend_list(ca.jvm, pa.jvm),
            },
        ),
    }
}

/// The manifest `c` completed by its parent `p`: the child keeps its identity
/// (id, type, parent name); every other field the child leaves out is taken
/// from the parent; the argument lists and the libraries are the child's
/// followed by the parent's.
pub open spec fn spec_merge(c: VersionView, p: VersionView) -> VersionView {
    VersionView {
        id: c.id,
        version_type: c.version_type,
        main_class: first_some(c.main_class, p.main_class),
        assets: first_some(c.assets, p.assets),
        asset_index: first_some(c.asset_index, p.asset_index),
        libraries: spec_extend_list(c.libraries, p.libraries),
        arguments: spec_merge_arguments(c.arguments, p.arguments),
        minecraft_arguments: first_some(c.minecraft_arguments, p.minecraft_arguments),
        java_version: first_some(c.java_version, p.java_version),
        inherits_from: c.inherits_from,
        jar: first_some(c.jar, p.jar),
    }
}

/// The manifest `c` completed along its inheritance chain: by its parent,
/// the result by the grandparent, and so on, in the order of `ancestors`.
pub open spec fn spec_merge_chain(c: VersionView, ancestors: Seq<VersionView>) -> VersionView
    decreases ancestors.len(),
{
    if ancestors.len() == 0 {
        c
    } else {
        spec_merge_chain(spec_merge(c, ancestors[0]), ancestors.skip(1))
    }
}

fn extend_list<T>(c: Option<Vec<T>>, p: Option<Vec<T>>) -> (r: Option<Vec<T>>)
    ensures
        opt_seq(r) == spec_extend_list(opt_seq(c), opt_seq(p)),
        c is None ==> r == p,
        p is None ==> r == c,
{
    match c {
        None => p,
        Some(mut cv) => match p {
            Some(mut pv) => {
                cv.append(&mut pv);
                Some(cv)
            },
            None => Some(cv),
        },
    }
}

fn or_parent<T>(c: Option<T>, p: Option<T>) -> (r: Option<T>)
    ensures
        r == first_some(c, p),
{
    match c {
        Some(v) => Some(v),
        None => p,
    }
}

fn merge_arguments(c: Option<Arguments>, p: Option<Arguments>) -> (r: Option<Arguments>)
    ensures
        arguments_view(r) == spec_merge_arguments(arguments_view(c), arguments_view(p)),
{
    match c {
        None => p,
        Some(ca) => match p {
            None => Some(ca),
            Some(pa) => {
                let Arguments { game: cg, jvm: cj } = ca;
                let Arguments { game: pg, jvm: pj } = pa;
                Some(Arguments { game: extend_list(cg, pg), jvm: extend_list(cj, pj) })
            },
        },
    }
}

/// Completes the manifest `child` with what its parent manifest provides.
pub fn merge(child: &mut VersionInfo, parent: VersionInfo)
    ensures
        version_view(*final(child)) == spec_merge(version_view(*old(child)), version_view(parent)),
{
    let VersionInfo {
        id: _,
        version_type: _,
        main_class: p_main,
        assets: p_assets,
        asset_index: p_asset_index,
        libraries: p_libraries,
        arguments: p_arguments,
        minecraft_arguments: p_mc_args,
        java_version: p_java,
        inherits_from: _,
        jar: p_jar,
    } = parent;
    child.main_class = or_parent(child.main_class.take(), p_main);
    child.arguments = merge_arguments(child.arguments.take(), p_arguments);
    child.minecraft_arguments = or_parent(child.minecraft_arguments.take(), p_mc_args);
    child.libraries = extend_list(child.libraries.take(), p_libraries);
    child.asset_index = or_parent(child.asset_index.take(), p_asset_index);
    child.assets = or_parent(child.assets.take(), p_assets);
    child.java_version = or_parent(child.java_version.take(), p_java);
    child.jar = or_parent(child.jar.take(), p_jar);
}

/// The name through which the `k`th ancestor of `child` was reached: the
/// parent named by `child` for the first, and by the ancestor before it for
/// each later one.
pub open spec fn spec_link(child: VersionInfo, ancestors: Seq<VersionInfo>, k: int) -> Option<String> {
    if k == 0 {
        child.inherits_from
    } else {
        ancestors[k - 1].inherits_from
    }
}

/// Whether an optional name is `n`.
pub open spec fn names(l: Option<String>, n: Seq<char>) -> bool {
    l matches Some(m) && m@ == n
}

/// The next manifest of the inheritance chain of version `name`, given the
/// ancestors read so far: the parent the last of them names, unless it names
/// none, or names a version already on the chain (a cycle).
pub open spec fn spec_next_in_chain(
    name: Seq<char>,
    child: VersionInfo,
    ancestors: Seq<VersionInfo>,
) -> Option<Seq<char>> {
    match spec_link(child, ancestors, ancestors.len() as int) {
        None => None,
        Some(n) => if n@ == name || exists|k: int|
            0 <= k < ancestors.len() && names(#[trigger] spec_link(child, ancestors, k), n@) {
            None
        } else {
            Some(n@)
        },
    }
}

/// The version whose manifest is read next along the inheritance chain of
/// `name`, or `None` when the chain ends there.
pub fn next_in_chain(name: &str, child: &VersionInfo, ancestors: &Vec<VersionInfo>) -> (r: Option<
    String,
>)
    ensures
        match r {
            Some(n) => spec_next_in_chain(name@, *child, ancestors@) == Some(n@),
            None => spec_next_in_chain(name@, *child, ancestors@) is None,
        },
{
    let n = ancestors.len();
    let next = if n == 0 {
        &child.inherits_from
    } else {
        &ancestors[n - 1].inherits_from
    };
    let cand = match next {
        Some(c) => c,
        None => {
            return None;
        },
    };
    if str_eq(cand.as_str(), name) {
        return None;
    }
    let mut k: usize = 0;
    while k < n
        invariant
            k <= n,
            n == ancestors@.len(),
            forall|j: int| 0 <= j < k ==> !names(#[trigger] spec_link(*child, ancestors@, j), cand@),
            spec_link(*child, ancestors@, n as int) == Some(*cand),
            cand@ != name@,
        decreases n - k,
    {
        let link = if k == 0 {
            &child.inherits_from
        } else {
            &ancestors[k - 1].inherits_from
        };
        if let Some(m) = link {
            if str_eq(m.as_str(), cand.as_str()) {
                assert(names(spec_link(*child, ancestors@, k as int), cand@));
                return None;
            }
        }
        k += 1;
    }
    Some(cand.clone())
}

/// The manifest of version `name`, completed along its inheritance chain.
///
/// `child` is the version's own manifest, `None` when its file is missing;
/// `ancestors` are the manifests of its inheritance chain, parent first, as
/// `next_in_chain` names them, as far as their files exist. The ancestors are
/// used only when the child names a parent.
pub fn load_version_info(name: &str, child: Option<VersionInfo>, ancestors: Vec<VersionInfo>) -> (r:
    Result<VersionInfo, AppError>)
    ensures
        child is None ==> (r matches Err(AppError::VersionNotFound(m)) && m@ == name@),
        child matches Some(c) ==> match r {
            Ok(v) => version_view(v) == if c.inherits_from is Some {
                spec_merge_chain(version_view(c), version_views(ancestors@))
            } else {
                version_view(c)
            },
            Err(_) => false,
        },
{
    match child {
        None => Err(AppError::VersionNotFound(owned(name))),
        Some(mut info) => {
            if info.inherits_from.is_some() {
                let ghost goal = spec_merge_chain(version_view(info), version_views(ancestors@));
                let mut rest = ancestors;
                assert(version_views(rest@) =~= version_views(ancestors@));
                while rest.len() > 0
                    invariant
                        goal == spec_merge_chain(version_view(info), version_views(rest@)),
                    decreases rest.len(),
                {
                    let ghost before = version_views(rest@);
                    let p = rest.remove(0);
                    proof {
                        assert(version_views(rest@) =~= before.skip(1));
                        assert(before[0] == version_view(p));
                    }
                    merge(&mut info, p);
                }
                assert(version_views(rest@) =~= Seq::<VersionView>::empty());
            }
            Ok(info)
        },
    }
}

// ---------------------------------------------------------------------------
// Listing the versions of a game directory
// ---------------------------------------------------------------------------

/// What was found for one entry of the versions directory: its name, whether
/// it is a directory, whether it holds `<name>.json`, that manifest if it
/// could be read, and whether it holds `<name>.jar`.
#[derive(Debug, Clone, PartialEq)]
pub struct VersionDirScan {
    pub name: String,
    pub is_dir: bool,
    pub has_json: bool,
    pub info: Option<VersionInfo>,
    pub has_jar: bool,
}

/// The listing entry of a version directory: its name, and the type and
/// parent its manifest gives, if it could be read.
pub open spec fn spec_local_entry(s: VersionDirScan) -> LocalVersionInfo {
    LocalVersionInfo {
        id: s.name,
        version_type: match s.info {
            Some(i) => i.version_type,
            None => None,
        },
        has_jar: s.has_jar,
        inherits_from: match s.info {
            Some(i) => i.inherits_from,
            None => None,
        },
    }
}

/// The versions of a game directory: one entry for each directory that holds
/// a manifest, in the order they were found.
pub open spec fn spec_listing(scans: Seq<VersionDirScan>) -> Seq<LocalVersionInfo>
    decreases scans.len(),
{
    if scans.len() == 0 {
        Seq::empty()
    } else {
        let init = spec_listing(scans.drop_last());
        let s = scans.last();
        if s.is_dir && s.has_json {
            init.push(spec_local_entry(s))
        } else {
            init
        }
    }
}

fn copy_opt_string(o: &Option<String>) -> (r: Option<String>)
    ensures
        r == *o,
{
    match o {
        Some(s) => Some(s.clone()),
        None => None,
    }
}

/// The versions found in a game directory.
pub fn list_local_versions(scans: &Vec<VersionDirScan>) -> (r: Vec<LocalVersionInfo>)
    ensures
        r@ == spec_listing(scans@),
{
    let mut out: Vec<LocalVersionInfo> = Vec::new();
    let mut i: usize = 0;
    assert(scans@.take(0) =~= Seq::<VersionDirScan>::empty());
    while i < scans.len()
        invariant
            i <= scans.len(),
            out@ == spec_listing(scans@.take(i as int)),
        decreases scans.len() - i,
    {
        proof {
            assert(scans@.take(i + 1).drop_last() =~= scans@.take(i as int));
        }
        let s = &scans[i];
        if s.is_dir && s.has_json {
            let (vtype, inherits) = match &s.info {
                Some(info) => (copy_opt_string(&info.version_type), copy_opt_string(&info.inherits_from)),
                None => (None, None),
            };
            out.push(
                LocalVersionInfo {
                    id: s.name.clone(),
                    version_type: vtype,
                    has_jar: s.has_jar,
                    inherits_from: inherits,
                },
            );
        }
        i += 1;
    }
    assert(scans@.take(scans.len() as int) =~= scans@);
    out
}

// ---------------------------------------------------------------------------
// Laws of inheritance
// ---------------------------------------------------------------------------

/// A parent that provides nothing leaves the child as it is.
pub proof fn law_merge_bare_parent_changes_nothing(c: VersionView, p: VersionView)
    requires
        p.main_class is None,
        p.arguments is None,
        p.minecraft_arguments is None,
        p.libraries is None,
        p.asset_index is None,
        p.assets is None,
        p.java_version is None,
        p.jar is None,
    ensures
        spec_merge(c, p) == c,
{
}

/// A child that declares a value keeps it; a value the child leaves out
/// comes from the parent; the child keeps its own identity (id, type and
/// parent name) whatever the parent says.
pub proof fn law_merge_child_wins(c: VersionView, p: VersionView)
    ensures
        spec_merge(c, p).id == c.id,
        spec_merge(c, p).version_type == c.version_type,
        spec_merge(c, p).inherits_from == c.inherits_from,
        c.main_class is Some ==> spec_merge(c, p).main_class == c.main_class,
        c.main_class is None ==> spec_merge(c, p).main_class == p.main_class,
        c.assets is Some ==> spec_merge(c, p).assets == c.assets,
        c.assets is None ==> spec_merge(c, p).assets == p.assets,
        c.asset_index is Some ==> spec_merge(c, p).asset_index == c.asset_index,
        c.asset_index is None ==> spec_merge(c, p).asset_index == p.asset_index,
        c.minecraft_arguments is Some ==> spec_merge(c, p).minecraft_arguments
            == c.minecraft_arguments,
        c.minecraft_arguments is None ==> spec_merge(c, p).minecraft_arguments
            == p.minecraft_arguments,
        c.java_version is Some ==> spec_merge(c, p).java_version == c.java_version,
        c.java_version is None ==> spec_merge(c, p).java_version == p.java_version,
        c.jar is Some ==> spec_merge(c, p).jar == c.jar,
        c.jar is None ==> spec_merge(c, p).jar == p.jar,
{
}

/// Where child and parent both have a list (libraries, game arguments, JVM
/// arguments), the merged list is the child's entries followed by the
/// parent's; where only one side has it, that side's list is kept; argument
/// lists on one side only pass through whole.
pub proof fn law_merge_lists_child_then_parent(c: VersionView, p: VersionView)
    ensures
        c.libraries is Some && p.libraries is Some ==> spec_merge(c, p).libraries == Some(
            c.libraries->0 + p.libraries->0,
        ),
        c.libraries is None ==> spec_merge(c, p).libraries == p.libraries,
        p.libraries is None ==> spec_merge(c, p).libraries == c.libraries,
        c.arguments is None ==> spec_merge(c, p).arguments == p.arguments,
        p.arguments is None ==> spec_merge(c, p).arguments == c.arguments,
        c.arguments is Some && p.arguments is Some ==> spec_merge(c, p).arguments is Some,
        c.arguments is Some && p.arguments is Some && c.arguments->0.game is Some
            && p.arguments->0.game is Some ==> spec_merge(c, p).arguments->0.game == Some(
            c.arguments->0.game->0 + p.arguments->0.game->0,
        ),
        c.arguments is Some && p.arguments is Some && c.arguments->0.game is None ==> spec_merge(
            c,
            p,
        ).arguments->0.game == p.arguments->0.game,
        c.arguments is Some && p.arguments is Some && p.arguments->0.game is None ==> spec_merge(
            c,
            p,
        ).arguments->0.game == c.arguments->0.game,
        c.arguments is Some && p.arguments is Some && c.arguments->0.jvm is Some
            && p.arguments->0.jvm is Some ==> spec_merge(c, p).arguments->0.jvm == Some(
            c.arguments->0.jvm->0 + p.arguments->0.jvm->0,
        ),
        c.arguments is Some && p.arguments is Some && c.arguments->0.jvm is None ==> spec_merge(
            c,
            p,
        ).arguments->0.jvm == p.arguments->0.jvm,
        c.arguments is Some && p.arguments is Some && p.arguments->0.jvm is None ==> spec_merge(
            c,
            p,
        ).arguments->0.jvm == c.arguments->0.jvm,
{
}

/// Merging along a chain of one ancestor is merging with the parent.
pub proof fn law_chain_of_one_is_merge(c: VersionView, p: VersionView)
    ensures
        spec_merge_chain(c, seq![p]) == spec_merge(c, p),
{
    assert(seq![p].skip(1) =~= Seq::<VersionView>::empty());
    assert(spec_merge_chain(c, seq![p]) == spec_merge_chain(spec_merge(c, p), seq![p].skip(1)));
    assert(spec_merge_chain(spec_merge(c, p), Seq::<VersionView>::empty()) == spec_merge(c, p));
}

/// Along the chain child → parent → grandparent, the libraries come in that
/// order: the child's, then the parent's, then the grandparent's; none is
/// lost, reordered or added. The same holds of the JVM and game arguments.
pub proof fn law_chain_lists_in_order(c: VersionView, p: VersionView, g: VersionView)
    requires
        c.libraries is Some,
        p.libraries is Some,
        g.libraries is Some,
    ensures
        spec_merge_chain(c, seq![p, g]).libraries == Some(
            c.libraries->0 + p.libraries->0 + g.libraries->0,
        ),
        (c.arguments matches Some(ca) && p.arguments matches Some(pa) && g.arguments matches Some(
            ga,
        ) && ca.jvm is Some && pa.jvm is Some && ga.jvm is Some) ==> spec_merge_chain(
            c,
            seq![p, g],
        ).arguments->0.jvm == Some(
            c.arguments->0.jvm->0 + p.arguments->0.jvm->0 + g.arguments->0.jvm->0,
        ),
        (c.arguments matches Some(ca) && p.arguments matches Some(pa) && g.arguments matches Some(
            ga,
        ) && ca.game is Some && pa.game is Some && ga.game is Some) ==> spec_merge_chain(
            c,
            seq![p, g],
        ).arguments->0.game == Some(
            c.arguments->0.game->0 + p.arguments->0.game->0 + g.arguments->0.game->0,
        ),
{
    let cp = spec_merge(c, p);
    assert(seq![p, g].skip(1) =~= seq![g]);
    assert(seq![g].skip(1) =~= Seq::<VersionView>::empty());
    assert(spec_merge_chain(c, seq![p, g]) == spec_merge_chain(cp, seq![g]));
    assert(spec_merge_chain(cp, seq![g]) == spec_merge_chain(spec_merge(cp, g), seq![g].skip(1)));
    assert(spec_merge_chain(spec_merge(cp, g), Seq::<VersionView>::empty()) == spec_merge(cp, g));
}

/// Following the inheritance chain never comes back to a version already on
/// it: the next name is never the version's own nor one through which an
/// ancestor was already reached, and the chain goes on whenever the last
/// manifest read names a parent not seen yet.
pub proof fn law_chain_never_revisits(name: Seq<char>, child: VersionInfo, ancestors: Seq<VersionInfo>)
    ensures
        spec_next_in_chain(name, child, ancestors) is Some ==> {
            let n = spec_next_in_chain(name, child, ancestors)->0;
            &&& n != name
            &&& forall|k: int|
                0 <= k < ancestors.len() ==> !names(#[trigger] spec_link(child, ancestors, k), n)
            &&& names(spec_link(child, ancestors, ancestors.len() as int), n)
        },
        (spec_link(child, ancestors, ancestors.len() as int) is Some && spec_link(
            child,
            ancestors,
            ancestors.len() as int,
        )->0@ != name && forall|k: int|
            0 <= k < ancestors.len() ==> !names(
                #[trigger] spec_link(child, ancestors, k),
                spec_link(child, ancestors, ancestors.len() as int)->0@,
            )) ==> spec_next_in_chain(name, child, ancestors) == Some(
            spec_link(child, ancestors, ancestors.len() as int)->0@,
        ),
{
}

/// The version tree's layout: for a version named by an ordinary name, its
/// directory sits in the versions directory under that name, and its
/// manifest and jar sit in its directory as `<name>.json` and `<name>.jar`.
pub proof fn law_version_paths_structure(p: PlatformView, game_dir: Seq<char>, name: Seq<char>)
    requires
        spec_is_plain_name(p, name),
    ensures
        spec_version_dir(p, game_dir, name) == spec_versions_dir(p, game_dir).push(
            spec_path_separator(p),
        ) + name,
        spec_components(p, spec_version_dir(p, game_dir, name)) == spec_components(
            p,
            spec_versions_dir(p, game_dir),
        ).push(name),
        spec_components(p, spec_version_json(p, game_dir, name)) == spec_components(
            p,
            spec_version_dir(p, game_dir, name),
        ).push(name + ".json"@),
        spec_components(p, spec_version_jar(p, game_dir, name)) == spec_components(
            p,
            spec_version_dir(p, game_dir, name),
        ).push(name + ".jar"@),
{
    reveal_strlit("versions");
    reveal_strlit(".json");
    reveal_strlit(".jar");
    let vs = spec_versions_dir(p, game_dir);
    let v = "versions"@;
    assert(v.len() == 8 && v.last() == 's');
    assert(!spec_has_drive(v));
    assert(vs.len() >= 8 && vs.last() == 's');
    assert(!spec_is_path_separator(p, name[0]));
    assert(!(name.len() >= 2 && spec_is_path_separator(p, name[0])));
    let vd = spec_version_dir(p, game_dir, name);
    assert(vd == vs.push(spec_path_separator(p)) + name);
    lemma_components_append(p, vs, name);
    assert(vd.last() == name.last());
    assert(!spec_is_path_separator(p, name[name.len() - 1]));
    let json = name + ".json"@;
    let jar = name + ".jar"@;
    assert forall|i: int| 0 <= i < json.len() implies !spec_is_path_separator(p, #[trigger] json[i]) by {
        if i < name.len() {
            assert(json[i] == name[i]);
        }
    }
    assert forall|i: int| 0 <= i < jar.len() implies !spec_is_path_separator(p, #[trigger] jar[i]) by {
        if i < name.len() {
            assert(jar[i] == name[i]);
        }
    }
    if name.len() >= 2 {
        assert(json[0] == name[0] && json[1] == name[1]);
        assert(jar[0] == name[0] && jar[1] == name[1]);
    } else {
        assert(json[1] == '.' && jar[1] == '.');
    }
    assert(!spec_is_path_separator(p, json[0]));
    assert(!spec_is_path_separator(p, jar[0]));
    lemma_components_append(p, vd, json);
    lemma_components_append(p, vd, jar);
}

} // verus!
