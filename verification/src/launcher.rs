//! The command line that starts the game: the Java executable, the JVM
//! options, the main class and the game's own arguments, with the manifest's
//! `${...}` placeholders filled in.
use vstd::prelude::*;
use crate::error::AppError;
use crate::library::{
    build_classpath, get_natives_dir, library_probe_paths, path_listed, resolve, resolved_views,
    spec_classpath, spec_natives_dir, spec_probe_paths, spec_resolve,
};
use crate::models::{
    entry_views, Account, ArgumentEntry, ArgumentValue, LaunchParams, ResolvedLibrary, VersionInfo,
};
use crate::rules::{evaluate_rules, spec_evaluate_rules};
use crate::text::{
    concat2, from_chars, i64_to_string, join, lemma_replace_absent, occurs_at, owned, push_str, replace_chars, spec_decimal,
    spec_digit, spec_int_decimal, spec_join, spec_replace, spec_words, split_whitespace, to_chars,
    u64_to_string, vec_views, views,
};
use crate::utils::{spec_join_path, Platform, PlatformView};
use crate::version::{get_version_dir, get_version_jar, spec_version_dir, spec_version_jar};

verus! {

// ---------------------------------------------------------------------------
// Placeholders
// ---------------------------------------------------------------------------

/// The placeholders of an argument and what replaces them, as pairs.
pub open spec fn pair_views(t: Seq<(String, String)>) -> Seq<(Seq<char>, Seq<char>)> {
    t.map_values(|e: (String, String)| (e.0@, e.1@))
}

/// `s` with each pair of `table` applied in turn: every occurrence of the
/// first part replaced by the second, in the result of the pairs before.
pub open spec fn spec_substitute(s: Seq<char>, table: Seq<(Seq<char>, Seq<char>)>) -> Seq<char>
    decreases table.len(),
{
    if table.len() == 0 {
        s
    } else {
        spec_substitute(spec_replace(s, table[0].0, table[0].1), table.skip(1))
    }
}

/// The asset index a version names: the id of its asset index, else its
/// `assets` field, else `legacy`.
pub open spec fn spec_asset_index_name(info: VersionInfo) -> Seq<char> {
    if info.asset_index matches Some(ai) && ai.id is Some {
        info.asset_index->0.id->0@
    } else if info.assets is Some {
        info.assets->0@
    } else {
        "legacy"@
    }
}

/// The account's access token, or `0` when it has none.
pub open spec fn spec_access_token(acc: Account) -> Seq<char> {
    match acc.access_token {
        Some(t) => t@,
        None => "0"@,
    }
}

/// The places a launch fills into placeholders.
pub struct LaunchPaths {
    /// The directory the game keeps its saves and settings in.
    pub run_dir: String,
    /// The libraries directory.
    pub libraries_dir: String,
    /// The assets directory.
    pub assets_dir: String,
    /// The Java class path.
    pub classpath: String,
    /// The directory of unpacked native files.
    pub natives_dir: String,
}

/// The placeholders of the manifests, each with what replaces it, in the
/// order they are filled in.
pub open spec fn spec_substitutions(
    info: VersionInfo,
    acc: Account,
    params: LaunchParams,
    p: PlatformView,
    run_dir: Seq<char>,
    libraries_dir: Seq<char>,
    assets_dir: Seq<char>,
    classpath: Seq<char>,
    natives_dir: Seq<char>,
) -> Seq<(Seq<char>, Seq<char>)> {
    seq![
        ("${auth_player_name}"@, acc.player_name@),
        ("${version_name}"@, info.id@),
        ("${game_directory}"@, run_dir),
        ("${assets_root}"@, assets_dir),
        ("${assets_index_name}"@, spec_asset_index_name(info)),
        ("${auth_uuid}"@, acc.uuid@),
        ("${auth_access_token}"@, spec_access_token(acc)),
        ("${user_type}"@, "mojang"@),
        ("${version_type}"@, match info.version_type { Some(t) => t@, None => "release"@ }),
        ("${user_properties}"@, "{}"@),
        ("${game_assets}"@, assets_dir),
        ("${auth_session}"@, spec_access_token(acc)),
        ("${classpath}"@, classpath),
        ("${natives_directory}"@, natives_dir),
        ("${launcher_name}"@, "custom"@),
        ("${launcher_version}"@, "1.0"@),
        ("${classpath_separator}"@, p.classpath_separator),
        ("${library_directory}"@, libraries_dir),
        ("${resolution_width}"@, spec_decimal(
            match params.window_width { Some(w) => w as nat, None => 854 },
        )),
        ("${resolution_height}"@, spec_decimal(
            match params.window_height { Some(h) => h as nat, None => 480 },
        )),
    ]
}

fn push_pair(t: &mut Vec<(String, String)>, key: &str, value: String)
    ensures
        pair_views(final(t)@) == pair_views(old(t)@).push((key@, value@)),
{
    let ghost before = pair_views(t@);
    t.push((owned(key), value));
    assert(pair_views(t@) =~= before.push((key@, value@)));
}

/// The placeholders and what replaces each, for one launch.
pub fn substitution_table(
    info: &VersionInfo,
    paths: &LaunchPaths,
    acc: &Account,
    params: &LaunchParams,
    platform: &Platform,
) -> (r: Vec<(String, String)>)
    ensures
        pair_views(r@) == spec_substitutions(
            *info,
            *acc,
            *params,
            platform@,
            paths.run_dir@,
            paths.libraries_dir@,
            paths.assets_dir@,
            paths.classpath@,
            paths.natives_dir@,
        ),
{
    let index_name = match &info.asset_index {
        Some(ai) if ai.id.is_some() => ai.id.as_ref().unwrap().clone(),
        _ => match &info.assets {
            Some(a) => a.clone(),
            None => owned("legacy"),
        },
    };
    let token = match &acc.access_token {
        Some(t) => t.clone(),
        None => owned("0"),
    };
    let vtype = match &info.version_type {
        Some(t) => t.clone(),
        None => owned("release"),
    };
    let width: u64 = match params.window_width {
        Some(w) => w as u64,
        None => 854,
    };
    let height: u64 = match params.window_height {
        Some(h) => h as u64,
        None => 480,
    };
    let mut t: Vec<(String, String)> = Vec::new();
    push_pair(&mut t, "${auth_player_name}", acc.player_name.clone());
    push_pair(&mut t, "${version_name}", info.id.clone());
    push_pair(&mut t, "${game_directory}", paths.run_dir.clone());
    push_pair(&mut t, "${assets_root}", paths.assets_dir.clone());
    push_pair(&mut t, "${assets_index_name}", index_name);
    push_pair(&mut t, "${auth_uuid}", acc.uuid.clone());
    push_pair(&mut t, "${auth_access_token}", token.clone());
    push_pair(&mut t, "${user_type}", owned("mojang"));
    push_pair(&mut t, "${version_type}", vtype);
    push_pair(&mut t, "${user_properties}", owned("{}"));
    push_pair(&mut t, "${game_assets}", paths.assets_dir.clone());
    push_pair(&mut t, "${auth_session}", token);
    push_pair(&mut t, "${classpath}", paths.classpath.clone());
    push_pair(&mut t, "${natives_directory}", paths.natives_dir.clone());
    push_pair(&mut t, "${launcher_name}", owned("custom"));
    push_pair(&mut t, "${launcher_version}", owned("1.0"));
    push_pair(&mut t, "${classpath_separator}", owned(platform.classpath_separator()));
    push_pair(&mut t, "${library_directory}", paths.libraries_dir.clone());
    push_pair(&mut t, "${resolution_width}", u64_to_string(width));
    push_pair(&mut t, "${resolution_height}", u64_to_string(height));
    assert(pair_views(t@) =~= spec_substitutions(
        *info,
        *acc,
        *params,
        platform@,
        paths.run_dir@,
        paths.libraries_dir@,
        paths.assets_dir@,
        paths.classpath@,
        paths.natives_dir@,
    ));
    t
}

/// `s` with the placeholders of `table` filled in, in order.
pub fn repl(s: &str, table: &Vec<(String, String)>) -> (r: String)
    ensures
        r@ == spec_substitute(s@, pair_views(table@)),
{
    let mut cur = to_chars(s);
    let ghost tv = pair_views(table@);
    let mut i: usize = 0;
    assert(tv.skip(0) =~= tv);
    while i < table.len()
        invariant
            i <= table.len(),
            tv == pair_views(table@),
            spec_substitute(s@, tv) == spec_substitute(cur@, tv.skip(i as int)),
        decreases table.len() - i,
    {
        let ghost rest = tv.skip(i as int);
        proof {
            assert(rest.skip(1) =~= tv.skip(i + 1));
            assert(rest[0] == (table@[i as int].0@, table@[i as int].1@));
        }
        let pat = to_chars(table[i].0.as_str());
        let rep = to_chars(table[i].1.as_str());
        cur = replace_chars(&cur, &pat, &rep);
        i += 1;
    }
    from_chars(&cur)
}

// ---------------------------------------------------------------------------
// Argument lists
// ---------------------------------------------------------------------------

/// The strings an argument entry contributes before placeholders are filled
/// in: a plain entry its string; a conditional one, when its rules (if any)
/// allow it, its single value or its values in order; otherwise nothing.
pub open spec fn spec_entry_values(
    arg: ArgumentEntry,
    features: Seq<(Seq<char>, bool)>,
    p: PlatformView,
) -> Seq<Seq<char>> {
    match arg {
        ArgumentEntry::Plain(s) => seq![s@],
        ArgumentEntry::Conditional(c) => if match c.rules {
            Some(r) => spec_evaluate_rules(r@, features, p),
            None => true,
        } {
            match c.value {
                ArgumentValue::Single(s) => seq![s@],
                ArgumentValue::Multiple(v) => views(v@),
            }
        } else {
            Seq::empty()
        },
    }
}

/// Each string in `v` with the placeholders filled in.
pub open spec fn spec_substitute_all(v: Seq<Seq<char>>, table: Seq<(Seq<char>, Seq<char>)>) -> Seq<
    Seq<char>,
> {
    v.map_values(|s: Seq<char>| spec_substitute(s, table))
}

/// The arguments an argument list gives, in order, placeholders filled in.
pub open spec fn spec_expand_args(
    entries: Seq<ArgumentEntry>,
    features: Seq<(Seq<char>, bool)>,
    p: PlatformView,
    table: Seq<(Seq<char>, Seq<char>)>,
) -> Seq<Seq<char>>
    decreases entries.len(),
{
    if entries.len() == 0 {
        Seq::empty()
    } else {
        spec_expand_args(entries.drop_last(), features, p, table) + spec_substitute_all(
            spec_entry_values(entries.last(), features, p),
            table,
        )
    }
}

fn push_substituted(out: &mut Vec<String>, s: &str, table: &Vec<(String, String)>)
    ensures
        views(final(out)@) == views(old(out)@).push(spec_substitute(s@, pair_views(table@))),
{
    let ghost before = views(out@);
    let v = repl(s, table);
    out.push(v);
    assert(views(out@) =~= before.push(spec_substitute(s@, pair_views(table@))));
}

/// Appends to `out` the arguments `arg` contributes, placeholders filled in.
pub fn add_arg(
    arg: &ArgumentEntry,
    out: &mut Vec<String>,
    table: &Vec<(String, String)>,
    features: &Vec<(String, bool)>,
    platform: &Platform,
)
    ensures
        views(final(out)@) == views(old(out)@) + spec_substitute_all(
            spec_entry_values(*arg, entry_views(features@), platform@),
            pair_views(table@),
        ),
{
    let ghost before = views(out@);
    let ghost tv = pair_views(table@);
    match arg {
        ArgumentEntry::Plain(s) => {
            push_substituted(out, s.as_str(), table);
            assert(views(out@) =~= before + spec_substitute_all(seq![s@], tv));
        },
        ArgumentEntry::Conditional(c) => {
            let allowed = match &c.rules {
                Some(r) => evaluate_rules(r, features, platform),
                None => true,
            };
            if allowed {
                match &c.value {
                    ArgumentValue::Single(s) => {
                        push_substituted(out, s.as_str(), table);
                        assert(views(out@) =~= before + spec_substitute_all(seq![s@], tv));
                    },
                    ArgumentValue::Multiple(v) => {
                        let mut i: usize = 0;
                        assert(views(v@).take(0) =~= Seq::<Seq<char>>::empty());
                        assert(views(out@) =~= before + spec_substitute_all(
                            views(v@).take(0),
                            tv,
                        ));
                        while i < v.len()
                            invariant
                                i <= v.len(),
                                tv == pair_views(table@),
                                views(out@) == before + spec_substitute_all(
                                    views(v@).take(i as int),
                                    tv,
                                ),
                            decreases v.len() - i,
                        {
                            push_substituted(out, v[i].as_str(), table);
                            assert(spec_substitute_all(views(v@).take(i + 1), tv) =~= 
                                spec_substitute_all(views(v@).take(i as int), tv).push(
                                spec_substitute(v@[i as int]@, tv)));
                            i += 1;
                        }
                        assert(views(v@).take(v.len() as int) =~= views(v@));
                    },
                }
            } else {
                assert(views(out@) =~= before + spec_substitute_all(Seq::empty(), tv));
            }
        },
    }
}

/// Appends to `out` the arguments of the list `entries`.
pub fn add_args(
    entries: &Vec<ArgumentEntry>,
    out: &mut Vec<String>,
    table: &Vec<(String, String)>,
    features: &Vec<(String, bool)>,
    platform: &Platform,
)
    ensures
        views(final(out)@) == views(old(out)@) + spec_expand_args(
            entries@,
            entry_views(features@),
            platform@,
            pair_views(table@),
        ),
{
    let ghost before = views(out@);
    let ghost fv = entry_views(features@);
    let ghost tv = pair_views(table@);
    let mut i: usize = 0;
    assert(entries@.take(0) =~= Seq::<ArgumentEntry>::empty());
    assert(views(out@) =~= before + Seq::<Seq<char>>::empty());
    while i < entries.len()
        invariant
            i <= entries.len(),
            fv == entry_views(features@),
            tv == pair_views(table@),
            views(out@) == before + spec_expand_args(entries@.take(i as int), fv, platform@, tv),
        decreases entries.len() - i,
    {
        proof {
            assert(entries@.take(i + 1).drop_last() =~= entries@.take(i as int));
            assert(entries@.take(i + 1).last() == entries@[i as int]);
        }
        let ghost mid = views(out@);
        add_arg(&entries[i], out, table, features, platform);
        assert(views(out@) =~= before + spec_expand_args(entries@.take(i + 1), fv, platform@, tv));
        i += 1;
    }
    assert(entries@.take(entries.len() as int) =~= entries@);
}

/// The words of the legacy argument string, placeholders filled in.
pub fn legacy_args(args: &str, table: &Vec<(String, String)>) -> (r: Vec<String>)
    ensures
        views(r@) == spec_substitute_all(spec_words(args@), pair_views(table@)),
{
    let chars = to_chars(args);
    let words = split_whitespace(&chars);
    let ghost wv = vec_views(words@);
    let ghost tv = pair_views(table@);
    let mut out: Vec<String> = Vec::new();
    let mut i: usize = 0;
    assert(views(out@) =~= spec_substitute_all(wv.take(0), tv));
    while i < words.len()
        invariant
            i <= words.len(),
            wv == vec_views(words@),
            tv == pair_views(table@),
            views(out@) == spec_substitute_all(wv.take(i as int), tv),
        decreases words.len() - i,
    {
        let w = from_chars(&words[i]);
        push_substituted(&mut out, w.as_str(), table);
        assert(spec_substitute_all(wv.take(i + 1), tv) =~= spec_substitute_all(
            wv.take(i as int),
            tv,
        ).push(spec_substitute(wv[i as int], tv)));
        i += 1;
    }
    assert(wv.take(words.len() as int) =~= wv);
    out
}


// ---------------------------------------------------------------------------
// The launch command
// ---------------------------------------------------------------------------

/// The features a launch declares to rules: not a demo user, and a custom
/// window size.
pub open spec fn spec_launch_features() -> Seq<(Seq<char>, bool)> {
    seq![("is_demo_user"@, false), ("has_custom_resolution"@, true)]
}

/// The features a launch declares to rules.
pub fn launch_features() -> (r: Vec<(String, bool)>)
    ensures
        entry_views(r@) == spec_launch_features(),
{
    let mut f: Vec<(String, bool)> = Vec::new();
    f.push((owned("is_demo_user"), false));
    f.push((owned("has_custom_resolution"), true));
    assert(entry_views(f@) =~= spec_launch_features());
    f
}

/// `major` read as an `i32`, as `major as i32` wraps it.
pub open spec fn spec_u32_as_i32(major: u32) -> int {
    if major <= i32::MAX {
        major as int
    } else {
        major - 4294967296
    }
}

/// The Java major version a manifest requires, if it names one.
pub open spec fn spec_required_java(info: VersionInfo) -> Option<u32> {
    match info.java_version {
        Some(jv) => jv.major_version,
        None => None,
    }
}

/// Whether the installed Java, of major version `found`, is older than the
/// manifest requires.
pub open spec fn spec_java_too_old(info: VersionInfo, found: i32) -> bool {
    spec_required_java(info) matches Some(m) && found < spec_u32_as_i32(m)
}

/// The message for a Java that is too old.
pub open spec fn spec_java_message(required: u32, found: i32) -> Seq<char> {
    "Java "@ + spec_decimal(required as nat) + " required, found "@ + spec_int_decimal(found as int)
}

/// Refuses a Java older than the manifest requires.
pub fn check_java_version(info: &VersionInfo, found: i32) -> (r: Result<(), AppError>)
    ensures
        !spec_java_too_old(*info, found) ==> r is Ok,
        spec_java_too_old(*info, found) ==> (r matches Err(AppError::JavaNotFound(m)) && m@
            == spec_java_message(spec_required_java(*info)->0, found)),
{
    if let Some(req) = &info.java_version {
        if let Some(maj) = req.major_version {
            let wrapped: i32 = if maj <= 2147483647 {
                maj as i32
            } else {
                (maj as i64 - 4294967296) as i32
            };
            if found < wrapped {
                let mut m = concat2("Java ", u64_to_string(maj as u64).as_str());
                push_str(&mut m, " required, found ");
                push_str(&mut m, i64_to_string(found as i64).as_str());
                proof {
                    reveal_strlit("Java ");
                    reveal_strlit(" required, found ");
                }
                return Err(AppError::JavaNotFound(m));
            }
        }
    }
    Ok(())
}

/// The game jar a launch uses: the inherited version's jar when the manifest
/// names a parent and that jar exists; else, when the manifest names a jar
/// and it exists, that one; else the version's own jar.
pub open spec fn spec_game_jar(
    p: PlatformView,
    root: Seq<char>,
    name: Seq<char>,
    info: VersionInfo,
    existing: Seq<Seq<char>>,
) -> Seq<char> {
    let own = spec_version_jar(p, root, name);
    match info.inherits_from {
        Some(pn) => {
            let pj = spec_version_jar(p, root, pn@);
            if existing.contains(pj) { pj } else { own }
        },
        None => match info.jar {
            Some(j) => {
                let jj = spec_version_jar(p, root, j@);
                if existing.contains(jj) { jj } else { own }
            },
            None => own,
        },
    }
}

/// The jar files whose existence decides the game jar.
pub open spec fn spec_jar_candidates(
    p: PlatformView,
    root: Seq<char>,
    name: Seq<char>,
    info: VersionInfo,
) -> Seq<Seq<char>> {
    let own = spec_version_jar(p, root, name);
    match info.inherits_from {
        Some(pn) => seq![spec_version_jar(p, root, pn@), own],
        None => match info.jar {
            Some(j) => seq![spec_version_jar(p, root, j@), own],
            None => seq![own],
        },
    }
}

/// The game jar of a launch.
pub fn game_jar(
    root: &str,
    params: &LaunchParams,
    info: &VersionInfo,
    existing: &Vec<String>,
    platform: &Platform,
) -> (r: String)
    ensures
        r@ == spec_game_jar(platform@, root@, params.version_name@, *info, views(existing@)),
{
    let own = get_version_jar(root, params.version_name.as_str(), platform);
    match &info.inherits_from {
        Some(pn) => {
            let pj = get_version_jar(root, pn.as_str(), platform);
            if path_listed(existing, &pj) { pj } else { own }
        },
        None => match &info.jar {
            Some(j) => {
                let jj = get_version_jar(root, j.as_str(), platform);
                if path_listed(existing, &jj) { jj } else { own }
            },
            None => own,
        },
    }
}

pub open spec fn spec_libraries_dir(p: PlatformView, root: Seq<char>) -> Seq<char> {
    spec_join_path(p, root, "libraries"@)
}

pub open spec fn spec_assets_dir(p: PlatformView, root: Seq<char>) -> Seq<char> {
    spec_join_path(p, root, "assets"@)
}

/// The libraries found and missing for a launch (none when the manifest
/// lists none).
pub open spec fn spec_library_set(
    p: PlatformView,
    root: Seq<char>,
    info: VersionInfo,
    existing: Seq<Seq<char>>,
) -> (Seq<(Seq<char>, bool)>, Seq<Seq<char>>) {
    match info.libraries {
        Some(l) => spec_resolve(l@, spec_libraries_dir(p, root), spec_launch_features(), p, existing),
        None => (Seq::empty(), Seq::empty()),
    }
}

/// The paths whose existence decides a launch: the jar candidates, then the
/// candidate files of the manifest's libraries.
pub open spec fn spec_launch_probe_paths(
    p: PlatformView,
    root: Seq<char>,
    name: Seq<char>,
    info: VersionInfo,
) -> Seq<Seq<char>> {
    spec_jar_candidates(p, root, name, info) + match info.libraries {
        Some(l) => spec_probe_paths(l@, spec_libraries_dir(p, root), p),
        None => Seq::empty(),
    }
}

/// The paths whose existence a launch of `params` consults.
pub fn launch_probe_paths(
    root: &str,
    params: &LaunchParams,
    info: &VersionInfo,
    platform: &Platform,
) -> (r: Vec<String>)
    ensures
        views(r@) == spec_launch_probe_paths(platform@, root@, params.version_name@, *info),
{
    let mut out: Vec<String> = Vec::new();
    let own = get_version_jar(root, params.version_name.as_str(), platform);
    match &info.inherits_from {
        Some(pn) => out.push(get_version_jar(root, pn.as_str(), platform)),
        None => match &info.jar {
            Some(j) => out.push(get_version_jar(root, j.as_str(), platform)),
            None => {},
        },
    }
    out.push(own);
    let ghost jars = views(out@);
    assert(jars =~= spec_jar_candidates(platform@, root@, params.version_name@, *info));
    proof {
        reveal_strlit("libraries");
    }
    match &info.libraries {
        Some(l) => {
            let dir = platform.join(root, "libraries");
            let mut probes = library_probe_paths(l, dir.as_str(), platform);
            let ghost pv = views(probes@);
            out.append(&mut probes);
            assert(views(out@) =~= jars + pv);
        },
        None => {
            assert(views(out@) =~= jars + Seq::<Seq<char>>::empty());
        },
    }
    out
}

fn library_set(root: &str, info: &VersionInfo, existing: &Vec<String>, platform: &Platform) -> (r: (
    Vec<ResolvedLibrary>,
    Vec<String>,
))
    ensures
        (resolved_views(r.0@), views(r.1@)) == spec_library_set(
            platform@,
            root@,
            *info,
            views(existing@),
        ),
{
    proof {
        reveal_strlit("libraries");
    }
    match &info.libraries {
        Some(l) => {
            let dir = platform.join(root, "libraries");
            let features = launch_features();
            match resolve(l, dir.as_str(), &features, platform, existing) {
                Ok(pair) => pair,
                Err(_) => (Vec::new(), Vec::new()),
            }
        },
        None => {
            let a: Vec<ResolvedLibrary> = Vec::new();
            let b: Vec<String> = Vec::new();
            assert(resolved_views(a@) =~= Seq::<(Seq<char>, bool)>::empty());
            assert(views(b@) =~= Seq::<Seq<char>>::empty());
            (a, b)
        },
    }
}

/// The JVM options every launch begins with: the memory limits (2048 MB and
/// 128 MB unless given), the native library directory, the class path, and
/// the launcher's brand and version.
pub open spec fn spec_jvm_base(params: LaunchParams, natives: Seq<char>, cp: Seq<char>) -> Seq<
    Seq<char>,
> {
    seq![
        "-Xmx"@ + spec_decimal(match params.max_memory_mb { Some(m) => m as nat, None => 2048 })
            + "m"@,
        "-Xms"@ + spec_decimal(match params.min_memory_mb { Some(m) => m as nat, None => 128 })
            + "m"@,
        "-Djava.library.path="@ + natives,
        "-cp"@,
        cp,
        "-Dminecraft.launcher.brand=custom"@,
        "-Dminecraft.launcher.version=1.0"@,
    ]
}

fn memory_option(prefix: &str, mb: u64) -> (r: String)
    ensures
        r@ == prefix@ + spec_decimal(mb as nat) + "m"@,
{
    let mut s = concat2(prefix, u64_to_string(mb).as_str());
    push_str(&mut s, "m");
    s
}

/// The JVM options every launch begins with.
pub fn jvm_base_args(params: &LaunchParams, natives: &str, cp: &str) -> (r: Vec<String>)
    ensures
        views(r@) == spec_jvm_base(*params, natives@, cp@),
{
    let max: u64 = match params.max_memory_mb {
        Some(m) => m,
        None => 2048,
    };
    let min: u64 = match params.min_memory_mb {
        Some(m) => m as u64,
        None => 128,
    };
    let mut v: Vec<String> = Vec::new();
    v.push(memory_option("-Xmx", max));
    v.push(memory_option("-Xms", min));
    v.push(concat2("-Djava.library.path=", natives));
    v.push(owned("-cp"));
    v.push(owned(cp));
    v.push(owned("-Dminecraft.launcher.brand=custom"));
    v.push(owned("-Dminecraft.launcher.version=1.0"));
    assert(views(v@) =~= spec_jvm_base(*params, natives@, cp@));
    v
}

/// The arguments an optional argument list gives.
pub open spec fn spec_expand_opt(
    entries: Option<Vec<ArgumentEntry>>,
    p: PlatformView,
    table: Seq<(Seq<char>, Seq<char>)>,
) -> Seq<Seq<char>> {
    match entries {
        Some(e) => spec_expand_args(e@, spec_launch_features(), p, table),
        None => Seq::empty(),
    }
}

/// The manifest's own JVM options, then its game arguments: the modern
/// argument lists where it has them, else the words of the legacy argument
/// string as game arguments.
pub open spec fn spec_manifest_args(
    info: VersionInfo,
    p: PlatformView,
    table: Seq<(Seq<char>, Seq<char>)>,
) -> (Seq<Seq<char>>, Seq<Seq<char>>) {
    match info.arguments {
        Some(args) => (spec_expand_opt(args.jvm, p, table), spec_expand_opt(args.game, p, table)),
        None => (
            Seq::empty(),
            match info.minecraft_arguments {
                Some(ma) => spec_substitute_all(spec_words(ma@), table),
                None => Seq::empty(),
            },
        ),
    }
}

fn manifest_args(info: &VersionInfo, table: &Vec<(String, String)>, platform: &Platform) -> (r: (
    Vec<String>,
    Vec<String>,
))
    ensures
        (views(r.0@), views(r.1@)) == spec_manifest_args(*info, platform@, pair_views(table@)),
{
    let features = launch_features();
    let mut jvm: Vec<String> = Vec::new();
    let mut game: Vec<String> = Vec::new();
    assert(views(jvm@) =~= Seq::<Seq<char>>::empty());
    assert(views(game@) =~= Seq::<Seq<char>>::empty());
    match &info.arguments {
        Some(args) => {
            if let Some(j) = &args.jvm {
                add_args(j, &mut jvm, table, &features, platform);
                assert(views(jvm@) =~= spec_expand_opt(args.jvm, platform@, pair_views(table@)));
            }
            if let Some(g) = &args.game {
                add_args(g, &mut game, table, &features, platform);
                assert(views(game@) =~= spec_expand_opt(args.game, platform@, pair_views(table@)));
            }
        },
        None => {
            if let Some(ma) = &info.minecraft_arguments {
                game = legacy_args(ma.as_str(), table);
            }
        },
    }
    (jvm, game)
}

/// The command that starts the game, when nothing stands in its way: the
/// Java executable (`java` unless given), the JVM options, the main class
/// (the vanilla client's unless the manifest names one), then the game
/// arguments.
pub open spec fn spec_command(
    p: PlatformView,
    root: Seq<char>,
    params: LaunchParams,
    acc: Account,
    isolation: bool,
    info: VersionInfo,
    existing: Seq<Seq<char>>,
) -> Seq<Seq<char>> {
    let vdir = spec_version_dir(p, root, params.version_name@);
    let jar = spec_game_jar(p, root, params.version_name@, info, existing);
    let natives = spec_natives_dir(p, vdir);
    let run = if isolation { vdir } else { root };
    let found = spec_library_set(p, root, info, existing).0;
    let cp = spec_classpath(found, jar, p);
    let table = spec_substitutions(
        info,
        acc,
        params,
        p,
        run,
        spec_libraries_dir(p, root),
        spec_assets_dir(p, root),
        cp,
        natives,
    );
    let java = match params.java_path {
        Some(j) => j@,
        None => "java"@,
    };
    let main = match info.main_class {
        Some(m) => m@,
        None => "net.minecraft.client.main.Main"@,
    };
    let extra = spec_manifest_args(info, p, table);
    seq![java] + spec_jvm_base(params, natives, cp) + extra.0 + seq![main] + extra.1
}

/// The command line that starts version `params.version_name` of the game
/// in `root` for `account`.
///
/// `info` is the version's manifest, completed by its parent; `java_major`
/// is the major version of the Java that will run the game; `existing`
/// lists those of `launch_probe_paths` that exist on disk. The launch fails,
/// in this order: when Java is older than the manifest requires; when the
/// game jar is missing; when libraries are missing, naming them.
pub fn build_launch_command(
    root: &str,
    params: &LaunchParams,
    account: &Account,
    isolation: bool,
    info: &VersionInfo,
    java_major: i32,
    existing: &Vec<String>,
    platform: &Platform,
) -> (r: Result<Vec<String>, AppError>)
    ensures
        spec_java_too_old(*info, java_major) ==> (r matches Err(AppError::JavaNotFound(m)) && m@
            == spec_java_message(spec_required_java(*info)->0, java_major)),
        ({
            let jar = spec_game_jar(
                platform@,
                root@,
                params.version_name@,
                *info,
                views(existing@),
            );
            let missing = spec_library_set(platform@, root@, *info, views(existing@)).1;
            &&& (!spec_java_too_old(*info, java_major) && !views(existing@).contains(jar)) ==> (
            r matches Err(AppError::JarNotFound(m)) && m@ == jar)
            &&& (!spec_java_too_old(*info, java_major) && views(existing@).contains(jar)
                && missing.len() > 0) ==> (r matches Err(AppError::LibraryMissing(m)) && m@
                == spec_join(missing, ", "@))
            &&& (!spec_java_too_old(*info, java_major) && views(existing@).contains(jar)
                && missing.len() == 0) ==> (r matches Ok(cmd) && views(cmd@) == spec_command(
                platform@,
                root@,
                *params,
                *account,
                isolation,
                *info,
                views(existing@),
            ))
        }),
{
    let java = match &params.java_path {
        Some(j) => j.clone(),
        None => owned("java"),
    };
    match check_java_version(info, java_major) {
        Ok(()) => {},
        Err(e) => {
            return Err(e);
        },
    }
    let vdir = get_version_dir(root, params.version_name.as_str(), platform);
    let jar = game_jar(root, params, info, existing, platform);
    if !path_listed(existing, &jar) {
        return Err(AppError::JarNotFound(jar));
    }
    proof {
        reveal_strlit("libraries");
        reveal_strlit("assets");
    }
    let libs_dir = platform.join(root, "libraries");
    let assets = platform.join(root, "assets");
    let natives = get_natives_dir(vdir.as_str(), platform);
    let run_dir = if isolation { vdir } else { owned(root) };
    let (found, missing) = library_set(root, info, existing, platform);
    if missing.len() > 0 {
        return Err(AppError::LibraryMissing(join(&missing, ", ")));
    }
    let cp = build_classpath(&found, jar.as_str(), platform);
    let main = match &info.main_class {
        Some(m) => m.clone(),
        None => owned("net.minecraft.client.main.Main"),
    };
    let mut jvm = jvm_base_args(params, natives.as_str(), cp.as_str());
    let paths = LaunchPaths {
        run_dir,
        libraries_dir: libs_dir,
        assets_dir: assets,
        classpath: cp,
        natives_dir: natives,
    };
    let table = substitution_table(info, &paths, account, params, platform);
    let (mut extra_jvm, mut game) = manifest_args(info, &table, platform);
    let ghost base = views(jvm@);
    let ghost ej = views(extra_jvm@);
    let ghost g = views(game@);
    let mut cmd: Vec<String> = Vec::new();
    cmd.push(java);
    cmd.append(&mut jvm);
    cmd.append(&mut extra_jvm);
    cmd.push(main);
    cmd.append(&mut game);
    proof {
        assert(views(cmd@) =~= spec_command(
            platform@,
            root@,
            *params,
            *account,
            isolation,
            *info,
            views(existing@),
        ));
    }
    Ok(cmd)
}

// ---------------------------------------------------------------------------
// Laws
// ---------------------------------------------------------------------------

proof fn lemma_substitute_plain(s: Seq<char>, table: Seq<(Seq<char>, Seq<char>)>)
    requires
        !s.contains('$'),
        forall|k: int| 0 <= k < table.len() ==> (#[trigger] table[k]).0.len() > 0 && table[k].0[0] == '$',
    ensures
        spec_substitute(s, table) == s,
    decreases table.len(),
{
    if table.len() > 0 {
        let pat = table[0].0;
        assert forall|i: int| 0 <= i <= s.len() implies !occurs_at(s, i, pat) by {
            if occurs_at(s, i, pat) {
                assert(s.subrange(i, i + pat.len())[0] == pat[0]);
                assert(s[i] == '$');
            }
        }
        lemma_replace_absent(s, pat, table[0].1);
        assert forall|k: int| 0 <= k < table.skip(1).len() implies (#[trigger] table.skip(1)[k]).0.len()
            > 0 && table.skip(1)[k].0[0] == '$' by {
            assert(table.skip(1)[k] == table[k + 1]);
        }
        lemma_substitute_plain(s, table.skip(1));
    }
}

/// An argument without any `$` passes through the placeholder substitution
/// unchanged: every placeholder begins with `${`.
pub proof fn law_plain_arguments_unchanged(
    s: Seq<char>,
    info: VersionInfo,
    acc: Account,
    params: LaunchParams,
    p: PlatformView,
    run_dir: Seq<char>,
    libraries_dir: Seq<char>,
    assets_dir: Seq<char>,
    classpath: Seq<char>,
    natives_dir: Seq<char>,
)
    requires
        !s.contains('$'),
    ensures
        spec_substitute(
            s,
            spec_substitutions(
                info,
                acc,
                params,
                p,
                run_dir,
                libraries_dir,
                assets_dir,
                classpath,
                natives_dir,
            ),
        ) == s,
{
    reveal_strlit("${auth_player_name}");
    reveal_strlit("${version_name}");
    reveal_strlit("${game_directory}");
    reveal_strlit("${assets_root}");
    reveal_strlit("${assets_index_name}");
    reveal_strlit("${auth_uuid}");
    reveal_strlit("${auth_access_token}");
    reveal_strlit("${user_type}");
    reveal_strlit("${version_type}");
    reveal_strlit("${user_properties}");
    reveal_strlit("${game_assets}");
    reveal_strlit("${auth_session}");
    reveal_strlit("${classpath}");
    reveal_strlit("${natives_directory}");
    reveal_strlit("${launcher_name}");
    reveal_strlit("${launcher_version}");
    reveal_strlit("${classpath_separator}");
    reveal_strlit("${library_directory}");
    reveal_strlit("${resolution_width}");
    reveal_strlit("${resolution_height}");
    let table = spec_substitutions(
        info,
        acc,
        params,
        p,
        run_dir,
        libraries_dir,
        assets_dir,
        classpath,
        natives_dir,
    );
    assert forall|k: int| 0 <= k < table.len() implies (#[trigger] table[k]).0.len() > 0
        && table[k].0[0] == '$' by {
    }
    lemma_substitute_plain(s, table);
}

/// Whether `s` has the shape of a placeholder: it opens with `$`, closes
/// with `}`, and holds no other `$` or `}`.
pub open spec fn spec_is_placeholder(s: Seq<char>) -> bool {
    &&& s.len() >= 2
    &&& s[0] == '$'
    &&& s[s.len() - 1] == '}'
    &&& forall|i: int| 0 < i < s.len() ==> #[trigger] s[i] != '$'
    &&& forall|i: int| 0 <= i < s.len() - 1 ==> #[trigger] s[i] != '}'
}

/// One placeholder never occurs inside another, different one.
proof fn lemma_placeholder_absent(s: Seq<char>, pat: Seq<char>)
    requires
        spec_is_placeholder(s),
        spec_is_placeholder(pat),
        s != pat,
    ensures
        forall|i: int| 0 <= i <= s.len() ==> !occurs_at(s, i, pat),
{
    assert forall|i: int| 0 <= i <= s.len() implies !occurs_at(s, i, pat) by {
        if occurs_at(s, i, pat) {
            let sub = s.subrange(i, i + pat.len());
            assert(sub[0] == s[i]);
            assert(s[i] == '$');
            assert(i == 0);
            assert(sub[pat.len() - 1] == s[pat.len() - 1]);
            assert(s[pat.len() - 1] == '}');
            assert(pat.len() == s.len());
            assert(sub =~= s);
        }
    }
}

/// Replacing a string by `rep` wherever it occurs in itself gives `rep`.
proof fn lemma_replace_whole(s: Seq<char>, rep: Seq<char>)
    requires
        s.len() > 0,
    ensures
        spec_replace(s, s, rep) == rep,
{
    assert(s.subrange(0, s.len() as int) =~= s);
    assert(s.is_prefix_of(s));
    assert(s.skip(s.len() as int) =~= Seq::<char>::empty());
    assert(spec_replace(Seq::<char>::empty(), s, rep) == Seq::<char>::empty());
    assert(rep + Seq::<char>::empty() =~= rep);
}

/// In a table of distinct placeholders, substituting into a placeholder
/// gives its own value, with only the later pairs applied to that value:
/// no earlier pair touches it, and its own pair replaces it whole.
pub proof fn law_placeholder_takes_its_value(table: Seq<(Seq<char>, Seq<char>)>, k: int)
    requires
        0 <= k < table.len(),
        forall|m: int| 0 <= m < table.len() ==> spec_is_placeholder(#[trigger] table[m].0),
        forall|m: int| 0 <= m < k ==> #[trigger] table[m].0 != table[k].0,
    ensures
        spec_substitute(table[k].0, table) == spec_substitute(table[k].1, table.skip(k + 1)),
    decreases k,
{
    let key = table[k].0;
    if k == 0 {
        lemma_replace_whole(key, table[0].1);
    } else {
        assert(spec_is_placeholder(table[0].0));
        assert(spec_is_placeholder(key));
        assert(table[0].0 != key);
        lemma_placeholder_absent(key, table[0].0);
        lemma_replace_absent(key, table[0].0, table[0].1);
        let rest = table.skip(1);
        assert(rest[k - 1] == table[k]);
        assert forall|m: int| 0 <= m < rest.len() implies spec_is_placeholder(
            #[trigger] rest[m].0,
        ) by {
            assert(rest[m] == table[m + 1]);
        }
        assert forall|m: int| 0 <= m < k - 1 implies #[trigger] rest[m].0 != rest[k - 1].0 by {
            assert(rest[m] == table[m + 1]);
        }
        law_placeholder_takes_its_value(rest, k - 1);
        assert(rest.skip(k) =~= table.skip(k + 1));
    }
}

/// A value with no `$` is what its placeholder becomes.
proof fn lemma_placeholder_becomes_value(table: Seq<(Seq<char>, Seq<char>)>, k: int)
    requires
        0 <= k < table.len(),
        forall|m: int| 0 <= m < table.len() ==> spec_is_placeholder(#[trigger] table[m].0),
        forall|m: int| 0 <= m < k ==> #[trigger] table[m].0 != table[k].0,
        !table[k].1.contains('$'),
    ensures
        spec_substitute(table[k].0, table) == table[k].1,
{
    law_placeholder_takes_its_value(table, k);
    let rest = table.skip(k + 1);
    assert forall|m: int| 0 <= m < rest.len() implies (#[trigger] rest[m]).0.len() > 0
        && rest[m].0[0] == '$' by {
        assert(rest[m] == table[m + k + 1]);
        assert(spec_is_placeholder(table[m + k + 1].0));
    }
    lemma_substitute_plain(table[k].1, rest);
}

proof fn lemma_decimal_plain(n: nat)
    ensures
        !spec_decimal(n).contains('$'),
    decreases n,
{
    if n < 10 {
        assert(spec_decimal(n)[0] == spec_digit(n));
    } else {
        lemma_decimal_plain(n / 10);
        let d = spec_decimal(n);
        let init = spec_decimal(n / 10);
        assert(d == init.push(spec_digit(n % 10)));
        assert forall|i: int| 0 <= i < d.len() implies d[i] != '$' by {
            if i < init.len() {
                assert(d[i] == init[i]);
                assert(init.contains(init[i]));
            }
        }
    }
}

/// The placeholders the launcher fills in, in the order it fills them.
pub open spec fn spec_placeholder_keys() -> Seq<Seq<char>> {
    seq![
        "${auth_player_name}"@,
        "${version_name}"@,
        "${game_directory}"@,
        "${assets_root}"@,
        "${assets_index_name}"@,
        "${auth_uuid}"@,
        "${auth_access_token}"@,
        "${user_type}"@,
        "${version_type}"@,
        "${user_properties}"@,
        "${game_assets}"@,
        "${auth_session}"@,
        "${classpath}"@,
        "${natives_directory}"@,
        "${launcher_name}"@,
        "${launcher_version}"@,
        "${classpath_separator}"@,
        "${library_directory}"@,
        "${resolution_width}"@,
        "${resolution_height}"@,
    ]
}

/// The placeholders the launcher fills in are distinct, and each has the
/// shape of a placeholder.
proof fn lemma_placeholder_keys_distinct()
    ensures
        forall|m: int|
            0 <= m < spec_placeholder_keys().len() ==> spec_is_placeholder(
                #[trigger] spec_placeholder_keys()[m],
            ),
        forall|m: int, n: int|
            0 <= m < n < spec_placeholder_keys().len() ==> #[trigger] spec_placeholder_keys()[m]
                != #[trigger] spec_placeholder_keys()[n],
{
    reveal_strlit("${auth_player_name}");
    reveal_strlit("${version_name}");
    reveal_strlit("${game_directory}");
    reveal_strlit("${assets_root}");
    reveal_strlit("${assets_index_name}");
    reveal_strlit("${auth_uuid}");
    reveal_strlit("${auth_access_token}");
    reveal_strlit("${user_type}");
    reveal_strlit("${version_type}");
    reveal_strlit("${user_properties}");
    reveal_strlit("${game_assets}");
    reveal_strlit("${auth_session}");
    reveal_strlit("${classpath}");
    reveal_strlit("${natives_directory}");
    reveal_strlit("${launcher_name}");
    reveal_strlit("${launcher_version}");
    reveal_strlit("${classpath_separator}");
    reveal_strlit("${library_directory}");
    reveal_strlit("${resolution_width}");
    reveal_strlit("${resolution_height}");
    let keys = spec_placeholder_keys();
    assert forall|m: int| 0 <= m < keys.len() implies spec_is_placeholder(#[trigger] keys[m]) by {}
    assert forall|m: int, n: int| 0 <= m < n < keys.len() implies #[trigger] keys[m]
        != #[trigger] keys[n] by {
        assert(keys[m].len() != keys[n].len() || keys[m][2] != keys[n][2] || keys[m][3]
            != keys[n][3] || keys[m][10] != keys[n][10]);
    }
}

/// Each placeholder of a launch is filled with its own value: the player's
/// name, the version's id, the game directory, the assets directory, the
/// asset index, the account's uuid and token, the class path, the natives and
/// libraries directories, the window size, and the launcher's fixed values. A
/// value that itself holds no `$` comes out exactly as it is; no other
/// placeholder's value takes its place.
pub proof fn law_placeholders_take_intended_values(
    info: VersionInfo,
    acc: Account,
    params: LaunchParams,
    p: PlatformView,
    run_dir: Seq<char>,
    libraries_dir: Seq<char>,
    assets_dir: Seq<char>,
    classpath: Seq<char>,
    natives_dir: Seq<char>,
)
    ensures
        ({
            let t = spec_substitutions(
                info,
                acc,
                params,
                p,
                run_dir,
                libraries_dir,
                assets_dir,
                classpath,
                natives_dir,
            );
            &&& !acc.player_name@.contains('$') ==> spec_substitute("${auth_player_name}"@, t) == acc.player_name@
            &&& !info.id@.contains('$') ==> spec_substitute("${version_name}"@, t) == info.id@
            &&& !run_dir.contains('$') ==> spec_substitute("${game_directory}"@, t) == run_dir
            &&& !assets_dir.contains('$') ==> spec_substitute("${assets_root}"@, t) == assets_dir
            &&& !spec_asset_index_name(info).contains('$') ==> spec_substitute("${assets_index_name}"@, t) == spec_asset_index_name(info)
            &&& !acc.uuid@.contains('$') ==> spec_substitute("${auth_uuid}"@, t) == acc.uuid@
            &&& !spec_access_token(acc).contains('$') ==> spec_substitute("${auth_access_token}"@, t) == spec_access_token(acc)
            &&& spec_substitute("${user_type}"@, t) == "mojang"@
            &&& !(match info.version_type { Some(v) => v@, None => "release"@ }).contains('$') ==> spec_substitute("${version_type}"@, t) == (match info.version_type { Some(v) => v@, None => "release"@ })
            &&& spec_substitute("${user_properties}"@, t) == "{}"@
            &&& !assets_dir.contains('$') ==> spec_substitute("${game_assets}"@, t) == assets_dir
            &&& !spec_access_token(acc).contains('$') ==> spec_substitute("${auth_session}"@, t) == spec_access_token(acc)
            &&& !classpath.contains('$') ==> spec_substitute("${classpath}"@, t) == classpath
            &&& !natives_dir.contains('$') ==> spec_substitute("${natives_directory}"@, t) == natives_dir
            &&& spec_substitute("${launcher_name}"@, t) == "custom"@
            &&& spec_substitute("${launcher_version}"@, t) == "1.0"@
            &&& !p.classpath_separator.contains('$') ==> spec_substitute("${classpath_separator}"@, t) == p.classpath_separator
            &&& !libraries_dir.contains('$') ==> spec_substitute("${library_directory}"@, t) == libraries_dir
            &&& spec_substitute("${resolution_width}"@, t) == spec_decimal(match params.window_width { Some(w) => w as nat, None => 854 })
            &&& spec_substitute("${resolution_height}"@, t) == spec_decimal(match params.window_height { Some(h) => h as nat, None => 480 })
        }),
{
    reveal_strlit("mojang");
    reveal_strlit("{}");
    reveal_strlit("custom");
    reveal_strlit("1.0");
    lemma_decimal_plain(match params.window_width { Some(w) => w as nat, None => 854 });
    lemma_decimal_plain(match params.window_height { Some(h) => h as nat, None => 480 });
    lemma_placeholder_keys_distinct();
    let keys = spec_placeholder_keys();
    let t = spec_substitutions(
        info,
        acc,
        params,
        p,
        run_dir,
        libraries_dir,
        assets_dir,
        classpath,
        natives_dir,
    );
    assert(t.len() == keys.len());
    assert forall|m: int| 0 <= m < t.len() implies #[trigger] t[m].0 == keys[m] by {}
    assert forall|m: int| 0 <= m < t.len() implies spec_is_placeholder(#[trigger] t[m].0) by {
        assert(t[m].0 == keys[m]);
    }
    assert forall|m: int, n: int| 0 <= m < n < t.len() implies #[trigger] t[m].0 != #[trigger] t[
        n
    ].0 by {
        assert(t[m].0 == keys[m]);
        assert(t[n].0 == keys[n]);
    }
    if !acc.player_name@.contains('$') {
        lemma_placeholder_becomes_value(t, 0);
    }
    if !info.id@.contains('$') {
        lemma_placeholder_becomes_value(t, 1);
    }
    if !run_dir.contains('$') {
        lemma_placeholder_becomes_value(t, 2);
    }
    if !assets_dir.contains('$') {
        lemma_placeholder_becomes_value(t, 3);
    }
    if !spec_asset_index_name(info).contains('$') {
        lemma_placeholder_becomes_value(t, 4);
    }
    if !acc.uuid@.contains('$') {
        lemma_placeholder_becomes_value(t, 5);
    }
    if !spec_access_token(acc).contains('$') {
        lemma_placeholder_becomes_value(t, 6);
    }
    lemma_placeholder_becomes_value(t, 7);
    if !(match info.version_type { Some(v) => v@, None => "release"@ }).contains('$') {
        lemma_placeholder_becomes_value(t, 8);
    }
    lemma_placeholder_becomes_value(t, 9);
    if !assets_dir.contains('$') {
        lemma_placeholder_becomes_value(t, 10);
    }
    if !spec_access_token(acc).contains('$') {
        lemma_placeholder_becomes_value(t, 11);
    }
    if !classpath.contains('$') {
        lemma_placeholder_becomes_value(t, 12);
    }
    if !natives_dir.contains('$') {
        lemma_placeholder_becomes_value(t, 13);
    }
    lemma_placeholder_becomes_value(t, 14);
    lemma_placeholder_becomes_value(t, 15);
    if !p.classpath_separator.contains('$') {
        lemma_placeholder_becomes_value(t, 16);
    }
    if !libraries_dir.contains('$') {
        lemma_placeholder_becomes_value(t, 17);
    }
    lemma_placeholder_becomes_value(t, 18);
    lemma_placeholder_becomes_value(t, 19);
}

/// Argument lists expand entry by entry, in order: the arguments of two lists
/// one after the other are those of the first followed by those of the
/// second; one entry gives its values with the placeholders filled in; and a
/// conditional entry whose rules do not allow it gives nothing.
pub proof fn law_expand_args_entry_by_entry(
    a: Seq<ArgumentEntry>,
    b: Seq<ArgumentEntry>,
    features: Seq<(Seq<char>, bool)>,
    p: PlatformView,
    table: Seq<(Seq<char>, Seq<char>)>,
)
    ensures
        spec_expand_args(a + b, features, p, table) == spec_expand_args(a, features, p, table)
            + spec_expand_args(b, features, p, table),
        forall|e: ArgumentEntry|
            #[trigger] spec_expand_args(seq![e], features, p, table) == spec_substitute_all(
                spec_entry_values(e, features, p),
                table,
            ),
        forall|e: ArgumentEntry|
            (e matches ArgumentEntry::Conditional(c) && c.rules is Some && !spec_evaluate_rules(
                c.rules->0@,
                features,
                p,
            )) ==> #[trigger] spec_expand_args(seq![e], features, p, table) == Seq::<
                Seq<char>,
            >::empty(),
    decreases b.len(),
{
    assert forall|e: ArgumentEntry| #[trigger]
        spec_expand_args(seq![e], features, p, table) == spec_substitute_all(
            spec_entry_values(e, features, p),
            table,
        ) by {
        assert(seq![e].drop_last() =~= Seq::<ArgumentEntry>::empty());
        assert(seq![e].last() == e);
        assert(spec_expand_args(Seq::<ArgumentEntry>::empty(), features, p, table)
            == Seq::<Seq<char>>::empty());
        assert(spec_expand_args(seq![e], features, p, table) == spec_expand_args(
            seq![e].drop_last(),
            features,
            p,
            table,
        ) + spec_substitute_all(spec_entry_values(seq![e].last(), features, p), table));
        assert(Seq::<Seq<char>>::empty() + spec_substitute_all(spec_entry_values(e, features, p), table)
            =~= spec_substitute_all(spec_entry_values(e, features, p), table));
    }
    assert forall|e: ArgumentEntry|
        (e matches ArgumentEntry::Conditional(c) && c.rules is Some && !spec_evaluate_rules(
            c.rules->0@,
            features,
            p,
        )) implies #[trigger] spec_expand_args(seq![e], features, p, table) == Seq::<
        Seq<char>,
    >::empty() by {
        assert(spec_expand_args(seq![e], features, p, table) == spec_substitute_all(
            spec_entry_values(e, features, p),
            table,
        ));
        assert(spec_substitute_all(Seq::<Seq<char>>::empty(), table) =~= Seq::<Seq<char>>::empty());
    }
    if b.len() == 0 {
        assert(a + b =~= a);
        assert(spec_expand_args(a, features, p, table) + Seq::<Seq<char>>::empty() =~= spec_expand_args(
            a,
            features,
            p,
            table,
        ));
    } else {
        law_expand_args_entry_by_entry(a, b.drop_last(), features, p, table);
        assert((a + b).drop_last() =~= a + b.drop_last());
        assert((a + b).last() == b.last());
        let last = spec_substitute_all(spec_entry_values(b.last(), features, p), table);
        assert(spec_expand_args(a + b, features, p, table) == spec_expand_args(
            a + b.drop_last(),
            features,
            p,
            table,
        ) + last);
        assert(spec_expand_args(b, features, p, table) == spec_expand_args(
            b.drop_last(),
            features,
            p,
            table,
        ) + last);
        assert(spec_expand_args(a, features, p, table) + spec_expand_args(
            b.drop_last(),
            features,
            p,
            table,
        ) + last =~= spec_expand_args(a, features, p, table) + (spec_expand_args(
            b.drop_last(),
            features,
            p,
            table,
        ) + last));
    }
}

/// The shape of a launch command: the Java executable, the seven options
/// every launch passes to the JVM, the manifest's own JVM options, the main
/// class, then the game arguments.
pub proof fn law_command_shape(
    p: PlatformView,
    root: Seq<char>,
    params: LaunchParams,
    acc: Account,
    isolation: bool,
    info: VersionInfo,
    existing: Seq<Seq<char>>,
)
    ensures
        ({
            let cmd = spec_command(p, root, params, acc, isolation, info, existing);
            let vdir = spec_version_dir(p, root, params.version_name@);
            let jar = spec_game_jar(p, root, params.version_name@, info, existing);
            let natives = spec_natives_dir(p, vdir);
            let cp = spec_classpath(spec_library_set(p, root, info, existing).0, jar, p);
            let run = if isolation { vdir } else { root };
            let table = spec_substitutions(
                info,
                acc,
                params,
                p,
                run,
                spec_libraries_dir(p, root),
                spec_assets_dir(p, root),
                cp,
                natives,
            );
            let extra = spec_manifest_args(info, p, table);
            &&& cmd.len() == 9 + extra.0.len() + extra.1.len()
            &&& cmd[0] == match params.java_path {
                Some(j) => j@,
                None => "java"@,
            }
            &&& cmd[4] == "-cp"@
            &&& cmd[5] == cp
            &&& cmd[8 + extra.0.len() as int] == match info.main_class {
                Some(m) => m@,
                None => "net.minecraft.client.main.Main"@,
            }
            &&& cmd.skip(9 + extra.0.len() as int) == extra.1
        }),
{
    let cmd = spec_command(p, root, params, acc, isolation, info, existing);
    let vdir = spec_version_dir(p, root, params.version_name@);
    let jar = spec_game_jar(p, root, params.version_name@, info, existing);
    let natives = spec_natives_dir(p, vdir);
    let cp = spec_classpath(spec_library_set(p, root, info, existing).0, jar, p);
    let run = if isolation { vdir } else { root };
    let table = spec_substitutions(
        info,
        acc,
        params,
        p,
        run,
        spec_libraries_dir(p, root),
        spec_assets_dir(p, root),
        cp,
        natives,
    );
    let extra = spec_manifest_args(info, p, table);
    assert(cmd.skip(9 + extra.0.len() as int) =~= extra.1);
}

} // verus!
