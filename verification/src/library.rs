//! The libraries a version needs: where each one's file lies, which are
//! present, the Java class path built from them, and the native files to
//! unpack.
use vstd::prelude::*;
use crate::error::AppError;
use crate::models::{entry_views, lookup, spec_lookup, LibraryEntry, ResolvedLibrary};
use crate::rules::{evaluate_rules, spec_evaluate_rules};
use crate::text::{
    concat2, ends_with_char, from_chars, join, owned, push_str, replace_chars, spec_join,
    spec_replace, spec_split, split_chars, starts_with, to_chars, vec_views, views,
};
use crate::utils::{spec_join_path, Platform, PlatformView};

verus! {

/// The native classifier a library names for this platform, if any.
pub open spec fn spec_native_classifier(lib: LibraryEntry, p: PlatformView) -> Option<String> {
    match lib.natives {
        Some(n) => spec_lookup(entry_views(n@), p.name),
        None => None,
    }
}

/// The file name of artifact `a`, version `v`, with an optional classifier:
/// `a-v.jar` or `a-v-classifier.jar`.
pub open spec fn spec_library_file(a: Seq<char>, v: Seq<char>, cls: Option<String>) -> Seq<char> {
    match cls {
        Some(c) => a + "-"@ + v + "-"@ + c@ + ".jar"@,
        None => a + "-"@ + v + ".jar"@,
    }
}

/// Where a library's file lies under the libraries directory `dir`, and
/// whether it is a native one: for a name `group:artifact:version…`, the file
/// is `dir/<group with dots as slashes>/artifact/version/<file name>`. A name
/// with fewer than three parts names no file.
pub open spec fn spec_library_candidate(lib: LibraryEntry, dir: Seq<char>, p: PlatformView) -> Option<
    (Seq<char>, bool),
> {
    let parts = spec_split(lib.name@, ':');
    if parts.len() < 3 {
        None
    } else {
        let cls = spec_native_classifier(lib, p);
        let gp = spec_replace(parts[0], seq!['.'], seq!['/']);
        let path = spec_join_path(
            p,
            spec_join_path(
                p,
                spec_join_path(p, spec_join_path(p, dir, gp), parts[1]),
                parts[2],
            ),
            spec_library_file(parts[1], parts[2], cls),
        );
        Some((path, cls is Some))
    }
}

/// Whether a library's rules (if it has any) allow it.
pub open spec fn spec_library_selected(
    lib: LibraryEntry,
    features: Seq<(Seq<char>, bool)>,
    p: PlatformView,
) -> bool {
    match lib.rules {
        Some(r) => spec_evaluate_rules(r@, features, p),
        None => true,
    }
}

/// A resolved library as a path and a flag.
pub open spec fn resolved_view(l: ResolvedLibrary) -> (Seq<char>, bool) {
    (l.local_path@, l.is_native)
}

pub open spec fn resolved_views(v: Seq<ResolvedLibrary>) -> Seq<(Seq<char>, bool)> {
    v.map_values(|l: ResolvedLibrary| resolved_view(l))
}

/// The libraries found and the names of those missing, given the paths that
/// exist: each library its rules allow and whose name gives a file is found
/// when that file exists; a missing file is reported by the library's name,
/// unless it is a native one, which is passed over.
pub open spec fn spec_resolve(
    libs: Seq<LibraryEntry>,
    dir: Seq<char>,
    features: Seq<(Seq<char>, bool)>,
    p: PlatformView,
    existing: Seq<Seq<char>>,
) -> (Seq<(Seq<char>, bool)>, Seq<Seq<char>>)
    decreases libs.len(),
{
    if libs.len() == 0 {
        (Seq::empty(), Seq::empty())
    } else {
        let (found, missing) = spec_resolve(libs.drop_last(), dir, features, p, existing);
        let lib = libs.last();
        if !spec_library_selected(lib, features, p) {
            (found, missing)
        } else {
            match spec_library_candidate(lib, dir, p) {
                None => (found, missing),
                Some((path, native)) => if existing.contains(path) {
                    (found.push((path, native)), missing)
                } else if !native {
                    (found, missing.push(lib.name@))
                } else {
                    (found, missing)
                },
            }
        }
    }
}

/// The candidate files of all libraries whose names give one, in order.
pub open spec fn spec_probe_paths(libs: Seq<LibraryEntry>, dir: Seq<char>, p: PlatformView) -> Seq<
    Seq<char>,
>
    decreases libs.len(),
{
    if libs.len() == 0 {
        Seq::empty()
    } else {
        let init = spec_probe_paths(libs.drop_last(), dir, p);
        match spec_library_candidate(libs.last(), dir, p) {
            Some((path, _)) => init.push(path),
            None => init,
        }
    }
}

/// Whether `path` is among `existing`.
pub fn path_listed(existing: &Vec<String>, path: &String) -> (r: bool)
    ensures
        r == views(existing@).contains(path@),
{
    let mut i: usize = 0;
    while i < existing.len()
        invariant
            i <= existing.len(),
            forall|j: int| 0 <= j < i ==> existing@[j]@ != path@,
        decreases existing.len() - i,
    {
        if existing[i] == *path {
            assert(views(existing@)[i as int] == path@);
            return true;
        }
        i += 1;
    }
    proof {
        if views(existing@).contains(path@) {
            let k = choose|k: int| 0 <= k < views(existing@).len() && views(existing@)[k] == path@;
            assert(existing@[k]@ == path@);
        }
    }
    false
}

fn native_classifier(lib: &LibraryEntry, platform: &Platform) -> (r: Option<String>)
    ensures
        r == spec_native_classifier(*lib, platform@),
{
    match &lib.natives {
        Some(n) => {
            let key = owned(platform.name());
            match lookup(n, &key) {
                Some(c) => Some(c.clone()),
                None => None,
            }
        },
        None => None,
    }
}

/// Where `lib`'s file lies under `dir`, and whether it is a native one.
pub fn library_candidate(lib: &LibraryEntry, dir: &str, platform: &Platform) -> (r: Option<
    (String, bool),
>)
    ensures
        match r {
            Some((path, native)) => spec_library_candidate(*lib, dir@, platform@) == Some(
                (path@, native),
            ),
            None => spec_library_candidate(*lib, dir@, platform@) is None,
        },
{
    let name = to_chars(lib.name.as_str());
    let parts = split_chars(&name, ':');
    if parts.len() < 3 {
        return None;
    }
    let ghost sp = spec_split(lib.name@, ':');
    assert(vec_views(parts@)[0] == sp[0]);
    assert(vec_views(parts@)[1] == sp[1]);
    assert(vec_views(parts@)[2] == sp[2]);
    let cls = native_classifier(lib, platform);
    let mut dot: Vec<char> = Vec::new();
    dot.push('.');
    let mut slash: Vec<char> = Vec::new();
    slash.push('/');
    let gp = replace_chars(&parts[0], &dot, &slash);
    proof {
        assert(dot@ =~= seq!['.']);
        assert(slash@ =~= seq!['/']);
        reveal_strlit("-");
        reveal_strlit(".jar");
    }
    let a = from_chars(&parts[1]);
    let v = from_chars(&parts[2]);
    let mut file = concat2(a.as_str(), "-");
    push_str(&mut file, v.as_str());
    let native = cls.is_some();
    match &cls {
        Some(c) => {
            push_str(&mut file, "-");
            push_str(&mut file, c.as_str());
        },
        None => {},
    }
    push_str(&mut file, ".jar");
    let gps = from_chars(&gp);
    let p1 = platform.join(dir, gps.as_str());
    let p2 = platform.join(p1.as_str(), a.as_str());
    let p3 = platform.join(p2.as_str(), v.as_str());
    let path = platform.join(p3.as_str(), file.as_str());
    proof {
        assert(file@ =~= spec_library_file(a@, v@, cls));
    }
    Some((path, native))
}

/// The candidate files of all libraries whose names give one: the paths whose
/// existence `resolve` consults.
pub fn library_probe_paths(libs: &Vec<LibraryEntry>, dir: &str, platform: &Platform) -> (r: Vec<
    String,
>)
    ensures
        views(r@) == spec_probe_paths(libs@, dir@, platform@),
{
    let mut out: Vec<String> = Vec::new();
    let mut i: usize = 0;
    assert(libs@.take(0) =~= Seq::<LibraryEntry>::empty());
    assert(views(out@) =~= Seq::<Seq<char>>::empty());
    while i < libs.len()
        invariant
            i <= libs.len(),
            views(out@) == spec_probe_paths(libs@.take(i as int), dir@, platform@),
        decreases libs.len() - i,
    {
        proof {
            assert(libs@.take(i + 1).drop_last() =~= libs@.take(i as int));
        }
        match library_candidate(&libs[i], dir, platform) {
            Some((path, _)) => {
                let ghost before = views(out@);
                out.push(path);
                assert(views(out@) =~= before.push(out@.last()@));
            },
            None => {},
        }
        i += 1;
    }
    assert(libs@.take(libs.len() as int) =~= libs@);
    out
}

/// The libraries of a version that are present under `dir`, and the names of
/// the (non-native) ones that are missing. `existing` lists the candidate
/// files that exist on disk.
pub fn resolve(
    libs: &Vec<LibraryEntry>,
    dir: &str,
    features: &Vec<(String, bool)>,
    platform: &Platform,
    existing: &Vec<String>,
) -> (r: Result<(Vec<ResolvedLibrary>, Vec<String>), AppError>)
    ensures
        match r {
            Ok((found, missing)) => (resolved_views(found@), views(missing@)) == spec_resolve(
                libs@,
                dir@,
                entry_views(features@),
                platform@,
                views(existing@),
            ),
            Err(_) => false,
        },
{
    let mut found: Vec<ResolvedLibrary> = Vec::new();
    let mut missing: Vec<String> = Vec::new();
    let mut i: usize = 0;
    assert(libs@.take(0) =~= Seq::<LibraryEntry>::empty());
    assert(resolved_views(found@) =~= Seq::<(Seq<char>, bool)>::empty());
    assert(views(missing@) =~= Seq::<Seq<char>>::empty());
    while i < libs.len()
        invariant
            i <= libs.len(),
            (resolved_views(found@), views(missing@)) == spec_resolve(
                libs@.take(i as int),
                dir@,
                entry_views(features@),
                platform@,
                views(existing@),
            ),
        decreases libs.len() - i,
    {
        proof {
            assert(libs@.take(i + 1).drop_last() =~= libs@.take(i as int));
        }
        let lib = &libs[i];
        let selected = match &lib.rules {
            Some(r) => evaluate_rules(r, features, platform),
            None => true,
        };
        if selected {
            match library_candidate(lib, dir, platform) {
                Some((path, native)) => {
                    if path_listed(existing, &path) {
                        let ghost before = resolved_views(found@);
                        found.push(ResolvedLibrary { local_path: path, is_native: native });
                        assert(resolved_views(found@) =~= before.push(resolved_view(found@.last())));
                    } else if !native {
                        let ghost before = views(missing@);
                        missing.push(lib.name.clone());
                        assert(views(missing@) =~= before.push(lib.name@));
                    }
                },
                None => {},
            }
        }
        i += 1;
    }
    assert(libs@.take(libs.len() as int) =~= libs@);
    Ok((found, missing))
}

/// The paths of the non-native libraries, in order.
pub open spec fn spec_classpath_entries(libs: Seq<(Seq<char>, bool)>) -> Seq<Seq<char>>
    decreases libs.len(),
{
    if libs.len() == 0 {
        Seq::empty()
    } else {
        let init = spec_classpath_entries(libs.drop_last());
        if libs.last().1 {
            init
        } else {
            init.push(libs.last().0)
        }
    }
}

/// The paths of the native libraries, in order.
pub open spec fn spec_native_paths(libs: Seq<(Seq<char>, bool)>) -> Seq<Seq<char>>
    decreases libs.len(),
{
    if libs.len() == 0 {
        Seq::empty()
    } else {
        let init = spec_native_paths(libs.drop_last());
        if libs.last().1 {
            init.push(libs.last().0)
        } else {
            init
        }
    }
}

fn library_paths(libs: &Vec<ResolvedLibrary>, natives: bool) -> (r: Vec<String>)
    ensures
        natives ==> views(r@) == spec_native_paths(resolved_views(libs@)),
        !natives ==> views(r@) == spec_classpath_entries(resolved_views(libs@)),
{
    let mut out: Vec<String> = Vec::new();
    let mut i: usize = 0;
    assert(resolved_views(libs@).take(0) =~= Seq::<(Seq<char>, bool)>::empty());
    assert(views(out@) =~= Seq::<Seq<char>>::empty());
    while i < libs.len()
        invariant
            i <= libs.len(),
            natives ==> views(out@) == spec_native_paths(resolved_views(libs@).take(i as int)),
            !natives ==> views(out@) == spec_classpath_entries(
                resolved_views(libs@).take(i as int),
            ),
        decreases libs.len() - i,
    {
        proof {
            assert(resolved_views(libs@).take(i + 1).drop_last() =~= resolved_views(libs@).take(
                i as int,
            ));
            assert(resolved_views(libs@).take(i + 1).last() == resolved_view(libs@[i as int]));
        }
        if libs[i].is_native == natives {
            let ghost before = views(out@);
            out.push(libs[i].local_path.clone());
            assert(views(out@) =~= before.push(libs@[i as int].local_path@));
        }
        i += 1;
    }
    assert(resolved_views(libs@).take(libs.len() as int) =~= resolved_views(libs@));
    out
}

/// The paths of the native libraries among `libs`, whose files are unpacked
/// before the game starts.
pub fn native_library_paths(libs: &Vec<ResolvedLibrary>) -> (r: Vec<String>)
    ensures
        views(r@) == spec_native_paths(resolved_views(libs@)),
{
    library_paths(libs, true)
}

/// The Java class path: the non-native libraries, then the game jar, joined
/// by the platform's class path separator.
pub open spec fn spec_classpath(libs: Seq<(Seq<char>, bool)>, jar: Seq<char>, p: PlatformView) -> Seq<
    char,
> {
    spec_join(spec_classpath_entries(libs).push(jar), p.classpath_separator)
}

/// The Java class path for `libs` and the game jar `jar`.
pub fn build_classpath(libs: &Vec<ResolvedLibrary>, jar: &str, platform: &Platform) -> (r: String)
    ensures
        r@ == spec_classpath(resolved_views(libs@), jar@, platform@),
{
    let mut entries = library_paths(libs, false);
    let ghost before = views(entries@);
    entries.push(owned(jar));
    assert(views(entries@) =~= before.push(jar@));
    join(&entries, platform.classpath_separator())
}

pub open spec fn spec_natives_dir(p: PlatformView, version_dir: Seq<char>) -> Seq<char> {
    spec_join_path(p, version_dir, "natives"@)
}

/// `<version_dir>/natives`, where native files are unpacked.
pub fn get_natives_dir(version_dir: &str, platform: &Platform) -> (r: String)
    ensures
        r@ == spec_natives_dir(platform@, version_dir@),
{
    proof {
        reveal_strlit("natives");
    }
    platform.join(version_dir, "natives")
}

/// Whether an entry of a native archive is unpacked: entries under
/// `META-INF/` and directory entries are not.
pub open spec fn spec_should_extract(name: Seq<char>) -> bool {
    !("META-INF/"@.is_prefix_of(name)) && !(name.len() > 0 && name.last() == '/')
}

/// Whether the archive entry `name` is unpacked.
pub fn should_extract_entry(name: &str) -> (r: bool)
    ensures
        r == spec_should_extract(name@),
{
    !starts_with(name, "META-INF/") && !ends_with_char(name, '/')
}

/// Where the archive entry `name` is unpacked: `<natives_dir>/<name>`.
pub fn native_output_path(natives_dir: &str, name: &str, platform: &Platform) -> (r: String)
    ensures
        r@ == spec_join_path(platform@, natives_dir@, name@),
{
    platform.join(natives_dir, name)
}

// ---------------------------------------------------------------------------
// Laws
// ---------------------------------------------------------------------------

/// Every library `resolve` reports as found has its file among the existing
/// paths; every name it reports as missing is the name of one of the
/// libraries; and no library is reported twice.
pub proof fn law_resolve_reports_only_what_it_saw(
    libs: Seq<LibraryEntry>,
    dir: Seq<char>,
    features: Seq<(Seq<char>, bool)>,
    p: PlatformView,
    existing: Seq<Seq<char>>,
)
    ensures
        ({
            let (found, missing) = spec_resolve(libs, dir, features, p, existing);
            &&& forall|i: int| 0 <= i < found.len() ==> existing.contains(#[trigger] found[i].0)
            &&& forall|i: int|
                0 <= i < missing.len() ==> exists|j: int|
                    0 <= j < libs.len() && (#[trigger] libs[j]).name@ == #[trigger] missing[i]
            &&& found.len() + missing.len() <= libs.len()
        }),
    decreases libs.len(),
{
    if libs.len() > 0 {
        law_resolve_reports_only_what_it_saw(libs.drop_last(), dir, features, p, existing);
        let (f0, m0) = spec_resolve(libs.drop_last(), dir, features, p, existing);
        let (found, missing) = spec_resolve(libs, dir, features, p, existing);
        assert forall|i: int| 0 <= i < missing.len() implies exists|j: int|
            0 <= j < libs.len() && (#[trigger] libs[j]).name@ == #[trigger] missing[i] by {
            if i < m0.len() {
                assert(missing[i] == m0[i]);
                let j = choose|j: int|
                    0 <= j < libs.drop_last().len() && (#[trigger] libs.drop_last()[j]).name@
                        == m0[i];
                assert(libs[j] == libs.drop_last()[j]);
            } else {
                assert(libs[libs.len() - 1].name@ == missing[i]);
            }
        }
        assert forall|i: int| 0 <= i < found.len() implies existing.contains(
            #[trigger] found[i].0,
        ) by {
            if i < f0.len() {
                assert(found[i] == f0[i]);
            }
        }
    }
}

/// Whether `entry` is what resolving `lib` reports as found: the library is
/// allowed by its rules, its name gives a file, the entry's path is that
/// file, and the entry is flagged native exactly when the library names a
/// native classifier for the platform.
pub open spec fn spec_found_from(
    lib: LibraryEntry,
    dir: Seq<char>,
    features: Seq<(Seq<char>, bool)>,
    p: PlatformView,
    entry: (Seq<char>, bool),
) -> bool {
    &&& spec_library_selected(lib, features, p)
    &&& spec_library_candidate(lib, dir, p) is Some
    &&& spec_library_candidate(lib, dir, p).unwrap().0 == entry.0
    &&& entry.1 == (spec_native_classifier(lib, p) is Some)
}

#[verifier::rlimit(40)]
proof fn lemma_resolve_found_sound(
    libs: Seq<LibraryEntry>,
    dir: Seq<char>,
    features: Seq<(Seq<char>, bool)>,
    p: PlatformView,
    existing: Seq<Seq<char>>,
)
    ensures
        forall|i: int|
            0 <= i < spec_resolve(libs, dir, features, p, existing).0.len() ==> exists|j: int|
                0 <= j < libs.len() && spec_found_from(
                    #[trigger] libs[j],
                    dir,
                    features,
                    p,
                    #[trigger] spec_resolve(libs, dir, features, p, existing).0[i],
                ),
    decreases libs.len(),
{
    if libs.len() > 0 {
        let init = libs.drop_last();
        lemma_resolve_found_sound(init, dir, features, p, existing);
        let f0 = spec_resolve(init, dir, features, p, existing).0;
        let found = spec_resolve(libs, dir, features, p, existing).0;
        let last = libs.len() - 1;
        assert(libs[last] == libs.last());
        assert(forall|k: int| 0 <= k < f0.len() ==> found[k] == f0[k]);
        assert(found.len() == f0.len() || found.len() == f0.len() + 1);
        assert forall|i: int| 0 <= i < found.len() implies exists|j: int|
            0 <= j < libs.len() && spec_found_from(
                #[trigger] libs[j],
                dir,
                features,
                p,
                #[trigger] found[i],
            ) by {
            if i < f0.len() {
                assert(found[i] == f0[i]);
                let j = choose|j: int|
                    0 <= j < init.len() && spec_found_from(
                        #[trigger] init[j],
                        dir,
                        features,
                        p,
                        f0[i],
                    );
                assert(libs[j] == init[j]);
            } else {
                assert(spec_found_from(libs[last], dir, features, p, found[i]));
            }
        }
    }
}

#[verifier::rlimit(40)]
proof fn lemma_resolve_found_complete(
    libs: Seq<LibraryEntry>,
    dir: Seq<char>,
    features: Seq<(Seq<char>, bool)>,
    p: PlatformView,
    existing: Seq<Seq<char>>,
)
    ensures
        forall|j: int|
            0 <= j < libs.len() && spec_library_selected(#[trigger] libs[j], features, p)
                && spec_library_candidate(libs[j], dir, p) is Some && existing.contains(
                spec_library_candidate(libs[j], dir, p).unwrap().0,
            ) ==> spec_resolve(libs, dir, features, p, existing).0.contains(
                (
                    spec_library_candidate(libs[j], dir, p).unwrap().0,
                    spec_native_classifier(libs[j], p) is Some,
                ),
            ),
    decreases libs.len(),
{
    if libs.len() > 0 {
        let init = libs.drop_last();
        lemma_resolve_found_complete(init, dir, features, p, existing);
        let f0 = spec_resolve(init, dir, features, p, existing).0;
        let found = spec_resolve(libs, dir, features, p, existing).0;
        let last = libs.len() - 1;
        assert(libs[last] == libs.last());
        assert(forall|k: int| 0 <= k < f0.len() ==> found[k] == f0[k]);
        assert forall|j: int|
            0 <= j < libs.len() && spec_library_selected(#[trigger] libs[j], features, p)
                && spec_library_candidate(libs[j], dir, p) is Some && existing.contains(
                spec_library_candidate(libs[j], dir, p).unwrap().0,
            ) implies found.contains(
            (
                spec_library_candidate(libs[j], dir, p).unwrap().0,
                spec_native_classifier(libs[j], p) is Some,
            ),
        ) by {
            let e = (
                spec_library_candidate(libs[j], dir, p).unwrap().0,
                spec_native_classifier(libs[j], p) is Some,
            );
            if j < last {
                assert(libs[j] == init[j]);
                assert(f0.contains(e));
                let k = choose|k: int| 0 <= k < f0.len() && f0[k] == e;
                assert(found[k] == e);
            } else {
                assert(found[found.len() - 1] == e);
            }
        }
    }
}

#[verifier::rlimit(40)]
proof fn lemma_resolve_missing_complete(
    libs: Seq<LibraryEntry>,
    dir: Seq<char>,
    features: Seq<(Seq<char>, bool)>,
    p: PlatformView,
    existing: Seq<Seq<char>>,
)
    ensures
        forall|j: int|
            0 <= j < libs.len() && spec_library_selected(#[trigger] libs[j], features, p)
                && spec_library_candidate(libs[j], dir, p) is Some && !existing.contains(
                spec_library_candidate(libs[j], dir, p).unwrap().0,
            ) && spec_native_classifier(libs[j], p) is None ==> spec_resolve(
                libs,
                dir,
                features,
                p,
                existing,
            ).1.contains(libs[j].name@),
    decreases libs.len(),
{
    if libs.len() > 0 {
        let init = libs.drop_last();
        lemma_resolve_missing_complete(init, dir, features, p, existing);
        let m0 = spec_resolve(init, dir, features, p, existing).1;
        let missing = spec_resolve(libs, dir, features, p, existing).1;
        let last = libs.len() - 1;
        assert(libs[last] == libs.last());
        assert(forall|k: int| 0 <= k < m0.len() ==> missing[k] == m0[k]);
        assert forall|j: int|
            0 <= j < libs.len() && spec_library_selected(#[trigger] libs[j], features, p)
                && spec_library_candidate(libs[j], dir, p) is Some && !existing.contains(
                spec_library_candidate(libs[j], dir, p).unwrap().0,
            ) && spec_native_classifier(libs[j], p) is None implies missing.contains(
            libs[j].name@,
        ) by {
            if j < last {
                assert(libs[j] == init[j]);
                assert(m0.contains(init[j].name@));
                let k = choose|k: int| 0 <= k < m0.len() && m0[k] == init[j].name@;
                assert(missing[k] == libs[j].name@);
            } else {
                assert(missing[missing.len() - 1] == libs[j].name@);
            }
        }
    }
}

/// Every library `resolve` reports as found comes from one of the libraries
/// it was given, allowed by its rules, at that library's file, and carries
/// that library's native flag: it is native exactly when the library names a
/// native classifier for the platform. Conversely, every allowed library
/// whose file exists is reported as found, with that flag, and every allowed
/// library that is not a native one and whose file does not exist is
/// reported missing by its name.
pub proof fn law_resolve_found_carries_library_flag(
    libs: Seq<LibraryEntry>,
    dir: Seq<char>,
    features: Seq<(Seq<char>, bool)>,
    p: PlatformView,
    existing: Seq<Seq<char>>,
)
    ensures
        forall|i: int|
            0 <= i < spec_resolve(libs, dir, features, p, existing).0.len() ==> exists|j: int|
                0 <= j < libs.len() && spec_found_from(
                    #[trigger] libs[j],
                    dir,
                    features,
                    p,
                    #[trigger] spec_resolve(libs, dir, features, p, existing).0[i],
                ),
        forall|j: int|
            0 <= j < libs.len() && spec_library_selected(#[trigger] libs[j], features, p)
                && spec_library_candidate(libs[j], dir, p) is Some && existing.contains(
                spec_library_candidate(libs[j], dir, p).unwrap().0,
            ) ==> spec_resolve(libs, dir, features, p, existing).0.contains(
                (
                    spec_library_candidate(libs[j], dir, p).unwrap().0,
                    spec_native_classifier(libs[j], p) is Some,
                ),
            ),
        forall|j: int|
            0 <= j < libs.len() && spec_library_selected(#[trigger] libs[j], features, p)
                && spec_library_candidate(libs[j], dir, p) is Some && !existing.contains(
                spec_library_candidate(libs[j], dir, p).unwrap().0,
            ) && spec_native_classifier(libs[j], p) is None ==> spec_resolve(
                libs,
                dir,
                features,
                p,
                existing,
            ).1.contains(libs[j].name@),
{
    lemma_resolve_found_sound(libs, dir, features, p, existing);
    lemma_resolve_found_complete(libs, dir, features, p, existing);
    lemma_resolve_missing_complete(libs, dir, features, p, existing);
}

/// The class path takes the paths of exactly the non-native libraries, and
/// the natives list those of exactly the native ones, each in the order of
/// `libs`: every found library lands in one of the two, none in both.
pub proof fn law_libraries_split_into_classpath_and_natives(libs: Seq<(Seq<char>, bool)>)
    ensures
        spec_classpath_entries(libs) == libs.filter(|l: (Seq<char>, bool)| !l.1).map_values(
            |l: (Seq<char>, bool)| l.0,
        ),
        spec_native_paths(libs) == libs.filter(|l: (Seq<char>, bool)| l.1).map_values(
            |l: (Seq<char>, bool)| l.0,
        ),
    decreases libs.len(),
{
    if libs.len() > 0 {
        law_libraries_split_into_classpath_and_natives(libs.drop_last());
        reveal(Seq::filter);
        let jar_f = |l: (Seq<char>, bool)| !l.1;
        let nat_f = |l: (Seq<char>, bool)| l.1;
        let path = |l: (Seq<char>, bool)| l.0;
        assert(libs.filter(jar_f) == if jar_f(libs.last()) {
            libs.drop_last().filter(jar_f).push(libs.last())
        } else {
            libs.drop_last().filter(jar_f)
        });
        assert(libs.filter(nat_f) == if nat_f(libs.last()) {
            libs.drop_last().filter(nat_f).push(libs.last())
        } else {
            libs.drop_last().filter(nat_f)
        });
        assert(libs.drop_last().filter(jar_f).push(libs.last()).map_values(path) =~= libs.drop_last().filter(
            jar_f,
        ).map_values(path).push(libs.last().0));
        assert(libs.drop_last().filter(nat_f).push(libs.last()).map_values(path) =~= libs.drop_last().filter(
            nat_f,
        ).map_values(path).push(libs.last().0));
    }
}

/// The game jar is the last entry of the class path.
pub proof fn law_classpath_ends_with_jar(
    libs: Seq<(Seq<char>, bool)>,
    jar: Seq<char>,
    p: PlatformView,
)
    ensures
        jar.is_suffix_of(spec_classpath(libs, jar, p)),
{
    let parts = spec_classpath_entries(libs).push(jar);
    assert(parts.drop_last() =~= spec_classpath_entries(libs));
    let cp = spec_classpath(libs, jar, p);
    if parts.len() == 1 {
        assert(cp == jar);
        assert(cp.subrange(0, jar.len() as int) =~= jar);
    } else {
        let head = spec_join(spec_classpath_entries(libs), p.classpath_separator)
            + p.classpath_separator;
        assert(cp == head + jar);
        assert(cp.subrange(cp.len() - jar.len(), cp.len() as int) =~= jar);
    }
}

} // verus!
