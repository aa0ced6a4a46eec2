//! Finding Java installations and reading the major version a Java reports.
use vstd::prelude::*;
use crate::text::{
    copy_chars, from_chars, lemma_split_nonempty, opt_view, parse_i32, spec_parse_i32, spec_split,
    split_chars, to_chars, vec_views, views,
};
use crate::library::path_listed;
use crate::utils::{
    components, same_path, spec_components, spec_join_path, spec_same_path, Platform, PlatformView,
};

verus! {

// ---------------------------------------------------------------------------
// The version a Java reports
// ---------------------------------------------------------------------------

/// The first line of `s`, as `str::lines` yields it: the text before the
/// first line feed, without a carriage return just before that line feed;
/// the whole of `s` when it has no line feed; empty when `s` is empty.
pub open spec fn spec_first_line(s: Seq<char>) -> Seq<char> {
    let parts = spec_split(s, '\n');
    let l = parts[0];
    if parts.len() > 1 && l.len() > 0 && l.last() == '\r' {
        l.drop_last()
    } else {
        l
    }
}

/// The `n`th piece of `s` split at `sep`, or `default` when there are fewer.
pub open spec fn spec_piece_or(s: Seq<char>, sep: char, n: int, default: Seq<char>) -> Seq<char> {
    let parts = spec_split(s, sep);
    if n < parts.len() {
        parts[n]
    } else {
        default
    }
}

/// The number `s` spells, or 0 when it spells none.
pub open spec fn spec_parse_or_zero(s: Seq<char>) -> i32 {
    match spec_parse_i32(s) {
        Some(v) => v,
        None => 0,
    }
}

/// The major Java version in the output of `java -version`: the first line
/// holds the version between double quotes (`"17.0.1"`, `"1.8.0_202"`); its
/// first dotted number is the major version, except that for the old `1.x`
/// scheme the second one is. A number that cannot be read counts as 0.
pub open spec fn spec_java_major(output: Seq<char>) -> i32 {
    let v = spec_piece_or(spec_first_line(output), '"', 1, "0"@);
    let major = spec_parse_or_zero(spec_split(v, '.')[0]);
    if major == 1 {
        spec_parse_or_zero(spec_piece_or(v, '.', 1, "0"@))
    } else {
        major
    }
}

fn first_line(s: &Vec<char>) -> (r: Vec<char>)
    ensures
        r@ == spec_first_line(s@),
{
    let parts = split_chars(s, '\n');
    proof {
        lemma_split_nonempty(s@, '\n');
    }
    let n = parts.len();
    let mut l = copy_chars(&parts[0]);
    assert(l@ == spec_split(s@, '\n')[0]);
    if n > 1 && l.len() > 0 && l[l.len() - 1] == '\r' {
        l.pop();
    }
    l
}

fn piece_or(s: &Vec<char>, sep: char, n: usize, default: &str) -> (r: Vec<char>)
    ensures
        r@ == spec_piece_or(s@, sep, n as int, default@),
{
    let parts = split_chars(s, sep);
    if n < parts.len() {
        let p = copy_chars(&parts[n]);
        assert(p@ == spec_split(s@, sep)[n as int]);
        p
    } else {
        to_chars(default)
    }
}

fn parse_or_zero(s: &Vec<char>) -> (r: i32)
    ensures
        r == spec_parse_or_zero(s@),
{
    match parse_i32(s) {
        Some(v) => v,
        None => 0,
    }
}

/// The major Java version reported by `java -version` on its error output.
pub fn parse_java_version(output: &str) -> (r: i32)
    ensures
        r == spec_java_major(output@),
{
    let chars = to_chars(output);
    let line = first_line(&chars);
    let v = piece_or(&line, '"', 1, "0");
    let dotted = split_chars(&v, '.');
    proof {
        lemma_split_nonempty(v@, '.');
    }
    let first = copy_chars(&dotted[0]);
    assert(first@ == spec_split(v@, '.')[0]);
    let major = parse_or_zero(&first);
    if major == 1 {
        let minor = piece_or(&v, '.', 1, "0");
        parse_or_zero(&minor)
    } else {
        major
    }
}

// ---------------------------------------------------------------------------
// Finding installations
// ---------------------------------------------------------------------------

/// Whether `s` equals `bin`, ignoring the case of ASCII letters.
pub open spec fn spec_is_bin(s: Seq<char>) -> bool {
    &&& s.len() == 3
    &&& (s[0] == 'b' || s[0] == 'B')
    &&& (s[1] == 'i' || s[1] == 'I')
    &&& (s[2] == 'n' || s[2] == 'N')
}

/// The last component of a path that is not `.`, if any.
pub open spec fn spec_last_name(comps: Seq<Seq<char>>) -> Option<Seq<char>>
    decreases comps.len(),
{
    if comps.len() == 0 {
        None
    } else if comps.last() == seq!['.'] {
        spec_last_name(comps.drop_last())
    } else {
        Some(comps.last())
    }
}

/// Whether a directory is named `bin` (in any case of ASCII letters): its
/// last component other than `.` is `bin`. (A Windows drive prefix glued to a
/// name, as in `C:bin`, counts as part of that name.)
pub open spec fn spec_dir_is_bin(p: PlatformView, dir: Seq<char>) -> bool {
    match spec_last_name(spec_components(p, dir)) {
        Some(n) => spec_is_bin(n),
        None => false,
    }
}

/// Whether the directory `dir` is named `bin` (in any case of ASCII letters).
pub fn dir_is_bin(dir: &str, platform: &Platform) -> (r: bool)
    ensures
        r == spec_dir_is_bin(platform@, dir@),
{
    let chars = to_chars(dir);
    let comps = components(&chars, platform);
    let ghost cv = vec_views(comps@);
    let mut k = comps.len();
    assert(cv.take(k as int) =~= cv);
    while k > 0
        invariant
            k <= comps.len(),
            cv == vec_views(comps@),
            cv == spec_components(platform@, dir@),
            spec_last_name(cv) == spec_last_name(cv.take(k as int)),
        decreases k,
    {
        let name = &comps[k - 1];
        proof {
            assert(cv.take(k as int).last() == name@);
            assert(cv.take(k as int).drop_last() =~= cv.take(k - 1));
        }
        if name.len() == 1 && name[0] == '.' {
            assert(name@ =~= seq!['.']);
            k -= 1;
        } else {
            proof {
                if name@ == seq!['.'] {
                    assert(name@[0] == '.');
                }
                assert(spec_last_name(cv.take(k as int)) == Some(name@));
            }
            let r = name.len() == 3 && (name[0] == 'b' || name[0] == 'B') && (name[1] == 'i'
                || name[1] == 'I') && (name[2] == 'n' || name[2] == 'N');
            assert(r == spec_is_bin(name@));
            return r;
        }
    }
    false
}

pub open spec fn spec_java_exe(p: PlatformView, dir: Seq<char>) -> Seq<char> {
    spec_join_path(p, dir, "java.exe"@)
}

/// The Java a `JAVA_HOME` directory holds: `<home>/bin/java.exe`.
pub open spec fn spec_home_java(p: PlatformView, home: Seq<char>) -> Seq<char> {
    spec_java_exe(p, spec_join_path(p, home, "bin"@))
}

/// Whether `found` holds a path naming the same place as `j`.
pub open spec fn spec_listed_same(p: PlatformView, found: Seq<Seq<char>>, j: Seq<char>) -> bool {
    exists|i: int| 0 <= i < found.len() && spec_same_path(p, #[trigger] found[i], j)
}

/// `found` extended by the Java of each directory of the search path, in
/// order, that exists, is not found yet (as a path, component by component),
/// and sits in a directory named `bin`.
pub open spec fn spec_add_path_javas(
    p: PlatformView,
    found: Seq<Seq<char>>,
    dirs: Seq<Seq<char>>,
    existing: Seq<Seq<char>>,
) -> Seq<Seq<char>>
    decreases dirs.len(),
{
    if dirs.len() == 0 {
        found
    } else {
        let j = spec_java_exe(p, dirs[0]);
        let next = if existing.contains(j) && !spec_listed_same(p, found, j) && spec_dir_is_bin(p, dirs[0]) {
            found.push(j)
        } else {
            found
        };
        spec_add_path_javas(p, next, dirs.skip(1), existing)
    }
}

/// `found` extended by the Java of each installation directory, in order,
/// that exists and is not found yet (as a path, component by component).
pub open spec fn spec_add_installed_javas(
    p: PlatformView,
    found: Seq<Seq<char>>,
    installs: Seq<Seq<char>>,
    existing: Seq<Seq<char>>,
) -> Seq<Seq<char>>
    decreases installs.len(),
{
    if installs.len() == 0 {
        found
    } else {
        let j = spec_home_java(p, installs[0]);
        let next = if existing.contains(j) && !spec_listed_same(p, found, j) {
            found.push(j)
        } else {
            found
        };
        spec_add_installed_javas(p, next, installs.skip(1), existing)
    }
}

/// The directories of a `;`-separated search path.
pub open spec fn spec_path_dirs(path_var: Option<Seq<char>>) -> Seq<Seq<char>> {
    match path_var {
        Some(v) => spec_split(v, ';'),
        None => Seq::empty(),
    }
}

/// The Java installations found: the one of `JAVA_HOME`, if it exists; then
/// those on the search path; then those in the usual installation places.
pub open spec fn spec_detect_java(
    p: PlatformView,
    java_home: Option<Seq<char>>,
    path_var: Option<Seq<char>>,
    installs: Seq<Seq<char>>,
    existing: Seq<Seq<char>>,
) -> Seq<Seq<char>> {
    let from_home = match java_home {
        Some(h) => if existing.contains(spec_home_java(p, h)) {
            seq![spec_home_java(p, h)]
        } else {
            Seq::empty()
        },
        None => Seq::empty(),
    };
    let from_path = spec_add_path_javas(p, from_home, spec_path_dirs(path_var), existing);
    spec_add_installed_javas(p, from_path, installs, existing)
}

/// The Java candidates whose existence `detect_java` consults.
pub open spec fn spec_java_probe_paths(
    p: PlatformView,
    java_home: Option<Seq<char>>,
    path_var: Option<Seq<char>>,
    installs: Seq<Seq<char>>,
) -> Seq<Seq<char>> {
    (match java_home {
        Some(h) => seq![spec_home_java(p, h)],
        None => Seq::empty(),
    }) + spec_path_dirs(path_var).map_values(|d: Seq<char>| spec_java_exe(p, d)) + installs.map_values(
        |d: Seq<char>| spec_home_java(p, d),
    )
}

fn home_java(home: &str, platform: &Platform) -> (r: String)
    ensures
        r@ == spec_home_java(platform@, home@),
{
    proof {
        reveal_strlit("bin");
        reveal_strlit("java.exe");
    }
    let bin = platform.join(home, "bin");
    platform.join(bin.as_str(), "java.exe")
}

fn java_exe(dir: &str, platform: &Platform) -> (r: String)
    ensures
        r@ == spec_java_exe(platform@, dir@),
{
    proof {
        reveal_strlit("java.exe");
    }
    platform.join(dir, "java.exe")
}

fn path_dirs(path_var: &Option<String>) -> (r: Vec<String>)
    ensures
        views(r@) == spec_path_dirs(opt_view(*path_var)),
{
    match path_var {
        Some(v) => {
            let chars = to_chars(v.as_str());
            let parts = split_chars(&chars, ';');
            let mut out: Vec<String> = Vec::new();
            let mut i: usize = 0;
            assert(views(out@) =~= vec_views(parts@).take(0));
            while i < parts.len()
                invariant
                    i <= parts.len(),
                    views(out@) == vec_views(parts@).take(i as int),
                decreases parts.len() - i,
            {
                let ghost before = views(out@);
                let piece = from_chars(&parts[i]);
                out.push(piece);
                assert(views(out@) =~= before.push(parts@[i as int]@));
                assert(vec_views(parts@).take(i + 1) =~= vec_views(parts@).take(i as int).push(
                    parts@[i as int]@,
                ));
                i += 1;
            }
            assert(vec_views(parts@).take(parts.len() as int) =~= vec_views(parts@));
            out
        },
        None => {
            let out: Vec<String> = Vec::new();
            assert(views(out@) =~= Seq::<Seq<char>>::empty());
            out
        },
    }
}

/// The Java candidates whose existence `detect_java` consults: the one of
/// `JAVA_HOME`, the one of each search-path directory, and the one of each
/// installation directory.
pub fn java_probe_paths(
    java_home: &Option<String>,
    path_var: &Option<String>,
    installs: &Vec<String>,
    platform: &Platform,
) -> (r: Vec<String>)
    ensures
        views(r@) == spec_java_probe_paths(
            platform@,
            opt_view(*java_home),
            opt_view(*path_var),
            views(installs@),
        ),
{
    let mut out: Vec<String> = Vec::new();
    match java_home {
        Some(h) => out.push(home_java(h.as_str(), platform)),
        None => {},
    }
    let ghost a = views(out@);
    let dirs = path_dirs(path_var);
    let ghost dv = views(dirs@);
    let mut i: usize = 0;
    assert(views(out@) =~= a + dv.take(0).map_values(|d: Seq<char>| spec_java_exe(platform@, d)));
    while i < dirs.len()
        invariant
            i <= dirs.len(),
            dv == views(dirs@),
            views(out@) == a + dv.take(i as int).map_values(
                |d: Seq<char>| spec_java_exe(platform@, d),
            ),
        decreases dirs.len() - i,
    {
        let ghost before = views(out@);
        let j = java_exe(dirs[i].as_str(), platform);
        out.push(j);
        assert(views(out@) =~= before.push(j@));
        assert(dv.take(i + 1).map_values(|d: Seq<char>| spec_java_exe(platform@, d)) =~= dv.take(
            i as int,
        ).map_values(|d: Seq<char>| spec_java_exe(platform@, d)).push(spec_java_exe(platform@, dv[i as int])));
        assert(views(out@) =~= a + dv.take(i + 1).map_values(
            |d: Seq<char>| spec_java_exe(platform@, d),
        ));
        i += 1;
    }
    assert(dv.take(dirs.len() as int) =~= dv);
    let ghost b = views(out@);
    let ghost iv = views(installs@);
    let mut k: usize = 0;
    assert(views(out@) =~= b + iv.take(0).map_values(|d: Seq<char>| spec_home_java(platform@, d)));
    while k < installs.len()
        invariant
            k <= installs.len(),
            iv == views(installs@),
            views(out@) == b + iv.take(k as int).map_values(
                |d: Seq<char>| spec_home_java(platform@, d),
            ),
        decreases installs.len() - k,
    {
        let ghost before = views(out@);
        let j = home_java(installs[k].as_str(), platform);
        out.push(j);
        assert(views(out@) =~= before.push(j@));
        assert(iv.take(k + 1).map_values(|d: Seq<char>| spec_home_java(platform@, d)) =~= iv.take(
            k as int,
        ).map_values(|d: Seq<char>| spec_home_java(platform@, d)).push(spec_home_java(platform@, iv[k as int])));
        assert(views(out@) =~= b + iv.take(k + 1).map_values(
            |d: Seq<char>| spec_home_java(platform@, d),
        ));
        k += 1;
    }
    assert(iv.take(installs.len() as int) =~= iv);
    assert(views(out@) =~= spec_java_probe_paths(
        platform@,
        opt_view(*java_home),
        opt_view(*path_var),
        views(installs@),
    ));
    out
}

fn already_found(found: &Vec<String>, p: &String, platform: &Platform) -> (r: bool)
    ensures
        r == spec_listed_same(platform@, views(found@), p@),
{
    let mut i: usize = 0;
    while i < found.len()
        invariant
            i <= found.len(),
            forall|k: int| 0 <= k < i ==> !spec_same_path(platform@, #[trigger] views(found@)[k], p@),
        decreases found.len() - i,
    {
        if same_path(found[i].as_str(), p.as_str(), platform) {
            assert(spec_same_path(platform@, views(found@)[i as int], p@));
            return true;
        }
        i += 1;
    }
    false
}

/// The Java installations found, given which candidates exist (`existing`):
/// `JAVA_HOME`'s, then those on the search path `path_var` that sit in a
/// `bin` directory, then those of the installation directories `installs`,
/// each at most once.
pub fn detect_java(
    java_home: &Option<String>,
    path_var: &Option<String>,
    installs: &Vec<String>,
    existing: &Vec<String>,
    platform: &Platform,
) -> (r: Vec<String>)
    ensures
        views(r@) == spec_detect_java(
            platform@,
            opt_view(*java_home),
            opt_view(*path_var),
            views(installs@),
            views(existing@),
        ),
{
    let ghost ex = views(existing@);
    let mut found: Vec<String> = Vec::new();
    match java_home {
        Some(h) => {
            let j = home_java(h.as_str(), platform);
            if path_listed(existing, &j) {
                found.push(j);
            }
        },
        None => {},
    }
    let ghost a = views(found@);
    assert(a =~= match opt_view(*java_home) {
        Some(h) => if ex.contains(spec_home_java(platform@, h)) {
            seq![spec_home_java(platform@, h)]
        } else {
            Seq::empty()
        },
        None => Seq::empty(),
    });
    let dirs = path_dirs(path_var);
    let ghost dv = views(dirs@);
    let mut i: usize = 0;
    assert(dv.skip(0) =~= dv);
    while i < dirs.len()
        invariant
            i <= dirs.len(),
            dv == views(dirs@),
            ex == views(existing@),
            spec_add_path_javas(platform@, a, dv, ex) == spec_add_path_javas(
                platform@,
                views(found@),
                dv.skip(i as int),
                ex,
            ),
        decreases dirs.len() - i,
    {
        proof {
            assert(dv.skip(i as int).skip(1) =~= dv.skip(i + 1));
            assert(dv.skip(i as int)[0] == dirs@[i as int]@);
        }
        let j = java_exe(dirs[i].as_str(), platform);
        if path_listed(existing, &j) && !already_found(&found, &j, platform) && dir_is_bin(
            dirs[i].as_str(),
            platform,
        ) {
            let ghost before = views(found@);
            found.push(j);
            assert(views(found@) =~= before.push(j@));
        }
        i += 1;
    }
    let ghost b = views(found@);
    assert(spec_add_path_javas(platform@, a, dv, ex) == b);
    let ghost iv = views(installs@);
    let mut k: usize = 0;
    assert(iv.skip(0) =~= iv);
    while k < installs.len()
        invariant
            k <= installs.len(),
            iv == views(installs@),
            ex == views(existing@),
            spec_add_installed_javas(platform@, b, iv, ex) == spec_add_installed_javas(
                platform@,
                views(found@),
                iv.skip(k as int),
                ex,
            ),
        decreases installs.len() - k,
    {
        proof {
            assert(iv.skip(k as int).skip(1) =~= iv.skip(k + 1));
            assert(iv.skip(k as int)[0] == installs@[k as int]@);
        }
        let j = home_java(installs[k].as_str(), platform);
        if path_listed(existing, &j) && !already_found(&found, &j, platform) {
            let ghost before = views(found@);
            found.push(j);
            assert(views(found@) =~= before.push(j@));
        }
        k += 1;
    }
    found
}

// ---------------------------------------------------------------------------
// Laws
// ---------------------------------------------------------------------------

/// Whether no two of `found` name the same place, and all exist.
pub open spec fn spec_distinct_existing(
    p: PlatformView,
    found: Seq<Seq<char>>,
    existing: Seq<Seq<char>>,
) -> bool {
    &&& forall|a: int, b: int|
        0 <= a < found.len() && 0 <= b < found.len() && a != b ==> !spec_same_path(
            p,
            #[trigger] found[a],
            #[trigger] found[b],
        )
    &&& forall|i: int| 0 <= i < found.len() ==> existing.contains(#[trigger] found[i])
}

proof fn lemma_push_distinct(
    p: PlatformView,
    found: Seq<Seq<char>>,
    j: Seq<char>,
    existing: Seq<Seq<char>>,
)
    requires
        spec_distinct_existing(p, found, existing),
        !spec_listed_same(p, found, j),
        existing.contains(j),
    ensures
        spec_distinct_existing(p, found.push(j), existing),
{
    let next = found.push(j);
    assert forall|a: int, b: int|
        0 <= a < next.len() && 0 <= b < next.len() && a != b implies !spec_same_path(
        p,
        #[trigger] next[a],
        #[trigger] next[b],
    ) by {
        if a == found.len() as int {
            assert(next[b] == found[b]);
            if spec_same_path(p, next[a], next[b]) {
                assert(spec_same_path(p, found[b], j));
            }
        } else if b == found.len() as int {
            assert(next[a] == found[a]);
        } else {
            assert(next[a] == found[a] && next[b] == found[b]);
        }
    }
    assert forall|i: int| 0 <= i < next.len() implies existing.contains(#[trigger] next[i]) by {
        if i < found.len() {
            assert(next[i] == found[i]);
        }
    }
}

proof fn lemma_add_path_javas_distinct(
    p: PlatformView,
    found: Seq<Seq<char>>,
    dirs: Seq<Seq<char>>,
    existing: Seq<Seq<char>>,
)
    requires
        spec_distinct_existing(p, found, existing),
    ensures
        spec_distinct_existing(p, spec_add_path_javas(p, found, dirs, existing), existing),
    decreases dirs.len(),
{
    if dirs.len() > 0 {
        let j = spec_java_exe(p, dirs[0]);
        if existing.contains(j) && !spec_listed_same(p, found, j) && spec_dir_is_bin(p, dirs[0]) {
            lemma_push_distinct(p, found, j, existing);
            lemma_add_path_javas_distinct(p, found.push(j), dirs.skip(1), existing);
        } else {
            lemma_add_path_javas_distinct(p, found, dirs.skip(1), existing);
        }
    }
}

proof fn lemma_add_installed_javas_distinct(
    p: PlatformView,
    found: Seq<Seq<char>>,
    installs: Seq<Seq<char>>,
    existing: Seq<Seq<char>>,
)
    requires
        spec_distinct_existing(p, found, existing),
    ensures
        spec_distinct_existing(p, spec_add_installed_javas(p, found, installs, existing), existing),
    decreases installs.len(),
{
    if installs.len() > 0 {
        let j = spec_home_java(p, installs[0]);
        if existing.contains(j) && !spec_listed_same(p, found, j) {
            lemma_push_distinct(p, found, j, existing);
            lemma_add_installed_javas_distinct(p, found.push(j), installs.skip(1), existing);
        } else {
            lemma_add_installed_javas_distinct(p, found, installs.skip(1), existing);
        }
    }
}

proof fn lemma_listed_same_in_extension(
    p: PlatformView,
    found: Seq<Seq<char>>,
    r: Seq<Seq<char>>,
    j: Seq<char>,
)
    requires
        found.len() <= r.len(),
        forall|i: int| 0 <= i < found.len() ==> #[trigger] r[i] == found[i],
        spec_listed_same(p, found, j),
    ensures
        spec_listed_same(p, r, j),
{
    let i = choose|i: int| 0 <= i < found.len() && spec_same_path(p, #[trigger] found[i], j);
    assert(r[i] == found[i]);
}

proof fn lemma_add_path_javas_extends(
    p: PlatformView,
    found: Seq<Seq<char>>,
    dirs: Seq<Seq<char>>,
    existing: Seq<Seq<char>>,
)
    ensures
        found.len() <= spec_add_path_javas(p, found, dirs, existing).len(),
        forall|i: int|
            0 <= i < found.len() ==> #[trigger] spec_add_path_javas(p, found, dirs, existing)[i]
                == found[i],
    decreases dirs.len(),
{
    if dirs.len() > 0 {
        let j = spec_java_exe(p, dirs[0]);
        let next = if existing.contains(j) && !spec_listed_same(p, found, j) && spec_dir_is_bin(
            p,
            dirs[0],
        ) {
            found.push(j)
        } else {
            found
        };
        lemma_add_path_javas_extends(p, next, dirs.skip(1), existing);
        assert forall|i: int| 0 <= i < found.len() implies #[trigger] spec_add_path_javas(
            p,
            found,
            dirs,
            existing,
        )[i] == found[i] by {
            assert(next[i] == found[i]);
        }
    }
}

proof fn lemma_add_installed_javas_extends(
    p: PlatformView,
    found: Seq<Seq<char>>,
    installs: Seq<Seq<char>>,
    existing: Seq<Seq<char>>,
)
    ensures
        found.len() <= spec_add_installed_javas(p, found, installs, existing).len(),
        forall|i: int|
            0 <= i < found.len() ==> #[trigger] spec_add_installed_javas(
                p,
                found,
                installs,
                existing,
            )[i] == found[i],
    decreases installs.len(),
{
    if installs.len() > 0 {
        let j = spec_home_java(p, installs[0]);
        let next = if existing.contains(j) && !spec_listed_same(p, found, j) {
            found.push(j)
        } else {
            found
        };
        lemma_add_installed_javas_extends(p, next, installs.skip(1), existing);
        assert forall|i: int| 0 <= i < found.len() implies #[trigger] spec_add_installed_javas(
            p,
            found,
            installs,
            existing,
        )[i] == found[i] by {
            assert(next[i] == found[i]);
        }
    }
}

proof fn lemma_add_path_javas_complete(
    p: PlatformView,
    found: Seq<Seq<char>>,
    dirs: Seq<Seq<char>>,
    existing: Seq<Seq<char>>,
)
    ensures
        forall|k: int|
            0 <= k < dirs.len() && existing.contains(spec_java_exe(p, #[trigger] dirs[k]))
                && spec_dir_is_bin(p, dirs[k]) ==> spec_listed_same(
                p,
                spec_add_path_javas(p, found, dirs, existing),
                spec_java_exe(p, dirs[k]),
            ),
    decreases dirs.len(),
{
    if dirs.len() > 0 {
        let j = spec_java_exe(p, dirs[0]);
        let next = if existing.contains(j) && !spec_listed_same(p, found, j) && spec_dir_is_bin(
            p,
            dirs[0],
        ) {
            found.push(j)
        } else {
            found
        };
        let r = spec_add_path_javas(p, found, dirs, existing);
        assert(r == spec_add_path_javas(p, next, dirs.skip(1), existing));
        lemma_add_path_javas_complete(p, next, dirs.skip(1), existing);
        lemma_add_path_javas_extends(p, next, dirs.skip(1), existing);
        assert forall|k: int|
            0 <= k < dirs.len() && existing.contains(spec_java_exe(p, #[trigger] dirs[k]))
                && spec_dir_is_bin(p, dirs[k]) implies spec_listed_same(
            p,
            r,
            spec_java_exe(p, dirs[k]),
        ) by {
            if k == 0 {
                if !spec_listed_same(p, found, j) {
                    assert(next[found.len() as int] == j);
                    assert(spec_same_path(p, next[found.len() as int], j));
                    assert(spec_listed_same(p, next, j));
                }
                lemma_listed_same_in_extension(p, next, r, j);
            } else {
                assert(dirs.skip(1)[k - 1] == dirs[k]);
            }
        }
    }
}

proof fn lemma_add_installed_javas_complete(
    p: PlatformView,
    found: Seq<Seq<char>>,
    installs: Seq<Seq<char>>,
    existing: Seq<Seq<char>>,
)
    ensures
        forall|k: int|
            0 <= k < installs.len() && existing.contains(spec_home_java(p, #[trigger] installs[k]))
                ==> spec_listed_same(
                p,
                spec_add_installed_javas(p, found, installs, existing),
                spec_home_java(p, installs[k]),
            ),
    decreases installs.len(),
{
    if installs.len() > 0 {
        let j = spec_home_java(p, installs[0]);
        let next = if existing.contains(j) && !spec_listed_same(p, found, j) {
            found.push(j)
        } else {
            found
        };
        let r = spec_add_installed_javas(p, found, installs, existing);
        assert(r == spec_add_installed_javas(p, next, installs.skip(1), existing));
        lemma_add_installed_javas_complete(p, next, installs.skip(1), existing);
        lemma_add_installed_javas_extends(p, next, installs.skip(1), existing);
        assert forall|k: int|
            0 <= k < installs.len() && existing.contains(spec_home_java(p, #[trigger] installs[k]))
                implies spec_listed_same(p, r, spec_home_java(p, installs[k])) by {
            if k == 0 {
                if !spec_listed_same(p, found, j) {
                    assert(next[found.len() as int] == j);
                    assert(spec_same_path(p, next[found.len() as int], j));
                    assert(spec_listed_same(p, next, j));
                }
                lemma_listed_same_in_extension(p, next, r, j);
            } else {
                assert(installs.skip(1)[k - 1] == installs[k]);
            }
        }
    }
}

proof fn lemma_add_path_javas_sources(
    p: PlatformView,
    found: Seq<Seq<char>>,
    dirs: Seq<Seq<char>>,
    existing: Seq<Seq<char>>,
)
    ensures
        forall|i: int|
            found.len() <= i < spec_add_path_javas(p, found, dirs, existing).len() ==> exists|k: int|
                0 <= k < dirs.len() && #[trigger] spec_add_path_javas(p, found, dirs, existing)[i]
                    == spec_java_exe(p, #[trigger] dirs[k]) && spec_dir_is_bin(p, dirs[k]),
    decreases dirs.len(),
{
    if dirs.len() > 0 {
        let j = spec_java_exe(p, dirs[0]);
        let pushed = existing.contains(j) && !spec_listed_same(p, found, j) && spec_dir_is_bin(
            p,
            dirs[0],
        );
        let next = if pushed {
            found.push(j)
        } else {
            found
        };
        let rest = dirs.skip(1);
        let r = spec_add_path_javas(p, found, dirs, existing);
        assert(r == spec_add_path_javas(p, next, rest, existing));
        lemma_add_path_javas_sources(p, next, rest, existing);
        lemma_add_path_javas_extends(p, next, rest, existing);
        assert forall|i: int| found.len() <= i < r.len() implies exists|k: int|
            0 <= k < dirs.len() && #[trigger] r[i] == spec_java_exe(p, #[trigger] dirs[k])
                && spec_dir_is_bin(p, dirs[k]) by {
            if i < next.len() {
                assert(r[i] == next[i]);
                assert(r[i] == spec_java_exe(p, dirs[0]));
            } else {
                let k = choose|k: int|
                    0 <= k < rest.len() && #[trigger] spec_add_path_javas(p, next, rest, existing)[i]
                        == spec_java_exe(p, #[trigger] rest[k]) && spec_dir_is_bin(p, rest[k]);
                assert(rest[k] == dirs[k + 1]);
            }
        }
    }
}

proof fn lemma_add_installed_javas_sources(
    p: PlatformView,
    found: Seq<Seq<char>>,
    installs: Seq<Seq<char>>,
    existing: Seq<Seq<char>>,
)
    ensures
        forall|i: int|
            found.len() <= i < spec_add_installed_javas(p, found, installs, existing).len()
                ==> exists|k: int|
                0 <= k < installs.len() && #[trigger] spec_add_installed_javas(
                    p,
                    found,
                    installs,
                    existing,
                )[i] == spec_home_java(p, #[trigger] installs[k]),
    decreases installs.len(),
{
    if installs.len() > 0 {
        let j = spec_home_java(p, installs[0]);
        let pushed = existing.contains(j) && !spec_listed_same(p, found, j);
        let next = if pushed {
            found.push(j)
        } else {
            found
        };
        let rest = installs.skip(1);
        let r = spec_add_installed_javas(p, found, installs, existing);
        assert(r == spec_add_installed_javas(p, next, rest, existing));
        lemma_add_installed_javas_sources(p, next, rest, existing);
        lemma_add_installed_javas_extends(p, next, rest, existing);
        assert forall|i: int| found.len() <= i < r.len() implies exists|k: int|
            0 <= k < installs.len() && #[trigger] r[i] == spec_home_java(
                p,
                #[trigger] installs[k],
            ) by {
            if i < next.len() {
                assert(r[i] == next[i]);
                assert(r[i] == spec_home_java(p, installs[0]));
            } else {
                let k = choose|k: int|
                    0 <= k < rest.len() && #[trigger] spec_add_installed_javas(
                        p,
                        next,
                        rest,
                        existing,
                    )[i] == spec_home_java(p, #[trigger] rest[k]);
                assert(rest[k] == installs[k + 1]);
            }
        }
    }
}

/// Whether `j` is a Java that detection may report: the one of `JAVA_HOME`,
/// the `java.exe` of a search-path directory named `bin`, or the
/// `bin/java.exe` of an installation place.
pub open spec fn spec_java_candidate(
    p: PlatformView,
    java_home: Option<Seq<char>>,
    dirs: Seq<Seq<char>>,
    installs: Seq<Seq<char>>,
    j: Seq<char>,
) -> bool {
    ||| java_home is Some && j == spec_home_java(p, java_home->0)
    ||| exists|k: int|
        0 <= k < dirs.len() && j == spec_java_exe(p, #[trigger] dirs[k]) && spec_dir_is_bin(
            p,
            dirs[k],
        )
    ||| exists|k: int| 0 <= k < installs.len() && j == spec_home_java(p, #[trigger] installs[k])
}

/// Java detection reports nothing it was not shown: every entry is the Java
/// of `JAVA_HOME`, that of a search-path directory named `bin`, or that of
/// an installation place.
pub proof fn law_detected_javas_come_from_candidates(
    p: PlatformView,
    java_home: Option<Seq<char>>,
    path_var: Option<Seq<char>>,
    installs: Seq<Seq<char>>,
    existing: Seq<Seq<char>>,
)
    ensures
        forall|i: int|
            0 <= i < spec_detect_java(p, java_home, path_var, installs, existing).len()
                ==> spec_java_candidate(
                p,
                java_home,
                spec_path_dirs(path_var),
                installs,
                #[trigger] spec_detect_java(p, java_home, path_var, installs, existing)[i],
            ),
{
    let from_home = match java_home {
        Some(h) => if existing.contains(spec_home_java(p, h)) {
            seq![spec_home_java(p, h)]
        } else {
            Seq::empty()
        },
        None => Seq::empty(),
    };
    let dirs = spec_path_dirs(path_var);
    let from_path = spec_add_path_javas(p, from_home, dirs, existing);
    let r = spec_detect_java(p, java_home, path_var, installs, existing);
    assert(r == spec_add_installed_javas(p, from_path, installs, existing));
    lemma_add_path_javas_extends(p, from_home, dirs, existing);
    lemma_add_path_javas_sources(p, from_home, dirs, existing);
    lemma_add_installed_javas_extends(p, from_path, installs, existing);
    lemma_add_installed_javas_sources(p, from_path, installs, existing);
    assert forall|i: int| 0 <= i < r.len() implies spec_java_candidate(
        p,
        java_home,
        dirs,
        installs,
        #[trigger] r[i],
    ) by {
        if i < from_path.len() {
            assert(r[i] == from_path[i]);
            if i < from_home.len() {
                assert(from_path[i] == from_home[i]);
            } else {
                let k = choose|k: int|
                    0 <= k < dirs.len() && #[trigger] from_path[i] == spec_java_exe(
                        p,
                        #[trigger] dirs[k],
                    ) && spec_dir_is_bin(p, dirs[k]);
            }
        } else {
            let k = choose|k: int|
                0 <= k < installs.len() && #[trigger] r[i] == spec_home_java(
                    p,
                    #[trigger] installs[k],
                );
        }
    }
}

/// Java detection misses no installation it is shown: the Java of
/// `JAVA_HOME` comes first when it exists; and for every directory of the
/// search path that is named `bin` and holds an existing `java.exe`, and for
/// every installation place whose `bin/java.exe` exists, some entry of the
/// result names that same file.
pub proof fn law_detected_javas_complete(
    p: PlatformView,
    java_home: Option<Seq<char>>,
    path_var: Option<Seq<char>>,
    installs: Seq<Seq<char>>,
    existing: Seq<Seq<char>>,
)
    ensures
        ({
            let r = spec_detect_java(p, java_home, path_var, installs, existing);
            let dirs = spec_path_dirs(path_var);
            &&& (java_home is Some && existing.contains(spec_home_java(p, java_home->0))) ==> (
            r.len() > 0 && r[0] == spec_home_java(p, java_home->0))
            &&& forall|k: int|
                0 <= k < dirs.len() && existing.contains(spec_java_exe(p, #[trigger] dirs[k]))
                    && spec_dir_is_bin(p, dirs[k]) ==> spec_listed_same(
                    p,
                    r,
                    spec_java_exe(p, dirs[k]),
                )
            &&& forall|k: int|
                0 <= k < installs.len() && existing.contains(
                    spec_home_java(p, #[trigger] installs[k]),
                ) ==> spec_listed_same(p, r, spec_home_java(p, installs[k]))
        }),
{
    let from_home = match java_home {
        Some(h) => if existing.contains(spec_home_java(p, h)) {
            seq![spec_home_java(p, h)]
        } else {
            Seq::empty()
        },
        None => Seq::empty(),
    };
    let dirs = spec_path_dirs(path_var);
    let from_path = spec_add_path_javas(p, from_home, dirs, existing);
    let r = spec_detect_java(p, java_home, path_var, installs, existing);
    assert(r == spec_add_installed_javas(p, from_path, installs, existing));
    lemma_add_path_javas_extends(p, from_home, dirs, existing);
    lemma_add_path_javas_complete(p, from_home, dirs, existing);
    lemma_add_installed_javas_extends(p, from_path, installs, existing);
    lemma_add_installed_javas_complete(p, from_path, installs, existing);
    if java_home is Some && existing.contains(spec_home_java(p, java_home->0)) {
        assert(from_home[0] == spec_home_java(p, java_home->0));
        assert(from_path[0] == from_home[0]);
        assert(r[0] == from_path[0]);
    }
    assert forall|k: int|
        0 <= k < dirs.len() && existing.contains(spec_java_exe(p, #[trigger] dirs[k]))
            && spec_dir_is_bin(p, dirs[k]) implies spec_listed_same(
        p,
        r,
        spec_java_exe(p, dirs[k]),
    ) by {
        lemma_listed_same_in_extension(p, from_path, r, spec_java_exe(p, dirs[k]));
    }
}

/// Java detection lists only installations that exist, and no two entries
/// name the same file (component by component).
pub proof fn law_detected_javas_distinct_and_existing(
    p: PlatformView,
    java_home: Option<Seq<char>>,
    path_var: Option<Seq<char>>,
    installs: Seq<Seq<char>>,
    existing: Seq<Seq<char>>,
)
    ensures
        spec_distinct_existing(p, spec_detect_java(p, java_home, path_var, installs, existing), existing),
{
    let from_home = match java_home {
        Some(h) => if existing.contains(spec_home_java(p, h)) {
            seq![spec_home_java(p, h)]
        } else {
            Seq::empty()
        },
        None => Seq::empty(),
    };
    lemma_add_path_javas_distinct(p, from_home, spec_path_dirs(path_var), existing);
    lemma_add_installed_javas_distinct(
        p,
        spec_add_path_javas(p, from_home, spec_path_dirs(path_var), existing),
        installs,
        existing,
    );
}

} // verus!
