//! The platform the launcher runs on, file paths built for it, and the
//! identifiers given to new offline accounts.
use vstd::prelude::*;
use crate::text::{from_chars, owned, push_str, str_eq, to_chars, vec_views};

verus! {

/// The operating system family the launcher runs on, the architecture it
/// reports in rules, and the separator of entries in a Java class path.
pub struct Platform {
    name: String,
    arch: String,
    classpath_separator: String,
}

/// What a `Platform` holds.
pub ghost struct PlatformView {
    pub name: Seq<char>,
    pub arch: Seq<char>,
    pub classpath_separator: Seq<char>,
}

impl View for Platform {
    type V = PlatformView;

    closed spec fn view(&self) -> PlatformView {
        PlatformView {
            name: self.name@,
            arch: self.arch@,
            classpath_separator: self.classpath_separator@,
        }
    }
}

/// The platform known by the operating system name `os` (as
/// `std::env::consts::OS` spells it): Windows and macOS are told apart, and
/// every other system counts as Linux.
pub open spec fn spec_platform(os: Seq<char>) -> PlatformView {
    let name = if os == "windows"@ {
        "windows"@
    } else if os == "macos"@ {
        "macos"@
    } else {
        "linux"@
    };
    PlatformView {
        name,
        arch: "x86"@,
        classpath_separator: if name == "windows"@ { ";"@ } else { ":"@ },
    }
}

/// The separator this platform puts between the components of a path.
pub open spec fn spec_path_separator(p: PlatformView) -> char {
    if p.name == "windows"@ { '\\' } else { '/' }
}

/// Whether `c` separates path components on this platform (Windows accepts
/// both slashes).
pub open spec fn spec_is_path_separator(p: PlatformView, c: char) -> bool {
    c == '/' || (p.name == "windows"@ && c == '\\')
}

/// Whether `s` begins with a Windows drive prefix: an ASCII letter and `:`.
pub open spec fn spec_has_drive(s: Seq<char>) -> bool {
    s.len() >= 2 && (('a' <= s[0] && s[0] <= 'z') || ('A' <= s[0] && s[0] <= 'Z')) && s[1] == ':'
}

/// Whether `comp` brings a prefix of its own on this platform: on Windows a
/// drive (`C:`) or a leading pair of separators (`\\server`, `\\?\`).
pub open spec fn spec_has_prefix(p: PlatformView, comp: Seq<char>) -> bool {
    p.name == "windows"@ && (spec_has_drive(comp) || (comp.len() >= 2 && spec_is_path_separator(
        p,
        comp[0],
    ) && spec_is_path_separator(p, comp[1])))
}

/// Whether `comp` begins at the root (with a separator).
pub open spec fn spec_has_root(p: PlatformView, comp: Seq<char>) -> bool {
    comp.len() > 0 && spec_is_path_separator(p, comp[0])
}

/// The path `base` extended by `comp`, as `Path::join` builds it:
/// - a `comp` with a prefix of its own (Windows) or, elsewhere, one that
///   begins at the root replaces `base`;
/// - on Windows, a `comp` that begins at the root keeps only the drive of
///   `base`, if it has one;
/// - otherwise a separator goes between them, unless `base` is empty, already
///   ends in one, or (on Windows) is a bare drive such as `C:`.
///
/// The server and share of a `\\server\share` base, and the rules of
/// verbatim (`\\?\`) bases, are not taken into account: such a base is
/// treated as having no drive.
pub open spec fn spec_join_path(p: PlatformView, base: Seq<char>, comp: Seq<char>) -> Seq<char> {
    if spec_has_prefix(p, comp) || (p.name != "windows"@ && spec_has_root(p, comp)) {
        comp
    } else if spec_has_root(p, comp) {
        (if spec_has_drive(base) { base.take(2) } else { Seq::empty() }) + comp
    } else if base.len() == 0 || spec_is_path_separator(p, base.last()) || (p.name == "windows"@
        && base.len() == 2 && spec_has_drive(base)) {
        base + comp
    } else {
        base.push(spec_path_separator(p)) + comp
    }
}

fn has_drive(s: &Vec<char>) -> (r: bool)
    ensures
        r == spec_has_drive(s@),
{
    s.len() >= 2 && (('a' <= s[0] && s[0] <= 'z') || ('A' <= s[0] && s[0] <= 'Z')) && s[1] == ':'
}

/// The pieces of a path between its separators, without empty pieces.
pub open spec fn spec_components(p: PlatformView, path: Seq<char>) -> Seq<Seq<char>>
    decreases path.len(),
{
    if path.len() == 0 {
        Seq::empty()
    } else {
        let init = spec_components(p, path.drop_last());
        let c = path.last();
        if spec_is_path_separator(p, c) {
            init
        } else {
            // the current piece is the run of non-separators ending here
            let prev_open = path.len() >= 2 && !spec_is_path_separator(p, path[path.len() - 2]);
            if prev_open {
                init.update(init.len() - 1, init.last().push(c))
            } else {
                init.push(seq![c])
            }
        }
    }
}

/// The components of `dir`.
pub fn components(dir: &Vec<char>, platform: &Platform) -> (r: Vec<Vec<char>>)
    ensures
        vec_views(r@) == spec_components(platform@, dir@),
{
    let windows = platform.is_windows();
    let mut comps: Vec<Vec<char>> = Vec::new();
    let mut cur: Vec<char> = Vec::new();
    let mut open = false;
    let mut i: usize = 0;
    proof {
        assert(dir@.take(0) =~= Seq::<char>::empty());
    }
    while i < dir.len()
        invariant
            i <= dir.len(),
            windows == (platform@.name == "windows"@),
            open == (i > 0 && !spec_is_path_separator(platform@, dir@[i - 1])),
            open ==> spec_components(platform@, dir@.take(i as int)) == vec_views(comps@).push(
                cur@,
            ),
            !open ==> spec_components(platform@, dir@.take(i as int)) == vec_views(comps@),
        decreases dir.len() - i,
    {
        let c = dir[i];
        let ghost prev = dir@.take(i as int);
        proof {
            assert(dir@.take(i + 1).drop_last() =~= prev);
            assert(dir@.take(i + 1).last() == c);
            if i > 0 {
                assert(dir@.take(i + 1)[i - 1] == dir@[i - 1]);
            }
        }
        if c == '/' || (windows && c == '\\') {
            if open {
                let done = cur;
                comps.push(done);
                cur = Vec::new();
                proof {
                    assert(vec_views(comps@) =~= spec_components(platform@, prev));
                }
            }
            open = false;
        } else {
            if open {
                cur.push(c);
                proof {
                    let w = spec_components(platform@, prev);
                    assert(vec_views(comps@).push(cur@) =~= w.update(w.len() - 1, w.last().push(c)));
                }
            } else {
                cur = Vec::new();
                cur.push(c);
                proof {
                    assert(cur@ =~= seq![c]);
                    assert(vec_views(comps@).push(cur@) =~= spec_components(platform@, prev).push(
                        seq![c],
                    ));
                }
            }
            open = true;
        }
        i += 1;
    }
    proof {
        assert(dir@.take(dir.len() as int) =~= dir@);
    }
    if open {
        let ghost before = vec_views(comps@);
        comps.push(cur);
        proof {
            assert(vec_views(comps@) =~= before.push(cur@));
        }
    }
    comps
}

/// Whether `name` is a single ordinary path component: not empty, without
/// separators, without a drive prefix, and neither `.` nor `..`.
pub open spec fn spec_is_plain_name(p: PlatformView, name: Seq<char>) -> bool {
    &&& name.len() > 0
    &&& forall|i: int| 0 <= i < name.len() ==> !spec_is_path_separator(p, #[trigger] name[i])
    &&& !spec_has_drive(name)
    &&& name != seq!['.']
    &&& name != seq!['.', '.']
}

/// A separator then an ordinary name, appended to a path that does not end
/// in a separator, add that name as one more component.
pub proof fn lemma_components_append(p: PlatformView, base: Seq<char>, comp: Seq<char>)
    requires
        base.len() > 0,
        !spec_is_path_separator(p, base.last()),
        comp.len() > 0,
        forall|i: int| 0 <= i < comp.len() ==> !spec_is_path_separator(p, #[trigger] comp[i]),
    ensures
        spec_components(p, base.push(spec_path_separator(p)) + comp) == spec_components(
            p,
            base,
        ).push(comp),
    decreases comp.len(),
{
    let bs = base.push(spec_path_separator(p));
    assert(bs.drop_last() =~= base);
    assert(spec_is_path_separator(p, spec_path_separator(p)));
    assert(spec_components(p, bs) == spec_components(p, base));
    if comp.len() == 1 {
        assert((bs + comp).drop_last() =~= bs);
        assert(!spec_is_path_separator(p, comp[0]));
        assert((bs + comp).last() == comp[0]);
        assert((bs + comp)[(bs + comp).len() - 2] == spec_path_separator(p));
        assert(comp =~= seq![comp[0]]);
    } else {
        let c0 = comp.drop_last();
        lemma_components_append(p, base, c0);
        assert((bs + comp).drop_last() =~= bs + c0);
        assert(!spec_is_path_separator(p, comp.last()));
        assert((bs + comp)[(bs + comp).len() - 2] == c0.last());
        assert(!spec_is_path_separator(p, c0[c0.len() - 1]));
        assert(c0.push(comp.last()) =~= comp);
        let init = spec_components(p, bs + c0);
        assert(init.update(init.len() - 1, init.last().push(comp.last())) =~= spec_components(
            p,
            base,
        ).push(comp));
    }
}

/// The pieces `c` without `.` ones, save a leading one when `keep_lead`.
pub open spec fn spec_drop_cur_dirs(c: Seq<Seq<char>>, keep_lead: bool) -> Seq<Seq<char>>
    decreases c.len(),
{
    if c.len() == 0 {
        c
    } else {
        let init = spec_drop_cur_dirs(c.drop_last(), keep_lead);
        if c.last() == seq!['.'] && !(keep_lead && c.len() == 1) {
            init
        } else {
            init.push(c.last())
        }
    }
}

/// What identifies a path as `Path`'s equality sees it: whether it begins at
/// the root, and its components, where repeated and trailing separators and
/// `.` components (except a leading one) do not count. (Windows prefixes are
/// compared as ordinary text.)
pub open spec fn spec_path_key(p: PlatformView, path: Seq<char>) -> (bool, Seq<Seq<char>>) {
    let rooted = spec_has_root(p, path);
    (rooted, spec_drop_cur_dirs(spec_components(p, path), !rooted))
}

/// Whether two paths name the same place, component by component.
pub open spec fn spec_same_path(p: PlatformView, a: Seq<char>, b: Seq<char>) -> bool {
    spec_path_key(p, a) == spec_path_key(p, b)
}

fn path_key(path: &str, platform: &Platform) -> (r: (bool, Vec<Vec<char>>))
    ensures
        (r.0, vec_views(r.1@)) == spec_path_key(platform@, path@),
{
    let chars = to_chars(path);
    let windows = platform.is_windows();
    let rooted = chars.len() > 0 && (chars[0] == '/' || (windows && chars[0] == '\\'));
    let comps = components(&chars, platform);
    let ghost cv = vec_views(comps@);
    let mut out: Vec<Vec<char>> = Vec::new();
    let mut i: usize = 0;
    assert(cv.take(0) =~= Seq::<Seq<char>>::empty());
    assert(vec_views(out@) =~= Seq::<Seq<char>>::empty());
    while i < comps.len()
        invariant
            i <= comps.len(),
            cv == vec_views(comps@),
            vec_views(out@) == spec_drop_cur_dirs(cv.take(i as int), !rooted),
        decreases comps.len() - i,
    {
        proof {
            assert(cv.take(i + 1).drop_last() =~= cv.take(i as int));
            assert(cv.take(i + 1).last() == comps@[i as int]@);
        }
        let piece = &comps[i];
        let is_dot = piece.len() == 1 && piece[0] == '.';
        proof {
            if is_dot {
                assert(piece@ =~= seq!['.']);
            }
            if piece@ == seq!['.'] {
                assert(piece@[0] == '.');
            }
        }
        if !(is_dot && !(!rooted && i == 0)) {
            let ghost before = vec_views(out@);
            out.push(crate::text::copy_chars(piece));
            assert(vec_views(out@) =~= before.push(piece@));
        }
        i += 1;
    }
    assert(cv.take(comps.len() as int) =~= cv);
    (rooted, out)
}

fn pieces_eq(a: &Vec<Vec<char>>, b: &Vec<Vec<char>>) -> (r: bool)
    ensures
        r == (vec_views(a@) == vec_views(b@)),
{
    if a.len() != b.len() {
        assert(vec_views(a@).len() != vec_views(b@).len());
        return false;
    }
    let mut i: usize = 0;
    while i < a.len()
        invariant
            i <= a.len(),
            a.len() == b.len(),
            forall|j: int| 0 <= j < i ==> a@[j]@ == b@[j]@,
        decreases a.len() - i,
    {
        if !crate::text::chars_eq(&a[i], &b[i]) {
            assert(vec_views(a@)[i as int] != vec_views(b@)[i as int]);
            return false;
        }
        i += 1;
    }
    assert(vec_views(a@) =~= vec_views(b@));
    true
}

/// Whether two paths name the same place, component by component.
pub fn same_path(a: &str, b: &str, platform: &Platform) -> (r: bool)
    ensures
        r == spec_same_path(platform@, a@, b@),
{
    let ka = path_key(a, platform);
    let kb = path_key(b, platform);
    ka.0 == kb.0 && pieces_eq(&ka.1, &kb.1)
}

impl Platform {
    /// The platform for the operating system named `os`.
    pub fn for_os(os: &str) -> (r: Platform)
        ensures
            r@ == spec_platform(os@),
    {
        proof {
            reveal_strlit("windows");
            reveal_strlit("macos");
            reveal_strlit("linux");
        }
        let name = if str_eq(os, "windows") {
            "windows"
        } else if str_eq(os, "macos") {
            "macos"
        } else {
            "linux"
        };
        let is_windows = str_eq(name, "windows");
        let sep = if is_windows { ";" } else { ":" };
        Platform { name: owned(name), arch: owned("x86"), classpath_separator: owned(sep) }
    }

    pub fn name(&self) -> (r: &str)
        ensures
            r@ == self@.name,
    {
        self.name.as_str()
    }

    pub fn arch(&self) -> (r: &str)
        ensures
            r@ == self@.arch,
    {
        self.arch.as_str()
    }

    pub fn classpath_separator(&self) -> (r: &str)
        ensures
            r@ == self@.classpath_separator,
    {
        self.classpath_separator.as_str()
    }

    pub fn is_windows(&self) -> (r: bool)
        ensures
            r == (self@.name == "windows"@),
    {
        str_eq(self.name.as_str(), "windows")
    }

    /// The separator this platform puts between path components.
    pub fn path_separator(&self) -> (r: char)
        ensures
            r == spec_path_separator(self@),
    {
        if self.is_windows() { '\\' } else { '/' }
    }

    /// `base` joined with the relative component `comp`.
    pub fn join(&self, base: &str, comp: &str) -> (r: String)
        ensures
            r@ == spec_join_path(self@, base@, comp@),
    {
        let windows = self.is_windows();
        let b = to_chars(base);
        let c = to_chars(comp);
        let rooted = c.len() > 0 && (c[0] == '/' || (windows && c[0] == '\\'));
        let prefixed = windows && (has_drive(&c) || (c.len() >= 2 && (c[0] == '/' || c[0] == '\\')
            && (c[1] == '/' || c[1] == '\\')));
        if prefixed || (!windows && rooted) {
            return owned(comp);
        }
        if rooted {
            let mut v: Vec<char> = Vec::new();
            if has_drive(&b) {
                v.push(b[0]);
                v.push(b[1]);
                assert(v@ =~= b@.take(2));
            } else {
                assert(v@ =~= Seq::<char>::empty());
            }
            let mut r = from_chars(&v);
            push_str(&mut r, comp);
            return r;
        }
        let mut v = b;
        if !(v.len() == 0 || v[v.len() - 1] == '/' || (windows && v[v.len() - 1] == '\\') || (
        windows && v.len() == 2 && has_drive(&v))) {
            v.push(self.path_separator());
        }
        let mut r = from_chars(&v);
        push_str(&mut r, comp);
        r
    }
}

// ---------------------------------------------------------------------------
// Account identifiers
// ---------------------------------------------------------------------------

pub open spec fn spec_is_lower_hex(c: char) -> bool {
    ('0' <= c && c <= '9') || ('a' <= c && c <= 'f')
}

/// A random (version 4) UUID in its lower-case hyphenated form: 36
/// characters, hyphens at 8, 13, 18 and 23, lower-case hex digits elsewhere,
/// the version digit `4` at 14 and one of `8 9 a b` at 19.
pub open spec fn spec_is_hyphenated_v4(s: Seq<char>) -> bool {
    &&& s.len() == 36
    &&& forall|i: int|
        0 <= i < 36 ==> if i == 8 || i == 13 || i == 18 || i == 23 {
            s[i] == '-'
        } else {
            spec_is_lower_hex(#[trigger] s[i])
        }
    &&& s[14] == '4'
    &&& (s[19] == '8' || s[19] == '9' || s[19] == 'a' || s[19] == 'b')
}

/// A new random UUID, formatted (`uuid::Uuid::new_v4().to_string()`).
///
/// Its value is random; the contract states only its format, which the
/// `uuid` crate fixes: the version and variant bits of a v4 UUID, and the
/// lower-case hyphenated `Display` form.
#[verifier::external_body]
fn new_v4_hyphenated() -> (s: String)
    ensures
        spec_is_hyphenated_v4(s@),
{
    uuid::Uuid::new_v4().to_string()
}

/// `s` with every occurrence of `c` removed.
pub open spec fn spec_remove_char(s: Seq<char>, c: char) -> Seq<char>
    decreases s.len(),
{
    if s.len() == 0 {
        s
    } else if s.last() == c {
        spec_remove_char(s.drop_last(), c)
    } else {
        spec_remove_char(s.drop_last(), c).push(s.last())
    }
}

/// `s` with its hyphens removed (`s.replace('-', "")`).
pub fn strip_hyphens(s: &str) -> (r: String)
    ensures
        r@ == spec_remove_char(s@, '-'),
{
    let v = to_chars(s);
    let mut out: Vec<char> = Vec::new();
    let mut i: usize = 0;
    assert(v@.take(0) =~= Seq::<char>::empty());
    while i < v.len()
        invariant
            i <= v.len(),
            out@ == spec_remove_char(v@.take(i as int), '-'),
        decreases v.len() - i,
    {
        proof {
            assert(v@.take(i + 1).drop_last() =~= v@.take(i as int));
        }
        if v[i] != '-' {
            out.push(v[i]);
        }
        i += 1;
    }
    assert(v@.take(v.len() as int) =~= v@);
    from_chars(&out)
}

/// A new random identifier for an offline account: a v4 UUID without its
/// hyphens.
pub fn random_uuid() -> (r: String)
    ensures
        exists|raw: Seq<char>| spec_is_hyphenated_v4(raw) && r@ == spec_remove_char(raw, '-'),
{
    let raw = new_v4_hyphenated();
    strip_hyphens(raw.as_str())
}

/// How many of the hyphen positions of a hyphenated UUID lie before `k`.
spec fn hyphens_before(k: int) -> int {
    (if k > 8 { 1int } else { 0int }) + (if k > 13 { 1int } else { 0int }) + (if k > 18 {
        1int
    } else {
        0int
    }) + (if k > 23 { 1int } else { 0int })
}

proof fn lemma_stripped_prefix(raw: Seq<char>, k: int)
    requires
        spec_is_hyphenated_v4(raw),
        0 <= k <= 36,
    ensures
        spec_remove_char(raw.take(k), '-').len() == k - hyphens_before(k),
        forall|i: int|
            0 <= i < spec_remove_char(raw.take(k), '-').len() ==> spec_is_lower_hex(
                #[trigger] spec_remove_char(raw.take(k), '-')[i],
            ),
    decreases k,
{
    if k > 0 {
        lemma_stripped_prefix(raw, k - 1);
        assert(raw.take(k).drop_last() =~= raw.take(k - 1));
        assert(raw.take(k).last() == raw[k - 1]);
        let prev = spec_remove_char(raw.take(k - 1), '-');
        let cur = spec_remove_char(raw.take(k), '-');
        if k - 1 == 8 || k - 1 == 13 || k - 1 == 18 || k - 1 == 23 {
            assert(raw[k - 1] == '-');
            assert(cur == prev);
        } else {
            assert(spec_is_lower_hex(raw[k - 1]));
            assert(raw[k - 1] != '-');
            assert(cur == prev.push(raw[k - 1]));
            assert forall|i: int| 0 <= i < cur.len() implies spec_is_lower_hex(#[trigger] cur[i]) by {
                if i < prev.len() {
                    assert(cur[i] == prev[i]);
                }
            }
        }
    } else {
        assert(raw.take(0) =~= Seq::<char>::empty());
    }
}

/// An offline account's identifier is 32 lower-case hexadecimal digits: a
/// UUID without its four hyphens.
pub proof fn law_offline_identifier_shape(raw: Seq<char>)
    requires
        spec_is_hyphenated_v4(raw),
    ensures
        spec_remove_char(raw, '-').len() == 32,
        forall|i: int|
            0 <= i < 32 ==> spec_is_lower_hex(#[trigger] spec_remove_char(raw, '-')[i]),
{
    lemma_stripped_prefix(raw, 36);
    assert(raw.take(36) =~= raw);
}

} // verus!
