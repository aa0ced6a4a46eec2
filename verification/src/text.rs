//! Character-level text operations that the launcher's logic is built from:
//! substring replacement, splitting, joining, decimal formatting and parsing.
//! Every operation is stated over `Seq<char>`, the view of a `String`.
use vstd::prelude::*;
use vstd::string::StringExecFns;

verus! {

// ---------------------------------------------------------------------------
// Conversions between `String`/`str` and `Vec<char>`
// ---------------------------------------------------------------------------

/// The characters of `s`, in order.
pub fn to_chars(s: &str) -> (r: Vec<char>)
    ensures
        r@ == s@,
{
    let mut out: Vec<char> = Vec::new();
    for c in it: s.chars()
        invariant
            out@ == it.seq().take(it.index() as int),
            it.seq() == s@,
    {
        out.push(c);
    }
    out
}

/// Appends one character to a `String` (`String::push`).
#[verifier::external_body]
fn push_char(s: &mut String, c: char)
    ensures
        final(s)@ == old(s)@.push(c),
{
    s.push(c);
}

/// Appends a string slice to a `String`.
pub fn push_str(s: &mut String, t: &str)
    ensures
        final(s)@ == old(s)@ + t@,
{
    s.append(t);
}

/// The `String` made of the characters of `v`.
pub fn from_chars(v: &Vec<char>) -> (r: String)
    ensures
        r@ == v@,
{
    let mut out = String::new();
    let mut i: usize = 0;
    while i < v.len()
        invariant
            i <= v.len(),
            out@ == v@.take(i as int),
        decreases v.len() - i,
    {
        push_char(&mut out, v[i]);
        proof {
            assert(v@.take(i + 1) =~= v@.take(i as int).push(v@[i as int]));
        }
        i += 1;
    }
    proof {
        assert(v@.take(v.len() as int) =~= v@);
    }
    out
}

/// A copy of a character vector.
pub fn copy_chars(v: &Vec<char>) -> (r: Vec<char>)
    ensures
        r@ == v@,
{
    let mut out: Vec<char> = Vec::new();
    let mut i: usize = 0;
    while i < v.len()
        invariant
            i <= v.len(),
            out@ == v@.take(i as int),
        decreases v.len() - i,
    {
        out.push(v[i]);
        proof {
            assert(v@.take(i + 1) =~= v@.take(i as int).push(v@[i as int]));
        }
        i += 1;
    }
    assert(v@.take(v.len() as int) =~= v@);
    out
}

/// A fresh `String` holding the characters of `s`.
pub fn owned(s: &str) -> (r: String)
    ensures
        r@ == s@,
{
    let v = to_chars(s);
    from_chars(&v)
}

/// The concatenation of two string slices.
pub fn concat2(a: &str, b: &str) -> (r: String)
    ensures
        r@ == a@ + b@,
{
    let mut r = owned(a);
    push_str(&mut r, b);
    r
}

/// Whether two character sequences are equal.
pub fn chars_eq(a: &Vec<char>, b: &Vec<char>) -> (r: bool)
    ensures
        r == (a@ == b@),
{
    if a.len() != b.len() {
        return false;
    }
    let mut i: usize = 0;
    while i < a.len()
        invariant
            i <= a.len(),
            a.len() == b.len(),
            forall|j: int| 0 <= j < i ==> a@[j] == b@[j],
        decreases a.len() - i,
    {
        if a[i] != b[i] {
            return false;
        }
        i += 1;
    }
    proof {
        assert(a@ =~= b@);
    }
    true
}

/// Whether two string slices are equal.
pub fn str_eq(a: &str, b: &str) -> (r: bool)
    ensures
        r == (a@ == b@),
{
    let x = to_chars(a);
    let y = to_chars(b);
    chars_eq(&x, &y)
}

// ---------------------------------------------------------------------------
// Prefixes and suffixes
// ---------------------------------------------------------------------------

/// Whether `pat` occurs in `s` starting at position `i`.
pub open spec fn occurs_at(s: Seq<char>, i: int, pat: Seq<char>) -> bool {
    &&& 0 <= i
    &&& i + pat.len() <= s.len()
    &&& s.subrange(i, i + pat.len()) == pat
}

pub fn matches_at(s: &Vec<char>, i: usize, pat: &Vec<char>) -> (r: bool)
    ensures
        r == occurs_at(s@, i as int, pat@),
{
    if i > s.len() || pat.len() > s.len() - i {
        return false;
    }
    let mut j: usize = 0;
    while j < pat.len()
        invariant
            j <= pat.len(),
            i + pat.len() <= s.len(),
            forall|k: int| 0 <= k < j ==> s@[i + k] == pat@[k],
        decreases pat.len() - j,
    {
        if s[i + j] != pat[j] {
            assert(s@.subrange(i as int, i + pat.len())[j as int] != pat@[j as int]);
            return false;
        }
        j += 1;
    }
    assert(s@.subrange(i as int, i + pat.len()) =~= pat@);
    true
}

/// Whether `s` begins with `p`.
pub fn starts_with(s: &str, p: &str) -> (r: bool)
    ensures
        r == p@.is_prefix_of(s@),
{
    let sv = to_chars(s);
    let pv = to_chars(p);
    let r = matches_at(&sv, 0, &pv);
    proof {
        if r {
            assert(sv@.subrange(0, pv@.len() as int) =~= pv@);
        }
        if p@.is_prefix_of(s@) {
            assert(sv@.subrange(0, pv@.len() as int) =~= pv@);
        }
    }
    r
}

/// Whether the last character of `s` is `c`.
pub fn ends_with_char(s: &str, c: char) -> (r: bool)
    ensures
        r == (s@.len() > 0 && s@.last() == c),
{
    let sv = to_chars(s);
    sv.len() > 0 && sv[sv.len() - 1] == c
}

// ---------------------------------------------------------------------------
// Replacement (`str::replace`)
// ---------------------------------------------------------------------------

/// Every non-overlapping occurrence of `pat` in `s`, found from left to right,
/// replaced by `rep`. (An empty `pat` is never used by the launcher; for it the
/// function leaves `s` as it is.)
pub open spec fn spec_replace(s: Seq<char>, pat: Seq<char>, rep: Seq<char>) -> Seq<char>
    decreases s.len(),
{
    if s.len() == 0 || pat.len() == 0 {
        s
    } else if pat.is_prefix_of(s) {
        rep + spec_replace(s.skip(pat.len() as int), pat, rep)
    } else {
        seq![s[0]] + spec_replace(s.skip(1), pat, rep)
    }
}

proof fn lemma_prefix_of_skip(s: Seq<char>, i: int, pat: Seq<char>)
    requires
        0 <= i <= s.len(),
    ensures
        pat.is_prefix_of(s.skip(i)) == occurs_at(s, i, pat),
{
    if pat.is_prefix_of(s.skip(i)) {
        assert(s.subrange(i, i + pat.len()) =~= s.skip(i).subrange(0, pat.len() as int));
    }
    if occurs_at(s, i, pat) {
        assert(s.subrange(i, i + pat.len()) =~= s.skip(i).subrange(0, pat.len() as int));
    }
}

/// `s` with every occurrence of `pat` replaced by `rep`, as `str::replace`
/// does for a non-empty `pat`. An empty `pat` leaves `s` unchanged, where
/// `str::replace` would put `rep` between all characters.
pub fn replace_chars(s: &Vec<char>, pat: &Vec<char>, rep: &Vec<char>) -> (r: Vec<char>)
    ensures
        r@ == spec_replace(s@, pat@, rep@),
{
    if pat.len() == 0 {
        return copy_chars(s);
    }
    let mut out: Vec<char> = Vec::new();
    let mut i: usize = 0;
    proof {
        assert(s@.skip(0) =~= s@);
        assert(out@ + spec_replace(s@, pat@, rep@) =~= spec_replace(s@, pat@, rep@));
    }
    while i < s.len()
        invariant
            i <= s.len(),
            pat@.len() > 0,
            spec_replace(s@, pat@, rep@) == out@ + spec_replace(s@.skip(i as int), pat@, rep@),
        decreases s.len() - i,
    {
        let ghost rest = s@.skip(i as int);
        proof {
            lemma_prefix_of_skip(s@, i as int, pat@);
        }
        if matches_at(s, i, pat) {
            let mut k: usize = 0;
            let ghost before = out@;
            while k < rep.len()
                invariant
                    k <= rep.len(),
                    out@ == before + rep@.take(k as int),
                decreases rep.len() - k,
            {
                out.push(rep[k]);
                proof {
                    assert(rep@.take(k + 1) =~= rep@.take(k as int).push(rep@[k as int]));
                }
                k += 1;
            }
            proof {
                assert(rep@.take(rep.len() as int) =~= rep@);
                assert(rest.skip(pat@.len() as int) =~= s@.skip(i + pat.len()));
                assert(spec_replace(rest, pat@, rep@) == rep@ + spec_replace(
                    rest.skip(pat@.len() as int),
                    pat@,
                    rep@,
                ));
                assert(out@ + spec_replace(s@.skip(i + pat.len()), pat@, rep@) =~= before + (rep@
                    + spec_replace(s@.skip(i + pat.len()), pat@, rep@)));
            }
            i = i + pat.len();
        } else {
            out.push(s[i]);
            proof {
                assert(rest.skip(1) =~= s@.skip(i + 1));
                assert(rest[0] == s@[i as int]);
                assert(spec_replace(rest, pat@, rep@) == seq![s@[i as int]] + spec_replace(
                    rest.skip(1),
                    pat@,
                    rep@,
                ));
                assert(out@ + spec_replace(s@.skip(i + 1), pat@, rep@) =~= out@.drop_last() + (
                seq![s@[i as int]] + spec_replace(s@.skip(i + 1), pat@, rep@)));
            }
            i = i + 1;
        }
    }
    proof {
        assert(s@.skip(i as int).len() == 0);
        assert(out@ + s@.skip(i as int) =~= out@);
    }
    out
}

/// If `pat` occurs nowhere in `s`, replacing it leaves `s` unchanged.
pub proof fn lemma_replace_absent(s: Seq<char>, pat: Seq<char>, rep: Seq<char>)
    requires
        forall|i: int| 0 <= i <= s.len() ==> !occurs_at(s, i, pat),
    ensures
        spec_replace(s, pat, rep) == s,
    decreases s.len(),
{
    if s.len() == 0 || pat.len() == 0 {
    } else {
        lemma_prefix_of_skip(s, 0, pat);
        assert(s.skip(0) =~= s);
        assert forall|i: int| 0 <= i <= s.skip(1).len() implies !occurs_at(s.skip(1), i, pat) by {
            if occurs_at(s.skip(1), i, pat) {
                assert(s.subrange(i + 1, i + 1 + pat.len()) =~= s.skip(1).subrange(i, i + pat.len()));
                assert(occurs_at(s, i + 1, pat));
            }
        }
        lemma_replace_absent(s.skip(1), pat, rep);
        assert(seq![s[0]] + s.skip(1) =~= s);
    }
}


// ---------------------------------------------------------------------------
// Splitting (`str::split` with a character, `str::split_whitespace`)
// ---------------------------------------------------------------------------

/// The pieces of `s` between occurrences of `sep`, as `str::split(sep)` yields
/// them: reading `s` from the left, each `sep` closes the current piece and
/// opens an empty one, and every other character extends the current piece.
pub open spec fn spec_split(s: Seq<char>, sep: char) -> Seq<Seq<char>>
    decreases s.len(),
{
    if s.len() == 0 {
        seq![Seq::<char>::empty()]
    } else {
        let init = spec_split(s.drop_last(), sep);
        if s.last() == sep {
            init.push(Seq::<char>::empty())
        } else {
            init.update(init.len() - 1, init.last().push(s.last()))
        }
    }
}

pub proof fn lemma_split_nonempty(s: Seq<char>, sep: char)
    ensures
        spec_split(s, sep).len() >= 1,
    decreases s.len(),
{
    if s.len() > 0 {
        lemma_split_nonempty(s.drop_last(), sep);
    }
}

/// The character sequences held by a sequence of character vectors.
pub open spec fn vec_views(v: Seq<Vec<char>>) -> Seq<Seq<char>> {
    v.map_values(|x: Vec<char>| x@)
}

/// The pieces of `s` separated by `sep`.
pub fn split_chars(s: &Vec<char>, sep: char) -> (r: Vec<Vec<char>>)
    ensures
        vec_views(r@) == spec_split(s@, sep),
{
    let mut parts: Vec<Vec<char>> = Vec::new();
    let mut cur: Vec<char> = Vec::new();
    let mut i: usize = 0;
    proof {
        assert(s@.take(0) =~= Seq::<char>::empty());
        assert(vec_views(parts@).push(cur@) =~= seq![Seq::<char>::empty()]);
    }
    while i < s.len()
        invariant
            i <= s.len(),
            spec_split(s@.take(i as int), sep) == vec_views(parts@).push(cur@),
        decreases s.len() - i,
    {
        let c = s[i];
        let ghost prev = s@.take(i as int);
        proof {
            assert(s@.take(i + 1).drop_last() =~= prev);
            assert(s@.take(i + 1).last() == c);
        }
        if c == sep {
            let done = cur;
            parts.push(done);
            cur = Vec::new();
            proof {
                assert(vec_views(parts@).push(cur@) =~= spec_split(prev, sep).push(
                    Seq::<char>::empty(),
                ));
            }
        } else {
            cur.push(c);
            proof {
                assert(vec_views(parts@).push(cur@) =~= spec_split(prev, sep).update(
                    spec_split(prev, sep).len() - 1,
                    spec_split(prev, sep).last().push(c),
                ));
            }
        }
        i += 1;
    }
    proof {
        assert(s@.take(s.len() as int) =~= s@);
    }
    let ghost before = vec_views(parts@);
    parts.push(cur);
    proof {
        assert(vec_views(parts@) =~= before.push(cur@));
    }
    parts
}

/// The whitespace characters of Unicode (the `White_Space` property), which is
/// what `char::is_whitespace` tests.
pub open spec fn spec_is_whitespace(c: char) -> bool {
    ||| c == ' ' || c == '\t' || c == '\n' || c == '\x0B' || c == '\x0C' || c == '\r'
    ||| c == '\u{85}' || c == '\u{A0}' || c == '\u{1680}'
    ||| ('\u{2000}' <= c && c <= '\u{200A}')
    ||| c == '\u{2028}' || c == '\u{2029}' || c == '\u{202F}' || c == '\u{205F}'
    ||| c == '\u{3000}'
}

/// `char::is_whitespace`.
pub fn is_whitespace(c: char) -> (r: bool)
    ensures
        r == spec_is_whitespace(c),
{
    c == ' ' || c == '\t' || c == '\n' || c == '\x0B' || c == '\x0C' || c == '\r' || c
        == '\u{85}' || c == '\u{A0}' || c == '\u{1680}' || ('\u{2000}' <= c && c <= '\u{200A}')
        || c == '\u{2028}' || c == '\u{2029}' || c == '\u{202F}' || c == '\u{205F}' || c
        == '\u{3000}'
}

/// The words of `s`, as `str::split_whitespace` yields them: reading from the
/// left, whitespace is dropped, and every other character either extends the
/// word begun just before it or, after whitespace or at the start, begins a
/// new word.
pub open spec fn spec_words(s: Seq<char>) -> Seq<Seq<char>>
    decreases s.len(),
{
    if s.len() == 0 {
        Seq::empty()
    } else {
        let init = spec_words(s.drop_last());
        let c = s.last();
        if spec_is_whitespace(c) {
            init
        } else if s.len() >= 2 && !spec_is_whitespace(s[s.len() - 2]) {
            init.update(init.len() - 1, init.last().push(c))
        } else {
            init.push(seq![c])
        }
    }
}

/// The whitespace-separated words of `s`.
pub fn split_whitespace(s: &Vec<char>) -> (r: Vec<Vec<char>>)
    ensures
        vec_views(r@) == spec_words(s@),
{
    let mut words: Vec<Vec<char>> = Vec::new();
    let mut cur: Vec<char> = Vec::new();
    let mut in_word = false;
    let mut i: usize = 0;
    proof {
        assert(s@.take(0) =~= Seq::<char>::empty());
    }
    while i < s.len()
        invariant
            i <= s.len(),
            in_word == (i > 0 && !spec_is_whitespace(s@[i - 1])),
            in_word ==> spec_words(s@.take(i as int)) == vec_views(words@).push(cur@),
            !in_word ==> spec_words(s@.take(i as int)) == vec_views(words@),
        decreases s.len() - i,
    {
        let c = s[i];
        let ghost prev = s@.take(i as int);
        proof {
            assert(s@.take(i + 1).drop_last() =~= prev);
            assert(s@.take(i + 1).last() == c);
            if i > 0 {
                assert(s@.take(i + 1)[i - 1] == s@[i - 1]);
            }
        }
        if is_whitespace(c) {
            if in_word {
                let done = cur;
                words.push(done);
                cur = Vec::new();
                proof {
                    assert(vec_views(words@) =~= spec_words(prev));
                }
            }
            in_word = false;
        } else {
            if in_word {
                cur.push(c);
                proof {
                    let w = spec_words(prev);
                    assert(vec_views(words@).push(cur@) =~= w.update(w.len() - 1, w.last().push(c)));
                }
            } else {
                cur = Vec::new();
                cur.push(c);
                proof {
                    assert(cur@ =~= seq![c]);
                    assert(vec_views(words@).push(cur@) =~= spec_words(prev).push(seq![c]));
                }
            }
            in_word = true;
        }
        i += 1;
    }
    proof {
        assert(s@.take(s.len() as int) =~= s@);
    }
    if in_word {
        let ghost before = vec_views(words@);
        words.push(cur);
        proof {
            assert(vec_views(words@) =~= before.push(cur@));
        }
    }
    words
}

// ---------------------------------------------------------------------------
// Joining (`[String]::join`)
// ---------------------------------------------------------------------------

/// The pieces of `parts`, with `sep` between each two neighbours.
pub open spec fn spec_join(parts: Seq<Seq<char>>, sep: Seq<char>) -> Seq<char>
    decreases parts.len(),
{
    if parts.len() == 0 {
        Seq::empty()
    } else if parts.len() == 1 {
        parts[0]
    } else {
        spec_join(parts.drop_last(), sep) + sep + parts.last()
    }
}

/// The text of an optional string.
pub open spec fn opt_view(o: Option<String>) -> Option<Seq<char>> {
    match o {
        Some(s) => Some(s@),
        None => None,
    }
}

/// The views of a sequence of strings.
pub open spec fn views(v: Seq<String>) -> Seq<Seq<char>> {
    v.map_values(|s: String| s@)
}

/// The strings of `parts` joined with `sep`.
pub fn join(parts: &Vec<String>, sep: &str) -> (r: String)
    ensures
        r@ == spec_join(views(parts@), sep@),
{
    let mut r = String::new();
    let mut i: usize = 0;
    while i < parts.len()
        invariant
            i <= parts.len(),
            r@ == spec_join(views(parts@).take(i as int), sep@),
        decreases parts.len() - i,
    {
        proof {
            assert(views(parts@).take(i + 1).drop_last() =~= views(parts@).take(i as int));
            assert(views(parts@).take(i + 1).last() == parts@[i as int]@);
        }
        if i > 0 {
            push_str(&mut r, sep);
        } else {
            assert(views(parts@).take(i + 1) =~= seq![parts@[i as int]@]);
            assert(r@ + parts@[i as int]@ =~= parts@[i as int]@);
        }
        push_str(&mut r, parts[i].as_str());
        i += 1;
    }
    proof {
        assert(views(parts@).take(parts.len() as int) =~= views(parts@));
    }
    r
}

// ---------------------------------------------------------------------------
// Decimal numerals (`to_string` of integers, `str::parse::<i32>`)
// ---------------------------------------------------------------------------

/// The decimal digit character for `d < 10`.
pub open spec fn spec_digit(d: nat) -> char {
    if d == 0 { '0' }
    else if d == 1 { '1' }
    else if d == 2 { '2' }
    else if d == 3 { '3' }
    else if d == 4 { '4' }
    else if d == 5 { '5' }
    else if d == 6 { '6' }
    else if d == 7 { '7' }
    else if d == 8 { '8' }
    else { '9' }
}

/// The decimal numeral of `n`, without leading zeros.
pub open spec fn spec_decimal(n: nat) -> Seq<char>
    decreases n,
{
    if n < 10 {
        seq![spec_digit(n)]
    } else {
        spec_decimal(n / 10).push(spec_digit(n % 10))
    }
}

/// The decimal numeral of `i`, with a leading `-` when it is negative.
pub open spec fn spec_int_decimal(i: int) -> Seq<char> {
    if i < 0 {
        seq!['-'] + spec_decimal((-i) as nat)
    } else {
        spec_decimal(i as nat)
    }
}

fn digit_char(d: u64) -> (c: char)
    requires
        d < 10,
    ensures
        c == spec_digit(d as nat),
{
    if d == 0 { '0' }
    else if d == 1 { '1' }
    else if d == 2 { '2' }
    else if d == 3 { '3' }
    else if d == 4 { '4' }
    else if d == 5 { '5' }
    else if d == 6 { '6' }
    else if d == 7 { '7' }
    else if d == 8 { '8' }
    else { '9' }
}

fn decimal_chars(n: u64) -> (r: Vec<char>)
    ensures
        r@ == spec_decimal(n as nat),
    decreases n,
{
    if n < 10 {
        let mut v = Vec::new();
        v.push(digit_char(n));
        assert(v@ =~= seq![spec_digit(n as nat)]);
        v
    } else {
        let mut v = decimal_chars(n / 10);
        v.push(digit_char(n % 10));
        v
    }
}

/// The decimal numeral of `n` (`n.to_string()`).
pub fn u64_to_string(n: u64) -> (r: String)
    ensures
        r@ == spec_decimal(n as nat),
{
    let v = decimal_chars(n);
    from_chars(&v)
}

/// The decimal numeral of `i` (`i.to_string()`).
pub fn i64_to_string(i: i64) -> (r: String)
    ensures
        r@ == spec_int_decimal(i as int),
{
    if i < 0 {
        let mag: u64 = if i == i64::MIN { 9223372036854775808u64 } else { (-i) as u64 };
        let mut v: Vec<char> = Vec::new();
        v.push('-');
        let mut d = decimal_chars(mag);
        v.append(&mut d);
        assert(v@ =~= seq!['-'] + spec_decimal((-i) as nat));
        from_chars(&v)
    } else {
        u64_to_string(i as u64)
    }
}

/// The value of an ASCII digit character.
pub open spec fn spec_digit_value(c: char) -> nat {
    (c as int - '0' as int) as nat
}

pub open spec fn spec_is_digit(c: char) -> bool {
    '0' <= c && c <= '9'
}

pub open spec fn spec_all_digits(s: Seq<char>) -> bool {
    forall|i: int| 0 <= i < s.len() ==> spec_is_digit(#[trigger] s[i])
}

/// The value of a numeral made of decimal digits.
pub open spec fn spec_digits_value(s: Seq<char>) -> nat
    decreases s.len(),
{
    if s.len() == 0 {
        0
    } else {
        spec_digits_value(s.drop_last()) * 10 + spec_digit_value(s.last())
    }
}

/// What `str::parse::<i32>` gives: an optional sign (`+` or `-`), then one or
/// more decimal digits and nothing else, whose value lies in `i32`'s range.
pub open spec fn spec_parse_i32(s: Seq<char>) -> Option<i32> {
    let neg = s.len() > 0 && s[0] == '-';
    let signed = s.len() > 0 && (s[0] == '-' || s[0] == '+');
    let body = if signed { s.skip(1) } else { s };
    if body.len() == 0 || !spec_all_digits(body) {
        None
    } else {
        let v: int = if neg { -spec_digits_value(body) } else { spec_digits_value(body) as int };
        if i32::MIN <= v && v <= i32::MAX { Some(v as i32) } else { None }
    }
}

proof fn lemma_digits_value_prefix(s: Seq<char>, k: int)
    requires
        0 <= k <= s.len(),
    ensures
        spec_digits_value(s.take(k)) <= spec_digits_value(s),
    decreases s.len(),
{
    if k < s.len() {
        lemma_digits_value_prefix(s.drop_last(), k);
        assert(s.drop_last().take(k) =~= s.take(k));
    } else {
        assert(s.take(k) =~= s);
    }
}

/// `s.parse::<i32>().ok()`.
pub fn parse_i32(s: &Vec<char>) -> (r: Option<i32>)
    ensures
        r == spec_parse_i32(s@),
{
    let n = s.len();
    let neg = n > 0 && s[0] == '-';
    let signed = n > 0 && (s[0] == '-' || s[0] == '+');
    let start: usize = if signed { 1 } else { 0 };
    let ghost body = if signed { s@.skip(1) } else { s@ };
    proof {
        assert(body =~= s@.skip(start as int));
    }
    if start >= n {
        assert(body.len() == 0);
        return None;
    }
    let mut i: usize = start;
    while i < n
        invariant
            start <= i <= n,
            n == s.len(),
            body =~= s@.skip(start as int),
            signed == (s@.len() > 0 && (s@[0] == '-' || s@[0] == '+')),
            neg == (s@.len() > 0 && s@[0] == '-'),
            body == (if signed { s@.skip(1) } else { s@ }),
            start == (if signed { 1usize } else { 0usize }),
            forall|j: int| start <= j < i ==> spec_is_digit(#[trigger] s@[j]),
        decreases n - i,
    {
        if !('0' <= s[i] && s[i] <= '9') {
            proof {
                assert(body[i - start] == s@[i as int]);
                assert(!spec_is_digit(body[i - start]));
            }
            return None;
        }
        i += 1;
    }
    assert(spec_all_digits(body)) by {
        assert forall|j: int| 0 <= j < body.len() implies spec_is_digit(#[trigger] body[j]) by {
            assert(body[j] == s@[j + start]);
        }
    }
    let bound: u64 = 2147483648;
    let mut acc: u64 = 0;
    let mut i: usize = start;
    proof {
        assert(body.take(0) =~= Seq::<char>::empty());
    }
    while i < n
        invariant
            start <= i <= n,
            n == s.len(),
            body =~= s@.skip(start as int),
            signed == (s@.len() > 0 && (s@[0] == '-' || s@[0] == '+')),
            neg == (s@.len() > 0 && s@[0] == '-'),
            body == (if signed { s@.skip(1) } else { s@ }),
            start == (if signed { 1usize } else { 0usize }),
            spec_all_digits(body),
            acc == spec_digits_value(body.take(i - start)),
            bound == 2147483648,
            acc <= bound,
        decreases n - i,
    {
        let ghost k = i - start;
        proof {
            assert(body.take(k + 1).drop_last() =~= body.take(k));
            assert(body.take(k + 1).last() == s@[i as int]);
            assert(spec_is_digit(body[k]));
        }
        let d: u64 = (s[i] as u32 - '0' as u32) as u64;
        assert(d == spec_digit_value(body.take(k + 1).last()));
        if acc > 214748364 || acc * 10 + d > bound {
            proof {
                lemma_digits_value_prefix(body, k + 1);
                assert(spec_digits_value(body.take(k + 1)) == acc * 10 + d);
            }
            return None;
        }
        acc = acc * 10 + d;
        i += 1;
    }
    proof {
        assert(body.take(n - start) =~= body);
    }
    if neg {
        let v: i64 = -(acc as i64);
        Some(v as i32)
    } else if acc > 2147483647 {
        None
    } else {
        Some(acc as i32)
    }
}

} // verus!
