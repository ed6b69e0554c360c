//! Inspection helpers around installed versions, mods and resource packs:
//! loader detection, version-number parsing and comparison, and the small
//! text scrapers used when reading mod metadata.
use vstd::prelude::*;
use crate::text::{
    all_digits, chars_to_string, contains_chars, contains_seq, dec_rep, dec_value, is_digit,
    lower_seq, parse_u32_chars, split_chars, split_spec, starts_with_chars, starts_with_seq,
    str_chars, str_eq, string_views, strip_prefix_repeated, strip_repeated, subrange_chars,
    to_ascii_lower, trim_chars, trim_spec, u64_to_string, views_of, SepClass,
};
use core::cmp::Ordering;

verus! {

/// One installed version as the version list shows it.
#[derive(Debug)]
pub struct VersionInfo {
    pub id: String,
    pub version_type: String,
    pub release_time: Option<String>,
    pub has_jar: bool,
    pub inherits_from: Option<String>,
    pub main_class: Option<String>,
    pub loader: String,
}

/// One installed mod as the mod list shows it.
#[derive(Debug)]
pub struct ModInfo {
    pub name: String,
    pub id: Option<String>,
    pub version: Option<String>,
    pub description: Option<String>,
    pub authors: Option<String>,
    pub loader: Option<String>,
    pub mc_version: Option<String>,
    pub file: String,
    pub size: u64,
    pub enabled: bool,
}

/// One OptiFine build offered for download.
#[derive(Debug)]
pub struct OptiFineVersion {
    pub game_version: String,
    pub version: String,
    pub kind: String,
    pub patch: String,
    pub date: String,
    pub download_url: String,
    pub is_preview: bool,
}

/// One saved world as the world list shows it.
#[derive(Debug)]
pub struct WorldInfo {
    pub name: String,
    pub folder: String,
    pub size: u64,
    pub last_played: Option<i64>,
    pub icon: Option<String>,
}

/// One resource pack as the pack list shows it.
#[derive(Debug)]
pub struct ResourcepackInfo {
    pub name: String,
    pub file: String,
    pub size: u64,
    pub description: Option<String>,
    pub icon: Option<String>,
}

/// One requested mod download.
#[derive(Debug)]
pub struct ModDownloadRequest {
    pub url: String,
    pub filename: String,
    pub target_version: String,
    pub hash: Option<String>,
}

/// The loader a version belongs to, judged from its lower-cased id and
/// its main class, in fixed priority order.
pub open spec fn loader_of(idl: Seq<char>, mc: Seq<char>) -> Seq<char> {
    if contains_seq(idl, "forge"@) || contains_seq(mc, "forge"@) || contains_seq(mc, "fml"@) {
        "forge"@
    } else if contains_seq(idl, "fabric"@) || contains_seq(mc, "fabric"@) {
        "fabric"@
    } else if contains_seq(idl, "quilt"@) || contains_seq(mc, "quilt"@) {
        "quilt"@
    } else if contains_seq(idl, "optifine"@) {
        "optifine"@
    } else if contains_seq(idl, "neoforge"@) || contains_seq(mc, "neoforge"@) {
        "neoforge"@
    } else {
        "vanilla"@
    }
}

/// Judges the loader of a version from its id and main class.
pub fn detect_loader(version_id: &String, main_class: &String) -> (r: String)
    ensures
        r@ == loader_of(lower_seq(version_id@), main_class@),
{
    let idl = to_ascii_lower(&str_chars(version_id.as_str()));
    let mc = str_chars(main_class.as_str());
    let forge = str_chars("forge");
    let fml = str_chars("fml");
    let fabric = str_chars("fabric");
    let quilt = str_chars("quilt");
    let optifine = str_chars("optifine");
    let neoforge = str_chars("neoforge");
    if contains_chars(&idl, &forge) || contains_chars(&mc, &forge) || contains_chars(&mc, &fml) {
        "forge".to_owned()
    } else if contains_chars(&idl, &fabric) || contains_chars(&mc, &fabric) {
        "fabric".to_owned()
    } else if contains_chars(&idl, &quilt) || contains_chars(&mc, &quilt) {
        "quilt".to_owned()
    } else if contains_chars(&idl, &optifine) {
        "optifine".to_owned()
    } else if contains_chars(&idl, &neoforge) || contains_chars(&mc, &neoforge) {
        "neoforge".to_owned()
    } else {
        "vanilla".to_owned()
    }
}

/// Rewrites the two version ids whose upstream spelling drops the last
/// zero; every other id is returned unchanged.
pub fn normalize_version(version: &str) -> (r: String)
    ensures
        r@ == if version@ == "1.8.0"@ {
            "1.8"@
        } else if version@ == "1.9.0"@ {
            "1.9"@
        } else {
            version@
        },
{
    if str_eq(version, "1.8.0") {
        "1.8".to_owned()
    } else if str_eq(version, "1.9.0") {
        "1.9".to_owned()
    } else {
        version.to_owned()
    }
}

/// The inverse of `normalize_version`: restores the dropped zero.
pub fn lookup_version(version: &str) -> (r: String)
    ensures
        r@ == if version@ == "1.8"@ {
            "1.8.0"@
        } else if version@ == "1.9"@ {
            "1.9.0"@
        } else {
            version@
        },
{
    if str_eq(version, "1.8") {
        "1.8.0".to_owned()
    } else if str_eq(version, "1.9") {
        "1.9.0".to_owned()
    } else {
        version.to_owned()
    }
}

/// The index right after the run of digits that starts at `i`.
pub open spec fn digit_run_end(t: Seq<char>, i: int) -> int
    decreases t.len() - i,
{
    if 0 <= i < t.len() && is_digit(t[i]) {
        digit_run_end(t, i + 1)
    } else {
        i
    }
}

/// Where the digit run starting at `i` ends: at the first non-digit, or
/// at the end of the text.
pub proof fn lemma_digit_run_end(t: Seq<char>, i: int)
    requires
        0 <= i <= t.len(),
    ensures
        i <= digit_run_end(t, i) <= t.len(),
        forall|j: int| i <= j < digit_run_end(t, i) ==> is_digit(t[j]),
        digit_run_end(t, i) < t.len() ==> !is_digit(t[digit_run_end(t, i)]),
    decreases t.len() - i,
{
    if i < t.len() && is_digit(t[i]) {
        lemma_digit_run_end(t, i + 1);
    }
}

/// Whether `c` is a decimal digit.
pub fn is_digit_char(c: char) -> (r: bool)
    ensures
        r == is_digit(c),
{
    let u = c as u32;
    48 <= u && u <= 57
}

/// Exec scan to the end of the digit run that starts at `i`.
pub fn digit_run_end_exec(t: &Vec<char>, i: usize) -> (r: usize)
    requires
        i <= t@.len(),
    ensures
        r == digit_run_end(t@, i as int),
{
    let mut j = i;
    while j < t.len() && is_digit_char(t[j])
        invariant
            i <= j <= t@.len(),
            digit_run_end(t@, i as int) == digit_run_end(t@, j as int),
        decreases t@.len() - j,
    {
        j = j + 1;
    }
    j
}

/// The number a Java version string denotes: any repeated `1.` prefix is
/// dropped, the leading digit run of what remains is read as a decimal
/// number, and anything unreadable counts as zero.
pub open spec fn java_major_of(s: Seq<char>) -> u32 {
    let t = strip_repeated(s, "1."@);
    let d = t.take(digit_run_end(t, 0));
    if d.len() > 0 && dec_value(d) <= u32::MAX {
        dec_value(d) as u32
    } else {
        0
    }
}

/// Reads the major Java version out of a version string such as
/// `1.8.0_301`, `17.0.1` or `21`.
pub fn parse_java_version(version: &str) -> (r: u32)
    ensures
        r == java_major_of(version@),
{
    let chars = str_chars(version);
    let prefix = str_chars("1.");
    let t = strip_prefix_repeated(&chars, &prefix);
    proof {
        reveal_strlit("1.");
        assert(prefix@ =~= "1."@);
    }
    let e = digit_run_end_exec(&t, 0);
    proof {
        lemma_digit_run_end(t@, 0);
    }
    let d = subrange_chars(&t, 0, e);
    proof {
        assert(d@ =~= t@.take(digit_run_end(t@, 0)));
    }
    match parse_u32_chars(&d) {
        Option::Some(v) => v,
        Option::None => 0,
    }
}

/// The value a version field denotes: its decimal value when it is all
/// digits and fits, else zero.
pub open spec fn field_val(p: Seq<char>) -> nat {
    if p.len() > 0 && all_digits(p) && dec_value(p) <= u32::MAX {
        dec_value(p)
    } else {
        0
    }
}

/// The field values of a dotted version string.
pub open spec fn version_fields(s: Seq<char>) -> Seq<nat> {
    split_spec(s, SepClass::Exact('.')).map_values(|p: Seq<char>| field_val(p))
}

/// Componentwise comparison from index `i` on, missing fields counting
/// as zero.
pub open spec fn fields_cmp_from(xs: Seq<nat>, ys: Seq<nat>, i: int) -> Ordering
    decreases (if xs.len() > ys.len() {
        xs.len()
    } else {
        ys.len()
    }) - i,
{
    if i < 0 || (i >= xs.len() && i >= ys.len()) {
        Ordering::Equal
    } else {
        let a: nat = if i < xs.len() {
            xs[i]
        } else {
            0
        };
        let b: nat = if i < ys.len() {
            ys[i]
        } else {
            0
        };
        if a < b {
            Ordering::Less
        } else if a > b {
            Ordering::Greater
        } else {
            fields_cmp_from(xs, ys, i + 1)
        }
    }
}

/// The order of two dotted version strings, componentwise by numeric
/// field, missing fields counting as zero.
pub open spec fn version_order(a: Seq<char>, b: Seq<char>) -> Ordering {
    fields_cmp_from(version_fields(a), version_fields(b), 0)
}

/// Compares two dotted version strings numerically.
pub fn version_compare(a: &str, b: &str) -> (r: Ordering)
    ensures
        r == version_order(a@, b@),
{
    let av = split_chars(&str_chars(a), SepClass::Exact('.'));
    let bv = split_chars(&str_chars(b), SepClass::Exact('.'));
    let ghost xs = version_fields(a@);
    let ghost ys = version_fields(b@);
    proof {
        assert(xs.len() == views_of(av@).len());
        assert(ys.len() == views_of(bv@).len());
    }
    let n = if av.len() > bv.len() {
        av.len()
    } else {
        bv.len()
    };
    let mut i: usize = 0;
    while i < n
        invariant
            i <= n,
            n == (if av@.len() > bv@.len() {
                av@.len()
            } else {
                bv@.len()
            }),
            xs == version_fields(a@),
            ys == version_fields(b@),
            views_of(av@) == split_spec(a@, SepClass::Exact('.')),
            views_of(bv@) == split_spec(b@, SepClass::Exact('.')),
            xs.len() == av@.len(),
            ys.len() == bv@.len(),
            fields_cmp_from(xs, ys, 0) == fields_cmp_from(xs, ys, i as int),
        decreases n - i,
    {
        let x: u32 = if i < av.len() {
            match parse_u32_chars(&av[i]) {
                Option::Some(v) => v,
                Option::None => 0,
            }
        } else {
            0
        };
        let y: u32 = if i < bv.len() {
            match parse_u32_chars(&bv[i]) {
                Option::Some(v) => v,
                Option::None => 0,
            }
        } else {
            0
        };
        proof {
            if i < av@.len() {
                assert(xs[i as int] == field_val(views_of(av@)[i as int]));
            }
            if i < bv@.len() {
                assert(ys[i as int] == field_val(views_of(bv@)[i as int]));
            }
        }
        if x < y {
            return Ordering::Less;
        }
        if x > y {
            return Ordering::Greater;
        }
        i = i + 1;
    }
    Ordering::Equal
}

/// The value recorded for `key` on the first line that yields one: the
/// line is whitespace-trimmed, must start with the key, and the text
/// after the first `=` is stripped of whitespace and quotes; an empty
/// value or the unexpanded jar-version placeholder does not count.
pub open spec fn toml_value_of(line: Seq<char>, key: Seq<char>) -> Option<Seq<char>> {
    let t = trim_spec(line, SepClass::Whitespace);
    if starts_with_seq(t, key) {
        match crate::text::first_index(t, '=') {
            Option::Some(p) => {
                let raw = t.skip(p + 1);
                let v = trim_spec(
                    trim_spec(
                        trim_spec(raw, SepClass::Whitespace),
                        SepClass::Exact('"'),
                    ),
                    SepClass::Exact('\''),
                );
                if v.len() > 0 && v != "${file.jarVersion}"@ {
                    Option::Some(v)
                } else {
                    Option::None
                }
            },
            Option::None => Option::None,
        }
    } else {
        Option::None
    }
}

/// The first line of `lines` that yields a value for `key`.
pub open spec fn toml_lookup(lines: Seq<Seq<char>>, key: Seq<char>) -> Option<Seq<char>>
    decreases lines.len(),
{
    if lines.len() == 0 {
        Option::None
    } else {
        match toml_value_of(lines[0], key) {
            Option::Some(v) => Option::Some(v),
            Option::None => toml_lookup(lines.drop_first(), key),
        }
    }
}

/// Reads the value of `key` out of TOML-like mod metadata, line by line.
pub fn extract_toml_value(content: &str, key: &str) -> (r: Option<String>)
    ensures
        crate::model::opt_str_view(r) == toml_lookup(
            split_spec(content@, SepClass::Exact('\n')),
            key@,
        ),
{
    let chars = str_chars(content);
    let lines = split_chars(&chars, SepClass::Exact('\n'));
    let ghost lv = views_of(lines@);
    proof {
        assert(lv == split_spec(content@, SepClass::Exact('\n')));
        assert(lv.subrange(0, lv.len() as int) =~= lv);
    }
    let kv = str_chars(key);
    let placeholder = str_chars("${file.jarVersion}");
    let mut i: usize = 0;
    while i < lines.len()
        invariant
            i <= lv.len(),
            lv == views_of(lines@),
            lv == split_spec(content@, SepClass::Exact('\n')),
            lv.len() == lines@.len(),
            kv@ == key@,
            placeholder@ == "${file.jarVersion}"@,
            toml_lookup(lv, key@) == toml_lookup(lv.subrange(i as int, lv.len() as int), key@),
        decreases lv.len() - i,
    {
        let ghost pre = lv.subrange(i as int, lv.len() as int);
        proof {
            assert(pre[0] == lv[i as int]);
        }
        let t = trim_chars(&lines[i], SepClass::Whitespace);
        if starts_with_chars(&t, &kv) {
            match crate::text::find_char_from(&t, '=', 0) {
                Option::Some(p) => {
                    proof {
                        crate::text::lemma_first_index_is(t@, '=', p as int);
                    }
                    let tn = t.len();
                    let raw = subrange_chars(&t, p + 1, tn);
                    proof {
                        assert(raw@ =~= t@.skip(p + 1));
                    }
                    let v = trim_chars(
                        &trim_chars(
                            &trim_chars(&raw, SepClass::Whitespace),
                            SepClass::Exact('"'),
                        ),
                        SepClass::Exact('\''),
                    );
                    if v.len() > 0 && !crate::text::chars_eq(&v, &placeholder) {
                        proof {
                            assert(toml_value_of(lv[i as int], key@) == Option::Some(v@));
                            assert(toml_lookup(pre, key@) == Option::Some(v@));
                        }
                        return Option::Some(chars_to_string(&v));
                    }
                },
                Option::None => {
                    proof {
                        crate::text::lemma_first_index_props(t@, '=');
                        if crate::text::first_index(t@, '=') is Some {
                            let q = crate::text::first_index(t@, '=').unwrap();
                            assert(t@[q] == '=');
                        }
                    }
                },
            }
        }
        i = i + 1;
        proof {
            assert(pre.drop_first() =~= lv.subrange(i as int, lv.len() as int));
        }
    }
    proof {
        assert(lv.subrange(lv.len() as int, lv.len() as int) =~= Seq::<Seq<char>>::empty());
    }
    Option::None
}

/// An ASCII capital letter.
pub open spec fn is_upper(c: char) -> bool {
    65 <= c as u32 <= 90
}

/// The version-number shapes recognized in mod metadata, in priority
/// order: `1.20.1`, `1.20`, `HD_U_I5`, `pre1`, `alpha1`.
#[derive(Clone, Copy, Debug, PartialEq, Eq, Structural)]
pub enum PatternKind {
    /// Three dot-separated digit runs.
    Triple,
    /// Two dot-separated digit runs.
    Double,
    /// An OptiFine build tag: `HD_U_`, a capital letter, digits.
    HdU,
    /// A pre-release tag: `pre`, digits.
    Pre,
    /// An alpha tag: `alpha`, digits.
    Alpha,
}

/// Whether a pattern of kind `k` matches at position `i`, with every
/// digit run taken maximally.
pub open spec fn pattern_at(t: Seq<char>, i: int, k: PatternKind) -> bool {
    match k {
        PatternKind::Triple => 0 <= i < t.len() && is_digit(t[i]) && {
            let e1 = digit_run_end(t, i);
            e1 < t.len() && t[e1] == '.' && e1 + 1 < t.len() && is_digit(t[e1 + 1]) && {
                let e2 = digit_run_end(t, e1 + 1);
                e2 < t.len() && t[e2] == '.' && e2 + 1 < t.len() && is_digit(t[e2 + 1])
            }
        },
        PatternKind::Double => 0 <= i < t.len() && is_digit(t[i]) && {
            let e1 = digit_run_end(t, i);
            e1 < t.len() && t[e1] == '.' && e1 + 1 < t.len() && is_digit(t[e1 + 1])
        },
        PatternKind::HdU => crate::text::matches_at(t, i, "HD_U_"@) && i + 5 < t.len() && is_upper(
            t[i + 5],
        ) && i + 6 < t.len() && is_digit(t[i + 6]),
        PatternKind::Pre => crate::text::matches_at(t, i, "pre"@) && i + 3 < t.len() && is_digit(
            t[i + 3],
        ),
        PatternKind::Alpha => crate::text::matches_at(t, i, "alpha"@) && i + 5 < t.len()
            && is_digit(t[i + 5]),
    }
}

/// Where the match of kind `k` that starts at `i` ends.
pub open spec fn pattern_end(t: Seq<char>, i: int, k: PatternKind) -> int {
    match k {
        PatternKind::Triple => digit_run_end(t, digit_run_end(t, digit_run_end(t, i) + 1) + 1),
        PatternKind::Double => digit_run_end(t, digit_run_end(t, i) + 1),
        PatternKind::HdU => digit_run_end(t, i + 6),
        PatternKind::Pre => digit_run_end(t, i + 3),
        PatternKind::Alpha => digit_run_end(t, i + 5),
    }
}

/// The first position at or after `i` where kind `k` matches.
pub open spec fn find_pattern(t: Seq<char>, i: int, k: PatternKind) -> Option<int>
    decreases t.len() - i,
{
    if i < 0 || i >= t.len() {
        Option::None
    } else if pattern_at(t, i, k) {
        Option::Some(i)
    } else {
        find_pattern(t, i + 1, k)
    }
}

/// The leftmost match of kind `k` in `t`, as text.
pub open spec fn pattern_match_spec(t: Seq<char>, k: PatternKind) -> Option<Seq<char>> {
    match find_pattern(t, 0, k) {
        Option::Some(i) => Option::Some(t.subrange(i, pattern_end(t, i, k))),
        Option::None => Option::None,
    }
}

/// The first version-shaped text found in `t`, kinds tried in priority
/// order and each kind matched leftmost.
pub open spec fn version_pattern_spec(t: Seq<char>) -> Option<Seq<char>> {
    if pattern_match_spec(t, PatternKind::Triple) is Some {
        pattern_match_spec(t, PatternKind::Triple)
    } else if pattern_match_spec(t, PatternKind::Double) is Some {
        pattern_match_spec(t, PatternKind::Double)
    } else if pattern_match_spec(t, PatternKind::HdU) is Some {
        pattern_match_spec(t, PatternKind::HdU)
    } else if pattern_match_spec(t, PatternKind::Pre) is Some {
        pattern_match_spec(t, PatternKind::Pre)
    } else if pattern_match_spec(t, PatternKind::Alpha) is Some {
        pattern_match_spec(t, PatternKind::Alpha)
    } else {
        Option::None
    }
}

/// Exec test of one pattern kind at one position.
fn pattern_at_exec(t: &Vec<char>, i: usize, k: PatternKind) -> (r: bool)
    requires
        i <= t@.len(),
    ensures
        r == pattern_at(t@, i as int, k),
{
    let n = t.len();
    match k {
        PatternKind::Triple => {
            if i >= n || !is_digit_char(t[i]) {
                return false;
            }
            let e1 = digit_run_end_exec(t, i);
            proof {
                lemma_digit_run_end(t@, i as int);
            }
            if e1 >= n || t[e1] != '.' || e1 + 1 >= n || !is_digit_char(t[e1 + 1]) {
                return false;
            }
            let e2 = digit_run_end_exec(t, e1 + 1);
            proof {
                lemma_digit_run_end(t@, e1 + 1);
            }
            e2 < n && t[e2] == '.' && e2 + 1 < n && is_digit_char(t[e2 + 1])
        },
        PatternKind::Double => {
            if i >= n || !is_digit_char(t[i]) {
                return false;
            }
            let e1 = digit_run_end_exec(t, i);
            proof {
                lemma_digit_run_end(t@, i as int);
            }
            e1 < n && t[e1] == '.' && e1 + 1 < n && is_digit_char(t[e1 + 1])
        },
        PatternKind::HdU => {
            let lit = str_chars("HD_U_");
            if !crate::text::matches_at_exec(t, i, &lit) {
                return false;
            }
            proof {
                reveal_strlit("HD_U_");
            }
            if i + 5 >= n {
                return false;
            }
            let u = t[i + 5] as u32;
            if !(65 <= u && u <= 90) {
                return false;
            }
            i + 6 < n && is_digit_char(t[i + 6])
        },
        PatternKind::Pre => {
            let lit = str_chars("pre");
            if !crate::text::matches_at_exec(t, i, &lit) {
                return false;
            }
            proof {
                reveal_strlit("pre");
            }
            i + 3 < n && is_digit_char(t[i + 3])
        },
        PatternKind::Alpha => {
            let lit = str_chars("alpha");
            if !crate::text::matches_at_exec(t, i, &lit) {
                return false;
            }
            proof {
                reveal_strlit("alpha");
            }
            i + 5 < n && is_digit_char(t[i + 5])
        },
    }
}

/// Exec end of a match of kind `k` that starts at `i`.
fn pattern_end_exec(t: &Vec<char>, i: usize, k: PatternKind) -> (r: usize)
    requires
        pattern_at(t@, i as int, k),
    ensures
        r == pattern_end(t@, i as int, k),
        i <= r <= t@.len(),
{
    proof {
        lemma_digit_run_end(t@, i as int);
    }
    let n = t.len();
    match k {
        PatternKind::Triple => {
            let e1 = digit_run_end_exec(t, i);
            proof {
                assert(pattern_at(t@, i as int, k));
                assert(e1 < n);
                lemma_digit_run_end(t@, e1 + 1);
            }
            let e2 = digit_run_end_exec(t, e1 + 1);
            proof {
                assert(e2 < n);
                lemma_digit_run_end(t@, e2 + 1);
            }
            digit_run_end_exec(t, e2 + 1)
        },
        PatternKind::Double => {
            let e1 = digit_run_end_exec(t, i);
            proof {
                assert(pattern_at(t@, i as int, k));
                assert(e1 < n);
                lemma_digit_run_end(t@, e1 + 1);
            }
            digit_run_end_exec(t, e1 + 1)
        },
        PatternKind::HdU => {
            proof {
                lemma_digit_run_end(t@, i + 6);
            }
            digit_run_end_exec(t, i + 6)
        },
        PatternKind::Pre => {
            proof {
                lemma_digit_run_end(t@, i + 3);
            }
            digit_run_end_exec(t, i + 3)
        },
        PatternKind::Alpha => {
            proof {
                lemma_digit_run_end(t@, i + 5);
            }
            digit_run_end_exec(t, i + 5)
        },
    }
}

/// The leftmost match of kind `k` in `t`, as a fresh vector.
fn pattern_match_exec(t: &Vec<char>, k: PatternKind) -> (r: Option<Vec<char>>)
    ensures
        match r {
            Option::Some(v) => pattern_match_spec(t@, k) == Option::Some(v@),
            Option::None => pattern_match_spec(t@, k) is None,
        },
{
    let mut i: usize = 0;
    while i < t.len()
        invariant
            i <= t@.len(),
            find_pattern(t@, 0, k) == find_pattern(t@, i as int, k),
        decreases t@.len() - i,
    {
        if pattern_at_exec(t, i, k) {
            let e = pattern_end_exec(t, i, k);
            let v = subrange_chars(t, i, e);
            return Option::Some(v);
        }
        i = i + 1;
    }
    Option::None
}

/// Finds the first version-shaped text in `text`: three or two
/// dot-separated digit runs, an OptiFine build tag, or a pre-release or
/// alpha tag, in that order of preference.
pub fn extract_version_pattern(text: &str) -> (r: Option<String>)
    ensures
        crate::model::opt_str_view(r) == version_pattern_spec(text@),
{
    let chars = str_chars(text);
    match pattern_match_exec(&chars, PatternKind::Triple) {
        Option::Some(v) => {
            return Option::Some(chars_to_string(&v));
        },
        Option::None => {},
    }
    match pattern_match_exec(&chars, PatternKind::Double) {
        Option::Some(v) => {
            return Option::Some(chars_to_string(&v));
        },
        Option::None => {},
    }
    match pattern_match_exec(&chars, PatternKind::HdU) {
        Option::Some(v) => {
            return Option::Some(chars_to_string(&v));
        },
        Option::None => {},
    }
    match pattern_match_exec(&chars, PatternKind::Pre) {
        Option::Some(v) => {
            return Option::Some(chars_to_string(&v));
        },
        Option::None => {},
    }
    match pattern_match_exec(&chars, PatternKind::Alpha) {
        Option::Some(v) => {
            return Option::Some(chars_to_string(&v));
        },
        Option::None => {},
    }
    Option::None
}

/// The first position at or after `i` where `p` occurs in `t`.
pub open spec fn find_sub(t: Seq<char>, p: Seq<char>, i: int) -> Option<int>
    decreases t.len() + 1 - i,
{
    if i < 0 || i + p.len() > t.len() {
        Option::None
    } else if crate::text::matches_at(t, i, p) {
        Option::Some(i)
    } else {
        find_sub(t, p, i + 1)
    }
}

/// Exec search for the first occurrence of `p` in `t`.
fn find_sub_exec(t: &Vec<char>, p: &Vec<char>) -> (r: Option<usize>)
    ensures
        match r {
            Option::Some(i) => find_sub(t@, p@, 0) == Option::Some(i as int) && i + p@.len()
                <= t@.len(),
            Option::None => find_sub(t@, p@, 0) is None,
        },
{
    if p.len() > t.len() {
        return Option::None;
    }
    let last = t.len() - p.len();
    let mut i: usize = 0;
    loop
        invariant
            i <= last,
            last == t@.len() - p@.len(),
            p@.len() <= t@.len(),
            find_sub(t@, p@, 0) == find_sub(t@, p@, i as int),
        decreases last - i,
    {
        if crate::text::matches_at_exec(t, i, p) {
            return Option::Some(i);
        }
        if i == last {
            proof {
                assert(find_sub(t@, p@, last + 1) is None);
            }
            return Option::None;
        }
        i = i + 1;
    }
}

/// The lines after the first occurrence of the constant's name, scanned
/// in order — at most `budget` of them — for a version-shaped text.
pub open spec fn scan_lines(lines: Seq<Seq<char>>, budget: nat) -> Option<Seq<char>>
    decreases lines.len(),
{
    if lines.len() == 0 || budget == 0 {
        Option::None
    } else {
        match version_pattern_spec(lines[0]) {
            Option::Some(v) => Option::Some(v),
            Option::None => scan_lines(lines.drop_first(), (budget - 1) as nat),
        }
    }
}

/// The version-shaped text standing near the first occurrence of
/// `name` in `content`: the first ten following lines are scanned.
pub open spec fn string_constant_spec(content: Seq<char>, name: Seq<char>) -> Option<Seq<char>> {
    match find_sub(content, name, 0) {
        Option::Some(pos) => scan_lines(
            split_spec(content.skip(pos + name.len()), SepClass::Exact('\n')),
            10,
        ),
        Option::None => Option::None,
    }
}

/// Scans the text after the first occurrence of `constant_name` for a
/// version-shaped string, looking at the next ten lines.
pub fn extract_string_constant(content: &str, constant_name: &str) -> (r: Option<String>)
    ensures
        crate::model::opt_str_view(r) == string_constant_spec(content@, constant_name@),
{
    let chars = str_chars(content);
    let name = str_chars(constant_name);
    let pos = match find_sub_exec(&chars, &name) {
        Option::Some(p) => p,
        Option::None => {
            return Option::None;
        },
    };
    let n = chars.len();
    proof {
        assert(pos + name@.len() <= n);
    }
    let after = subrange_chars(&chars, pos + name.len(), n);
    proof {
        assert(after@ =~= content@.skip(pos + constant_name@.len()));
    }
    let lines = split_chars(&after, SepClass::Exact('\n'));
    let ghost lv = views_of(lines@);
    proof {
        assert(lv == split_spec(after@, SepClass::Exact('\n')));
        assert(lv.subrange(0, lv.len() as int) =~= lv);
    }
    let mut i: usize = 0;
    while i < lines.len() && i < 10
        invariant
            i <= lv.len(),
            i <= 10,
            lv == views_of(lines@),
            lv == split_spec(content@.skip(pos + constant_name@.len()), SepClass::Exact('\n')),
            lv.len() == lines@.len(),
            find_sub(content@, constant_name@, 0) == Option::Some(pos as int),
            scan_lines(lv, 10) == scan_lines(
                lv.subrange(i as int, lv.len() as int),
                (10 - i) as nat,
            ),
        decreases lv.len() - i,
    {
        let ghost pre = lv.subrange(i as int, lv.len() as int);
        proof {
            assert(pre[0] == lv[i as int]);
        }
        let line = chars_to_string(&lines[i]);
        match extract_version_pattern(line.as_str()) {
            Option::Some(v) => {
                return Option::Some(v);
            },
            Option::None => {},
        }
        i = i + 1;
        proof {
            assert(pre.drop_first() =~= lv.subrange(i as int, lv.len() as int));
        }
    }
    proof {
        if i < lv.len() {
            assert(scan_lines(lv.subrange(i as int, lv.len() as int), (10 - i) as nat) is None);
        } else {
            assert(lv.subrange(lv.len() as int, lv.len() as int) =~= Seq::<Seq<char>>::empty());
        }
    }
    Option::None
}

/// The first quoted version in Java's own `-version` output: the text
/// between the quotes of the first `version "..."` with at least one
/// character inside.
pub open spec fn jv_find(t: Seq<char>) -> Option<Seq<char>>
    decreases t.len(),
{
    if t.len() == 0 {
        Option::None
    } else if starts_with_seq(t, "version \""@) && jv_close(t) is Some {
        Option::Some(t.skip(9).take(jv_close(t).unwrap()))
    } else {
        jv_find(t.drop_first())
    }
}

/// The index, relative to the text after `version "`, of the closing
/// quote — provided at least one character stands before it.
pub open spec fn jv_close(t: Seq<char>) -> Option<int> {
    if t.len() >= 9 {
        match crate::text::first_index(t.skip(9), '"') {
            Option::Some(k) => if k > 0 {
                Option::Some(k)
            } else {
                Option::None
            },
            Option::None => Option::None,
        }
    } else {
        Option::None
    }
}

/// Reads the quoted Java version out of `java -version` output.
pub fn extract_java_version(output: &str) -> (r: Option<String>)
    ensures
        crate::model::opt_str_view(r) == jv_find(output@),
{
    let chars = str_chars(output);
    let lit = str_chars("version \"");
    proof {
        reveal_strlit("version \"");
    }
    let n = chars.len();
    proof {
        assert(output@.skip(0) =~= output@);
    }
    let mut i: usize = 0;
    while i < n
        invariant
            i <= n,
            n == chars@.len(),
            chars@ == output@,
            lit@ == "version \""@,
            jv_find(output@) == jv_find(output@.skip(i as int)),
        decreases n - i,
    {
        let ghost suffix = output@.skip(i as int);
        proof {
            reveal_strlit("version \"");
            assert(suffix[0] == output@[i as int]);
        }
        if crate::text::matches_at_exec(&chars, i, &lit) {
            proof {
                assert(suffix.subrange(0, 9) =~= chars@.subrange(i as int, i + 9));
                assert(starts_with_seq(suffix, "version \""@));
                assert(suffix.skip(9) =~= chars@.subrange(i + 9, n as int));
            }
            match crate::text::find_char_from(&chars, '"', i + 9) {
                Option::Some(c) => {
                    proof {
                        crate::text::lemma_first_index_is(
                            chars@.subrange(i + 9, n as int),
                            '"',
                            c - (i + 9),
                        );
                    }
                    if c > i + 9 {
                        proof {
                            assert(jv_close(suffix) == Option::Some(c - (i + 9)));
                        }
                        let v = subrange_chars(&chars, i + 9, c);
                        proof {
                            assert(v@ =~= suffix.skip(9).take(c - (i + 9)));
                        }
                        return Option::Some(chars_to_string(&v));
                    }
                    proof {
                        assert(jv_close(suffix) is None);
                    }
                },
                Option::None => {
                    proof {
                        crate::text::lemma_first_index_props(chars@.subrange(i + 9, n as int), '"');
                        if crate::text::first_index(suffix.skip(9), '"') is Some {
                            let k = crate::text::first_index(suffix.skip(9), '"').unwrap();
                            assert(chars@.subrange(i + 9, n as int)[k] == '"');
                        }
                        assert(jv_close(suffix) is None);
                    }
                },
            }
        }
        i = i + 1;
        proof {
            assert(suffix.drop_first() =~= output@.skip(i as int));
            if suffix.len() >= 9 {
                assert(suffix.subrange(0, 9) =~= chars@.subrange(i - 1, i - 1 + 9));
            }
            assert(jv_find(suffix) == jv_find(suffix.drop_first()));
        }
    }
    proof {
        assert(output@.skip(n as int) =~= Seq::<char>::empty());
    }
    Option::None
}

/// The description recorded in a resource pack's metadata: the first
/// string value after the first `"description"` key. The metadata is
/// read with a simplified reader — quote escapes are not interpreted.
pub open spec fn pack_description(t: Seq<char>) -> Option<Seq<char>> {
    match find_sub(t, "\"description\""@, 0) {
        Option::Some(pos) => {
            let rest1 = t.skip(pos + 13);
            match crate::text::first_index(rest1, ':') {
                Option::Some(ci) => {
                    let rest2 = rest1.skip(ci + 1);
                    match crate::text::first_index(rest2, '"') {
                        Option::Some(q1) => {
                            let rest3 = rest2.skip(q1 + 1);
                            match crate::text::first_index(rest3, '"') {
                                Option::Some(q2) => Option::Some(rest3.take(q2)),
                                Option::None => Option::None,
                            }
                        },
                        Option::None => Option::None,
                    }
                },
                Option::None => Option::None,
            }
        },
        Option::None => Option::None,
    }
}

/// Reads the pack description out of `pack.mcmeta` text.
pub fn extract_pack_description(mcmeta: &str) -> (r: Option<String>)
    ensures
        crate::model::opt_str_view(r) == pack_description(mcmeta@),
{
    proof {
        reveal_strlit("\"description\"");
    }
    let chars = str_chars(mcmeta);
    let key = str_chars("\"description\"");
    let n = chars.len();
    let pos = match find_sub_exec(&chars, &key) {
        Option::Some(p) => p,
        Option::None => {
            return Option::None;
        },
    };
    let ghost rest1 = mcmeta@.skip(pos + 13);
    proof {
        assert(rest1 =~= chars@.subrange(pos + 13, n as int));
    }
    let ci = match crate::text::find_char_from(&chars, ':', pos + 13) {
        Option::Some(c) => {
            proof {
                crate::text::lemma_first_index_is(
                    chars@.subrange(pos + 13, n as int),
                    ':',
                    c - (pos + 13),
                );
            }
            c
        },
        Option::None => {
            proof {
                crate::text::lemma_first_index_props(chars@.subrange(pos + 13, n as int), ':');
                if crate::text::first_index(rest1, ':') is Some {
                    let k = crate::text::first_index(rest1, ':').unwrap();
                    assert(chars@.subrange(pos + 13, n as int)[k] == ':');
                }
            }
            return Option::None;
        },
    };
    let ghost rest2 = rest1.skip((ci - (pos + 13)) + 1);
    proof {
        assert(rest2 =~= chars@.subrange(ci + 1, n as int));
    }
    let q1 = match crate::text::find_char_from(&chars, '"', ci + 1) {
        Option::Some(c) => {
            proof {
                crate::text::lemma_first_index_is(
                    chars@.subrange(ci + 1, n as int),
                    '"',
                    c - (ci + 1),
                );
            }
            c
        },
        Option::None => {
            proof {
                crate::text::lemma_first_index_props(chars@.subrange(ci + 1, n as int), '"');
                if crate::text::first_index(rest2, '"') is Some {
                    let k = crate::text::first_index(rest2, '"').unwrap();
                    assert(chars@.subrange(ci + 1, n as int)[k] == '"');
                }
            }
            return Option::None;
        },
    };
    let ghost rest3 = rest2.skip((q1 - (ci + 1)) + 1);
    proof {
        assert(rest3 =~= chars@.subrange(q1 + 1, n as int));
    }
    match crate::text::find_char_from(&chars, '"', q1 + 1) {
        Option::Some(q2) => {
            proof {
                crate::text::lemma_first_index_is(
                    chars@.subrange(q1 + 1, n as int),
                    '"',
                    q2 - (q1 + 1),
                );
            }
            let v = subrange_chars(&chars, q1 + 1, q2);
            proof {
                assert(v@ =~= rest3.take(q2 - (q1 + 1)));
            }
            Option::Some(chars_to_string(&v))
        },
        Option::None => {
            proof {
                crate::text::lemma_first_index_props(chars@.subrange(q1 + 1, n as int), '"');
                if crate::text::first_index(rest3, '"') is Some {
                    let k = crate::text::first_index(rest3, '"').unwrap();
                    assert(chars@.subrange(q1 + 1, n as int)[k] == '"');
                }
            }
            Option::None
        },
    }
}

/// Reads a resource pack's display record: its name together with the
/// description from its metadata text, when the caller could read any.
pub fn read_resourcepack_info(name: &String, mcmeta: &Option<String>) -> (r: Option<
    (String, Option<String>),
>)
    ensures
        match mcmeta {
            Option::Some(c) => match r {
                Option::Some(p) => p.0@ == name@ && crate::model::opt_str_view(p.1)
                    == pack_description(c@),
                Option::None => false,
            },
            Option::None => r is None,
        },
{
    match mcmeta {
        Option::Some(c) => Option::Some((name.clone(), extract_pack_description(c.as_str()))),
        Option::None => Option::None,
    }
}

/// The hundredths of a unit that `b` amounts to, rounded half up.
pub open spec fn speed_hundredths(b: nat, unit: nat) -> nat
    recommends
        unit > 0,
{
    (b * 200 + unit) / (unit * 2)
}

/// Two-digit rendering of the fractional hundredths.
pub open spec fn two_frac(h: nat) -> Seq<char> {
    if h % 100 < 10 {
        "0"@ + dec_rep(h % 100)
    } else {
        dec_rep(h % 100)
    }
}

/// The rendered download speed: mebibytes or kibibytes with two
/// decimals, rounded half up, or plain bytes per second.
pub open spec fn speed_text(b: nat) -> Seq<char> {
    if b >= 1048576 {
        let h = speed_hundredths(b, 1048576);
        dec_rep(h / 100) + "."@ + two_frac(h) + " MB/s"@
    } else if b >= 1024 {
        let h = speed_hundredths(b, 1024);
        dec_rep(h / 100) + "."@ + two_frac(h) + " KB/s"@
    } else {
        dec_rep(b) + " B/s"@
    }
}

/// Renders a byte-per-second rate for display.
pub fn format_speed(bytes_per_sec: u64) -> (r: String)
    ensures
        r@ == speed_text(bytes_per_sec as nat),
{
    let b = bytes_per_sec;
    if b >= 1048576 {
        let h: u128 = ((b as u128) * 200 + 1048576) / 2097152;
        proof {
            assert(h == speed_hundredths(b as nat, 1048576));
            let num = (b as u128) * 200 + 1048576;
            assert(num <= (u64::MAX as u128) * 200 + 1048576);
            vstd::arithmetic::div_mod::lemma_div_is_ordered(
                num as int,
                (u64::MAX as u128) * 200 + 1048576,
                2097152,
            );
            assert(((u64::MAX as u128) * 200 + 1048576) as int / 2097152 < u64::MAX as int);
            vstd::arithmetic::div_mod::lemma_div_nonincreasing(h as int, 100);
        }
        let whole = (h / 100) as u64;
        let frac = (h % 100) as u64;
        let mut r = u64_to_string(whole);
        r.append(".");
        if frac < 10 {
            r.append("0");
        }
        r.append(u64_to_string(frac).as_str());
        r.append(" MB/s");
        r
    } else if b >= 1024 {
        let h: u128 = ((b as u128) * 200 + 1024) / 2048;
        proof {
            assert(h == speed_hundredths(b as nat, 1024));
        }
        let whole = (h / 100) as u64;
        let frac = (h % 100) as u64;
        let mut r = u64_to_string(whole);
        r.append(".");
        if frac < 10 {
            r.append("0");
        }
        r.append(u64_to_string(frac).as_str());
        r.append(" KB/s");
        r
    } else {
        let mut r = u64_to_string(b);
        r.append(" B/s");
        r
    }
}

} // verus!
