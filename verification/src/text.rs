//! Verified text utilities over character sequences.
//!
//! The engine manipulates manifest fields, argument templates and log text as
//! `String` / `Vec<char>` values; every operation here is specified against
//! the `Seq<char>` views of its inputs.
use vstd::prelude::*;

verus! {

/// `p` is a prefix of `s`.
pub open spec fn starts_with_seq(s: Seq<char>, p: Seq<char>) -> bool {
    p.len() <= s.len() && s.subrange(0, p.len() as int) == p
}

/// `p` is a suffix of `s`.
pub open spec fn ends_with_seq(s: Seq<char>, p: Seq<char>) -> bool {
    p.len() <= s.len() && s.subrange(s.len() - p.len(), s.len() as int) == p
}

/// `p` occurs in `s` starting at index `i`.
pub open spec fn matches_at(s: Seq<char>, i: int, p: Seq<char>) -> bool {
    0 <= i && i + p.len() <= s.len() && s.subrange(i, i + p.len()) == p
}

/// `p` occurs somewhere in `s`.
pub open spec fn contains_seq(s: Seq<char>, p: Seq<char>) -> bool {
    exists|i: int| matches_at(s, i, p)
}

/// The characters of `s`, as a vector.
pub fn str_chars(s: &str) -> (r: Vec<char>)
    ensures
        r@ == s@,
{
    let n = s.unicode_len();
    let mut r: Vec<char> = Vec::new();
    let mut i: usize = 0;
    while i < n
        invariant
            i <= n,
            n == s@.len(),
            r@ == s@.subrange(0, i as int),
        decreases n - i,
    {
        r.push(s.get_char(i));
        i = i + 1;
        proof {
            assert(r@ =~= s@.subrange(0, i as int));
        }
    }
    proof {
        assert(r@ =~= s@);
    }
    r
}

/// Collects a character vector back into a `String`.
///
/// Relies on `core::iter::Iterator::collect` for `String`: collecting
/// characters yields the string of exactly those characters in order.
#[verifier::external_body]
pub fn chars_to_string(v: &Vec<char>) -> (s: String)
    ensures
        s@ == v@,
{
    v.iter().collect()
}

/// Character-for-character equality of two vectors.
pub fn chars_eq(a: &Vec<char>, b: &Vec<char>) -> (r: bool)
    ensures
        r == (a@ == b@),
{
    if a.len() != b.len() {
        return false;
    }
    let mut i: usize = 0;
    while i < a.len()
        invariant
            i <= a.len(),
            a.len() == b.len(),
            forall|j: int| 0 <= j < i ==> a@[j] == b@[j],
        decreases a.len() - i,
    {
        if a[i] != b[i] {
            return false;
        }
        i = i + 1;
    }
    proof {
        assert(a@ =~= b@);
    }
    true
}

/// Equality of two string slices, decided character by character.
pub fn str_eq(a: &str, b: &str) -> (r: bool)
    ensures
        r == (a@ == b@),
{
    let av = str_chars(a);
    let bv = str_chars(b);
    chars_eq(&av, &bv)
}

/// Whether `s` holds exactly the text of `lit`.
pub fn string_is(s: &String, lit: &str) -> (r: bool)
    ensures
        r == (s@ == lit@),
{
    str_eq(s.as_str(), lit)
}

/// Whether `p` occurs in `hay` at index `i`.
pub fn matches_at_exec(hay: &Vec<char>, i: usize, p: &Vec<char>) -> (r: bool)
    ensures
        r == matches_at(hay@, i as int, p@),
{
    if p.len() > hay.len() || i > hay.len() - p.len() {
        return false;
    }
    let mut k: usize = 0;
    while k < p.len()
        invariant
            k <= p.len(),
            i + p.len() <= hay.len(),
            forall|j: int| 0 <= j < k ==> hay@[i + j] == p@[j],
        decreases p.len() - k,
    {
        if hay[i + k] != p[k] {
            proof {
                assert(hay@.subrange(i as int, i + p@.len())[k as int] != p@[k as int]);
            }
            return false;
        }
        k = k + 1;
    }
    proof {
        assert(hay@.subrange(i as int, i + p@.len()) =~= p@);
    }
    true
}

/// Whether `p` occurs anywhere in `hay`.
pub fn contains_chars(hay: &Vec<char>, p: &Vec<char>) -> (r: bool)
    ensures
        r == contains_seq(hay@, p@),
{
    if p.len() > hay.len() {
        return false;
    }
    let last = hay.len() - p.len();
    let mut i: usize = 0;
    loop
        invariant
            i <= last,
            last == hay.len() - p.len(),
            p.len() <= hay.len(),
            forall|j: int| 0 <= j < i ==> !matches_at(hay@, j, p@),
        decreases last - i,
    {
        if matches_at_exec(hay, i, p) {
            return true;
        }
        if i == last {
            return false;
        }
        i = i + 1;
    }
}

/// Whether the text of `p` occurs anywhere in `hay`.
pub fn contains_str(hay: &str, p: &str) -> (r: bool)
    ensures
        r == contains_seq(hay@, p@),
{
    let hv = str_chars(hay);
    let pv = str_chars(p);
    contains_chars(&hv, &pv)
}

/// Whether `p` is a prefix of `s`.
pub fn starts_with_chars(s: &Vec<char>, p: &Vec<char>) -> (r: bool)
    ensures
        r == starts_with_seq(s@, p@),
{
    let r = matches_at_exec(s, 0, p);
    r
}

/// Whether `p` is a suffix of `s`.
pub fn ends_with_chars(s: &Vec<char>, p: &Vec<char>) -> (r: bool)
    ensures
        r == ends_with_seq(s@, p@),
{
    if p.len() > s.len() {
        return false;
    }
    matches_at_exec(s, s.len() - p.len(), p)
}

/// A copy of `v[from..to]`.
pub fn subrange_chars(v: &Vec<char>, from: usize, to: usize) -> (r: Vec<char>)
    requires
        from <= to <= v@.len(),
    ensures
        r@ == v@.subrange(from as int, to as int),
{
    let mut r: Vec<char> = Vec::new();
    let mut i: usize = from;
    while i < to
        invariant
            from <= i <= to <= v@.len(),
            r@ == v@.subrange(from as int, i as int),
        decreases to - i,
    {
        r.push(v[i]);
        i = i + 1;
        proof {
            assert(r@ =~= v@.subrange(from as int, i as int));
        }
    }
    r
}

/// First index `>= from` where `c` occurs in `v`, if any.
pub fn find_char_from(v: &Vec<char>, c: char, from: usize) -> (r: Option<usize>)
    requires
        from <= v@.len(),
    ensures
        match r {
            Some(i) => from <= i < v@.len() && v@[i as int] == c && forall|j: int|
                from <= j < i ==> v@[j] != c,
            None => forall|j: int| from <= j < v@.len() ==> v@[j] != c,
        },
{
    let mut i: usize = from;
    while i < v.len()
        invariant
            from <= i <= v@.len(),
            forall|j: int| from <= j < i ==> v@[j] != c,
        decreases v@.len() - i,
    {
        if v[i] == c {
            return Some(i);
        }
        i = i + 1;
    }
    None
}

/// The first index of `c` in `s`, if `c` occurs at all.
pub open spec fn first_index(s: Seq<char>, c: char) -> Option<int>
    decreases s.len(),
{
    if s.len() == 0 {
        Option::None
    } else if s[0] == c {
        Option::Some(0int)
    } else {
        match first_index(s.drop_first(), c) {
            Option::Some(i) => Option::Some(i + 1),
            Option::None => Option::None,
        }
    }
}

/// What `first_index` returns: the position of the first occurrence.
pub proof fn lemma_first_index_props(s: Seq<char>, c: char)
    ensures
        match first_index(s, c) {
            Option::Some(i) => 0 <= i < s.len() && s[i] == c && forall|j: int|
                0 <= j < i ==> s[j] != c,
            Option::None => forall|j: int| 0 <= j < s.len() ==> s[j] != c,
        },
    decreases s.len(),
{
    if s.len() > 0 && s[0] != c {
        let rest = s.drop_first();
        lemma_first_index_props(rest, c);
        match first_index(rest, c) {
            Option::Some(i) => {
                assert(s[i + 1] == rest[i]);
                assert forall|j: int| 0 <= j < i + 1 implies s[j] != c by {
                    if j > 0 {
                        assert(rest[j - 1] == s[j]);
                    }
                }
            },
            Option::None => {
                assert forall|j: int| 0 <= j < s.len() implies s[j] != c by {
                    if j > 0 {
                        assert(rest[j - 1] == s[j]);
                    }
                }
            },
        }
    }
}

/// A position that holds `c` with none before it is the first index.
pub proof fn lemma_first_index_is(s: Seq<char>, c: char, i: int)
    requires
        0 <= i < s.len(),
        s[i] == c,
        forall|j: int| 0 <= j < i ==> s[j] != c,
    ensures
        first_index(s, c) == Option::Some(i),
    decreases i,
{
    if i > 0 {
        lemma_first_index_is(s.drop_first(), c, i - 1);
    }
}

/// ASCII lower-casing of one character; every other character is unchanged.
pub open spec fn lower_char(c: char) -> char {
    if 65 <= c as u32 && c as u32 <= 90 {
        ((c as u32) + 32) as char
    } else {
        c
    }
}

/// ASCII lower-casing of a whole sequence.
pub open spec fn lower_seq(s: Seq<char>) -> Seq<char> {
    s.map_values(|c: char| lower_char(c))
}

/// ASCII lower-casing of a character vector.
pub fn to_ascii_lower(v: &Vec<char>) -> (r: Vec<char>)
    ensures
        r@ == lower_seq(v@),
{
    let mut r: Vec<char> = Vec::new();
    let mut i: usize = 0;
    while i < v.len()
        invariant
            i <= v@.len(),
            r@ == lower_seq(v@.subrange(0, i as int)),
        decreases v@.len() - i,
    {
        let c = v[i];
        let u = c as u32;
        if 65 <= u && u <= 90 {
            r.push(((u + 32) as u8) as char);
        } else {
            r.push(c);
        }
        i = i + 1;
        proof {
            assert(r@ =~= lower_seq(v@.subrange(0, i as int)));
        }
    }
    proof {
        assert(v@.subrange(0, v@.len() as int) =~= v@);
    }
    r
}

/// ASCII whitespace.
pub open spec fn is_ws(c: char) -> bool {
    c == ' ' || c == '\t' || c == '\n' || c == '\r'
}

/// A class of separator characters for splitting and trimming.
#[derive(Clone, Copy, PartialEq, Eq, Structural)]
pub enum SepClass {
    /// Exactly one character separates.
    Exact(char),
    /// Any ASCII whitespace character separates.
    Whitespace,
}

/// Whether `c` belongs to the class `cls`.
pub open spec fn sep_matches(cls: SepClass, c: char) -> bool {
    match cls {
        SepClass::Exact(x) => c == x,
        SepClass::Whitespace => is_ws(c),
    }
}

/// Exec test for `sep_matches`.
pub fn sep_matches_exec(cls: SepClass, c: char) -> (r: bool)
    ensures
        r == sep_matches(cls, c),
{
    match cls {
        SepClass::Exact(x) => c == x,
        SepClass::Whitespace => c == ' ' || c == '\t' || c == '\n' || c == '\r',
    }
}

/// Splitting a sequence at every character of the class; empty fields kept,
/// so the result always has one field more than `s` has separators.
pub open spec fn split_spec(s: Seq<char>, cls: SepClass) -> Seq<Seq<char>>
    decreases s.len(),
{
    if s.len() == 0 {
        seq![Seq::<char>::empty()]
    } else {
        let rest = split_spec(s.drop_first(), cls);
        if sep_matches(cls, s[0]) {
            seq![Seq::<char>::empty()] + rest
        } else {
            seq![seq![s[0]] + rest[0]] + rest.drop_first()
        }
    }
}

/// `split_spec` always yields at least one field.
pub proof fn lemma_split_nonempty(s: Seq<char>, cls: SepClass)
    ensures
        split_spec(s, cls).len() >= 1,
    decreases s.len(),
{
    if s.len() > 0 {
        lemma_split_nonempty(s.drop_first(), cls);
    }
}

/// If no character of `s` separates, the split is `s` alone.
pub proof fn lemma_split_whole(s: Seq<char>, cls: SepClass)
    requires
        forall|j: int| 0 <= j < s.len() ==> !sep_matches(cls, s[j]),
    ensures
        split_spec(s, cls) == seq![s],
    decreases s.len(),
{
    if s.len() == 0 {
        assert(split_spec(s, cls) =~~= seq![s]);
    } else {
        lemma_split_whole(s.drop_first(), cls);
        assert(seq![s[0]] + s.drop_first() =~= s);
        assert(split_spec(s, cls) =~~= seq![s]);
    }
}

/// If the first separator of `s` stands at `i`, the split is `s[..i]`
/// followed by the split of `s[i+1..]`.
pub proof fn lemma_split_step(s: Seq<char>, cls: SepClass, i: int)
    requires
        0 <= i < s.len(),
        sep_matches(cls, s[i]),
        forall|j: int| 0 <= j < i ==> !sep_matches(cls, s[j]),
    ensures
        split_spec(s, cls) == seq![s.subrange(0, i)] + split_spec(
            s.subrange(i + 1, s.len() as int),
            cls,
        ),
    decreases s.len(),
{
    if i == 0 {
        assert(s.drop_first() =~= s.subrange(1, s.len() as int));
        assert(split_spec(s, cls) =~~= seq![s.subrange(0, 0)] + split_spec(
            s.subrange(1, s.len() as int),
            cls,
        ));
    } else {
        let t = s.drop_first();
        lemma_split_step(t, cls, i - 1);
        lemma_split_nonempty(t.subrange(i, t.len() as int), cls);
        assert(t.subrange(0, i - 1) =~= s.subrange(1, i));
        assert(t.subrange(i, t.len() as int) =~= s.subrange(i + 1, s.len() as int));
        assert(seq![s[0]] + s.subrange(1, i) =~= s.subrange(0, i));
        assert(split_spec(s, cls) =~~= seq![s.subrange(0, i)] + split_spec(
            s.subrange(i + 1, s.len() as int),
            cls,
        ));
    }
}

/// First index `>= from` whose character belongs to `cls`, if any.
pub fn find_sep_from(v: &Vec<char>, cls: SepClass, from: usize) -> (r: Option<usize>)
    requires
        from <= v@.len(),
    ensures
        match r {
            Some(i) => from <= i < v@.len() && sep_matches(cls, v@[i as int]) && forall|j: int|
                from <= j < i ==> !sep_matches(cls, v@[j]),
            None => forall|j: int| from <= j < v@.len() ==> !sep_matches(cls, v@[j]),
        },
{
    let mut i: usize = from;
    while i < v.len()
        invariant
            from <= i <= v@.len(),
            forall|j: int| from <= j < i ==> !sep_matches(cls, v@[j]),
        decreases v@.len() - i,
    {
        if sep_matches_exec(cls, v[i]) {
            return Some(i);
        }
        i = i + 1;
    }
    None
}

/// The views of a sequence of character vectors.
pub open spec fn views_of(r: Seq<Vec<char>>) -> Seq<Seq<char>> {
    r.map_values(|t: Vec<char>| t@)
}

/// Splits `v` at every character of `cls`, keeping empty fields.
pub fn split_chars(v: &Vec<char>, cls: SepClass) -> (r: Vec<Vec<char>>)
    ensures
        views_of(r@) == split_spec(v@, cls),
    decreases v@.len(),
{
    match find_sep_from(v, cls, 0) {
        None => {
            let mut r: Vec<Vec<char>> = Vec::new();
            r.push(subrange_chars(v, 0, v.len()));
            proof {
                lemma_split_whole(v@, cls);
                assert(v@.subrange(0, v@.len() as int) =~= v@);
                assert(views_of(r@) =~= split_spec(v@, cls));
            }
            r
        },
        Some(i) => {
            let n = v.len();
            let head = subrange_chars(v, 0, i);
            let tail = subrange_chars(v, i + 1, n);
            let mut r: Vec<Vec<char>> = Vec::new();
            r.push(head);
            let mut rest = split_chars(&tail, cls);
            let mut k: usize = 0;
            while k < rest.len()
                invariant
                    k <= rest@.len(),
                    views_of(r@) =~= seq![v@.subrange(0, i as int)] + views_of(
                        rest@.subrange(0, k as int),
                    ),
                decreases rest@.len() - k,
            {
                let ghost old_r = r@;
                let t = subrange_chars(&rest[k], 0, rest[k].len());
                proof {
                    assert(t@ =~= rest@[k as int]@);
                }
                r.push(t);
                k = k + 1;
                proof {
                    assert(views_of(r@) =~= views_of(old_r).push(rest@[k - 1]@));
                    assert(views_of(rest@.subrange(0, k as int)) =~= views_of(
                        rest@.subrange(0, k - 1),
                    ).push(rest@[k - 1]@));
                }
            }
            proof {
                assert(rest@.subrange(0, rest@.len() as int) =~= rest@);
                lemma_split_step(v@, cls, i as int);
                assert(views_of(r@) =~= split_spec(v@, cls));
            }
            r
        },
    }
}

/// `s` without the characters of `cls` that lead it.
pub open spec fn trim_start_spec(s: Seq<char>, cls: SepClass) -> Seq<char>
    decreases s.len(),
{
    if s.len() > 0 && sep_matches(cls, s[0]) {
        trim_start_spec(s.drop_first(), cls)
    } else {
        s
    }
}

/// `s` without the characters of `cls` that trail it.
pub open spec fn trim_end_spec(s: Seq<char>, cls: SepClass) -> Seq<char>
    decreases s.len(),
{
    if s.len() > 0 && sep_matches(cls, s.last()) {
        trim_end_spec(s.drop_last(), cls)
    } else {
        s
    }
}

/// `s` without leading and trailing characters of `cls`.
pub open spec fn trim_spec(s: Seq<char>, cls: SepClass) -> Seq<char> {
    trim_end_spec(trim_start_spec(s, cls), cls)
}

proof fn lemma_trim_start_skip(s: Seq<char>, cls: SepClass, k: int)
    requires
        0 <= k <= s.len(),
        forall|j: int| 0 <= j < k ==> sep_matches(cls, s[j]),
    ensures
        trim_start_spec(s, cls) == trim_start_spec(s.subrange(k, s.len() as int), cls),
    decreases k,
{
    if k > 0 {
        assert(sep_matches(cls, s[0]));
        let t = s.drop_first();
        lemma_trim_start_skip(t, cls, k - 1);
        assert(t.subrange(k - 1, t.len() as int) =~= s.subrange(k, s.len() as int));
    } else {
        assert(s.subrange(0, s.len() as int) =~= s);
    }
}

proof fn lemma_trim_end_take(s: Seq<char>, cls: SepClass, k: int)
    requires
        0 <= k <= s.len(),
        forall|j: int| k <= j < s.len() ==> sep_matches(cls, s[j]),
    ensures
        trim_end_spec(s, cls) == trim_end_spec(s.subrange(0, k), cls),
    decreases s.len() - k,
{
    if k < s.len() {
        let t = s.drop_last();
        lemma_trim_end_take(t, cls, k);
        assert(t.subrange(0, k) =~= s.subrange(0, k));
    } else {
        assert(s.subrange(0, k) =~= s);
    }
}

/// `v` without leading and trailing characters of `cls`.
pub fn trim_chars(v: &Vec<char>, cls: SepClass) -> (r: Vec<char>)
    ensures
        r@ == trim_spec(v@, cls),
{
    let n = v.len();
    let mut i: usize = 0;
    while i < n && sep_matches_exec(cls, v[i])
        invariant
            i <= n,
            n == v@.len(),
            forall|j: int| 0 <= j < i ==> sep_matches(cls, v@[j]),
        decreases n - i,
    {
        i = i + 1;
    }
    let mut j: usize = n;
    while j > i && sep_matches_exec(cls, v[j - 1])
        invariant
            i <= j <= n,
            n == v@.len(),
            forall|k: int| 0 <= k < i ==> sep_matches(cls, v@[k]),
            forall|k: int| j <= k < n ==> sep_matches(cls, v@[k]),
        decreases j,
    {
        j = j - 1;
    }
    let r = subrange_chars(v, i, j);
    proof {
        lemma_trim_start_skip(v@, cls, i as int);
        let mid = v@.subrange(i as int, n as int);
        if i < n {
            assert(!sep_matches(cls, mid[0]));
        }
        assert(trim_start_spec(v@, cls) == mid);
        lemma_trim_end_take(mid, cls, j - i);
        assert(mid.subrange(0, j - i) =~= v@.subrange(i as int, j as int));
        if j > i {
            assert(!sep_matches(cls, v@[j - 1]));
        }
        assert(trim_end_spec(v@.subrange(i as int, j as int), cls) == v@.subrange(
            i as int,
            j as int,
        ));
    }
    r
}

/// `s` with every leading repetition of `p` removed.
pub open spec fn strip_repeated(s: Seq<char>, p: Seq<char>) -> Seq<char>
    decreases s.len(),
{
    if p.len() > 0 && starts_with_seq(s, p) && s.len() > 0 {
        strip_repeated(s.subrange(p.len() as int, s.len() as int), p)
    } else {
        s
    }
}

/// `v` with every leading repetition of `p` removed.
pub fn strip_prefix_repeated(v: &Vec<char>, p: &Vec<char>) -> (r: Vec<char>)
    ensures
        r@ == strip_repeated(v@, p@),
{
    let mut cur = subrange_chars(v, 0, v.len());
    proof {
        assert(cur@ =~= v@);
    }
    while p.len() > 0 && cur.len() > 0 && starts_with_chars(&cur, p)
        invariant
            strip_repeated(cur@, p@) == strip_repeated(v@, p@),
        decreases cur@.len(),
    {
        cur = subrange_chars(&cur, p.len(), cur.len());
    }
    cur
}

/// The decimal digit character for `d`.
pub open spec fn dec_digit(d: nat) -> char
    recommends
        d < 10,
{
    ((48 + d) as u8) as char
}

/// The decimal representation of `n`, without sign or leading zeros.
pub open spec fn dec_rep(n: nat) -> Seq<char>
    decreases n,
{
    if n < 10 {
        seq![dec_digit(n)]
    } else {
        dec_rep(n / 10).push(dec_digit(n % 10))
    }
}

/// Appends the decimal representation of `n` to `out`.
pub fn push_dec_u64(n: u64, out: &mut Vec<char>)
    ensures
        final (out)@ == old(out)@ + dec_rep(n as nat),
    decreases n,
{
    if n < 10 {
        out.push((48 + n as u8) as char);
        proof {
            assert(out@ =~= old(out)@ + dec_rep(n as nat));
        }
    } else {
        push_dec_u64(n / 10, out);
        out.push((48 + (n % 10) as u8) as char);
        proof {
            assert(out@ =~= old(out)@ + dec_rep(n as nat));
        }
    }
}

/// The decimal representation of `n`, as a `String`.
pub fn u64_to_string(n: u64) -> (s: String)
    ensures
        s@ == dec_rep(n as nat),
{
    let mut v: Vec<char> = Vec::new();
    push_dec_u64(n, &mut v);
    proof {
        assert(v@ =~= dec_rep(n as nat));
    }
    chars_to_string(&v)
}

/// The decimal representation of `n`, as a `String`.
pub fn u32_to_string(n: u32) -> (s: String)
    ensures
        s@ == dec_rep(n as nat),
{
    u64_to_string(n as u64)
}

/// A decimal digit character.
pub open spec fn is_digit(c: char) -> bool {
    48 <= c as u32 <= 57
}

/// The value of a decimal digit character.
pub open spec fn digit_val(c: char) -> nat
    recommends
        is_digit(c),
{
    (c as u32 - 48) as nat
}

/// Every character of `s` is a decimal digit.
pub open spec fn all_digits(s: Seq<char>) -> bool {
    forall|i: int| 0 <= i < s.len() ==> is_digit(s[i])
}

/// The number that the digit string `s` denotes.
pub open spec fn dec_value(s: Seq<char>) -> nat
    recommends
        all_digits(s),
    decreases s.len(),
{
    if s.len() == 0 {
        0
    } else {
        dec_value(s.drop_last()) * 10 + digit_val(s.last())
    }
}

/// Reads `v` as an unsigned decimal number: defined exactly when `v` is
/// non-empty, all digits, and its value fits in a `u32`.
pub fn parse_u32_chars(v: &Vec<char>) -> (r: Option<u32>)
    ensures
        match r {
            Some(x) => v@.len() > 0 && all_digits(v@) && dec_value(v@) <= u32::MAX && x
                == dec_value(v@),
            None => v@.len() == 0 || !all_digits(v@) || dec_value(v@) > u32::MAX,
        },
{
    if v.len() == 0 {
        return None;
    }
    let mut acc: u64 = 0;
    let mut i: usize = 0;
    while i < v.len()
        invariant
            i <= v@.len(),
            all_digits(v@.subrange(0, i as int)),
            acc == dec_value(v@.subrange(0, i as int)),
            acc <= u32::MAX,
        decreases v@.len() - i,
    {
        let u = v[i] as u32;
        if u < 48 || u > 57 {
            return None;
        }
        acc = acc * 10 + (u - 48) as u64;
        i = i + 1;
        proof {
            assert(v@.subrange(0, i as int).drop_last() =~= v@.subrange(0, i - 1));
            assert(acc == dec_value(v@.subrange(0, i as int)));
        }
        if acc > u32::MAX as u64 {
            proof {
                lemma_dec_value_prefix(v@, i as int);
            }
            return None;
        }
    }
    proof {
        assert(v@.subrange(0, v@.len() as int) =~= v@);
    }
    Some(acc as u32)
}

/// The value of a digit string is at least the value of any of its prefixes.
proof fn lemma_dec_value_prefix(s: Seq<char>, k: int)
    requires
        0 <= k <= s.len(),
    ensures
        dec_value(s) >= dec_value(s.subrange(0, k)),
    decreases s.len() - k,
{
    if k < s.len() {
        lemma_dec_value_prefix(s, k + 1);
        let a = s.subrange(0, k + 1);
        let b = s.subrange(0, k);
        assert(a.drop_last() =~= b);
        assert(dec_value(a) == dec_value(b) * 10 + digit_val(a.last()));
    } else {
        assert(s.subrange(0, k) =~= s);
    }
}

/// The views of a sequence of strings.
pub open spec fn string_views(ss: Seq<String>) -> Seq<Seq<char>> {
    ss.map_values(|s: String| s@)
}

/// The fields joined with `sep` between each two.
pub open spec fn join_spec(ps: Seq<Seq<char>>, sep: Seq<char>) -> Seq<char>
    decreases ps.len(),
{
    if ps.len() == 0 {
        Seq::empty()
    } else if ps.len() == 1 {
        ps[0]
    } else {
        ps[0] + sep + join_spec(ps.drop_first(), sep)
    }
}

/// Joining one more field appends a separator and the field.
pub proof fn lemma_join_push(ps: Seq<Seq<char>>, sep: Seq<char>, x: Seq<char>)
    requires
        ps.len() >= 1,
    ensures
        join_spec(ps.push(x), sep) == join_spec(ps, sep) + sep + x,
    decreases ps.len(),
{
    if ps.len() == 1 {
        assert(ps.push(x).drop_first() =~= seq![x]);
        assert(join_spec(seq![x], sep) == x);
        assert(ps.push(x)[0] == ps[0]);
        assert(join_spec(ps.push(x), sep) == ps[0] + sep + x);
        assert(join_spec(ps, sep) == ps[0]);
    } else {
        lemma_join_push(ps.drop_first(), sep, x);
        assert(ps.push(x).drop_first() =~= ps.drop_first().push(x));
        assert(ps.push(x)[0] == ps[0]);
        assert(join_spec(ps.push(x), sep) == ps[0] + sep + (join_spec(ps.drop_first(), sep) + sep
            + x));
        assert(ps[0] + sep + (join_spec(ps.drop_first(), sep) + sep + x) =~= (ps[0] + sep
            + join_spec(ps.drop_first(), sep)) + sep + x);
    }
}

/// The strings of `parts`, joined with `sep` between each two.
pub fn join_with(parts: &Vec<String>, sep: &str) -> (r: String)
    ensures
        r@ == join_spec(string_views(parts@), sep@),
{
    let mut acc = String::new();
    let mut i: usize = 0;
    while i < parts.len()
        invariant
            i <= parts@.len(),
            acc@ == join_spec(string_views(parts@).subrange(0, i as int), sep@),
        decreases parts@.len() - i,
    {
        let ghost pre = string_views(parts@).subrange(0, i as int);
        if i > 0 {
            acc.append(sep);
        }
        acc.append(parts[i].as_str());
        proof {
            let now = string_views(parts@).subrange(0, i + 1);
            assert(now.drop_last() =~= pre);
            assert(now =~= pre.push(parts@[i as int]@));
            if i > 0 {
                lemma_join_push(pre, sep@, parts@[i as int]@);
            }
        }
        i = i + 1;
    }
    proof {
        assert(string_views(parts@).subrange(0, parts@.len() as int) =~= string_views(parts@));
    }
    acc
}

/// The fields of `ps` that are not empty, in order.
pub open spec fn nonempty_of(ps: Seq<Seq<char>>) -> Seq<Seq<char>> {
    ps.filter(|t: Seq<char>| t.len() > 0)
}

/// The non-empty fields of `parts`, in order.
pub fn nonempty_fields(parts: &Vec<Vec<char>>) -> (r: Vec<Vec<char>>)
    ensures
        views_of(r@) == nonempty_of(views_of(parts@)),
{
    let mut r: Vec<Vec<char>> = Vec::new();
    let mut i: usize = 0;
    while i < parts.len()
        invariant
            i <= parts@.len(),
            views_of(r@) == nonempty_of(views_of(parts@).subrange(0, i as int)),
        decreases parts@.len() - i,
    {
        let ghost pre = views_of(parts@).subrange(0, i as int);
        let ghost now = views_of(parts@).subrange(0, i + 1);
        let ghost old_r = r@;
        if parts[i].len() > 0 {
            let t = subrange_chars(&parts[i], 0, parts[i].len());
            proof {
                assert(t@ =~= parts@[i as int]@);
            }
            r.push(t);
            proof {
                assert(views_of(r@) =~= views_of(old_r).push(parts@[i as int]@));
            }
        }
        i = i + 1;
        proof {
            reveal(Seq::filter);
            assert(now.drop_last() =~= pre);
            assert(now.last() == parts@[i - 1]@);
            assert(nonempty_of(now) == if now.last().len() > 0 {
                nonempty_of(now.drop_last()).push(now.last())
            } else {
                nonempty_of(now.drop_last())
            });
            assert(views_of(r@) =~= nonempty_of(now));
        }
    }
    proof {
        assert(views_of(parts@).subrange(0, parts@.len() as int) =~= views_of(parts@));
    }
    r
}

} // verus!
