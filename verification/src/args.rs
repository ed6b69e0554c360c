//! The argument synthesizer: variable substitution over `${name}` tokens,
//! and the JVM and game argument vectors built from a merged descriptor.
use vstd::prelude::*;
use crate::accounts::Account;
use crate::model::{
    string_pairs_view, ArgEntry, ArgEntryView, ArgValue, ArgValueView, VersionDescriptor,
    VersionDescriptorView,
};
use crate::platform::{os_key_spec, path_join, path_join_spec, Os};
use crate::rules::{check_rules, eval_rules};
use crate::settings::WindowSize;
use crate::text::{
    chars_eq, chars_to_string, dec_rep, find_char_from, first_index, lemma_first_index_is,
    lemma_first_index_props, nonempty_fields, nonempty_of, split_chars, split_spec, str_chars,
    string_views, subrange_chars, u32_to_string, SepClass,
};

verus! {

/// The value bound to `name`, taken from the first pair that carries it.
pub open spec fn lookup_var(vars: Seq<(Seq<char>, Seq<char>)>, name: Seq<char>) -> Option<
    Seq<char>,
>
    decreases vars.len(),
{
    if vars.len() == 0 {
        Option::None
    } else if vars[0].0 == name {
        Option::Some(vars[0].1)
    } else {
        lookup_var(vars.drop_first(), name)
    }
}

/// Literal one-pass `${name}` substitution.
///
/// The text is scanned once, left to right. Where `${`, a name bound in
/// `vars`, and `}` stand, the bound value is emitted and the scan continues
/// after the `}` — never inside the emitted value, so substitution is not
/// recursive. Everything else, unknown names included, is copied verbatim.
pub open spec fn subst_spec(t: Seq<char>, vars: Seq<(Seq<char>, Seq<char>)>) -> Seq<char>
    decreases t.len(),
    via subst_spec_decreases
{
    if t.len() == 0 {
        Seq::empty()
    } else if t.len() >= 2 && t[0] == '$' && t[1] == '{' {
        match first_index(t.subrange(2, t.len() as int), '}') {
            Option::Some(k) => {
                let name = t.subrange(2, 2 + k);
                match lookup_var(vars, name) {
                    Option::Some(v) => v + subst_spec(t.subrange(2 + k + 1, t.len() as int), vars),
                    Option::None => seq![t[0]] + subst_spec(t.drop_first(), vars),
                }
            },
            Option::None => seq![t[0]] + subst_spec(t.drop_first(), vars),
        }
    } else {
        seq![t[0]] + subst_spec(t.drop_first(), vars)
    }
}

#[via_fn]
proof fn subst_spec_decreases(t: Seq<char>, vars: Seq<(Seq<char>, Seq<char>)>) {
    if t.len() >= 2 && t[0] == '$' && t[1] == '{' {
        lemma_first_index_props(t.subrange(2, t.len() as int), '}');
    }
}

/// The value of the first pair of `vars` whose name is `name`.
pub fn lookup_var_exec(vars: &Vec<(String, String)>, name: &Vec<char>) -> (r: Option<String>)
    ensures
        crate::model::opt_str_view(r) == lookup_var(string_pairs_view(vars@), name@),
{
    let ghost vv = string_pairs_view(vars@);
    proof {
        assert(vv.subrange(0, vv.len() as int) =~= vv);
    }
    let mut i: usize = 0;
    while i < vars.len()
        invariant
            i <= vars@.len(),
            vv == string_pairs_view(vars@),
            vv.len() == vars@.len(),
            lookup_var(vv, name@) == lookup_var(vv.subrange(i as int, vv.len() as int), name@),
        decreases vars@.len() - i,
    {
        let ghost pre = vv.subrange(i as int, vv.len() as int);
        let key = str_chars(vars[i].0.as_str());
        if chars_eq(&key, name) {
            proof {
                assert(pre[0] == vv[i as int]);
            }
            return Option::Some(vars[i].1.clone());
        }
        i = i + 1;
        proof {
            assert(pre[0] == vv[i - 1]);
            assert(pre.drop_first() =~= vv.subrange(i as int, vv.len() as int));
        }
    }
    proof {
        assert(vv.subrange(vv.len() as int, vv.len() as int) =~= Seq::<
            (Seq<char>, Seq<char>),
        >::empty());
    }
    Option::None
}

/// Expands every `${name}` token of `s` whose name `vars` binds, in one
/// left-to-right pass; everything else is copied verbatim.
pub fn replace_variables(s: &String, vars: &Vec<(String, String)>) -> (r: String)
    ensures
        r@ == subst_spec(s@, string_pairs_view(vars@)),
{
    let ghost vv = string_pairs_view(vars@);
    let chars = str_chars(s.as_str());
    let n = chars.len();
    let mut out: Vec<char> = Vec::new();
    proof {
        assert(chars@.subrange(0, n as int) =~= chars@);
        assert(out@ + subst_spec(chars@.subrange(0, n as int), vv) =~= subst_spec(s@, vv));
    }
    let mut i: usize = 0;
    while i < n
        invariant
            i <= n,
            n == chars@.len(),
            chars@ == s@,
            vv == string_pairs_view(vars@),
            subst_spec(s@, vv) == out@ + subst_spec(chars@.subrange(i as int, n as int), vv),
        decreases n - i,
    {
        let ghost suffix = chars@.subrange(i as int, n as int);
        let ghost out0 = out@;
        if chars[i] == '$' && i + 1 < n && chars[i + 1] == '{' {
            proof {
                assert(suffix[0] == '$' && suffix[1] == '{');
                assert(suffix.subrange(2, suffix.len() as int) =~= chars@.subrange(
                    i + 2,
                    n as int,
                ));
            }
            match find_char_from(&chars, '}', i + 2) {
                Option::Some(kabs) => {
                    let ghost i0 = i as int;
                    let ghost k = kabs - (i0 + 2);
                    proof {
                        lemma_first_index_is(chars@.subrange(i0 + 2, n as int), '}', k);
                        assert(first_index(suffix.subrange(2, suffix.len() as int), '}')
                            == Option::Some(k));
                    }
                    let name = subrange_chars(&chars, i + 2, kabs);
                    proof {
                        assert(name@ =~= suffix.subrange(2, 2 + k));
                    }
                    match lookup_var_exec(vars, &name) {
                        Option::Some(v) => {
                            let mut vc = str_chars(v.as_str());
                            out.append(&mut vc);
                            i = kabs + 1;
                            proof {
                                assert(suffix.subrange(2 + k + 1, suffix.len() as int)
                                    =~= chars@.subrange(i as int, n as int));
                                assert(subst_spec(suffix, vv) == v@ + subst_spec(
                                    chars@.subrange(i as int, n as int),
                                    vv,
                                ));
                                assert(out@ + subst_spec(chars@.subrange(i as int, n as int), vv)
                                    =~= out0 + subst_spec(suffix, vv));
                            }
                        },
                        Option::None => {
                            out.push(chars[i]);
                            i = i + 1;
                            proof {
                                assert(suffix.drop_first() =~= chars@.subrange(i as int, n as int));
                                assert(out@ + subst_spec(chars@.subrange(i as int, n as int), vv)
                                    =~= out0 + subst_spec(suffix, vv));
                            }
                        },
                    }
                },
                Option::None => {
                    proof {
                        lemma_first_index_props(chars@.subrange(i + 2, n as int), '}');
                        if first_index(suffix.subrange(2, suffix.len() as int), '}') is Some {
                            let k = first_index(
                                suffix.subrange(2, suffix.len() as int),
                                '}',
                            ).unwrap();
                            assert(chars@.subrange(i + 2, n as int)[k] == '}');
                        }
                    }
                    out.push(chars[i]);
                    i = i + 1;
                    proof {
                        assert(suffix.drop_first() =~= chars@.subrange(i as int, n as int));
                        assert(out@ + subst_spec(chars@.subrange(i as int, n as int), vv) =~= out0
                            + subst_spec(suffix, vv));
                    }
                },
            }
        } else {
            out.push(chars[i]);
            i = i + 1;
            proof {
                assert(suffix.drop_first() =~= chars@.subrange(i as int, n as int));
                assert(out@ + subst_spec(chars@.subrange(i as int, n as int), vv) =~= out0
                    + subst_spec(suffix, vv));
            }
        }
    }
    proof {
        assert(chars@.subrange(n as int, n as int) =~= Seq::<char>::empty());
        assert(out@ =~= subst_spec(s@, vv));
    }
    chars_to_string(&out)
}

/// Substitution is not recursive: where the whole text is one bound token,
/// the output is the bound value exactly as stored — a value that itself
/// holds `${other}` tokens is emitted verbatim and never re-expanded.
pub proof fn lemma_substitution_not_recursive(
    n: Seq<char>,
    v: Seq<char>,
    vars: Seq<(Seq<char>, Seq<char>)>,
)
    requires
        lookup_var(vars, n) == Option::Some(v),
        forall|j: int| 0 <= j < n.len() ==> n[j] != '}',
    ensures
        subst_spec("${"@ + n + "}"@, vars) == v,
{
    reveal_strlit("${");
    reveal_strlit("}");
    let t = "${"@ + n + "}"@;
    assert(t.len() == n.len() + 3);
    assert(t[0] == '$' && t[1] == '{');
    let sub2 = t.subrange(2, t.len() as int);
    assert(sub2 =~= n + "}"@);
    assert(sub2[n.len() as int] == '}');
    assert forall|j: int| 0 <= j < n.len() implies sub2[j] != '}' by {
        assert(sub2[j] == n[j]);
    }
    lemma_first_index_is(sub2, '}', n.len() as int);
    assert(t.subrange(2, 2 + n.len() as int) =~= n);
    assert(t.subrange(2 + n.len() as int + 1, t.len() as int) =~= Seq::<char>::empty());
    assert(subst_spec(Seq::<char>::empty(), vars) =~= Seq::<char>::empty());
    assert(subst_spec(t, vars) =~= v);
}

/// `u` with every hyphen removed.
pub open spec fn strip_hyphens(u: Seq<char>) -> Seq<char> {
    u.filter(|c: char| c != '-')
}

/// Removes every hyphen of `s`, as UUIDs are undashed for game arguments.
pub fn remove_hyphens(s: &String) -> (r: String)
    ensures
        r@ == strip_hyphens(s@),
{
    let chars = str_chars(s.as_str());
    let mut out: Vec<char> = Vec::new();
    proof {
        reveal(Seq::filter);
        assert(chars@.subrange(0, 0) =~= Seq::<char>::empty());
    }
    let mut i: usize = 0;
    while i < chars.len()
        invariant
            i <= chars@.len(),
            chars@ == s@,
            out@ == strip_hyphens(chars@.subrange(0, i as int)),
        decreases chars@.len() - i,
    {
        let ghost pre = chars@.subrange(0, i as int);
        let ghost now = chars@.subrange(0, i + 1);
        if chars[i] != '-' {
            out.push(chars[i]);
        }
        i = i + 1;
        proof {
            reveal(Seq::filter);
            assert(now.drop_last() =~= pre);
            assert(now.last() == chars@[i - 1]);
            assert(out@ =~= strip_hyphens(now));
        }
    }
    proof {
        assert(chars@.subrange(0, chars@.len() as int) =~= chars@);
    }
    chars_to_string(&out)
}

/// The session token the game is handed: the account's access token, or
/// its undashed UUID when the account has none (the offline convention).
pub open spec fn auth_token_spec(a: Account) -> Seq<char> {
    match a.access_token {
        Option::Some(t) => t@,
        Option::None => strip_hyphens(a.uuid@),
    }
}

/// The user type the game is told: `msa` for online accounts, else
/// `legacy`.
pub open spec fn user_type_spec(account_type: Seq<char>) -> Seq<char> {
    if account_type == "microsoft"@ {
        "msa"@
    } else {
        "legacy"@
    }
}

/// The assets index name: the descriptor's `assets` id, else the id of its
/// asset index, else the version id itself.
pub open spec fn assets_index_spec(m: VersionDescriptorView, vid: Seq<char>) -> Seq<char> {
    match m.assets {
        Option::Some(s) => s,
        Option::None => match m.asset_index {
            Option::Some(ai) => ai.id,
            Option::None => vid,
        },
    }
}

/// The game-argument substitution table.
pub open spec fn game_vars_spec(
    m: VersionDescriptorView,
    vid: Seq<char>,
    a: Account,
    w: u32,
    h: u32,
    mc_dir: Seq<char>,
    os: Os,
) -> Seq<(Seq<char>, Seq<char>)> {
    let assets_dir = path_join_spec(mc_dir, "assets"@, os);
    let token = auth_token_spec(a);
    seq![
        ("auth_player_name"@, a.username@),
        ("version_name"@, vid),
        ("game_directory"@, mc_dir),
        ("assets_root"@, assets_dir),
        ("game_assets"@, assets_dir),
        ("assets_index_name"@, assets_index_spec(m, vid)),
        ("auth_uuid"@, strip_hyphens(a.uuid@)),
        ("auth_access_token"@, token),
        ("auth_session"@, token),
        ("user_type"@, user_type_spec(a.account_type@)),
        (
            "version_type"@,
            match m.version_type {
                Option::Some(t) => t,
                Option::None => "release"@,
            },
        ),
        ("user_properties"@, "{}"@),
        ("resolution_width"@, dec_rep(w as nat)),
        ("resolution_height"@, dec_rep(h as nat)),
    ]
}

/// Builds the game-argument substitution table.
pub fn game_variables(
    merged: &VersionDescriptor,
    version_id: &String,
    account: &Account,
    window: &WindowSize,
    mc_dir: &String,
    os: Os,
) -> (r: Vec<(String, String)>)
    ensures
        string_pairs_view(r@) == game_vars_spec(
            merged@,
            version_id@,
            *account,
            window.width,
            window.height,
            mc_dir@,
            os,
        ),
{
    let assets_dir = path_join(mc_dir, "assets", os);
    let uuid = remove_hyphens(&account.uuid);
    let token: String = match &account.access_token {
        Option::Some(t) => t.clone(),
        Option::None => uuid.clone(),
    };
    let user_type: String = if crate::text::string_is(&account.account_type, "microsoft") {
        "msa".to_owned()
    } else {
        "legacy".to_owned()
    };
    let assets_index: String = match &merged.assets {
        Option::Some(s) => s.clone(),
        Option::None => match &merged.asset_index {
            Option::Some(ai) => ai.id.clone(),
            Option::None => version_id.clone(),
        },
    };
    let version_type: String = match &merged.version_type {
        Option::Some(t) => t.clone(),
        Option::None => "release".to_owned(),
    };
    let mut r: Vec<(String, String)> = Vec::new();
    r.push(("auth_player_name".to_owned(), account.username.clone()));
    r.push(("version_name".to_owned(), version_id.clone()));
    r.push(("game_directory".to_owned(), mc_dir.clone()));
    r.push(("assets_root".to_owned(), assets_dir.clone()));
    r.push(("game_assets".to_owned(), assets_dir));
    r.push(("assets_index_name".to_owned(), assets_index));
    r.push(("auth_uuid".to_owned(), uuid));
    r.push(("auth_access_token".to_owned(), token.clone()));
    r.push(("auth_session".to_owned(), token));
    r.push(("user_type".to_owned(), user_type));
    r.push(("version_type".to_owned(), version_type));
    r.push(("user_properties".to_owned(), "{}".to_owned()));
    r.push(("resolution_width".to_owned(), u32_to_string(window.width)));
    r.push(("resolution_height".to_owned(), u32_to_string(window.height)));
    proof {
        assert(string_pairs_view(r@) =~~= game_vars_spec(
            merged@,
            version_id@,
            *account,
            window.width,
            window.height,
            mc_dir@,
            os,
        ));
    }
    r
}

/// Whether the merged descriptor follows the legacy argument schema: a
/// `minecraft_arguments` string is present and no modern JVM template is.
pub open spec fn legacy_schema(m: VersionDescriptorView) -> bool {
    m.minecraft_arguments is Some && !(match m.arguments {
        Option::Some(a) => a.jvm is Some,
        Option::None => false,
    })
}

/// Exec test for the legacy schema.
pub fn is_legacy_schema(merged: &VersionDescriptor) -> (r: bool)
    ensures
        r == legacy_schema(merged@),
{
    merged.minecraft_arguments.is_some() && !(match &merged.arguments {
        Option::Some(a) => a.jvm.is_some(),
        Option::None => false,
    })
}

/// A template string accepted as a JVM argument: not a classpath flag (the
/// engine appends its own), not a bare unresolved `${...}` placeholder
/// without a `-D`/`-X` payload, and flag-shaped.
pub open spec fn valid_jvm_arg(s: Seq<char>) -> bool {
    &&& !crate::text::starts_with_seq(s, "-cp"@)
    &&& !crate::text::starts_with_seq(s, "-classpath"@)
    &&& s != "${classpath}"@
    &&& !(crate::text::starts_with_seq(s, "${"@) && crate::text::ends_with_seq(s, "}"@)
        && !crate::text::contains_seq(s, "-D"@) && !crate::text::contains_seq(s, "-X"@))
    &&& crate::text::starts_with_seq(s, "-"@)
}

/// Exec test for `valid_jvm_arg`.
pub fn is_valid_jvm_arg(s: &String) -> (r: bool)
    ensures
        r == valid_jvm_arg(s@),
{
    let sv = str_chars(s.as_str());
    let cp = str_chars("-cp");
    let cpath = str_chars("-classpath");
    let cpvar = str_chars("${classpath}");
    let open_tok = str_chars("${");
    let close_tok = str_chars("}");
    let dflag = str_chars("-D");
    let xflag = str_chars("-X");
    let dash = str_chars("-");
    if crate::text::starts_with_chars(&sv, &cp) {
        return false;
    }
    if crate::text::starts_with_chars(&sv, &cpath) {
        return false;
    }
    if chars_eq(&sv, &cpvar) {
        return false;
    }
    if crate::text::starts_with_chars(&sv, &open_tok) && crate::text::ends_with_chars(
        &sv,
        &close_tok,
    ) && !crate::text::contains_chars(&sv, &dflag) && !crate::text::contains_chars(&sv, &xflag) {
        return false;
    }
    crate::text::starts_with_chars(&sv, &dash)
}

/// One produced argument, kept whole, or dropped by the JVM filter.
pub open spec fn emit_arg(s: Seq<char>, filter_jvm: bool) -> Seq<Seq<char>> {
    if !filter_jvm || valid_jvm_arg(s) {
        seq![s]
    } else {
        Seq::empty()
    }
}

/// The substituted values of a conditional entry's string list, each run
/// through the JVM filter when asked.
pub open spec fn subst_list(
    vs: Seq<Seq<char>>,
    vars: Seq<(Seq<char>, Seq<char>)>,
    filter_jvm: bool,
) -> Seq<Seq<char>>
    decreases vs.len(),
{
    if vs.len() == 0 {
        Seq::empty()
    } else {
        emit_arg(subst_spec(vs[0], vars), filter_jvm) + subst_list(vs.drop_first(), vars, filter_jvm)
    }
}

/// The arguments one template entry contributes: a plain string is
/// substituted; a conditional entry contributes its value only when its
/// rules pass on the platform named by `os_key`.
pub open spec fn entry_args(
    e: ArgEntryView,
    vars: Seq<(Seq<char>, Seq<char>)>,
    os_key: Seq<char>,
    filter_jvm: bool,
) -> Seq<Seq<char>> {
    match e {
        ArgEntryView::Plain(s) => emit_arg(subst_spec(s, vars), filter_jvm),
        ArgEntryView::Conditional { rules, value } => {
            if eval_rules(rules, os_key) {
                match value {
                    Option::Some(ArgValueView::One(s)) => emit_arg(subst_spec(s, vars), filter_jvm),
                    Option::Some(ArgValueView::Many(vs)) => subst_list(vs, vars, filter_jvm),
                    Option::None => Seq::empty(),
                }
            } else {
                Seq::empty()
            }
        },
    }
}

/// The arguments a whole template list contributes, in order.
pub open spec fn entries_args(
    es: Seq<ArgEntryView>,
    vars: Seq<(Seq<char>, Seq<char>)>,
    os_key: Seq<char>,
    filter_jvm: bool,
) -> Seq<Seq<char>>
    decreases es.len(),
{
    if es.len() == 0 {
        Seq::empty()
    } else {
        entry_args(es[0], vars, os_key, filter_jvm) + entries_args(
            es.drop_first(),
            vars,
            os_key,
            filter_jvm,
        )
    }
}

/// Appends the arguments of one template list to `out`.
fn process_arg_entries(
    entries: &Vec<ArgEntry>,
    vars: &Vec<(String, String)>,
    os: Os,
    filter_jvm: bool,
    out: &mut Vec<String>,
)
    ensures
        string_views(final (out)@) == string_views(old(out)@) + entries_args(
            crate::model::arg_entries_view(entries@),
            string_pairs_view(vars@),
            os_key_spec(os),
            filter_jvm,
        ),
{
    let ghost ev = crate::model::arg_entries_view(entries@);
    let ghost vv = string_pairs_view(vars@);
    let ghost okey = os_key_spec(os);
    let ghost base = string_views(out@);
    let mut i: usize = 0;
    proof {
        assert(string_views(out@) =~= base + entries_args(ev.subrange(0, 0), vv, okey, filter_jvm));
    }
    while i < entries.len()
        invariant
            i <= entries@.len(),
            ev == crate::model::arg_entries_view(entries@),
            vv == string_pairs_view(vars@),
            okey == os_key_spec(os),
            ev.len() == entries@.len(),
            string_views(out@) == base + entries_args(
                ev.subrange(0, i as int),
                vv,
                okey,
                filter_jvm,
            ),
        decreases entries@.len() - i,
    {
        let ghost pre = ev.subrange(0, i as int);
        let ghost now = ev.subrange(0, i + 1);
        let ghost acc0 = string_views(out@);
        match &entries[i] {
            ArgEntry::Plain(s) => {
                let p = replace_variables(s, vars);
                if !filter_jvm || is_valid_jvm_arg(&p) {
                    out.push(p);
                    proof {
                        assert(string_views(out@) =~~= acc0.push(out@[out@.len() - 1]@));
                    }
                }
            },
            ArgEntry::Conditional { rules, value } => {
                if check_rules(rules, os) {
                    match value {
                        Option::Some(ArgValue::One(s)) => {
                            let p = replace_variables(s, vars);
                            if !filter_jvm || is_valid_jvm_arg(&p) {
                                out.push(p);
                                proof {
                                    assert(string_views(out@) =~~= acc0.push(
                                        out@[out@.len() - 1]@,
                                    ));
                                }
                            }
                        },
                        Option::Some(ArgValue::Many(vs)) => {
                            let ghost vsv = string_views(vs@);
                            let mut k: usize = 0;
                            proof {
                                assert(string_views(out@) =~= acc0 + subst_list(
                                    vsv.subrange(0, 0),
                                    vv,
                                    filter_jvm,
                                ));
                            }
                            while k < vs.len()
                                invariant
                                    k <= vs@.len(),
                                    vsv == string_views(vs@),
                                    vv == string_pairs_view(vars@),
                                    vsv.len() == vs@.len(),
                                    string_views(out@) == acc0 + subst_list(
                                        vsv.subrange(0, k as int),
                                        vv,
                                        filter_jvm,
                                    ),
                                decreases vs@.len() - k,
                            {
                                let ghost kpre = vsv.subrange(0, k as int);
                                let ghost know = vsv.subrange(0, k + 1);
                                let ghost kacc = string_views(out@);
                                let p = replace_variables(&vs[k], vars);
                                if !filter_jvm || is_valid_jvm_arg(&p) {
                                    out.push(p);
                                    proof {
                                        assert(string_views(out@) =~~= kacc.push(
                                            out@[out@.len() - 1]@,
                                        ));
                                    }
                                }
                                k = k + 1;
                                proof {
                                    lemma_subst_list_push(kpre, vsv[k - 1], vv, filter_jvm);
                                    assert(know =~= kpre.push(vsv[k - 1]));
                                    assert(string_views(out@) =~~= acc0 + subst_list(
                                        know,
                                        vv,
                                        filter_jvm,
                                    ));
                                }
                            }
                            proof {
                                assert(vsv.subrange(0, vsv.len() as int) =~= vsv);
                            }
                        },
                        Option::None => {},
                    }
                }
            },
        }
        i = i + 1;
        proof {
            lemma_entries_args_push(pre, ev[i - 1], vv, okey, filter_jvm);
            assert(now =~= pre.push(ev[i - 1]));
            assert(string_views(out@) =~~= base + entries_args(now, vv, okey, filter_jvm));
        }
    }
    proof {
        assert(ev.subrange(0, ev.len() as int) =~= ev);
    }
}

/// Appending one string to a substitution list appends its contribution.
proof fn lemma_subst_list_push(
    vs: Seq<Seq<char>>,
    x: Seq<char>,
    vars: Seq<(Seq<char>, Seq<char>)>,
    filter_jvm: bool,
)
    ensures
        subst_list(vs.push(x), vars, filter_jvm) == subst_list(vs, vars, filter_jvm) + emit_arg(
            subst_spec(x, vars),
            filter_jvm,
        ),
    decreases vs.len(),
{
    if vs.len() == 0 {
        assert(vs.push(x).drop_first() =~= Seq::<Seq<char>>::empty());
        assert(vs.push(x)[0] == x);
        assert(subst_list(Seq::<Seq<char>>::empty(), vars, filter_jvm) =~= Seq::<
            Seq<char>,
        >::empty());
        assert(subst_list(vs.push(x), vars, filter_jvm) =~~= subst_list(vs, vars, filter_jvm)
            + emit_arg(subst_spec(x, vars), filter_jvm));
    } else {
        lemma_subst_list_push(vs.drop_first(), x, vars, filter_jvm);
        assert(vs.push(x).drop_first() =~= vs.drop_first().push(x));
        assert(vs.push(x)[0] == vs[0]);
        assert(subst_list(vs.push(x), vars, filter_jvm) =~~= subst_list(vs, vars, filter_jvm)
            + emit_arg(subst_spec(x, vars), filter_jvm));
    }
}

/// Appending one entry to a template list appends its contribution.
proof fn lemma_entries_args_push(
    es: Seq<ArgEntryView>,
    e: ArgEntryView,
    vars: Seq<(Seq<char>, Seq<char>)>,
    os_key: Seq<char>,
    filter_jvm: bool,
)
    ensures
        entries_args(es.push(e), vars, os_key, filter_jvm) == entries_args(
            es,
            vars,
            os_key,
            filter_jvm,
        ) + entry_args(e, vars, os_key, filter_jvm),
    decreases es.len(),
{
    if es.len() == 0 {
        assert(es.push(e).drop_first() =~= Seq::<ArgEntryView>::empty());
        assert(es.push(e)[0] == e);
        assert(entries_args(Seq::<ArgEntryView>::empty(), vars, os_key, filter_jvm) =~= Seq::<
            Seq<char>,
        >::empty());
        assert(entries_args(es.push(e), vars, os_key, filter_jvm) =~~= entries_args(
            es,
            vars,
            os_key,
            filter_jvm,
        ) + entry_args(e, vars, os_key, filter_jvm));
    } else {
        lemma_entries_args_push(es.drop_first(), e, vars, os_key, filter_jvm);
        assert(es.push(e).drop_first() =~= es.drop_first().push(e));
        assert(es.push(e)[0] == es[0]);
        assert(entries_args(es.push(e), vars, os_key, filter_jvm) =~~= entries_args(
            es,
            vars,
            os_key,
            filter_jvm,
        ) + entry_args(e, vars, os_key, filter_jvm));
    }
}

/// The substituted whitespace-separated fields of a legacy argument string.
pub open spec fn legacy_args_spec(s: Seq<char>, vars: Seq<(Seq<char>, Seq<char>)>) -> Seq<
    Seq<char>,
> {
    nonempty_of(split_spec(s, SepClass::Whitespace)).map_values(|t: Seq<char>| subst_spec(t, vars))
}

/// The full game-argument vector of a merged descriptor.
///
/// Exactly one schema is consulted: the legacy `minecraft_arguments`
/// string, whitespace-split, when the descriptor follows the legacy
/// schema; else the modern `arguments.game` template list. If no `--width`
/// argument results, an explicit `--width w --height h` pair is appended,
/// so every launch carries a resolution.
pub open spec fn game_args_spec(
    m: VersionDescriptorView,
    vid: Seq<char>,
    a: Account,
    w: u32,
    h: u32,
    mc_dir: Seq<char>,
    os: Os,
) -> Seq<Seq<char>> {
    let vars = game_vars_spec(m, vid, a, w, h, mc_dir, os);
    let base = if legacy_schema(m) {
        legacy_args_spec(m.minecraft_arguments.unwrap(), vars)
    } else {
        match m.arguments {
            Option::Some(ar) => match ar.game {
                Option::Some(g) => entries_args(g, vars, os_key_spec(os), false),
                Option::None => Seq::empty(),
            },
            Option::None => Seq::empty(),
        }
    };
    if base.contains("--width"@) {
        base
    } else {
        base + seq!["--width"@, dec_rep(w as nat), "--height"@, dec_rep(h as nat)]
    }
}

/// The last path component of `p`: everything after the final platform
/// separator.
pub open spec fn base_name_spec(p: Seq<char>, os: Os) -> Seq<char> {
    split_spec(p, SepClass::Exact(crate::platform::path_sep_char_spec(os))).last()
}

/// The last path component of `p`.
pub fn base_name(p: &String, os: Os) -> (r: String)
    ensures
        r@ == base_name_spec(p@, os),
{
    let chars = str_chars(p.as_str());
    let parts = split_chars(&chars, SepClass::Exact(crate::platform::path_sep_char(os)));
    proof {
        crate::text::lemma_split_nonempty(p@, SepClass::Exact(crate::platform::path_sep_char_spec(os)));
        assert(crate::text::views_of(parts@).last() == parts@[parts@.len() - 1]@);
    }
    let last = &parts[parts.len() - 1];
    chars_to_string(last)
}

/// The JVM-argument substitution table.
pub open spec fn jvm_vars_spec(
    natives_dir: Seq<char>,
    classpath: Seq<char>,
    mc_dir: Seq<char>,
    vid: Seq<char>,
    primary_jar: Seq<char>,
    os: Os,
) -> Seq<(Seq<char>, Seq<char>)> {
    seq![
        ("natives_directory"@, natives_dir),
        ("launcher_name"@, "ImagineLauncher"@),
        ("launcher_version"@, "1.0.0"@),
        ("classpath"@, classpath),
        ("classpath_separator"@, crate::platform::classpath_sep_spec(os)),
        ("library_directory"@, path_join_spec(mc_dir, "libraries"@, os)),
        ("version_name"@, vid),
        ("primary_jar"@, primary_jar),
        ("primary_jar_name"@, base_name_spec(primary_jar, os)),
    ]
}

/// Builds the JVM-argument substitution table.
pub fn jvm_variables(
    natives_dir: &String,
    classpath: &String,
    mc_dir: &String,
    version_id: &String,
    primary_jar: &String,
    os: Os,
) -> (r: Vec<(String, String)>)
    ensures
        string_pairs_view(r@) == jvm_vars_spec(
            natives_dir@,
            classpath@,
            mc_dir@,
            version_id@,
            primary_jar@,
            os,
        ),
{
    let mut r: Vec<(String, String)> = Vec::new();
    r.push(("natives_directory".to_owned(), natives_dir.clone()));
    r.push(("launcher_name".to_owned(), "ImagineLauncher".to_owned()));
    r.push(("launcher_version".to_owned(), "1.0.0".to_owned()));
    r.push(("classpath".to_owned(), classpath.clone()));
    r.push(("classpath_separator".to_owned(), crate::platform::classpath_separator(os).to_owned()));
    r.push(("library_directory".to_owned(), path_join(mc_dir, "libraries", os)));
    r.push(("version_name".to_owned(), version_id.clone()));
    r.push(("primary_jar".to_owned(), primary_jar.clone()));
    r.push(("primary_jar_name".to_owned(), base_name(primary_jar, os)));
    proof {
        assert(string_pairs_view(r@) =~~= jvm_vars_spec(
            natives_dir@,
            classpath@,
            mc_dir@,
            version_id@,
            primary_jar@,
            os,
        ));
    }
    r
}

/// The fixed flags every launch starts from: heap bounds, the G1 tuning
/// profile, the Log4J lookup mitigation, the stack size, the Windows
/// masquerade flags for modern versions, and the Forge certificate
/// leniency flags.
pub open spec fn jvm_baseline(mem_min: u32, mem_max: u32, legacy: bool, os: Os) -> Seq<Seq<char>> {
    let heap = seq![
        "-Xms"@ + dec_rep(mem_min as nat) + "M"@,
        "-Xmx"@ + dec_rep(mem_max as nat) + "M"@,
    ];
    let gc = seq![
        "-XX:+UnlockExperimentalVMOptions"@,
        "-XX:+UseG1GC"@,
        "-XX:G1NewSizePercent=20"@,
        "-XX:G1ReservePercent=20"@,
        "-XX:MaxGCPauseMillis=50"@,
        "-XX:G1HeapRegionSize=32m"@,
        "-XX:-UseAdaptiveSizePolicy"@,
        "-XX:-OmitStackTraceInFastThrow"@,
        "-Dlog4j2.formatMsgNoLookups=true"@,
        "-Xss1M"@,
    ];
    let win: Seq<Seq<char>> = if os is Windows {
        seq![
            "-XX:HeapDumpPath=MojangTricksIntelDriversForPerformance_javaw.exe_minecraft.exe.heapdump"@,
        ] + if !legacy {
            seq!["-Dos.name=Windows 10"@, "-Dos.version=10.0"@]
        } else {
            Seq::empty()
        }
    } else {
        Seq::empty()
    };
    let forge = seq![
        "-Dfml.ignoreInvalidMinecraftCertificates=true"@,
        "-Dfml.ignorePatchDiscrepancies=true"@,
    ];
    heap + gc + win + forge
}

/// Whether some argument of `list` holds `pat` as a substring.
pub open spec fn any_contains(list: Seq<Seq<char>>, pat: Seq<char>) -> bool {
    exists|i: int| 0 <= i < list.len() && crate::text::contains_seq(list[i], pat)
}

/// `list`, with `arg` appended when no argument holds `pat`.
pub open spec fn add_if_missing(list: Seq<Seq<char>>, pat: Seq<char>, arg: Seq<char>) -> Seq<
    Seq<char>,
> {
    if any_contains(list, pat) {
        list
    } else {
        list.push(arg)
    }
}

/// Whether some argument holds the text of `pat` as a substring.
fn any_contains_exec(args: &Vec<String>, pat: &str) -> (r: bool)
    ensures
        r == any_contains(string_views(args@), pat@),
{
    let mut i: usize = 0;
    while i < args.len()
        invariant
            i <= args@.len(),
            forall|j: int| 0 <= j < i ==> !crate::text::contains_seq(args@[j]@, pat@),
        decreases args@.len() - i,
    {
        if crate::text::contains_str(args[i].as_str(), pat) {
            proof {
                assert(crate::text::contains_seq(string_views(args@)[i as int], pat@));
            }
            return true;
        }
        i = i + 1;
    }
    proof {
        assert forall|j: int| 0 <= j < string_views(args@).len() implies !crate::text::contains_seq(
            string_views(args@)[j],
            pat@,
        ) by {
            assert(string_views(args@)[j] == args@[j]@);
        }
    }
    false
}

/// Appends `arg` unless some argument already holds `pat`.
fn push_if_missing(args: &mut Vec<String>, pat: &str, arg: String)
    ensures
        string_views(final (args)@) == add_if_missing(string_views(old(args)@), pat@, arg@),
{
    let ghost acc0 = string_views(args@);
    if !any_contains_exec(args, pat) {
        args.push(arg);
        proof {
            assert(string_views(args@) =~~= acc0.push(args@[args@.len() - 1]@));
        }
    }
}

/// The full JVM-argument vector: the fixed baseline, the descriptor's own
/// JVM templates (substituted, rule-gated, and filtered), synthesized
/// defaults for the well-known flags that are still absent, extra native
/// path properties for legacy descriptors, and the classpath last.
pub open spec fn jvm_args_spec(
    m: VersionDescriptorView,
    mem_min: u32,
    mem_max: u32,
    natives_dir: Seq<char>,
    classpath: Seq<char>,
    vars: Seq<(Seq<char>, Seq<char>)>,
    os: Os,
) -> Seq<Seq<char>> {
    let legacy = legacy_schema(m);
    let base = jvm_baseline(mem_min, mem_max, legacy, os);
    let templ = base + (match m.arguments {
        Option::Some(a) => match a.jvm {
            Option::Some(j) => entries_args(j, vars, os_key_spec(os), true),
            Option::None => Seq::empty(),
        },
        Option::None => Seq::empty(),
    });
    let d1 = add_if_missing(templ, "-Djava.library.path"@, "-Djava.library.path="@ + natives_dir);
    let d2 = add_if_missing(
        d1,
        "-Dminecraft.launcher.brand"@,
        "-Dminecraft.launcher.brand=ImagineLauncher"@,
    );
    let d3 = add_if_missing(
        d2,
        "-Dminecraft.launcher.version"@,
        "-Dminecraft.launcher.version=1.0.0"@,
    );
    let d4 = if legacy {
        let e1 = add_if_missing(d3, "-Djna.tmpdir"@, "-Djna.tmpdir="@ + natives_dir);
        let e2 = add_if_missing(
            e1,
            "-Dorg.lwjgl.system.SharedLibraryExtractPath"@,
            "-Dorg.lwjgl.system.SharedLibraryExtractPath="@ + natives_dir,
        );
        add_if_missing(
            e2,
            "-Dio.netty.native.workdir"@,
            "-Dio.netty.native.workdir="@ + natives_dir,
        )
    } else {
        d3
    };
    d4 + seq!["-cp"@, classpath]
}

/// A flag `-Dname=` completed with the natives directory.
fn natives_flag(prefix: &str, natives_dir: &String) -> (r: String)
    ensures
        r@ == prefix@ + natives_dir@,
{
    let mut a = prefix.to_owned();
    a.append(natives_dir.as_str());
    a
}

/// Builds the JVM-argument vector for a launch.
pub fn build_jvm_args(
    merged: &VersionDescriptor,
    mem_min: u32,
    mem_max: u32,
    natives_dir: &String,
    classpath: &String,
    vars: &Vec<(String, String)>,
    os: Os,
) -> (r: Vec<String>)
    ensures
        string_views(r@) == jvm_args_spec(
            merged@,
            mem_min,
            mem_max,
            natives_dir@,
            classpath@,
            string_pairs_view(vars@),
            os,
        ),
{
    let ghost vv = string_pairs_view(vars@);
    let legacy = is_legacy_schema(merged);
    let mut args: Vec<String> = Vec::new();
    let mut xms = "-Xms".to_owned();
    xms.append(u32_to_string(mem_min).as_str());
    xms.append("M");
    args.push(xms);
    let mut xmx = "-Xmx".to_owned();
    xmx.append(u32_to_string(mem_max).as_str());
    xmx.append("M");
    args.push(xmx);
    args.push("-XX:+UnlockExperimentalVMOptions".to_owned());
    args.push("-XX:+UseG1GC".to_owned());
    args.push("-XX:G1NewSizePercent=20".to_owned());
    args.push("-XX:G1ReservePercent=20".to_owned());
    args.push("-XX:MaxGCPauseMillis=50".to_owned());
    args.push("-XX:G1HeapRegionSize=32m".to_owned());
    args.push("-XX:-UseAdaptiveSizePolicy".to_owned());
    args.push("-XX:-OmitStackTraceInFastThrow".to_owned());
    args.push("-Dlog4j2.formatMsgNoLookups=true".to_owned());
    args.push("-Xss1M".to_owned());
    if let Os::Windows = os {
        args.push(
            "-XX:HeapDumpPath=MojangTricksIntelDriversForPerformance_javaw.exe_minecraft.exe.heapdump".to_owned(),
        );
        if !legacy {
            args.push("-Dos.name=Windows 10".to_owned());
            args.push("-Dos.version=10.0".to_owned());
        }
    }
    args.push("-Dfml.ignoreInvalidMinecraftCertificates=true".to_owned());
    args.push("-Dfml.ignorePatchDiscrepancies=true".to_owned());
    proof {
        assert(string_views(args@) =~~= jvm_baseline(mem_min, mem_max, legacy_schema(merged@), os));
    }
    let ghost base = string_views(args@);
    match &merged.arguments {
        Option::Some(a) => match &a.jvm {
            Option::Some(j) => {
                process_arg_entries(j, vars, os, true, &mut args);
            },
            Option::None => {},
        },
        Option::None => {},
    }
    proof {
        assert(string_views(args@) =~~= base + (match merged@.arguments {
            Option::Some(a) => match a.jvm {
                Option::Some(jj) => entries_args(jj, vv, os_key_spec(os), true),
                Option::None => Seq::<Seq<char>>::empty(),
            },
            Option::None => Seq::<Seq<char>>::empty(),
        }));
    }
    push_if_missing(&mut args, "-Djava.library.path", natives_flag("-Djava.library.path=", natives_dir));
    push_if_missing(
        &mut args,
        "-Dminecraft.launcher.brand",
        "-Dminecraft.launcher.brand=ImagineLauncher".to_owned(),
    );
    push_if_missing(
        &mut args,
        "-Dminecraft.launcher.version",
        "-Dminecraft.launcher.version=1.0.0".to_owned(),
    );
    if legacy {
        push_if_missing(&mut args, "-Djna.tmpdir", natives_flag("-Djna.tmpdir=", natives_dir));
        push_if_missing(
            &mut args,
            "-Dorg.lwjgl.system.SharedLibraryExtractPath",
            natives_flag("-Dorg.lwjgl.system.SharedLibraryExtractPath=", natives_dir),
        );
        push_if_missing(
            &mut args,
            "-Dio.netty.native.workdir",
            natives_flag("-Dio.netty.native.workdir=", natives_dir),
        );
    }
    let ghost before_cp = string_views(args@);
    args.push("-cp".to_owned());
    args.push(classpath.clone());
    proof {
        assert(string_views(args@) =~~= before_cp + seq!["-cp"@, classpath@]);
    }
    args
}

/// Whether some argument equals the text of `pat`.
fn any_equals(args: &Vec<String>, pat: &str) -> (r: bool)
    ensures
        r == string_views(args@).contains(pat@),
{
    let mut i: usize = 0;
    while i < args.len()
        invariant
            i <= args@.len(),
            forall|j: int| 0 <= j < i ==> args@[j]@ != pat@,
        decreases args@.len() - i,
    {
        if crate::text::string_is(&args[i], pat) {
            proof {
                assert(string_views(args@)[i as int] == pat@);
            }
            return true;
        }
        i = i + 1;
    }
    proof {
        assert forall|j: int| 0 <= j < string_views(args@).len() implies string_views(args@)[j]
            != pat@ by {
            assert(string_views(args@)[j] == args@[j]@);
        }
    }
    false
}

/// Builds the game-argument vector for a launch.
pub fn build_game_args(
    merged: &VersionDescriptor,
    version_id: &String,
    account: &Account,
    window: &WindowSize,
    mc_dir: &String,
    os: Os,
) -> (r: Vec<String>)
    ensures
        string_views(r@) == game_args_spec(
            merged@,
            version_id@,
            *account,
            window.width,
            window.height,
            mc_dir@,
            os,
        ),
{
    let vars = game_variables(merged, version_id, account, window, mc_dir, os);
    let ghost vv = string_pairs_view(vars@);
    let mut args: Vec<String> = Vec::new();
    if is_legacy_schema(merged) {
        let legacy = match &merged.minecraft_arguments {
            Option::Some(s) => s,
            Option::None => {
                proof {
                    assert(false);
                }
                &version_id  // unreachable: the legacy schema has the string
            },
        };
        let chars = str_chars(legacy.as_str());
        let fields = split_chars(&chars, SepClass::Whitespace);
        let tokens = nonempty_fields(&fields);
        let ghost tv = crate::text::views_of(tokens@);
        proof {
            assert(string_views(args@) =~= tv.subrange(0, 0).map_values(
                |t: Seq<char>| subst_spec(t, vv),
            ));
        }
        let mut i: usize = 0;
        while i < tokens.len()
            invariant
                i <= tokens@.len(),
                tv == crate::text::views_of(tokens@),
                vv == string_pairs_view(vars@),
                tv.len() == tokens@.len(),
                string_views(args@) == tv.subrange(0, i as int).map_values(
                    |t: Seq<char>| subst_spec(t, vv),
                ),
            decreases tokens@.len() - i,
        {
            let ghost pre = tv.subrange(0, i as int);
            let ghost acc0 = string_views(args@);
            let tok = chars_to_string(&tokens[i]);
            let p = replace_variables(&tok, &vars);
            args.push(p);
            i = i + 1;
            proof {
                assert(tv.subrange(0, i as int) =~= pre.push(tv[i - 1]));
                assert(string_views(args@) =~~= acc0.push(args@[args@.len() - 1]@));
                assert(string_views(args@) =~~= tv.subrange(0, i as int).map_values(
                    |t: Seq<char>| subst_spec(t, vv),
                ));
            }
        }
        proof {
            assert(tv.subrange(0, tv.len() as int) =~= tv);
        }
    } else {
        match &merged.arguments {
            Option::Some(ar) => match &ar.game {
                Option::Some(g) => {
                    process_arg_entries(g, &vars, os, false, &mut args);
                    proof {
                        assert(string_views(args@) =~= Seq::<Seq<char>>::empty() + string_views(
                            args@,
                        ));
                    }
                },
                Option::None => {},
            },
            Option::None => {},
        }
    }
    if !any_equals(&args, "--width") {
        let ghost acc0 = string_views(args@);
        args.push("--width".to_owned());
        args.push(u32_to_string(window.width));
        args.push("--height".to_owned());
        args.push(u32_to_string(window.height));
        proof {
            assert(string_views(args@) =~~= acc0 + seq![
                "--width"@,
                dec_rep(window.width as nat),
                "--height"@,
                dec_rep(window.height as nat),
            ]);
        }
    }
    args
}

} // verus!
