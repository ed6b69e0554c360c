//! The diagnostic launch script: a standalone batch script holding the
//! exact classpath and main class a live launch would use, with a fixed
//! placeholder player and a zero access token.
//!
//! The script can be parsed back, and parsing recovers the classpath and
//! main class byte for byte — proved in `lemma_script_round_trip`.
use vstd::prelude::*;
use crate::classpath::{build_classpath, classpath_spec};
use crate::launch::natives_dir_spec;
use crate::merge::{
    chain_ids_view, merge_chain_view, merge_version_chain, spec_chain,
};
use crate::model::{descriptors_view, VersionDescriptor};
use crate::platform::{classpath_sep_spec, path_join, path_join_spec, Os};
use crate::text::{
    chars_to_string, dec_rep, is_digit, join_spec, join_with, lemma_split_step,
    lemma_split_whole, split_chars, split_spec, starts_with_seq, str_chars, string_views,
    u32_to_string, views_of, SepClass,
};

verus! {

/// The lines of the launch script, in order.
pub open spec fn script_lines_spec(
    vid: Seq<char>,
    time: Seq<char>,
    mc: Seq<char>,
    java: Seq<char>,
    mem_min: u32,
    mem_max: u32,
    natives: Seq<char>,
    cp: Seq<char>,
    main: Seq<char>,
    assets: Seq<char>,
) -> Seq<Seq<char>> {
    seq![
        "@echo off"@,
        "REM ======================================================================"@,
        "REM launch script generated by the launcher"@,
        "REM version: "@ + vid,
        "REM generated at: "@ + time,
        "REM ======================================================================"@,
        ""@,
        "REM working directory"@,
        "cd /d \""@ + mc + "\""@,
        ""@,
        "REM java path"@,
        "set JAVA_PATH=\""@ + java + "\""@,
        ""@,
        "REM memory"@,
        "set MIN_MEMORY="@ + dec_rep(mem_min as nat) + "M"@,
        "set MAX_MEMORY="@ + dec_rep(mem_max as nat) + "M"@,
        ""@,
        "REM natives directory"@,
        "set NATIVES_DIR=\""@ + natives + "\""@,
        ""@,
        "REM classpath"@,
        "set CLASSPATH="@ + cp,
        ""@,
        "REM main class"@,
        "set MAIN_CLASS="@ + main,
        ""@,
        "REM launch command"@,
        "\"%JAVA_PATH%\" ^"@,
        "    -Xms%MIN_MEMORY% ^"@,
        "    -Xmx%MAX_MEMORY% ^"@,
        "    -XX:+UnlockExperimentalVMOptions ^"@,
        "    -XX:+UseG1GC ^"@,
        "    -Djava.library.path=\"%NATIVES_DIR%\" ^"@,
        "    -cp \"%CLASSPATH%\" ^"@,
        "    %MAIN_CLASS% ^"@,
        "    --username Player ^"@,
        "    --version "@ + vid + " ^"@,
        "    --gameDir \""@ + mc + "\" ^"@,
        "    --assetsDir \""@ + mc + "\\assets\" ^"@,
        "    --assetIndex "@ + assets + " ^"@,
        "    --accessToken 0 ^"@,
        "    --userType legacy"@,
        ""@,
        "pause"@,
    ]
}

/// The whole script text: its lines joined with newlines.
pub open spec fn script_text_spec(
    vid: Seq<char>,
    time: Seq<char>,
    mc: Seq<char>,
    java: Seq<char>,
    mem_min: u32,
    mem_max: u32,
    natives: Seq<char>,
    cp: Seq<char>,
    main: Seq<char>,
    assets: Seq<char>,
) -> Seq<char> {
    join_spec(
        script_lines_spec(vid, time, mc, java, mem_min, mem_max, natives, cp, main, assets),
        "\n"@,
    )
}

/// The text after `prefix` on the first line that starts with it.
pub open spec fn line_value(lines: Seq<Seq<char>>, prefix: Seq<char>) -> Option<Seq<char>>
    decreases lines.len(),
{
    if lines.len() == 0 {
        Option::None
    } else if starts_with_seq(lines[0], prefix) {
        Option::Some(lines[0].skip(prefix.len() as int))
    } else {
        line_value(lines.drop_first(), prefix)
    }
}

/// What parsing a script recovers: the classpath and the main class, when
/// both lines are found.
pub open spec fn parse_script_spec(text: Seq<char>) -> Option<(Seq<char>, Seq<char>)> {
    let lines = split_spec(text, SepClass::Exact('\n'));
    match (line_value(lines, "set CLASSPATH="@), line_value(lines, "set MAIN_CLASS="@)) {
        (Option::Some(cp), Option::Some(main)) => Option::Some((cp, main)),
        _ => Option::None,
    }
}

/// Reads the classpath and main class back out of a launch script.
pub fn parse_launch_script(text: &String) -> (r: Option<(String, String)>)
    ensures
        match r {
            Option::Some(p) => parse_script_spec(text@) == Option::Some((p.0@, p.1@)),
            Option::None => parse_script_spec(text@) is None,
        },
{
    let chars = str_chars(text.as_str());
    let lines = split_chars(&chars, SepClass::Exact('\n'));
    proof {
        assert(views_of(lines@) == split_spec(text@, SepClass::Exact('\n')));
    }
    let cp = find_line_value(&lines, "set CLASSPATH=");
    let main = find_line_value(&lines, "set MAIN_CLASS=");
    match (cp, main) {
        (Option::Some(c), Option::Some(m)) => Option::Some((c, m)),
        _ => Option::None,
    }
}

/// The text after `prefix` on the first line that starts with it.
fn find_line_value(lines: &Vec<Vec<char>>, prefix: &str) -> (r: Option<String>)
    ensures
        crate::model::opt_str_view(r) == line_value(views_of(lines@), prefix@),
{
    let ghost lv = views_of(lines@);
    proof {
        assert(lv.subrange(0, lv.len() as int) =~= lv);
    }
    let pv = str_chars(prefix);
    let mut i: usize = 0;
    while i < lines.len()
        invariant
            i <= lv.len(),
            lv == views_of(lines@),
            lv.len() == lines@.len(),
            pv@ == prefix@,
            line_value(lv, prefix@) == line_value(lv.subrange(i as int, lv.len() as int), prefix@),
        decreases lv.len() - i,
    {
        let ghost pre = lv.subrange(i as int, lv.len() as int);
        proof {
            assert(pre[0] == lv[i as int]);
        }
        if crate::text::starts_with_chars(&lines[i], &pv) {
            let tail = crate::text::subrange_chars(&lines[i], pv.len(), lines[i].len());
            proof {
                assert(tail@ =~= lv[i as int].skip(prefix@.len() as int));
            }
            return Option::Some(chars_to_string(&tail));
        }
        i = i + 1;
        proof {
            assert(pre.drop_first() =~= lv.subrange(i as int, lv.len() as int));
        }
    }
    proof {
        assert(lv.subrange(lv.len() as int, lv.len() as int) =~= Seq::<Seq<char>>::empty());
    }
    Option::None
}

/// A sequence free of newlines.
pub open spec fn no_newline(s: Seq<char>) -> bool {
    forall|i: int| 0 <= i < s.len() ==> s[i] != '\n'
}

/// Splitting on newlines undoes joining with newlines, for lines that are
/// themselves free of newlines.
pub proof fn lemma_split_join(ps: Seq<Seq<char>>)
    requires
        ps.len() >= 1,
        forall|i: int| 0 <= i < ps.len() ==> no_newline(#[trigger] ps[i]),
    ensures
        split_spec(join_spec(ps, "\n"@), SepClass::Exact('\n')) == ps,
    decreases ps.len(),
{
    reveal_strlit("\n");
    let nl = SepClass::Exact('\n');
    if ps.len() == 1 {
        assert(join_spec(ps, "\n"@) == ps[0]);
        lemma_split_whole(ps[0], nl);
        assert(split_spec(join_spec(ps, "\n"@), nl) =~~= ps);
    } else {
        let rest = ps.drop_first();
        lemma_split_join(rest);
        let t = join_spec(ps, "\n"@);
        assert(t == ps[0] + "\n"@ + join_spec(rest, "\n"@));
        let k = ps[0].len() as int;
        assert(t[k] == '\n');
        assert forall|j: int| 0 <= j < k implies !crate::text::sep_matches(nl, t[j]) by {
            assert(t[j] == ps[0][j]);
        }
        lemma_split_step(t, nl, k);
        assert(t.subrange(0, k) =~= ps[0]);
        assert(t.subrange(k + 1, t.len() as int) =~= join_spec(rest, "\n"@));
        assert(split_spec(t, nl) =~~= seq![ps[0]] + rest);
        assert(seq![ps[0]] + rest =~~= ps);
    }
}

/// Every digit of a decimal representation is a digit — in particular,
/// never a newline.
pub proof fn lemma_dec_rep_digits(n: nat)
    ensures
        forall|i: int| 0 <= i < dec_rep(n).len() ==> is_digit(#[trigger] dec_rep(n)[i]),
    decreases n,
{
    if n < 10 {
        assert(dec_rep(n) == seq![crate::text::dec_digit(n)]);
        assert(((48 + n) as u8) as char as u32 == 48 + n);
        assert(is_digit(dec_rep(n)[0]));
    } else {
        lemma_dec_rep_digits(n / 10);
        let d = n % 10;
        assert(((48 + d) as u8) as char as u32 == 48 + d);
        assert(is_digit(crate::text::dec_digit(d)));
        assert(dec_rep(n) == dec_rep(n / 10).push(crate::text::dec_digit(d)));
        assert forall|i: int| 0 <= i < dec_rep(n).len() implies is_digit(
            #[trigger] dec_rep(n)[i],
        ) by {
            if i < dec_rep(n / 10).len() {
                assert(dec_rep(n)[i] == dec_rep(n / 10)[i]);
            } else {
                assert(dec_rep(n)[i] == crate::text::dec_digit(d));
            }
        }
    }
}

/// Parsing a generated script recovers the classpath and the main class
/// exactly as they were written: for every set of newline-free inputs, the
/// script holds one `set CLASSPATH=` line and one `set MAIN_CLASS=` line,
/// the first of each, and their values are the inputs byte for byte.
pub proof fn lemma_script_round_trip(
    vid: Seq<char>,
    time: Seq<char>,
    mc: Seq<char>,
    java: Seq<char>,
    mem_min: u32,
    mem_max: u32,
    natives: Seq<char>,
    cp: Seq<char>,
    main: Seq<char>,
    assets: Seq<char>,
)
    requires
        no_newline(vid),
        no_newline(time),
        no_newline(mc),
        no_newline(java),
        no_newline(natives),
        no_newline(cp),
        no_newline(main),
        no_newline(assets),
    ensures
        parse_script_spec(
            script_text_spec(vid, time, mc, java, mem_min, mem_max, natives, cp, main, assets),
        ) == Option::Some((cp, main)),
{
    let lines = script_lines_spec(vid, time, mc, java, mem_min, mem_max, natives, cp, main, assets);
    let text = script_text_spec(vid, time, mc, java, mem_min, mem_max, natives, cp, main, assets);
    reveal_strlit("@echo off");
    reveal_strlit("REM ======================================================================");
    reveal_strlit("REM launch script generated by the launcher");
    reveal_strlit("REM version: ");
    reveal_strlit("REM generated at: ");
    reveal_strlit("");
    reveal_strlit("REM working directory");
    reveal_strlit("cd /d \"");
    reveal_strlit("\"");
    reveal_strlit("REM java path");
    reveal_strlit("set JAVA_PATH=\"");
    reveal_strlit("REM memory");
    reveal_strlit("set MIN_MEMORY=");
    reveal_strlit("set MAX_MEMORY=");
    reveal_strlit("M");
    reveal_strlit("REM natives directory");
    reveal_strlit("set NATIVES_DIR=\"");
    reveal_strlit("REM classpath");
    reveal_strlit("set CLASSPATH=");
    reveal_strlit("REM main class");
    reveal_strlit("set MAIN_CLASS=");
    reveal_strlit("REM launch command");
    reveal_strlit("\"%JAVA_PATH%\" ^");
    reveal_strlit("    -Xms%MIN_MEMORY% ^");
    reveal_strlit("    -Xmx%MAX_MEMORY% ^");
    reveal_strlit("    -XX:+UnlockExperimentalVMOptions ^");
    reveal_strlit("    -XX:+UseG1GC ^");
    reveal_strlit("    -Djava.library.path=\"%NATIVES_DIR%\" ^");
    reveal_strlit("    -cp \"%CLASSPATH%\" ^");
    reveal_strlit("    %MAIN_CLASS% ^");
    reveal_strlit("    --username Player ^");
    reveal_strlit("    --version ");
    reveal_strlit(" ^");
    reveal_strlit("    --gameDir \"");
    reveal_strlit("\" ^");
    reveal_strlit("    --assetsDir \"");
    reveal_strlit("\\assets\" ^");
    reveal_strlit("    --assetIndex ");
    reveal_strlit("    --accessToken 0 ^");
    reveal_strlit("    --userType legacy");
    reveal_strlit("pause");
    reveal_strlit("\n");
    lemma_dec_rep_digits(mem_min as nat);
    lemma_dec_rep_digits(mem_max as nat);
    assert forall|i: int| 0 <= i < lines.len() implies no_newline(#[trigger] lines[i]) by {
        if i == 14 {
            assert forall|j: int| 0 <= j < lines[14].len() implies lines[14][j] != '\n' by {
                let pre = "set MIN_MEMORY="@;
                if j >= pre.len() && j < pre.len() + dec_rep(mem_min as nat).len() {
                    assert(lines[14][j] == dec_rep(mem_min as nat)[j - pre.len()]);
                    assert(is_digit(dec_rep(mem_min as nat)[j - pre.len()]));
                }
            }
        }
        if i == 15 {
            assert forall|j: int| 0 <= j < lines[15].len() implies lines[15][j] != '\n' by {
                let pre = "set MAX_MEMORY="@;
                if j >= pre.len() && j < pre.len() + dec_rep(mem_max as nat).len() {
                    assert(lines[15][j] == dec_rep(mem_max as nat)[j - pre.len()]);
                    assert(is_digit(dec_rep(mem_max as nat)[j - pre.len()]));
                }
            }
        }
    }
    lemma_split_join(lines);
    let cpp = "set CLASSPATH="@;
    let mpp = "set MAIN_CLASS="@;
    assert(lines[21].subrange(0, cpp.len() as int) =~= cpp);
    assert(starts_with_seq(lines[21], cpp));
    assert(lines[21].skip(cpp.len() as int) =~= cp);
    assert(lines[24].subrange(0, mpp.len() as int) =~= mpp);
    assert(starts_with_seq(lines[24], mpp));
    assert(lines[24].skip(mpp.len() as int) =~= main);
    assert forall|i: int| 0 <= i < 21 implies !starts_with_seq(#[trigger] lines[i], cpp) by {
        if starts_with_seq(lines[i], cpp) {
            assert(lines[i].subrange(0, cpp.len() as int)[0] == cpp[0]);
            assert(lines[i].subrange(0, cpp.len() as int)[4] == cpp[4]);
            assert(lines[i][0] == 's' && lines[i][4] == 'C');
        }
    }
    assert forall|i: int| 0 <= i < 24 implies !starts_with_seq(#[trigger] lines[i], mpp) by {
        if starts_with_seq(lines[i], mpp) {
            assert(lines[i].subrange(0, mpp.len() as int)[0] == mpp[0]);
            assert(lines[i].subrange(0, mpp.len() as int)[4] == mpp[4]);
            assert(lines[i].subrange(0, mpp.len() as int)[5] == mpp[5]);
            assert(lines[i].subrange(0, mpp.len() as int)[6] == mpp[6]);
            assert(lines[i][0] == 's' && lines[i][4] == 'M' && lines[i][5] == 'A' && lines[i][6]
                == 'I');
        }
    }
    lemma_line_value_at(lines, cpp, 21);
    lemma_line_value_at(lines, mpp, 24);
}

/// Where line `k` starts with `prefix` and no earlier line does,
/// `line_value` reads line `k`.
proof fn lemma_line_value_at(lines: Seq<Seq<char>>, prefix: Seq<char>, k: int)
    requires
        0 <= k < lines.len(),
        starts_with_seq(lines[k], prefix),
        forall|i: int| 0 <= i < k ==> !starts_with_seq(#[trigger] lines[i], prefix),
    ensures
        line_value(lines, prefix) == Option::Some(lines[k].skip(prefix.len() as int)),
    decreases k,
{
    if k > 0 {
        lemma_line_value_at(lines.drop_first(), prefix, k - 1);
        assert forall|i: int| 0 <= i < k - 1 implies !starts_with_seq(
            #[trigger] lines.drop_first()[i],
            prefix,
        ) by {
            assert(lines.drop_first()[i] == lines[i + 1]);
        }
        assert(lines.drop_first()[k - 1] == lines[k]);
    }
}

/// Builds the lines of the launch script.
fn script_lines(
    vid: &String,
    time: &String,
    mc: &String,
    java: &String,
    mem_min: u32,
    mem_max: u32,
    natives: &String,
    cp: &String,
    main: &String,
    assets: &String,
) -> (r: Vec<String>)
    ensures
        string_views(r@) == script_lines_spec(
            vid@,
            time@,
            mc@,
            java@,
            mem_min,
            mem_max,
            natives@,
            cp@,
            main@,
            assets@,
        ),
{
    let mut r: Vec<String> = Vec::new();
    r.push("@echo off".to_owned());
    r.push("REM ======================================================================".to_owned());
    r.push("REM launch script generated by the launcher".to_owned());
    r.push(cat2("REM version: ", vid.as_str()));
    r.push(cat2("REM generated at: ", time.as_str()));
    r.push("REM ======================================================================".to_owned());
    r.push("".to_owned());
    r.push("REM working directory".to_owned());
    r.push(cat3("cd /d \"", mc.as_str(), "\""));
    r.push("".to_owned());
    r.push("REM java path".to_owned());
    r.push(cat3("set JAVA_PATH=\"", java.as_str(), "\""));
    r.push("".to_owned());
    r.push("REM memory".to_owned());
    r.push(cat3("set MIN_MEMORY=", u32_to_string(mem_min).as_str(), "M"));
    r.push(cat3("set MAX_MEMORY=", u32_to_string(mem_max).as_str(), "M"));
    r.push("".to_owned());
    r.push("REM natives directory".to_owned());
    r.push(cat3("set NATIVES_DIR=\"", natives.as_str(), "\""));
    r.push("".to_owned());
    r.push("REM classpath".to_owned());
    r.push(cat2("set CLASSPATH=", cp.as_str()));
    r.push("".to_owned());
    r.push("REM main class".to_owned());
    r.push(cat2("set MAIN_CLASS=", main.as_str()));
    r.push("".to_owned());
    r.push("REM launch command".to_owned());
    r.push("\"%JAVA_PATH%\" ^".to_owned());
    r.push("    -Xms%MIN_MEMORY% ^".to_owned());
    r.push("    -Xmx%MAX_MEMORY% ^".to_owned());
    r.push("    -XX:+UnlockExperimentalVMOptions ^".to_owned());
    r.push("    -XX:+UseG1GC ^".to_owned());
    r.push("    -Djava.library.path=\"%NATIVES_DIR%\" ^".to_owned());
    r.push("    -cp \"%CLASSPATH%\" ^".to_owned());
    r.push("    %MAIN_CLASS% ^".to_owned());
    r.push("    --username Player ^".to_owned());
    r.push(cat3("    --version ", vid.as_str(), " ^"));
    r.push(cat3("    --gameDir \"", mc.as_str(), "\" ^"));
    r.push(cat3("    --assetsDir \"", mc.as_str(), "\\assets\" ^"));
    r.push(cat3("    --assetIndex ", assets.as_str(), " ^"));
    r.push("    --accessToken 0 ^".to_owned());
    r.push("    --userType legacy".to_owned());
    r.push("".to_owned());
    r.push("pause".to_owned());
    proof {
        assert(string_views(r@) =~~= script_lines_spec(
            vid@,
            time@,
            mc@,
            java@,
            mem_min,
            mem_max,
            natives@,
            cp@,
            main@,
            assets@,
        ));
    }
    r
}

/// Two pieces concatenated.
fn cat2(a: &str, b: &str) -> (r: String)
    ensures
        r@ == a@ + b@,
{
    let mut r = a.to_owned();
    r.append(b);
    r
}

/// Three pieces concatenated.
fn cat3(a: &str, b: &str, c: &str) -> (r: String)
    ensures
        r@ == a@ + b@ + c@,
{
    let mut r = a.to_owned();
    r.append(b);
    r.append(c);
    r
}

/// What the script generator resolves the descriptor chain to: the merged
/// descriptor and chain when the chain is acyclic, else the leaf alone —
/// a broken local install still gets a best-effort script.
pub open spec fn script_chain(
    table: Seq<crate::model::VersionDescriptorView>,
    leaf: crate::model::VersionDescriptorView,
) -> (crate::model::VersionDescriptorView, Seq<Seq<char>>) {
    match spec_chain(table, leaf, seq![leaf.id], table.len()) {
        Option::Some(ch) => (merge_chain_view(ch), chain_ids_view(ch)),
        Option::None => (leaf, seq![leaf.id]),
    }
}

/// Generates the launch script for a version.
///
/// The classpath and main class written into the script are exactly those
/// a live launch resolves for the same inputs: the chain is merged the
/// same way, the classpath resolver is the same, and the main class falls
/// back to the stock client entry point when the merged descriptor names
/// none. `generated_at` is the caller-supplied timestamp line.
pub fn generate_launch_script_content(
    table: &Vec<VersionDescriptor>,
    leaf: &VersionDescriptor,
    version_id: &String,
    java_path: &String,
    mem_min: u32,
    mem_max: u32,
    mc_dir: &String,
    os: Os,
    files: &crate::model::FileSet,
    generated_at: &String,
) -> (r: String)
    ensures
        ({
            let (m, ids) = script_chain(descriptors_view(table@), leaf@);
            let cp = join_spec(
                classpath_spec(
                    m.libraries,
                    ids,
                    mc_dir@,
                    path_join_spec(mc_dir@, "libraries"@, os),
                    os,
                    *files,
                ),
                classpath_sep_spec(os),
            );
            let main = match m.main_class {
                Option::Some(c) => c,
                Option::None => "net.minecraft.client.main.Main"@,
            };
            let assets = match m.assets {
                Option::Some(a) => a,
                Option::None => version_id@,
            };
            r@ == script_text_spec(
                version_id@,
                generated_at@,
                mc_dir@,
                java_path@,
                mem_min,
                mem_max,
                natives_dir_spec(mc_dir@, version_id@, os),
                cp,
                main,
                assets,
            )
        }),
{
    let (merged, chain) = match merge_version_chain(table, leaf) {
        Result::Ok(m) => (m.descriptor, m.chain),
        Result::Err(_) => {
            let mut only: Vec<String> = Vec::new();
            only.push(leaf.id.clone());
            proof {
                assert(string_views(only@) =~= seq![leaf@.id]);
            }
            (leaf.duplicate(), only)
        },
    };
    let cp = build_classpath(&merged, &chain, mc_dir, os, files);
    let main: String = match &merged.main_class {
        Option::Some(c) => c.clone(),
        Option::None => "net.minecraft.client.main.Main".to_owned(),
    };
    let assets: String = match &merged.assets {
        Option::Some(a) => a.clone(),
        Option::None => version_id.clone(),
    };
    let versions_dir = path_join(mc_dir, "versions", os);
    let version_dir = path_join(&versions_dir, version_id.as_str(), os);
    let natives = path_join(&version_dir, "natives", os);
    let lines = script_lines(
        version_id,
        generated_at,
        mc_dir,
        java_path,
        mem_min,
        mem_max,
        &natives,
        &cp,
        &main,
        &assets,
    );
    join_with(&lines, "\n")
}

} // verus!
