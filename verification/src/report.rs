//! Crash-report rendering: the exported report text, the system summary
//! and the installed-mods listing, each pinned to an exact concatenation
//! of its inputs.
use vstd::prelude::*;
use crate::text::{dec_rep, join_spec, join_with, string_views, u64_to_string};

verus! {

/// The bullet lines of a suggestion list.
pub open spec fn bullets_spec(ss: Seq<Seq<char>>) -> Seq<char>
    decreases ss.len(),
{
    if ss.len() == 0 {
        Seq::empty()
    } else {
        "  - "@ + ss[0] + "\n"@ + bullets_spec(ss.drop_first())
    }
}

/// Renders a suggestion list as indented bullet lines.
pub fn bullets(ss: &Vec<String>) -> (r: String)
    ensures
        r@ == bullets_spec(string_views(ss@)),
{
    let ghost sv = string_views(ss@);
    let mut r = String::new();
    proof {
        assert(sv.subrange(0, sv.len() as int) =~= sv);
        assert(r@ + bullets_spec(sv.subrange(0, sv.len() as int)) =~= bullets_spec(sv));
    }
    let mut i: usize = 0;
    while i < ss.len()
        invariant
            i <= sv.len(),
            sv == string_views(ss@),
            sv.len() == ss@.len(),
            bullets_spec(sv) == r@ + bullets_spec(sv.subrange(i as int, sv.len() as int)),
        decreases sv.len() - i,
    {
        let ghost pre = sv.subrange(i as int, sv.len() as int);
        let ghost acc0 = r@;
        r.append("  - ");
        r.append(ss[i].as_str());
        r.append("\n");
        i = i + 1;
        proof {
            assert(pre[0] == sv[i - 1]);
            assert(pre.drop_first() =~= sv.subrange(i as int, sv.len() as int));
            assert(r@ =~= acc0 + ("  - "@ + sv[i - 1] + "\n"@));
            assert(bullets_spec(sv) =~= r@ + bullets_spec(
                sv.subrange(i as int, sv.len() as int),
            ));
        }
    }
    proof {
        assert(sv.subrange(sv.len() as int, sv.len() as int) =~= Seq::<Seq<char>>::empty());
        assert(r@ =~= bullets_spec(sv));
    }
    r
}

/// The rendered system summary.
pub open spec fn system_info_spec(
    os_name: Seq<char>,
    os_version: Seq<char>,
    kernel: Seq<char>,
    cpu_count: u64,
    total_mb: u64,
    used_mb: u64,
) -> Seq<char> {
    "operating system: "@ + os_name + " "@ + os_version + "\nkernel version: "@ + kernel
        + "\ncpu cores: "@ + dec_rep(cpu_count as nat) + "\ntotal memory: "@ + dec_rep(
        total_mb as nat,
    ) + " MB\nused memory: "@ + dec_rep(used_mb as nat) + " MB\navailable memory: "@ + dec_rep(
        (total_mb - used_mb) as nat,
    ) + " MB"@
}

/// Renders the system summary from plain values the caller measured.
pub fn system_info_text(
    os_name: &String,
    os_version: &String,
    kernel: &String,
    cpu_count: u64,
    total_mb: u64,
    used_mb: u64,
) -> (r: String)
    requires
        used_mb <= total_mb,
    ensures
        r@ == system_info_spec(os_name@, os_version@, kernel@, cpu_count, total_mb, used_mb),
{
    let mut r = "operating system: ".to_owned();
    r.append(os_name.as_str());
    r.append(" ");
    r.append(os_version.as_str());
    r.append("\nkernel version: ");
    r.append(kernel.as_str());
    r.append("\ncpu cores: ");
    r.append(u64_to_string(cpu_count).as_str());
    r.append("\ntotal memory: ");
    r.append(u64_to_string(total_mb).as_str());
    r.append(" MB\nused memory: ");
    r.append(u64_to_string(used_mb).as_str());
    r.append(" MB\navailable memory: ");
    r.append(u64_to_string(total_mb - used_mb).as_str());
    r.append(" MB");
    r
}

/// The full exported crash report.
pub open spec fn crash_report_spec(
    exported_at: Seq<char>,
    version_id: Seq<char>,
    exit_code: int,
    reason: Seq<char>,
    details: Seq<char>,
    suggestions: Seq<Seq<char>>,
    mc_dir: Seq<char>,
    java_path: Seq<char>,
    mem_min: u32,
    mem_max: u32,
    system_info: Seq<char>,
) -> Seq<char> {
    "==================== crash report ====================\n\nexported at: "@ + exported_at
        + "\ngame version: "@ + version_id + "\nexit code: "@ + crate::crash::code_rep(exit_code)
        + "\n\n-------------------- analysis --------------------\n\nreason: "@ + reason
        + "\ndetails: "@ + details + "\n\nsuggestions:\n"@ + bullets_spec(suggestions)
        + "\n-------------------- launcher settings --------------------\n\ngame directory: "@
        + mc_dir + "\njava path: "@ + java_path + "\nmemory: "@ + dec_rep(mem_min as nat)
        + " MB - "@ + dec_rep(mem_max as nat)
        + " MB\n\n-------------------- system --------------------\n\n"@ + system_info + "\n"@
}

/// Renders the exported crash report from the classification, the
/// effective settings and the measured system summary.
pub fn crash_report_text(
    exported_at: &String,
    version_id: &String,
    exit_code: i32,
    reason: &String,
    details: &String,
    suggestions: &Vec<String>,
    mc_dir: &String,
    java_path: &String,
    mem_min: u32,
    mem_max: u32,
    system_info: &String,
) -> (r: String)
    ensures
        r@ == crash_report_spec(
            exported_at@,
            version_id@,
            exit_code as int,
            reason@,
            details@,
            string_views(suggestions@),
            mc_dir@,
            java_path@,
            mem_min,
            mem_max,
            system_info@,
        ),
{
    let mut r = "==================== crash report ====================\n\nexported at: ".to_owned();
    r.append(exported_at.as_str());
    r.append("\ngame version: ");
    r.append(version_id.as_str());
    r.append("\nexit code: ");
    r.append(crate::crash::code_to_string(exit_code).as_str());
    r.append("\n\n-------------------- analysis --------------------\n\nreason: ");
    r.append(reason.as_str());
    r.append("\ndetails: ");
    r.append(details.as_str());
    r.append("\n\nsuggestions:\n");
    r.append(bullets(suggestions).as_str());
    r.append("\n-------------------- launcher settings --------------------\n\ngame directory: ");
    r.append(mc_dir.as_str());
    r.append("\njava path: ");
    r.append(java_path.as_str());
    r.append("\nmemory: ");
    r.append(u64_to_string(mem_min as u64).as_str());
    r.append(" MB - ");
    r.append(u64_to_string(mem_max as u64).as_str());
    r.append(" MB\n\n-------------------- system --------------------\n\n");
    r.append(system_info.as_str());
    r.append("\n");
    r
}

/// The installed-mods listing of a crash report.
pub open spec fn mods_list_spec(names: Seq<Seq<char>>) -> Seq<char> {
    "installed mods ("@ + dec_rep(names.len()) + "):\n\n"@ + join_spec(names, "\n"@)
}

/// Renders the installed-mods listing from the jar names the caller found.
pub fn mods_list_text(names: &Vec<String>) -> (r: String)
    ensures
        r@ == mods_list_spec(string_views(names@)),
{
    let mut r = "installed mods (".to_owned();
    r.append(u64_to_string(names.len() as u64).as_str());
    r.append("):\n\n");
    r.append(join_with(names, "\n").as_str());
    proof {
        assert(string_views(names@).len() == names@.len());
    }
    r
}

} // verus!
