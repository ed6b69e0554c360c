//! Launcher settings: global values, per-version overrides, and the
//! precedence rules between them.
use vstd::prelude::*;
use crate::model::{clone_opt_string, clone_strings};

verus! {

/// Heap bounds handed to the JVM, in megabytes.
#[derive(Debug)]
pub struct MemorySettings {
    pub min: u32,
    pub max: u32,
}

impl Default for MemorySettings {
    /// The launcher's stock memory bounds.
    fn default() -> (r: Self)
        ensures
            r.min == 512,
            r.max == 2048,
    {
        MemorySettings { min: 512, max: 2048 }
    }
}

/// Width and height of the game window, in pixels.
#[derive(Debug)]
pub struct WindowSize {
    pub width: u32,
    pub height: u32,
}

impl Default for WindowSize {
    /// The launcher's stock window size.
    fn default() -> (r: Self)
        ensures
            r.width == 854,
            r.height == 480,
    {
        WindowSize { width: 854, height: 480 }
    }
}

/// Per-version overrides; every field is optional and falls back to the
/// global value when absent.
#[derive(Debug)]
pub struct VersionSettings {
    pub java_path: Option<String>,
    pub memory_min: Option<u32>,
    pub memory_max: Option<u32>,
    pub memory_auto: bool,
    pub window_width: Option<u32>,
    pub window_height: Option<u32>,
    pub version_isolation: bool,
    pub jvm_args: Vec<String>,
    pub launcher_behavior: Option<String>,
    pub auto_complete_files: Option<bool>,
}

impl Default for VersionSettings {
    /// No overrides at all.
    fn default() -> (r: Self)
        ensures
            r.java_path is None,
            r.memory_min is None,
            r.memory_max is None,
            r.memory_auto == false,
            r.window_width is None,
            r.window_height is None,
            r.version_isolation == false,
            r.jvm_args@.len() == 0,
            r.launcher_behavior is None,
            r.auto_complete_files is None,
    {
        VersionSettings {
            java_path: Option::None,
            memory_min: Option::None,
            memory_max: Option::None,
            memory_auto: false,
            window_width: Option::None,
            window_height: Option::None,
            version_isolation: false,
            jvm_args: Vec::new(),
            launcher_behavior: Option::None,
            auto_complete_files: Option::None,
        }
    }
}

impl VersionSettings {
    /// A copy of these overrides, equal except for the view of `jvm_args`.
    pub fn duplicate(&self) -> (r: Self)
        ensures
            r.java_path == self.java_path,
            r.memory_min == self.memory_min,
            r.memory_max == self.memory_max,
            r.memory_auto == self.memory_auto,
            r.window_width == self.window_width,
            r.window_height == self.window_height,
            r.version_isolation == self.version_isolation,
            r.jvm_args@ == self.jvm_args@,
            r.launcher_behavior == self.launcher_behavior,
            r.auto_complete_files == self.auto_complete_files,
    {
        VersionSettings {
            java_path: clone_opt_string(&self.java_path),
            memory_min: self.memory_min,
            memory_max: self.memory_max,
            memory_auto: self.memory_auto,
            window_width: self.window_width,
            window_height: self.window_height,
            version_isolation: self.version_isolation,
            jvm_args: clone_strings(&self.jvm_args),
            launcher_behavior: clone_opt_string(&self.launcher_behavior),
            auto_complete_files: self.auto_complete_files,
        }
    }
}

/// The stock launcher behavior: keep the launcher window in front.
pub fn default_launcher_behavior() -> (r: String)
    ensures
        r@ == "keep-front"@,
{
    "keep-front".to_owned()
}

/// The stock layout of the instances page.
pub fn default_instances_layout() -> (r: String)
    ensures
        r@ == "auto"@,
{
    "auto".to_owned()
}

/// The launcher's persisted settings.
#[derive(Debug)]
pub struct LauncherSettings {
    pub minecraft_dir: Option<String>,
    pub minecraft_dirs: Vec<String>,
    pub java_path: Option<String>,
    pub memory: MemorySettings,
    pub window_size: WindowSize,
    /// Per-version overrides, keyed by version id; the first entry with a
    /// given id wins.
    pub version_settings: Vec<(String, VersionSettings)>,
    pub launcher_behavior: String,
    pub instances_layout: String,
}

impl Default for LauncherSettings {
    /// Stock settings: no directories or Java path, stock memory and
    /// window size, no per-version overrides.
    fn default() -> (r: Self)
        ensures
            r.minecraft_dir is None,
            r.minecraft_dirs@.len() == 0,
            r.java_path is None,
            r.memory.min == 512 && r.memory.max == 2048,
            r.window_size.width == 854 && r.window_size.height == 480,
            r.version_settings@.len() == 0,
            r.launcher_behavior@ == "keep-front"@,
            r.instances_layout@ == "auto"@,
    {
        LauncherSettings {
            minecraft_dir: Option::None,
            minecraft_dirs: Vec::new(),
            java_path: Option::None,
            memory: MemorySettings { min: 512, max: 2048 },
            window_size: WindowSize { width: 854, height: 480 },
            version_settings: Vec::new(),
            launcher_behavior: default_launcher_behavior(),
            instances_layout: default_instances_layout(),
        }
    }
}

/// The overrides recorded for version `vid`, if any: the first entry of
/// the list with that id.
pub open spec fn vs_of(entries: Seq<(String, VersionSettings)>, vid: Seq<char>) -> Option<
    VersionSettings,
>
    decreases entries.len(),
{
    if entries.len() == 0 {
        Option::None
    } else if entries[0].0@ == vid {
        Option::Some(entries[0].1)
    } else {
        vs_of(entries.drop_first(), vid)
    }
}

impl LauncherSettings {
    /// The per-version overrides for `vid`, if any were recorded.
    pub fn version_overrides<'a>(&'a self, vid: &String) -> (r: Option<&'a VersionSettings>)
        ensures
            match r {
                Option::Some(vs) => vs_of(self.version_settings@, vid@) == Option::Some(*vs),
                Option::None => vs_of(self.version_settings@, vid@) is None,
            },
    {
        let entries = &self.version_settings;
        let ghost ev = entries@;
        proof {
            assert(ev.subrange(0, ev.len() as int) =~= ev);
        }
        let mut i: usize = 0;
        while i < entries.len()
            invariant
                i <= ev.len(),
                ev == entries@,
                ev == self.version_settings@,
                vs_of(ev, vid@) == vs_of(ev.subrange(i as int, ev.len() as int), vid@),
            decreases ev.len() - i,
        {
            let ghost pre = ev.subrange(i as int, ev.len() as int);
            if entries[i].0.eq(vid) {
                proof {
                    assert(pre[0] == ev[i as int]);
                    assert(vs_of(pre, vid@) == Option::Some(pre[0].1));
                }
                return Option::Some(&entries[i].1);
            }
            i = i + 1;
            proof {
                assert(pre[0] == ev[i - 1]);
                assert(pre.drop_first() =~= ev.subrange(i as int, ev.len() as int));
            }
        }
        proof {
            assert(ev.subrange(ev.len() as int, ev.len() as int) =~= Seq::<
                (String, VersionSettings),
            >::empty());
        }
        Option::None
    }
}

/// The Java path a launch of `vid` uses: the per-version override first,
/// else the global path, and an empty string counts as unset.
pub open spec fn effective_java_spec(s: LauncherSettings, vid: Seq<char>) -> Option<Seq<char>> {
    let chosen = match vs_of(s.version_settings@, vid) {
        Option::Some(vs) if vs.java_path is Some => vs.java_path,
        _ => s.java_path,
    };
    match chosen {
        Option::Some(p) => if p@.len() == 0 {
            Option::None
        } else {
            Option::Some(p@)
        },
        Option::None => Option::None,
    }
}

/// Resolves the Java path for a launch of `vid`.
pub fn resolve_java_path(s: &LauncherSettings, vid: &String) -> (r: Option<String>)
    ensures
        crate::model::opt_str_view(r) == effective_java_spec(*s, vid@),
{
    let chosen: Option<String> = match s.version_overrides(vid) {
        Option::Some(vs) if vs.java_path.is_some() => clone_opt_string(&vs.java_path),
        _ => clone_opt_string(&s.java_path),
    };
    match chosen {
        Option::Some(p) => {
            if p.as_str().unicode_len() == 0 {
                Option::None
            } else {
                Option::Some(p)
            }
        },
        Option::None => Option::None,
    }
}

/// The heap bounds a launch of `vid` uses: per-field override, else global.
pub open spec fn effective_memory_spec(s: LauncherSettings, vid: Seq<char>) -> (u32, u32) {
    match vs_of(s.version_settings@, vid) {
        Option::Some(vs) => (
            match vs.memory_min {
                Option::Some(m) => m,
                Option::None => s.memory.min,
            },
            match vs.memory_max {
                Option::Some(m) => m,
                Option::None => s.memory.max,
            },
        ),
        Option::None => (s.memory.min, s.memory.max),
    }
}

/// Resolves the heap bounds for a launch of `vid`.
pub fn effective_memory(s: &LauncherSettings, vid: &String) -> (r: (u32, u32))
    ensures
        r == effective_memory_spec(*s, vid@),
{
    match s.version_overrides(vid) {
        Option::Some(vs) => {
            let min = match vs.memory_min {
                Option::Some(m) => m,
                Option::None => s.memory.min,
            };
            let max = match vs.memory_max {
                Option::Some(m) => m,
                Option::None => s.memory.max,
            };
            (min, max)
        },
        Option::None => (s.memory.min, s.memory.max),
    }
}

/// The window size a launch of `vid` uses: per-field override, else global.
pub open spec fn effective_window_spec(s: LauncherSettings, vid: Seq<char>) -> (u32, u32) {
    match vs_of(s.version_settings@, vid) {
        Option::Some(vs) => (
            match vs.window_width {
                Option::Some(w) => w,
                Option::None => s.window_size.width,
            },
            match vs.window_height {
                Option::Some(h) => h,
                Option::None => s.window_size.height,
            },
        ),
        Option::None => (s.window_size.width, s.window_size.height),
    }
}

/// Resolves the window size for a launch of `vid`.
pub fn effective_window(s: &LauncherSettings, vid: &String) -> (r: WindowSize)
    ensures
        r.width == effective_window_spec(*s, vid@).0,
        r.height == effective_window_spec(*s, vid@).1,
{
    match s.version_overrides(vid) {
        Option::Some(vs) => {
            let width = match vs.window_width {
                Option::Some(w) => w,
                Option::None => s.window_size.width,
            };
            let height = match vs.window_height {
                Option::Some(h) => h,
                Option::None => s.window_size.height,
            };
            WindowSize { width, height }
        },
        Option::None => WindowSize { width: s.window_size.width, height: s.window_size.height },
    }
}

/// The launcher behavior after a launch of `vid`: the per-version
/// override, else the global one.
pub open spec fn effective_behavior_spec(s: LauncherSettings, vid: Seq<char>) -> Seq<char> {
    match vs_of(s.version_settings@, vid) {
        Option::Some(vs) if vs.launcher_behavior is Some => vs.launcher_behavior.unwrap()@,
        _ => s.launcher_behavior@,
    }
}

/// Resolves the launcher behavior for a launch of `vid`.
pub fn effective_behavior(s: &LauncherSettings, vid: &String) -> (r: String)
    ensures
        r@ == effective_behavior_spec(*s, vid@),
{
    match s.version_overrides(vid) {
        Option::Some(vs) if vs.launcher_behavior.is_some() => match &vs.launcher_behavior {
            Option::Some(b) => b.clone(),
            Option::None => s.launcher_behavior.clone(),
        },
        _ => s.launcher_behavior.clone(),
    }
}

/// A partial update of the settings; every field that is present replaces
/// the stored value, and every absent field leaves it untouched.
#[derive(Debug)]
pub struct SettingsUpdate {
    pub minecraft_dir: Option<String>,
    pub minecraft_dirs: Option<Vec<String>>,
    pub java_path: Option<String>,
    pub memory_min: Option<u32>,
    pub memory_max: Option<u32>,
    pub window_width: Option<u32>,
    pub window_height: Option<u32>,
    pub version_settings: Option<Vec<(String, VersionSettings)>>,
    pub launcher_behavior: Option<String>,
    pub instances_layout: Option<String>,
}

/// Merges a partial update into the stored settings, field by field, so
/// that fields the update does not carry keep their value.
pub fn apply_settings_update(s: &mut LauncherSettings, u: SettingsUpdate)
    ensures
        final (s).minecraft_dir == if u.minecraft_dir is Some {
            u.minecraft_dir
        } else {
            old(s).minecraft_dir
        },
        final (s).minecraft_dirs@ == match u.minecraft_dirs {
            Option::Some(d) => d@,
            Option::None => old(s).minecraft_dirs@,
        },
        final (s).java_path == if u.java_path is Some {
            u.java_path
        } else {
            old(s).java_path
        },
        final (s).memory.min == if u.memory_min is Some {
            u.memory_min.unwrap()
        } else {
            old(s).memory.min
        },
        final (s).memory.max == if u.memory_max is Some {
            u.memory_max.unwrap()
        } else {
            old(s).memory.max
        },
        final (s).window_size.width == if u.window_width is Some {
            u.window_width.unwrap()
        } else {
            old(s).window_size.width
        },
        final (s).window_size.height == if u.window_height is Some {
            u.window_height.unwrap()
        } else {
            old(s).window_size.height
        },
        final (s).version_settings@ == match u.version_settings {
            Option::Some(v) => v@,
            Option::None => old(s).version_settings@,
        },
        final (s).launcher_behavior == if u.launcher_behavior is Some {
            u.launcher_behavior.unwrap()
        } else {
            old(s).launcher_behavior
        },
        final (s).instances_layout == if u.instances_layout is Some {
            u.instances_layout.unwrap()
        } else {
            old(s).instances_layout
        },
{
    if let Option::Some(d) = u.minecraft_dir {
        s.minecraft_dir = Option::Some(d);
    }
    if let Option::Some(d) = u.minecraft_dirs {
        s.minecraft_dirs = d;
    }
    if let Option::Some(p) = u.java_path {
        s.java_path = Option::Some(p);
    }
    if let Option::Some(m) = u.memory_min {
        s.memory.min = m;
    }
    if let Option::Some(m) = u.memory_max {
        s.memory.max = m;
    }
    if let Option::Some(w) = u.window_width {
        s.window_size.width = w;
    }
    if let Option::Some(h) = u.window_height {
        s.window_size.height = h;
    }
    if let Option::Some(v) = u.version_settings {
        s.version_settings = v;
    }
    if let Option::Some(b) = u.launcher_behavior {
        s.launcher_behavior = b;
    }
    if let Option::Some(l) = u.instances_layout {
        s.instances_layout = l;
    }
}

} // verus!
