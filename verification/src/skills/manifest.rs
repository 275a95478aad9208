//! Skill manifests: the parsed form of `skill.toml` and the defaults that fill
//! in what a manifest leaves out.
use vstd::prelude::*;
use vstd::string::*;

use crate::skills::types::{SkillMode, SkillPool};
use crate::text::{join_path, path_join, str_eq};

verus! {

#[derive(Debug)]
pub enum ManifestError {
    Io(std::io::Error),
    Toml(String),
    Missing(String),
}

/// Parsed skill manifest.
#[derive(Debug)]
pub struct Skill {
    pub name: String,
    pub description: String,
    pub enabled: bool,
    pub priority: i32,
    pub mode: SkillMode,
    pub pool: SkillPool,
    pub dir: String,
    pub context: SkillContext,
    pub triggers: SkillTriggers,
    pub hooks: SkillHooks,
    pub permissions: SkillPermissions,
}

#[derive(Debug)]
pub struct SkillContext {
    pub prompt_file: Option<String>,
    pub memory_access: bool,
    pub memory_write: bool,
}

#[derive(Debug)]
pub struct SkillTriggers {
    pub on_events: Vec<String>,
    pub file_patterns: Vec<String>,
    pub descriptions: Vec<String>,
}

#[derive(Debug)]
pub struct SkillHooks {
    pub pre: Vec<String>,
    pub post: Vec<String>,
    pub inject_output: bool,
}

#[derive(Debug)]
pub struct SkillPermissions {
    pub read_paths: Vec<String>,
    pub write_paths: Vec<String>,
    pub exec_commands: Vec<String>,
}

/// The plain value of a [`Skill`].
pub struct SkillView {
    pub name: Seq<char>,
    pub description: Seq<char>,
    pub enabled: bool,
    pub priority: i32,
    pub mode: SkillMode,
    pub pool: SkillPool,
    pub dir: Seq<char>,
    pub prompt_file: Option<Seq<char>>,
    pub memory_access: bool,
    pub memory_write: bool,
    pub on_events: Seq<Seq<char>>,
    pub file_patterns: Seq<Seq<char>>,
    pub descriptions: Seq<Seq<char>>,
    pub pre_hooks: Seq<Seq<char>>,
    pub post_hooks: Seq<Seq<char>>,
    pub inject_output: bool,
    pub read_paths: Seq<Seq<char>>,
    pub write_paths: Seq<Seq<char>>,
    pub exec_commands: Seq<Seq<char>>,
}

impl View for Skill {
    type V = SkillView;

    open spec fn view(&self) -> SkillView {
        SkillView {
            name: self.name@,
            description: self.description@,
            enabled: self.enabled,
            priority: self.priority,
            mode: self.mode,
            pool: self.pool,
            dir: self.dir@,
            prompt_file: match self.context.prompt_file {
                Some(p) => Some(p@),
                None => None,
            },
            memory_access: self.context.memory_access,
            memory_write: self.context.memory_write,
            on_events: self.triggers.on_events.deep_view(),
            file_patterns: self.triggers.file_patterns.deep_view(),
            descriptions: self.triggers.descriptions.deep_view(),
            pre_hooks: self.hooks.pre.deep_view(),
            post_hooks: self.hooks.post.deep_view(),
            inject_output: self.hooks.inject_output,
            read_paths: self.permissions.read_paths.deep_view(),
            write_paths: self.permissions.write_paths.deep_view(),
            exec_commands: self.permissions.exec_commands.deep_view(),
        }
    }
}

/// The plain values of a sequence of skills.
pub open spec fn skills_view(s: Seq<Skill>) -> Seq<SkillView> {
    s.map_values(|k: Skill| k@)
}

/// Raw `[skill]` table of a manifest.
#[derive(Debug)]
pub struct RawSkill {
    pub name: String,
    pub description: Option<String>,
    pub enabled: Option<bool>,
    pub priority: Option<i32>,
    pub mode: Option<String>,
}

/// Raw `[context]` table of a manifest.
#[derive(Debug)]
pub struct RawContext {
    pub prompt_file: Option<String>,
    pub memory_access: Option<bool>,
    pub memory_write: Option<bool>,
}

/// Raw `[triggers]` table of a manifest.
#[derive(Debug)]
pub struct RawTriggers {
    pub on_events: Option<Vec<String>>,
    pub file_patterns: Option<Vec<String>>,
    pub descriptions: Option<Vec<String>>,
}

/// Raw `[hooks]` table of a manifest.
#[derive(Debug)]
pub struct RawHooks {
    pub pre: Option<Vec<String>>,
    pub post: Option<Vec<String>>,
    pub inject_output: Option<bool>,
}

/// Raw `[permissions]` table of a manifest.
#[derive(Debug)]
pub struct RawPermissions {
    pub read_paths: Option<Vec<String>>,
    pub write_paths: Option<Vec<String>>,
    pub exec_commands: Option<Vec<String>>,
}

/// A whole `skill.toml` as parsed, before defaults are filled in.
#[derive(Debug)]
pub struct RawManifest {
    pub skill: RawSkill,
    pub context: Option<RawContext>,
    pub triggers: Option<RawTriggers>,
    pub hooks: Option<RawHooks>,
    pub permissions: Option<RawPermissions>,
}

/// The mode a manifest names: `context`, `action`, anything else hybrid.
pub open spec fn mode_of_name(m: Option<String>) -> SkillMode {
    match m {
        Some(s) => if s@ == "context"@ {
            SkillMode::Context
        } else if s@ == "action"@ {
            SkillMode::Action
        } else {
            SkillMode::Hybrid
        },
        None => SkillMode::Hybrid,
    }
}

/// A list that a manifest may leave out, empty by default.
pub open spec fn list_or_empty(o: Option<Vec<String>>) -> Seq<Seq<char>> {
    match o {
        Some(v) => v.deep_view(),
        None => seq![],
    }
}

/// A flag that a manifest may leave out.
pub open spec fn flag_or(o: Option<bool>, default: bool) -> bool {
    match o {
        Some(b) => b,
        None => default,
    }
}

/// The skill that a raw manifest found in `dir` describes, with every
/// missing value set to its default.
pub open spec fn manifest_skill(raw: RawManifest, dir: Seq<char>, pool: SkillPool) -> SkillView {
    SkillView {
        name: raw.skill.name@,
        description: match raw.skill.description {
            Some(d) => d@,
            None => seq![],
        },
        enabled: flag_or(raw.skill.enabled, true),
        priority: match raw.skill.priority {
            Some(p) => p,
            None => 0,
        },
        mode: mode_of_name(raw.skill.mode),
        pool,
        dir,
        prompt_file: match raw.context {
            Some(c) => match c.prompt_file {
                Some(p) => Some(path_join(dir, p@)),
                None => None,
            },
            None => None,
        },
        memory_access: match raw.context {
            Some(c) => flag_or(c.memory_access, true),
            None => true,
        },
        memory_write: match raw.context {
            Some(c) => flag_or(c.memory_write, false),
            None => false,
        },
        on_events: match raw.triggers {
            Some(t) => list_or_empty(t.on_events),
            None => seq![],
        },
        file_patterns: match raw.triggers {
            Some(t) => list_or_empty(t.file_patterns),
            None => seq![],
        },
        descriptions: match raw.triggers {
            Some(t) => list_or_empty(t.descriptions),
            None => seq![],
        },
        pre_hooks: match raw.hooks {
            Some(h) => list_or_empty(h.pre),
            None => seq![],
        },
        post_hooks: match raw.hooks {
            Some(h) => list_or_empty(h.post),
            None => seq![],
        },
        inject_output: match raw.hooks {
            Some(h) => flag_or(h.inject_output, true),
            None => true,
        },
        read_paths: match raw.permissions {
            Some(p) => list_or_empty(p.read_paths),
            None => seq![],
        },
        write_paths: match raw.permissions {
            Some(p) => list_or_empty(p.write_paths),
            None => seq![],
        },
        exec_commands: match raw.permissions {
            Some(p) => list_or_empty(p.exec_commands),
            None => seq![],
        },
    }
}

/// Every list a manifest gives is kept exactly as given, and every list it
/// leaves out (or whose table it leaves out) is empty: the trigger events,
/// file patterns and descriptions, the pre and post hooks, and the read,
/// write and exec permissions. Every flag and value it gives is kept too.
pub proof fn law_manifest_lists_are_kept(raw: RawManifest, dir: Seq<char>, pool: SkillPool)
    ensures
        ({
            let sk = manifest_skill(raw, dir, pool);
            &&& match raw.hooks {
                Some(t) => match t.post {
                    Some(v) => sk.post_hooks == v.deep_view(),
                    None => sk.post_hooks.len() == 0,
                },
                None => sk.post_hooks.len() == 0,
            }
            &&& match raw.hooks {
                Some(t) => match t.pre {
                    Some(v) => sk.pre_hooks == v.deep_view(),
                    None => sk.pre_hooks.len() == 0,
                },
                None => sk.pre_hooks.len() == 0,
            }
            &&& match raw.triggers {
                Some(t) => match t.on_events {
                    Some(v) => sk.on_events == v.deep_view(),
                    None => sk.on_events.len() == 0,
                },
                None => sk.on_events.len() == 0,
            }
            &&& match raw.triggers {
                Some(t) => match t.file_patterns {
                    Some(v) => sk.file_patterns == v.deep_view(),
                    None => sk.file_patterns.len() == 0,
                },
                None => sk.file_patterns.len() == 0,
            }
            &&& match raw.triggers {
                Some(t) => match t.descriptions {
                    Some(v) => sk.descriptions == v.deep_view(),
                    None => sk.descriptions.len() == 0,
                },
                None => sk.descriptions.len() == 0,
            }
            &&& match raw.permissions {
                Some(t) => match t.read_paths {
                    Some(v) => sk.read_paths == v.deep_view(),
                    None => sk.read_paths.len() == 0,
                },
                None => sk.read_paths.len() == 0,
            }
            &&& match raw.permissions {
                Some(t) => match t.write_paths {
                    Some(v) => sk.write_paths == v.deep_view(),
                    None => sk.write_paths.len() == 0,
                },
                None => sk.write_paths.len() == 0,
            }
            &&& match raw.permissions {
                Some(t) => match t.exec_commands {
                    Some(v) => sk.exec_commands == v.deep_view(),
                    None => sk.exec_commands.len() == 0,
                },
                None => sk.exec_commands.len() == 0,
            }
            &&& match raw.hooks {
                Some(h) => match h.inject_output {
                    Some(x) => sk.inject_output == x,
                    None => sk.inject_output,
                },
                None => sk.inject_output,
            }
            &&& sk.name == raw.skill.name@
            &&& match raw.skill.enabled {
                Some(x) => sk.enabled == x,
                None => sk.enabled,
            }
            &&& match raw.skill.priority {
                Some(x) => sk.priority == x,
                None => sk.priority == 0,
            }
            &&& sk.dir == dir
            &&& sk.pool == pool
        }),
{
}

fn take_list(o: Option<Vec<String>>) -> (r: Vec<String>)
    ensures
        r.deep_view() == list_or_empty(o),
{
    match o {
        Some(v) => v,
        None => {
            let v: Vec<String> = Vec::new();
            assert(v.deep_view() =~= Seq::<Seq<char>>::empty());
            v
        },
    }
}

fn take_flag(o: Option<bool>, default: bool) -> (r: bool)
    ensures
        r == flag_or(o, default),
{
    match o {
        Some(b) => b,
        None => default,
    }
}

impl Skill {
    /// Builds a skill from a parsed manifest found in `dir`, filling in the
    /// defaults of every missing value.
    pub fn from_raw(raw: RawManifest, dir: &str, pool: SkillPool) -> (r: Skill)
        ensures
            r@ == manifest_skill(raw, dir@, pool),
    {
        let ghost raw0 = raw;
        let mode = match &raw.skill.mode {
            Some(m) => {
                if str_eq(m.as_str(), "context") {
                    SkillMode::Context
                } else if str_eq(m.as_str(), "action") {
                    SkillMode::Action
                } else {
                    SkillMode::Hybrid
                }
            },
            None => SkillMode::Hybrid,
        };
        let description = match raw.skill.description {
            Some(d) => d,
            None => String::new(),
        };
        let priority = match raw.skill.priority {
            Some(p) => p,
            None => 0,
        };
        let enabled = take_flag(raw.skill.enabled, true);
        let (prompt_file, memory_access, memory_write) = match raw.context {
            Some(c) => {
                let pf = match c.prompt_file {
                    Some(p) => Some(join_path(dir, p.as_str())),
                    None => None,
                };
                (pf, take_flag(c.memory_access, true), take_flag(c.memory_write, false))
            },
            None => (None, true, false),
        };
        let (on_events, file_patterns, descriptions) = match raw.triggers {
            Some(t) => (take_list(t.on_events), take_list(t.file_patterns), take_list(t.descriptions)),
            None => (take_list(None), take_list(None), take_list(None)),
        };
        let (pre, post, inject_output) = match raw.hooks {
            Some(h) => (take_list(h.pre), take_list(h.post), take_flag(h.inject_output, true)),
            None => (take_list(None), take_list(None), true),
        };
        let (read_paths, write_paths, exec_commands) = match raw.permissions {
            Some(p) => (take_list(p.read_paths), take_list(p.write_paths), take_list(p.exec_commands)),
            None => (take_list(None), take_list(None), take_list(None)),
        };
        Skill {
            name: raw.skill.name,
            description,
            enabled,
            priority,
            mode,
            pool,
            dir: dir.to_owned(),
            context: SkillContext { prompt_file, memory_access, memory_write },
            triggers: SkillTriggers { on_events, file_patterns, descriptions },
            hooks: SkillHooks { pre, post, inject_output },
            permissions: SkillPermissions { read_paths, write_paths, exec_commands },
        }
    }
}

} // verus!
