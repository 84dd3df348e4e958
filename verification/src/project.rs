//! The project file (`termotion.yaml`): a layer of defaults and directory
//! settings shared by every scenario in a project.
use crate::paths::{join_path, joined};
use vstd::prelude::*;

verus! {

/// `termotion.yaml`. Every field is optional; this is a defaults layer.
#[derive(Debug, Clone, Default, PartialEq, Eq)]
pub struct ProjectConfig {
    pub project: Option<ProjectMeta>,
    pub defaults: Option<ProjectDefaults>,
    pub paths: Option<ProjectPaths>,
}

#[derive(Debug, Clone, Default, PartialEq, Eq)]
pub struct ProjectMeta {
    pub name: Option<String>,
}

#[derive(Debug, Clone, Default, PartialEq, Eq)]
pub struct ProjectDefaults {
    pub width: Option<u32>,
    pub height: Option<u32>,
    pub fps: Option<u32>,
    pub theme: Option<String>,
}

#[derive(Debug, Clone, Default, PartialEq, Eq)]
pub struct ProjectPaths {
    pub scenes: Option<String>,
    pub themes: Option<String>,
    pub assets: Option<String>,
    pub output: Option<String>,
}

/// The themes directory relative to the project root: `paths.themes`, else
/// `./themes`.
pub open spec fn themes_rel(c: ProjectConfig) -> Seq<char> {
    match c.paths {
        Some(p) => match p.themes {
            Some(t) => t@,
            None => "./themes"@,
        },
        None => "./themes"@,
    }
}

/// The output directory relative to the project root: `paths.output`, else
/// `./dist`.
pub open spec fn output_rel(c: ProjectConfig) -> Seq<char> {
    match c.paths {
        Some(p) => match p.output {
            Some(t) => t@,
            None => "./dist"@,
        },
        None => "./dist"@,
    }
}

impl ProjectConfig {
    pub fn themes_dir(&self, root: &str) -> (d: String)
        ensures
            d@ == joined(root@, themes_rel(*self)),
    {
        let rel = match &self.paths {
            Some(p) => match &p.themes {
                Some(t) => t.clone(),
                None => String::from_str("./themes"),
            },
            None => String::from_str("./themes"),
        };
        join_path(root, rel.as_str())
    }

    pub fn output_dir(&self, root: &str) -> (d: String)
        ensures
            d@ == joined(root@, output_rel(*self)),
    {
        let rel = match &self.paths {
            Some(p) => match &p.output {
                Some(t) => t.clone(),
                None => String::from_str("./dist"),
            },
            None => String::from_str("./dist"),
        };
        join_path(root, rel.as_str())
    }
}

} // verus!
