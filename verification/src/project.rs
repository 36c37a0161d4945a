//! Making a new project from a template.
//!
//! A template is an archive whose files and directories carry a
//! placeholder where the project's name belongs. The library says where
//! the template comes from and what replacing the placeholder does to each
//! file and directory; fetching, unpacking and writing are left to the
//! caller.

use crate::asset_hasher::{Rename, RenameView};
use crate::paths;
use crate::text;
use vstd::prelude::*;

verus! {

/// Where a template comes from, and its placeholder.
#[derive(Debug, PartialEq, Eq)]
pub struct TemplateInfo {
    url: String,
    path: String,
    placeholder: String,
}

/// A template as plain values.
pub struct TemplateInfoView {
    /// Where the archive is fetched from.
    pub url: Seq<char>,
    /// The directory of the template inside the archive.
    pub path: Seq<char>,
    /// The text that stands for the project's name.
    pub placeholder: Seq<char>,
}

impl View for TemplateInfo {
    type V = TemplateInfoView;

    closed spec fn view(&self) -> TemplateInfoView {
        TemplateInfoView { url: self.url@, path: self.path@, placeholder: self.placeholder@ }
    }
}

impl Clone for TemplateInfo {
    fn clone(&self) -> (t: TemplateInfo)
        ensures
            t@ == self@,
    {
        TemplateInfo {
            url: self.url.clone(),
            path: self.path.clone(),
            placeholder: self.placeholder.clone(),
        }
    }
}

impl TemplateInfo {
    /// The template in the archive at `url`, in its directory `path`,
    /// with the placeholder `placeholder`.
    pub fn new(url: String, path: String, placeholder: String) -> (t: TemplateInfo)
        ensures
            t@ == (TemplateInfoView { url: url@, path: path@, placeholder: placeholder@ }),
    {
        TemplateInfo { url, path, placeholder }
    }

    /// Where the archive is fetched from.
    pub fn url(&self) -> (url: &String)
        ensures
            url@ == self@.url,
    {
        &self.url
    }

    /// The directory of the template inside the archive.
    pub fn path(&self) -> (path: &String)
        ensures
            path@ == self@.path,
    {
        &self.path
    }

    /// The text that stands for the project's name.
    pub fn placeholder(&self) -> (placeholder: &String)
        ensures
            placeholder@ == self@.placeholder,
    {
        &self.placeholder
    }
}

/// The template of a new project.
#[derive(Debug, PartialEq, Eq)]
pub enum Template {
    /// The counter example with Tailwind.
    CounterTailwind,
    /// A template of the user's own.
    Custom(TemplateInfo),
}

impl Clone for Template {
    fn clone(&self) -> (t: Template)
        ensures
            t.spec_info() == self.spec_info(),
    {
        match self {
            Template::CounterTailwind => Template::CounterTailwind,
            Template::Custom(info) => Template::Custom(info.clone()),
        }
    }
}

impl Template {
    /// Where the template comes from, and its placeholder.
    pub open spec fn spec_info(self) -> TemplateInfoView {
        match self {
            Template::CounterTailwind => TemplateInfoView {
                url: "https://github.com/polyester-web/polyester-templates/archive/refs/heads/main.zip"@,
                path: "counter-tailwind"@,
                placeholder: "myapp"@,
            },
            Template::Custom(info) => info@,
        }
    }

    /// Where the template comes from, and its placeholder.
    pub fn info(&self) -> (info: TemplateInfo)
        ensures
            info@ == self.spec_info(),
    {
        match self {
            Template::CounterTailwind => TemplateInfo {
                url: "https://github.com/polyester-web/polyester-templates/archive/refs/heads/main.zip".to_owned(),
                path: "counter-tailwind".to_owned(),
                placeholder: "myapp".to_owned(),
            },
            Template::Custom(info) => info.clone(),
        }
    }
}

/// The settings of a new project.
#[derive(Debug, Clone, PartialEq, Eq)]
pub struct Config {
    /// The name of the project.
    pub name: String,
    pub template: Template,
    /// The directory in which the project's directory is made.
    pub current_dir: String,
}

/// Why a project could not be made: what failed, and the reason.
#[derive(Debug, Clone, PartialEq, Eq)]
pub enum Error {
    TempDir(String),
    GetUrl(String),
    ReadResponse(String),
    ZipExtract(String),
    ReadFile(String),
    WriteFile(String),
    RenameFile(String),
    RenameDir(String),
    CopyToDestination(String),
    RenameTemplateDir(String),
}

/// The files and directories of an unpacked template.
#[derive(Debug, Clone, PartialEq, Eq)]
pub struct Paths {
    pub files: Vec<String>,
    pub dirs: Vec<String>,
}

/// A file's new text, and how it is put in place: written to a new file
/// in `dir`, which is then renamed to `path`.
#[derive(Debug, PartialEq, Eq)]
pub struct FileUpdate {
    pub path: String,
    pub dir: String,
    pub content: String,
}

/// The renaming that puts the project's name into the name of the
/// directory at `dir`, if the name holds the placeholder. A path without
/// a file name is left alone.
pub open spec fn dir_rename(info: TemplateInfoView, name: Seq<char>, dir: Seq<char>) -> Option<
    RenameView,
> {
    let old_name = paths::file_name(dir);
    let new_name = text::replace_all(old_name, info.placeholder, name);
    if old_name.len() == 0 || old_name == paths::dot_dot() || new_name == old_name {
        None
    } else {
        Some(RenameView { from: dir, to: paths::spec_with_file_name(dir, new_name) })
    }
}

/// A project to be made.
#[derive(Debug, Clone, PartialEq, Eq)]
pub struct Project {
    config: Config,
}

impl Project {
    /// The settings of the project.
    pub closed spec fn config(self) -> Config {
        self.config
    }

    /// A project with the settings `config`.
    pub fn new(config: Config) -> (p: Project)
        ensures
            p.config() == config,
    {
        Project { config }
    }

    /// The directory of the template inside the archive unpacked at
    /// `temp_dir`.
    pub fn template_dir(&self, temp_dir: &str) -> (dir: String)
        ensures
            dir@ == paths::spec_join(temp_dir@, self.config().template.spec_info().path),
    {
        let info = self.config.template.info();
        paths::join(temp_dir, info.path.as_str())
    }

    /// How the template's directory is put under the project's name: it
    /// is renamed to the project's name where it lies, to be copied from
    /// there into the current directory.
    pub fn copy_to_dest(&self, template_dir: &str) -> (r: Rename)
        ensures
            r@ == (RenameView {
                from: template_dir@,
                to: paths::spec_with_file_name(template_dir@, self.config().name@),
            }),
    {
        Rename {
            from: template_dir.to_owned(),
            to: paths::with_file_name(template_dir, self.config.name.as_str()),
        }
    }

    /// The update of the file at `file_path`, whose text is `old_content`:
    /// every placeholder in the text is replaced by the project's name.
    pub fn replace_placeholder_in_file(
        &self,
        template_info: &TemplateInfo,
        file_path: &str,
        old_content: &str,
    ) -> (update: FileUpdate)
        ensures
            update.path@ == file_path@,
            update.dir@ == paths::spec_parent(file_path@),
            update.content@ == text::replace_all(
                old_content@,
                template_info@.placeholder,
                self.config().name@,
            ),
    {
        let new_content = text::replace(
            &text::to_chars(old_content),
            &text::to_chars(template_info.placeholder.as_str()),
            &text::to_chars(self.config.name.as_str()),
        );
        FileUpdate {
            path: file_path.to_owned(),
            dir: paths::parent(file_path),
            content: text::from_chars(&new_content),
        }
    }

    /// The renaming of the directory at `dir_path`, if its name holds the
    /// placeholder.
    pub fn replace_placeholder_in_dir(&self, template_info: &TemplateInfo, dir_path: &str) -> (r:
        Option<Rename>)
        ensures
            match dir_rename(template_info@, self.config().name@, dir_path@) {
                Some(rename) => r matches Some(found) && found@ == rename,
                None => r is None,
            },
    {
        let old_name = text::to_chars(paths::file_name_of(dir_path).as_str());
        let new_name = text::replace(
            &old_name,
            &text::to_chars(template_info.placeholder.as_str()),
            &text::to_chars(self.config.name.as_str()),
        );
        if old_name.len() == 0 || paths::is_dot_dot(&old_name) || text::same(&new_name, &old_name) {
            None
        } else {
            Some(
                Rename {
                    from: dir_path.to_owned(),
                    to: paths::with_file_name(dir_path, text::from_chars(&new_name).as_str()),
                },
            )
        }
    }

    /// The renamings of the directories of a template, in the order of
    /// `paths.dirs`: one for each directory whose name holds the
    /// placeholder.
    pub fn replace_placeholders(&self, template_info: &TemplateInfo, paths: &Paths) -> (renames:
        Vec<Rename>)
        ensures
            renames@.map_values(|r: Rename| Some(r@)) == paths.dirs@.map_values(
                |d: String| dir_rename(template_info@, self.config().name@, d@),
            ).filter(|r: Option<RenameView>| r is Some),
    {
        let ghost all = paths.dirs@.map_values(
            |d: String| dir_rename(template_info@, self.config().name@, d@),
        );
        let ghost wanted = |r: Option<RenameView>| r is Some;
        let mut renames: Vec<Rename> = Vec::new();
        let mut i: usize = 0;
        proof {
            reveal(Seq::filter);
            assert(renames@.map_values(|r: Rename| Some(r@)) =~= all.take(0).filter(wanted));
        }
        while i < paths.dirs.len()
            invariant
                i <= paths.dirs.len(),
                all == paths.dirs@.map_values(
                    |d: String| dir_rename(template_info@, self.config().name@, d@),
                ),
                wanted == |r: Option<RenameView>| r is Some,
                renames@.map_values(|r: Rename| Some(r@)) == all.take(i as int).filter(wanted),
            decreases paths.dirs.len() - i,
        {
            proof {
                reveal(Seq::filter);
                assert(all.take(i + 1).drop_last() == all.take(i as int));
                assert(all.take(i + 1).last() == dir_rename(
                    template_info@,
                    self.config().name@,
                    paths.dirs@[i as int]@,
                ));
            }
            match self.replace_placeholder_in_dir(template_info, paths.dirs[i].as_str()) {
                Some(rename) => {
                    proof {
                        assert(renames@.push(rename).map_values(|r: Rename| Some(r@))
                            =~= renames@.map_values(|r: Rename| Some(r@)).push(Some(rename@)));
                    }
                    renames.push(rename);
                },
                None => {},
            }
            i = i + 1;
        }
        assert(all.take(paths.dirs.len() as int) == all);
        renames
    }
}

} // verus!
