//! Building the compiled core and packaging it as WebAssembly.
//!
//! The builder says what is to be done, step by step; the caller does it
//! and stops at the first step that fails.

use crate::backlog_builder::Stage;
use crate::builds::{Env, Failure, Step, StepView};
use crate::exec::to_args;
use crate::paths;
use crate::project_info::ProjectInfo;
use crate::text;
use vstd::prelude::*;

verus! {

/// The settings of the builder.
#[derive(Debug, Clone, PartialEq, Eq)]
pub struct Config {
    pub env: Env,
    pub project_name: String,
    pub dist_path: String,
    pub web_project_path: String,
    pub wasm_project_path: String,
}

impl Config {
    /// The settings for building the project `project_info` for `env`.
    pub fn from_project_info(env: &Env, project_info: &ProjectInfo) -> (c: Config)
        ensures
            c.env == *env,
            c.project_name@ == project_info.project_name@,
            c.dist_path@ == project_info.dist_path@,
            c.web_project_path@ == project_info.web_project_path@,
            c.wasm_project_path@ == project_info.wasm_project_path@,
    {
        Config {
            env: *env,
            project_name: project_info.project_name.clone(),
            dist_path: project_info.dist_path.clone(),
            web_project_path: project_info.web_project_path.clone(),
            wasm_project_path: project_info.wasm_project_path.clone(),
        }
    }

    /// The directory of the web front end that receives the package.
    pub open spec fn spec_web_project_wasm_path(self) -> Seq<char> {
        paths::spec_join(self.web_project_path@, "wasm"@)
    }

    /// The directory of the web front end that receives the package.
    pub fn web_project_wasm_path(&self) -> (p: String)
        ensures
            p@ == self.spec_web_project_wasm_path(),
    {
        paths::join(self.web_project_path.as_str(), "wasm")
    }

    /// The command that compiles the core.
    pub open spec fn cargo_build(self) -> crate::exec::ConfigView {
        crate::exec::ConfigView {
            work_dir: "."@,
            cmd: "cargo"@,
            args: match self.env {
                Env::Dev => seq!["build"@, "--color"@, "always"@],
                Env::Release => seq!["build"@, "--release"@, "--color"@, "always"@],
            },
        }
    }

    /// The command that packages the core as WebAssembly for the web, under
    /// the project's name, into the front end's package directory.
    pub open spec fn wasm_pack(self) -> crate::exec::ConfigView {
        crate::exec::ConfigView {
            work_dir: self.wasm_project_path@,
            cmd: "wasm-pack"@,
            args: seq![
                "build"@,
                match self.env {
                    Env::Dev => "--dev"@,
                    Env::Release => "--release"@,
                },
                "--target"@,
                "web"@,
                "--out-name"@,
                self.project_name@,
                "--out-dir"@,
                self.spec_web_project_wasm_path(),
            ],
        }
    }

    /// The steps of a build, in order: both output directories are made,
    /// the core is compiled and packaged, and the package is copied to the
    /// output directory over what is there.
    pub open spec fn steps(self) -> Seq<StepView> {
        seq![
            StepView::CreateDir(self.dist_path@),
            StepView::CreateDir(self.spec_web_project_wasm_path()),
            StepView::Run(self.cargo_build()),
            StepView::Run(self.wasm_pack()),
            StepView::CopyDir {
                from: self.spec_web_project_wasm_path(),
                to: self.dist_path@,
                overwrite: true,
            },
        ]
    }
}

/// Why a build failed: the step that failed, and how.
#[derive(Debug, PartialEq, Eq)]
pub enum Error {
    CreateDistDir(Failure),
    CreateWebWasmDir(Failure),
    CargoBuild(Failure),
    WasmPack(Failure),
    CopyWasmToDist(Failure),
}

/// The error of a build whose step number `step` failed with `failure`.
pub open spec fn error_at(step: usize, failure: Failure) -> Error {
    if step == 0 {
        Error::CreateDistDir(failure)
    } else if step == 1 {
        Error::CreateWebWasmDir(failure)
    } else if step == 2 {
        Error::CargoBuild(failure)
    } else if step == 3 {
        Error::WasmPack(failure)
    } else {
        Error::CopyWasmToDist(failure)
    }
}

/// The stage of the pipeline that step number `step` of a build belongs
/// to: compiling takes the first three steps, packaging the rest.
pub open spec fn stage_at(step: usize) -> Stage {
    if step <= 2 {
        Stage::NativeCompile
    } else {
        Stage::WasmPackaging
    }
}

/// What is said to the user about a failed build.
pub open spec fn describe(err: Error) -> Seq<char> {
    match err {
        Error::CreateDistDir(failure) => "Failed to create the dist dir: "@ + failure.describe(),
        Error::CreateWebWasmDir(failure) => "Failed to create the wasm dir in web project: "@
            + failure.describe(),
        Error::CargoBuild(failure) => "cargo build failed: "@ + failure.describe(),
        Error::WasmPack(failure) => "wasm-pack failed: "@ + failure.describe(),
        Error::CopyWasmToDist(failure) => "Failed to copy wasm dir to dist: "@
            + failure.describe(),
    }
}

impl Error {
    /// The error of a build whose step number `step` failed with `failure`.
    pub fn at(step: usize, failure: Failure) -> (err: Error)
        ensures
            err == error_at(step, failure),
    {
        if step == 0 {
            Error::CreateDistDir(failure)
        } else if step == 1 {
            Error::CreateWebWasmDir(failure)
        } else if step == 2 {
            Error::CargoBuild(failure)
        } else if step == 3 {
            Error::WasmPack(failure)
        } else {
            Error::CopyWasmToDist(failure)
        }
    }

    /// The error as a line of text.
    pub fn to_string(&self) -> (s: String)
        ensures
            s@ == describe(*self),
    {
        match self {
            Error::CreateDistDir(failure) => text::append(
                "Failed to create the dist dir: ",
                failure.to_string().as_str(),
            ),
            Error::CreateWebWasmDir(failure) => text::append(
                "Failed to create the wasm dir in web project: ",
                failure.to_string().as_str(),
            ),
            Error::CargoBuild(failure) => text::append(
                "cargo build failed: ",
                failure.to_string().as_str(),
            ),
            Error::WasmPack(failure) => text::append(
                "wasm-pack failed: ",
                failure.to_string().as_str(),
            ),
            Error::CopyWasmToDist(failure) => text::append(
                "Failed to copy wasm dir to dist: ",
                failure.to_string().as_str(),
            ),
        }
    }
}

/// The builder of the compiled core.
#[derive(Debug, Clone, PartialEq, Eq)]
pub struct RustBuilder {
    config: Config,
}

impl RustBuilder {
    /// The settings of the builder.
    pub closed spec fn config(self) -> Config {
        self.config
    }

    /// A builder with the settings `config`.
    pub fn new(config: Config) -> (b: RustBuilder)
        ensures
            b.config() == config,
    {
        RustBuilder { config }
    }

    /// The steps of a build with the given first argument of the packaging
    /// command and the given arguments of the compiler.
    fn build(&self, cargo_args: Vec<String>, mode: &str) -> (steps: Vec<Step>)
        ensures
            steps@.len() == 5,
            steps@[0]@ == StepView::CreateDir(self.config.dist_path@),
            steps@[1]@ == StepView::CreateDir(self.config.spec_web_project_wasm_path()),
            steps@[2]@ == StepView::Run(
                crate::exec::ConfigView {
                    work_dir: "."@,
                    cmd: "cargo"@,
                    args: cargo_args@.map_values(|a: String| a@),
                },
            ),
            steps@[3]@ == StepView::Run(
                crate::exec::ConfigView {
                    work_dir: self.config.wasm_project_path@,
                    cmd: "wasm-pack"@,
                    args: seq![
                        "build"@,
                        mode@,
                        "--target"@,
                        "web"@,
                        "--out-name"@,
                        self.config.project_name@,
                        "--out-dir"@,
                        self.config.spec_web_project_wasm_path(),
                    ],
                },
            ),
            steps@[4]@ == (StepView::CopyDir {
                from: self.config.spec_web_project_wasm_path(),
                to: self.config.dist_path@,
                overwrite: true,
            }),
    {
        let wasm_path = self.config.web_project_wasm_path();
        let pack_args = to_args(
            &[
                "build",
                mode,
                "--target",
                "web",
                "--out-name",
                self.config.project_name.as_str(),
                "--out-dir",
                wasm_path.as_str(),
            ],
        );
        let mut steps: Vec<Step> = Vec::new();
        steps.push(Step::CreateDir(self.config.dist_path.clone()));
        steps.push(Step::CreateDir(wasm_path.clone()));
        steps.push(
            Step::Run(
                crate::exec::Config {
                    work_dir: ".".to_owned(),
                    cmd: "cargo".to_owned(),
                    args: cargo_args,
                },
            ),
        );
        steps.push(
            Step::Run(
                crate::exec::Config {
                    work_dir: self.config.wasm_project_path.clone(),
                    cmd: "wasm-pack".to_owned(),
                    args: pack_args,
                },
            ),
        );
        steps.push(
            Step::CopyDir { from: wasm_path, to: self.config.dist_path.clone(), overwrite: true },
        );
        proof {
            assert(pack_args@.map_values(|a: String| a@) =~= seq![
                "build"@,
                mode@,
                "--target"@,
                "web"@,
                "--out-name"@,
                self.config.project_name@,
                "--out-dir"@,
                self.config.spec_web_project_wasm_path(),
            ]);
        }
        steps
    }

    /// The steps of a development build.
    pub fn build_dev(&self) -> (steps: Vec<Step>)
        ensures
            crate::builds::step_views(steps@) == (Config {
                env: Env::Dev,
                ..self.config()
            }).steps(),
    {
        let cargo_args = to_args(&["build", "--color", "always"]);
        let steps = self.build(cargo_args, "--dev");
        proof {
            assert(cargo_args@.map_values(|a: String| a@) =~= seq![
                "build"@,
                "--color"@,
                "always"@,
            ]);
            assert(crate::builds::step_views(steps@) =~= (Config {
                env: Env::Dev,
                ..self.config()
            }).steps());
        }
        steps
    }

    /// The steps of a release build.
    pub fn build_release(&self) -> (steps: Vec<Step>)
        ensures
            crate::builds::step_views(steps@) == (Config {
                env: Env::Release,
                ..self.config()
            }).steps(),
    {
        let cargo_args = to_args(&["build", "--release", "--color", "always"]);
        let steps = self.build(cargo_args, "--release");
        proof {
            assert(cargo_args@.map_values(|a: String| a@) =~= seq![
                "build"@,
                "--release"@,
                "--color"@,
                "always"@,
            ]);
            assert(crate::builds::step_views(steps@) =~= (Config {
                env: Env::Release,
                ..self.config()
            }).steps());
        }
        steps
    }

    /// The steps of a build for the environment of the settings.
    pub fn run(&self) -> (steps: Vec<Step>)
        ensures
            crate::builds::step_views(steps@) == self.config().steps(),
    {
        match self.config.env {
            Env::Dev => self.build_dev(),
            Env::Release => self.build_release(),
        }
    }

    /// The stage of the pipeline that step number `step` belongs to.
    pub fn stage_of(step: usize) -> (stage: Stage)
        ensures
            stage == stage_at(step),
    {
        if step <= 2 {
            Stage::NativeCompile
        } else {
            Stage::WasmPackaging
        }
    }
}

} // verus!
