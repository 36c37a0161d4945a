//! Building the web front end with its bundler.

use crate::builds::{Env, Failure, Step, StepView};
use crate::exec::to_args;
use crate::project_info::ProjectInfo;
use crate::text;
use vstd::prelude::*;

verus! {

/// The settings of the builder.
#[derive(Debug, Clone, PartialEq, Eq)]
pub struct Config {
    pub env: Env,
    pub web_project_path: String,
}

impl Config {
    /// The settings for building the front end of `project_info` for `env`.
    pub fn from_project_info(env: &Env, project_info: &ProjectInfo) -> (c: Config)
        ensures
            c.env == *env,
            c.web_project_path@ == project_info.web_project_path@,
    {
        Config { env: *env, web_project_path: project_info.web_project_path.clone() }
    }

    /// The bundler's command with the arguments `args`, run in the front
    /// end's directory.
    pub open spec fn npm(self, args: Seq<Seq<char>>) -> StepView {
        StepView::Run(
            crate::exec::ConfigView { work_dir: self.web_project_path@, cmd: "npm"@, args },
        )
    }

    /// The name of the front end's build script for the environment.
    pub open spec fn build_script(self) -> Seq<char> {
        match self.env {
            Env::Dev => "build-dev"@,
            Env::Release => "build-release"@,
        }
    }

    /// The steps of a build, in order: the front end's dependencies are
    /// installed, and its build script for the environment is run.
    pub open spec fn steps(self) -> Seq<StepView> {
        seq![self.npm(seq!["install"@]), self.npm(seq!["run"@, self.build_script()])]
    }
}

/// Why a build failed: the step that failed, and how.
#[derive(Debug, PartialEq, Eq)]
pub enum Error {
    NpmInstall(Failure),
    NpmBuildDev(Failure),
    NpmBuildRelease(Failure),
}

/// The error of a build for `env` whose step number `step` failed with
/// `failure`.
pub open spec fn error_at(env: Env, step: usize, failure: Failure) -> Error {
    if step == 0 {
        Error::NpmInstall(failure)
    } else {
        match env {
            Env::Dev => Error::NpmBuildDev(failure),
            Env::Release => Error::NpmBuildRelease(failure),
        }
    }
}

/// What is said to the user about a failed build.
pub open spec fn describe(err: Error) -> Seq<char> {
    match err {
        Error::NpmInstall(failure) => "'npm install' failed: "@ + failure.describe(),
        Error::NpmBuildDev(failure) => "'npm run build-dev' failed: "@ + failure.describe(),
        Error::NpmBuildRelease(failure) => "'npm run build-release' failed: "@
            + failure.describe(),
    }
}

impl Error {
    /// The error of a build for `env` whose step number `step` failed with
    /// `failure`.
    pub fn at(env: Env, step: usize, failure: Failure) -> (err: Error)
        ensures
            err == error_at(env, step, failure),
    {
        if step == 0 {
            Error::NpmInstall(failure)
        } else {
            match env {
                Env::Dev => Error::NpmBuildDev(failure),
                Env::Release => Error::NpmBuildRelease(failure),
            }
        }
    }

    /// The error as a line of text.
    pub fn to_string(&self) -> (s: String)
        ensures
            s@ == describe(*self),
    {
        match self {
            Error::NpmInstall(failure) => text::append(
                "'npm install' failed: ",
                failure.to_string().as_str(),
            ),
            Error::NpmBuildDev(failure) => text::append(
                "'npm run build-dev' failed: ",
                failure.to_string().as_str(),
            ),
            Error::NpmBuildRelease(failure) => text::append(
                "'npm run build-release' failed: ",
                failure.to_string().as_str(),
            ),
        }
    }
}

/// The builder of the web front end.
#[derive(Debug, Clone, PartialEq, Eq)]
pub struct TypeScriptBuilder {
    config: Config,
}

impl TypeScriptBuilder {
    /// The settings of the builder.
    pub closed spec fn config(self) -> Config {
        self.config
    }

    /// A builder with the settings `config`.
    pub fn new(config: Config) -> (b: TypeScriptBuilder)
        ensures
            b.config() == config,
    {
        TypeScriptBuilder { config }
    }

    /// The environment that the builder builds for.
    pub fn env(&self) -> (env: Env)
        ensures
            env == self.config().env,
    {
        self.config.env
    }

    /// The steps of a build whose build script is `script`.
    fn build(&self, script: &str) -> (steps: Vec<Step>)
        ensures
            crate::builds::step_views(steps@) == seq![
                self.config().npm(seq!["install"@]),
                self.config().npm(seq!["run"@, script@]),
            ],
    {
        let install_args = to_args(&["install"]);
        let build_args = to_args(&["run", script]);
        let mut steps: Vec<Step> = Vec::new();
        steps.push(
            Step::Run(
                crate::exec::Config {
                    work_dir: self.config.web_project_path.clone(),
                    cmd: "npm".to_owned(),
                    args: install_args,
                },
            ),
        );
        steps.push(
            Step::Run(
                crate::exec::Config {
                    work_dir: self.config.web_project_path.clone(),
                    cmd: "npm".to_owned(),
                    args: build_args,
                },
            ),
        );
        proof {
            assert(install_args@.map_values(|a: String| a@) =~= seq!["install"@]);
            assert(build_args@.map_values(|a: String| a@) =~= seq!["run"@, script@]);
            assert(crate::builds::step_views(steps@) =~= seq![
                self.config().npm(seq!["install"@]),
                self.config().npm(seq!["run"@, script@]),
            ]);
        }
        steps
    }

    /// The steps of a release build.
    pub fn build_release(&self) -> (steps: Vec<Step>)
        ensures
            crate::builds::step_views(steps@) == (Config {
                env: Env::Release,
                ..self.config()
            }).steps(),
    {
        self.build("build-release")
    }

    /// The steps of a development build.
    pub fn build_dev(&self) -> (steps: Vec<Step>)
        ensures
            crate::builds::step_views(steps@) == (Config {
                env: Env::Dev,
                ..self.config()
            }).steps(),
    {
        self.build("build-dev")
    }

    /// The steps of a build for the environment of the settings.
    pub fn run(&self) -> (steps: Vec<Step>)
        ensures
            crate::builds::step_views(steps@) == self.config().steps(),
    {
        match self.config.env {
            Env::Dev => self.build_dev(),
            Env::Release => self.build_release(),
        }
    }
}

} // verus!
