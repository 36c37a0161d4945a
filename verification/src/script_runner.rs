//! Running the user's script around a build.

use crate::builds::{Env, Failure};
use crate::text;
use vstd::prelude::*;

verus! {

/// The moment of a build at which the script is run.
#[derive(Debug, Clone, Copy, PartialEq, Eq, Structural)]
pub enum Event {
    /// The build is done and no asset has been renamed.
    BeforeAssetHash,
    /// The assets carry their hashed names.
    AfterAssetHash,
}

impl Event {
    /// The tag that names the moment on the script's command line.
    pub open spec fn tag(self) -> Seq<char> {
        match self {
            Event::BeforeAssetHash => "before_asset_hash"@,
            Event::AfterAssetHash => "after_asset_hash"@,
        }
    }

    /// The moment's tag as a string.
    pub fn to_string(&self) -> (s: String)
        ensures
            s@ == self.tag(),
    {
        match self {
            Event::BeforeAssetHash => "before_asset_hash".to_owned(),
            Event::AfterAssetHash => "after_asset_hash".to_owned(),
        }
    }
}

/// Why the script failed.
#[derive(Debug, PartialEq, Eq)]
pub enum Error {
    Exec(Failure),
}

/// What is said to the user about a failed script.
pub open spec fn describe(err: Error) -> Seq<char> {
    match err {
        Error::Exec(failure) => "Script failed: "@ + failure.describe(),
    }
}

impl Error {
    /// The error as a line of text.
    pub fn to_string(&self) -> (s: String)
        ensures
            s@ == describe(*self),
    {
        match self {
            Error::Exec(failure) => text::append("Script failed: ", failure.to_string().as_str()),
        }
    }
}

/// The runner of the user's script.
#[derive(Debug, Clone, PartialEq, Eq)]
pub struct ScriptRunner {
    script_path: String,
    env: Env,
}

impl ScriptRunner {
    /// The path of the script.
    pub closed spec fn script_path(self) -> Seq<char> {
        self.script_path@
    }

    /// The environment that the script is told of.
    pub closed spec fn env(self) -> Env {
        self.env
    }

    /// A runner of the script at `script_path` for builds made for `env`.
    pub fn new(script_path: String, env: &Env) -> (r: ScriptRunner)
        ensures
            r.script_path() == script_path@,
            r.env() == *env,
    {
        ScriptRunner { script_path, env: *env }
    }

    /// The command that runs the script at the moment `event`: the script
    /// itself, in the current directory, with the tags of the environment
    /// and of the moment as its arguments.
    pub open spec fn command(self, event: Event) -> crate::exec::ConfigView {
        crate::exec::ConfigView {
            work_dir: "."@,
            cmd: self.script_path(),
            args: seq![self.env().tag(), event.tag()],
        }
    }

    /// The command that runs the script at the moment `event`.
    pub fn run(&self, event: Event) -> (command: crate::exec::Config)
        ensures
            command@ == self.command(event),
    {
        let mut args: Vec<String> = Vec::new();
        args.push(self.env.to_string());
        args.push(event.to_string());
        let command = crate::exec::Config {
            work_dir: ".".to_owned(),
            cmd: self.script_path.clone(),
            args,
        };
        assert(command@.args =~= seq![self.env().tag(), event.tag()]);
        command
    }
}

} // verus!
