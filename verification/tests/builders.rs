use poly::backlog_builder::Stage;
use poly::builds::{Env, Failure, Step};
use poly::exec;
use poly::project_info::ProjectInfo;
use poly::rust_builder::{self, RustBuilder};
use poly::script_runner::{self, ScriptRunner};
use poly::typescript_builder::{self, TypeScriptBuilder};

fn info() -> ProjectInfo {
    ProjectInfo {
        project_name: "app".to_string(),
        dist_path: "/p/dist".to_string(),
        web_project_path: "/p/web".to_string(),
        core_project_path: "/p/core".to_string(),
        wasm_project_path: "/p/wasm".to_string(),
        cloudflare_project_path: "/p/cloudflare".to_string(),
    }
}

fn strings(v: &[&str]) -> Vec<String> {
    v.iter().map(|s| s.to_string()).collect()
}

fn command(work_dir: &str, cmd: &str, args: &[&str]) -> Step {
    Step::Run(exec::Config {
        work_dir: work_dir.to_string(),
        cmd: cmd.to_string(),
        args: strings(args),
    })
}

#[test]
fn source_directories_lie_below_the_projects() {
    assert_eq!(info().core_project_path_src(), "/p/core/src");
    assert_eq!(info().web_project_path_src(), "/p/web/src");
}

#[test]
fn rust_config_comes_from_the_project() {
    let config = rust_builder::Config::from_project_info(&Env::Release, &info());
    assert_eq!(
        config,
        rust_builder::Config {
            env: Env::Release,
            project_name: "app".to_string(),
            dist_path: "/p/dist".to_string(),
            web_project_path: "/p/web".to_string(),
            wasm_project_path: "/p/wasm".to_string(),
        }
    );
    assert_eq!(config.web_project_wasm_path(), "/p/web/wasm");
}

#[test]
fn development_build_of_the_core() {
    let builder = RustBuilder::new(rust_builder::Config::from_project_info(&Env::Dev, &info()));
    let steps = vec![
        Step::CreateDir("/p/dist".to_string()),
        Step::CreateDir("/p/web/wasm".to_string()),
        command(".", "cargo", &["build", "--color", "always"]),
        command(
            "/p/wasm",
            "wasm-pack",
            &["build", "--dev", "--target", "web", "--out-name", "app", "--out-dir", "/p/web/wasm"],
        ),
        Step::CopyDir { from: "/p/web/wasm".to_string(), to: "/p/dist".to_string(), overwrite: true },
    ];
    assert_eq!(builder.build_dev(), steps);
    assert_eq!(builder.run(), steps);
}

#[test]
fn release_build_of_the_core() {
    let builder = RustBuilder::new(rust_builder::Config::from_project_info(&Env::Release, &info()));
    let steps = vec![
        Step::CreateDir("/p/dist".to_string()),
        Step::CreateDir("/p/web/wasm".to_string()),
        command(".", "cargo", &["build", "--release", "--color", "always"]),
        command(
            "/p/wasm",
            "wasm-pack",
            &["build", "--release", "--target", "web", "--out-name", "app", "--out-dir", "/p/web/wasm"],
        ),
        Step::CopyDir { from: "/p/web/wasm".to_string(), to: "/p/dist".to_string(), overwrite: true },
    ];
    assert_eq!(builder.build_release(), steps);
    assert_eq!(builder.run(), steps);
}

#[test]
fn steps_of_the_core_belong_to_two_stages() {
    assert_eq!(RustBuilder::stage_of(0), Stage::NativeCompile);
    assert_eq!(RustBuilder::stage_of(1), Stage::NativeCompile);
    assert_eq!(RustBuilder::stage_of(2), Stage::NativeCompile);
    assert_eq!(RustBuilder::stage_of(3), Stage::WasmPackaging);
    assert_eq!(RustBuilder::stage_of(4), Stage::WasmPackaging);
}

#[test]
fn failed_step_of_the_core_gives_its_error() {
    let io = || Failure::Io("denied".to_string());
    let failed = || Failure::Exec(exec::Error::ExitFailure("boom".to_string(), Some(101)));
    assert_eq!(rust_builder::Error::at(0, io()), rust_builder::Error::CreateDistDir(io()));
    assert_eq!(rust_builder::Error::at(1, io()), rust_builder::Error::CreateWebWasmDir(io()));
    assert_eq!(rust_builder::Error::at(2, failed()), rust_builder::Error::CargoBuild(failed()));
    assert_eq!(rust_builder::Error::at(3, failed()), rust_builder::Error::WasmPack(failed()));
    assert_eq!(rust_builder::Error::at(4, io()), rust_builder::Error::CopyWasmToDist(io()));
    assert_eq!(
        rust_builder::Error::at(0, io()).to_string(),
        "Failed to create the dist dir: denied"
    );
    assert_eq!(
        rust_builder::Error::at(1, io()).to_string(),
        "Failed to create the wasm dir in web project: denied"
    );
    assert_eq!(
        rust_builder::Error::at(2, failed()).to_string(),
        "cargo build failed: exited with failure: boom"
    );
    assert_eq!(
        rust_builder::Error::at(3, failed()).to_string(),
        "wasm-pack failed: exited with failure: boom"
    );
    assert_eq!(
        rust_builder::Error::at(4, io()).to_string(),
        "Failed to copy wasm dir to dist: denied"
    );
}

#[test]
fn development_build_of_the_front_end() {
    let config = typescript_builder::Config::from_project_info(&Env::Dev, &info());
    assert_eq!(
        config,
        typescript_builder::Config { env: Env::Dev, web_project_path: "/p/web".to_string() }
    );
    let builder = TypeScriptBuilder::new(config);
    let steps = vec![
        command("/p/web", "npm", &["install"]),
        command("/p/web", "npm", &["run", "build-dev"]),
    ];
    assert_eq!(builder.build_dev(), steps);
    assert_eq!(builder.run(), steps);
}

#[test]
fn release_build_of_the_front_end() {
    let builder =
        TypeScriptBuilder::new(typescript_builder::Config::from_project_info(&Env::Release, &info()));
    assert_eq!(builder.env(), Env::Release);
    let steps = vec![
        command("/p/web", "npm", &["install"]),
        command("/p/web", "npm", &["run", "build-release"]),
    ];
    assert_eq!(builder.build_release(), steps);
    assert_eq!(builder.run(), steps);
}

#[test]
fn failed_step_of_the_front_end_gives_its_error() {
    let failed = || Failure::Exec(exec::Error::FailedToExecute("no npm".to_string()));
    assert_eq!(
        typescript_builder::Error::at(Env::Dev, 0, failed()),
        typescript_builder::Error::NpmInstall(failed())
    );
    assert_eq!(
        typescript_builder::Error::at(Env::Release, 0, failed()),
        typescript_builder::Error::NpmInstall(failed())
    );
    assert_eq!(
        typescript_builder::Error::at(Env::Dev, 1, failed()),
        typescript_builder::Error::NpmBuildDev(failed())
    );
    assert_eq!(
        typescript_builder::Error::at(Env::Release, 1, failed()),
        typescript_builder::Error::NpmBuildRelease(failed())
    );
    assert_eq!(
        typescript_builder::Error::at(Env::Dev, 0, failed()).to_string(),
        "'npm install' failed: failed to execute: no npm"
    );
    assert_eq!(
        typescript_builder::Error::at(Env::Dev, 1, failed()).to_string(),
        "'npm run build-dev' failed: failed to execute: no npm"
    );
    assert_eq!(
        typescript_builder::Error::at(Env::Release, 1, failed()).to_string(),
        "'npm run build-release' failed: failed to execute: no npm"
    );
}

#[test]
fn script_is_told_the_environment_and_the_moment() {
    let runner = ScriptRunner::new("/p/post_build.sh".to_string(), &Env::Dev);
    assert_eq!(
        runner.run(script_runner::Event::BeforeAssetHash),
        exec::Config {
            work_dir: ".".to_string(),
            cmd: "/p/post_build.sh".to_string(),
            args: strings(&["dev", "before_asset_hash"]),
        }
    );
    let runner = ScriptRunner::new("/p/post_build.sh".to_string(), &Env::Release);
    assert_eq!(
        runner.run(script_runner::Event::AfterAssetHash).args,
        strings(&["release", "after_asset_hash"])
    );
    assert_eq!(
        script_runner::Error::Exec(Failure::Io("denied".to_string())).to_string(),
        "Script failed: denied"
    );
}
