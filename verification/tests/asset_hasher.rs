use poly::asset_hasher::pass::{HashPass, Reply, Task};
use poly::asset_hasher::{
    find_collision, has_nohash, rewrite_content, Asset, AssetHasher, Config, DistFile, Error,
    FileContent, HashedAsset, Rename,
};
use poly::project_info::ProjectInfo;
use poly::util::file_util::{FileData, Replacement};

const DIGEST: &str = "a1b2c3d000000000000000000000000000000000000000000000000000000000";
const EMPTY_SHA256: &str = "e3b0c44298fc1c149afbf4c8996fb92427ae41e4649b934ca495991b7852b855";
const ABC_SHA256: &str = "ba7816bf8f01cfea414140de5dae2223b00361a396177a9cb410ff61f20015ad";

fn hasher() -> AssetHasher {
    AssetHasher::new(Config {
        core_project_path_src: "/p/core/src".to_string(),
        web_project_path_src: "/p/web/src".to_string(),
        dist_path: "/p/dist".to_string(),
    })
}

fn hashed(uri: &str, path: &str, hash: &str) -> HashedAsset {
    HashedAsset::new(Asset::new(uri.to_string(), path.to_string()), hash.to_string())
        .expect("a digest")
}

fn strings(v: &[&str]) -> Vec<String> {
    v.iter().map(|s| s.to_string()).collect()
}

fn file(content: &str) -> FileData {
    FileData { content: content.to_string(), permissions: 0o644 }
}

#[test]
fn config_comes_from_the_project() {
    let info = ProjectInfo {
        project_name: "app".to_string(),
        dist_path: "/p/dist".to_string(),
        web_project_path: "/p/web".to_string(),
        core_project_path: "/p/core".to_string(),
        wasm_project_path: "/p/wasm".to_string(),
        cloudflare_project_path: "/p/cloudflare".to_string(),
    };
    let config = Config::from_project_info(&info);
    assert_eq!(config.core_project_path_src, "/p/core/src");
    assert_eq!(config.web_project_path_src, "/p/web/src");
    assert_eq!(config.dist_path, "/p/dist");
}

#[test]
fn hashed_uri_puts_seven_digits_before_the_extension() {
    let asset = hashed("/styles/app.css", "/p/dist/styles/app.css", DIGEST);
    assert_eq!(asset.short_hash(), "a1b2c3d");
    assert_eq!(asset.uri_with_hash(), "/styles/app.a1b2c3d.css");
    assert_eq!(asset.path_with_hash(), "/p/dist/styles/app.a1b2c3d.css");
    assert_eq!(asset.uri(), "/styles/app.css");
    assert_eq!(asset.path(), "/p/dist/styles/app.css");
    assert_eq!(asset.hash(), DIGEST);
}

#[test]
fn hashed_uri_is_the_same_for_the_same_bytes() {
    let h = hasher();
    let content = FileContent::Bytes(b"body { color: red; }\n".to_vec());
    let first = h
        .hash_asset(Asset::new("/styles/app.css".into(), "/p/dist/styles/app.css".into()), &content)
        .unwrap();
    let second = h
        .hash_asset(Asset::new("/styles/app.css".into(), "/p/dist/styles/app.css".into()), &content)
        .unwrap();
    assert_eq!(first.uri_with_hash(), second.uri_with_hash());
    assert_eq!(first.uri_with_hash(), "/styles/app.9767e91.css");
}

#[test]
fn asset_without_extension_gets_the_hash_appended() {
    let asset = hashed("/LICENSE", "/p/dist/LICENSE", DIGEST);
    assert_eq!(asset.uri_with_hash(), "/LICENSE.a1b2c3d");
    assert_eq!(asset.path_with_hash(), "/p/dist/LICENSE.a1b2c3d");
}

#[test]
fn dots_in_directories_and_leading_dots_are_no_extension() {
    let asset = hashed("/dir.d/file", "/p/dist/dir.d/file", DIGEST);
    assert_eq!(asset.uri_with_hash(), "/dir.d/file.a1b2c3d");
    assert_eq!(asset.path_with_hash(), "/p/dist/dir.d/file.a1b2c3d");
    let asset = hashed("/.well-known", "/p/dist/.well-known", DIGEST);
    assert_eq!(asset.uri_with_hash(), "/.well-known.a1b2c3d");
    let asset = hashed("/a.tar.gz", "/p/dist/a.tar.gz", DIGEST);
    assert_eq!(asset.uri_with_hash(), "/a.tar.a1b2c3d.gz");
}

#[test]
fn only_digests_make_hashed_assets() {
    let asset = || Asset::new("/a".to_string(), "/p/dist/a".to_string());
    assert_eq!(HashedAsset::new(asset(), "a1b2c3d".to_string()), None);
    assert_eq!(HashedAsset::new(asset(), DIGEST.to_uppercase()), None);
    assert_eq!(HashedAsset::new(asset(), format!("{}0", DIGEST)), None);
    assert_eq!(HashedAsset::new(asset(), DIGEST.replace('d', "g")), None);
    assert!(HashedAsset::new(asset(), DIGEST.to_string()).is_some());
}

#[test]
fn hash_is_the_sha256_of_the_content_in_hex() {
    let h = hasher();
    let asset = || Asset::new("/a.txt".to_string(), "/p/dist/a.txt".to_string());
    let hashed = h.hash_asset(asset(), &FileContent::Bytes(Vec::new())).unwrap();
    assert_eq!(hashed.hash(), EMPTY_SHA256);
    let hashed = h.hash_asset(asset(), &FileContent::Bytes(b"abc".to_vec())).unwrap();
    assert_eq!(hashed.hash(), ABC_SHA256);
    assert_eq!(hashed.short_hash(), "ba7816b");
    assert_eq!(hashed.uri_with_hash(), "/a.ba7816b.txt");
}

#[test]
fn unreadable_asset_gives_a_distinct_error() {
    let h = hasher();
    let asset = || Asset::new("/a.txt".to_string(), "/p/dist/a.txt".to_string());
    assert_eq!(
        h.hash_asset(asset(), &FileContent::OpenFailed("denied".to_string())),
        Err(Error::OpenAssetFile("/p/dist/a.txt".to_string(), "denied".to_string()))
    );
    assert_eq!(
        h.hash_asset(asset(), &FileContent::ReadFailed("broken".to_string())),
        Err(Error::HashAssetFile("/p/dist/a.txt".to_string(), "broken".to_string()))
    );
}

#[test]
fn uri_is_the_path_below_the_output_directory() {
    let h = hasher();
    assert_eq!(h.get_dist_uri("/p/dist", "/p/dist/styles/app.css"), Ok("/styles/app.css".to_string()));
    assert_eq!(h.get_dist_uri("/p/dist/", "/p/dist/app.js"), Ok("/app.js".to_string()));
    assert_eq!(
        h.get_dist_uri("/p/dist", "/p/dist"),
        Err(Error::StripPathPrefix("/p/dist".to_string()))
    );
    assert_eq!(
        h.get_dist_uri("/p/dist", "/p/dist/"),
        Err(Error::StripPathPrefix("/p/dist/".to_string()))
    );
    assert_eq!(
        h.get_dist_uri("/p/dist", "/p/distant/app.js"),
        Err(Error::StripPathPrefix("/p/distant/app.js".to_string()))
    );
}

#[test]
fn assets_are_collected_in_order() {
    let h = hasher();
    let assets = h
        .collect_dist_assets(&strings(&["/p/dist/b.js", "/p/dist/img/a.png"]))
        .unwrap();
    assert_eq!(
        assets,
        vec![
            Asset::new("/b.js".to_string(), "/p/dist/b.js".to_string()),
            Asset::new("/img/a.png".to_string(), "/p/dist/img/a.png".to_string()),
        ]
    );
    assert_eq!(
        h.collect_dist_assets(&strings(&["/p/dist/b.js", "/x/a.png", "/y/c.png"])),
        Err(Error::StripPathPrefix("/x/a.png".to_string()))
    );
    assert_eq!(h.collect_dist_assets(&Vec::new()), Ok(Vec::new()));
}

#[test]
fn hashed_assets_are_collected_or_the_first_failure_is_named() {
    let h = hasher();
    let dist = |path: &str, content: FileContent| DistFile { path: path.to_string(), content };
    let ok = h
        .collect_hashed_dist_assets(&vec![
            dist("/p/dist/a.txt", FileContent::Bytes(b"abc".to_vec())),
            dist("/p/dist/empty", FileContent::Bytes(Vec::new())),
        ])
        .unwrap();
    assert_eq!(
        ok,
        vec![
            hashed("/a.txt", "/p/dist/a.txt", ABC_SHA256),
            hashed("/empty", "/p/dist/empty", EMPTY_SHA256),
        ]
    );
    assert_eq!(
        h.collect_hashed_dist_assets(&vec![
            dist("/p/dist/a.txt", FileContent::OpenFailed("denied".to_string())),
            dist("/elsewhere/b.txt", FileContent::Bytes(Vec::new())),
        ]),
        Err(Error::StripPathPrefix("/elsewhere/b.txt".to_string()))
    );
    assert_eq!(
        h.collect_hashed_dist_assets(&vec![
            dist("/p/dist/a.txt", FileContent::Bytes(Vec::new())),
            dist("/p/dist/b.txt", FileContent::ReadFailed("broken".to_string())),
            dist("/p/dist/c.txt", FileContent::OpenFailed("denied".to_string())),
        ]),
        Err(Error::HashAssetFile("/p/dist/b.txt".to_string(), "broken".to_string()))
    );
}

#[test]
fn files_are_filtered_by_extension() {
    let h = hasher();
    let files = strings(&["src/a.rs", "src/b.ts", "src/rs", "src/dir.rs/c", "src/d.rs", ".rs"]);
    assert_eq!(h.collect_files_by_ext(&files, "rs"), strings(&["src/a.rs", "src/d.rs"]));
    assert_eq!(h.collect_files_by_ext(&files, "ts"), strings(&["src/b.ts"]));
    assert_eq!(h.collect_files_by_ext(&files, "js"), Vec::<String>::new());
}

#[test]
fn nohash_marker_is_found() {
    assert!(has_nohash("let a = 1; // nohash"));
    assert!(has_nohash("nohash"));
    assert!(!has_nohash("let a = 1; // no hash"));
    assert!(!has_nohash(""));
}

#[test]
fn uris_are_replaced_line_by_line() {
    let assets = vec![
        hashed("/app.css", "/p/dist/app.css", EMPTY_SHA256),
        hashed("/img/logo.png", "/p/dist/img/logo.png", ABC_SHA256),
    ];
    let source = "link(\"/app.css\");\r\nimg(\"/img/logo.png\", \"/app.css\");\nnothing here\n";
    assert_eq!(
        rewrite_content(source, &assets),
        "link(\"/app.e3b0c44.css\");\r\nimg(\"/img/logo.ba7816b.png\", \"/app.e3b0c44.css\");\nnothing here\n"
    );
    assert_eq!(rewrite_content("", &assets), "");
    assert_eq!(rewrite_content("/app.css", &Vec::new()), "/app.css");
    assert_eq!(rewrite_content("a /app.css", &assets), "a /app.e3b0c44.css");
    assert_eq!(rewrite_content("/app.css\r\n", &assets), "/app.e3b0c44.css\r\n");
}

#[test]
fn text_without_a_uri_stays_as_it_is() {
    let assets = vec![hashed("/app.css", "/p/dist/app.css", EMPTY_SHA256)];
    let texts = [
        "",
        "a",
        "a\n",
        "a\r\n",
        "a\nb",
        "a\r\nb\r\n",
        "\n",
        "\n\n",
        "\r\n\r\n",
        "a\r",
        "a\rb\n",
        "a\r\r\nb",
        "x(\"/app.css\"); // nohash\r\n",
        "fn main() {\n    println!(\"/app.cs\");\n}\n",
    ];
    for text in texts {
        assert_eq!(rewrite_content(text, &assets), text, "{text:?}");
        assert_eq!(rewrite_content(text, &Vec::new()), text, "{text:?}");
    }
}

#[test]
fn line_with_nohash_is_never_rewritten() {
    let assets = vec![hashed("/app.css", "/p/dist/app.css", EMPTY_SHA256)];
    let source = "a(\"/app.css\"); // nohash\nb(\"/app.css\");";
    assert_eq!(
        rewrite_content(source, &assets),
        "a(\"/app.css\"); // nohash\nb(\"/app.e3b0c44.css\");"
    );
}

#[test]
fn uri_inside_other_text_is_replaced_too() {
    let assets = vec![hashed("/a.js", "/p/dist/a.js", EMPTY_SHA256)];
    assert_eq!(rewrite_content("/data/a.json", &assets), "/data/a.e3b0c44.json");
}

#[test]
fn later_asset_sees_what_earlier_ones_wrote() {
    let assets = vec![
        hashed("/a.js", "/p/dist/a.js", EMPTY_SHA256),
        hashed("/a.e3b0c44.js", "/p/dist/a.e3b0c44.js", ABC_SHA256),
    ];
    assert_eq!(rewrite_content("x /a.js y", &assets), "x /a.e3b0c44.js y");
    assert_eq!(
        rewrite_content("/a.js /a.e3b0c44.js", &assets),
        "/a.e3b0c44.ba7816b.js /a.e3b0c44.ba7816b.js"
    );
}

#[test]
fn source_file_is_rewritten_with_its_permissions() {
    let h = hasher();
    let assets = vec![hashed("/app.css", "/p/dist/app.css", EMPTY_SHA256)];
    let read = Ok(FileData { content: "x /app.css".to_string(), permissions: 0o755 });
    assert_eq!(
        h.update_uris_in_file("/p/core/src/view.rs", read, &assets),
        Ok(Replacement {
            path: "/p/core/src/view.rs".to_string(),
            dir: "/p/core/src/".to_string(),
            data: FileData { content: "x /app.e3b0c44.css".to_string(), permissions: 0o755 },
        })
    );
    assert_eq!(
        h.update_uris_in_file("/p/core/src/view.rs", Err("denied".to_string()), &assets),
        Err(Error::ReadFile("/p/core/src/view.rs".to_string(), "denied".to_string()))
    );
}

#[test]
fn assets_are_renamed_to_their_hashed_paths() {
    let h = hasher();
    let assets = vec![
        hashed("/app.css", "/p/dist/app.css", EMPTY_SHA256),
        hashed("/LICENSE", "/p/dist/LICENSE", ABC_SHA256),
    ];
    assert_eq!(
        h.rename_asset(&assets[0]),
        Rename { from: "/p/dist/app.css".to_string(), to: "/p/dist/app.e3b0c44.css".to_string() }
    );
    assert_eq!(
        h.rename_assets(&assets),
        vec![
            Rename { from: "/p/dist/app.css".to_string(), to: "/p/dist/app.e3b0c44.css".to_string() },
            Rename { from: "/p/dist/LICENSE".to_string(), to: "/p/dist/LICENSE.ba7816b".to_string() },
        ]
    );
}

#[test]
fn pass_rewrites_then_rebuilds_then_renames() {
    let h = hasher();
    let assets = vec![hashed("/app.css", "/p/dist/app.css", EMPTY_SHA256)];
    let core = strings(&["/p/core/src/lib.rs", "/p/core/src/notes.txt"]);
    let web = strings(&["/p/web/src/main.ts", "/p/web/src/gen.rs"]);
    let mut pass = h.update_uris_in_files(&core, &web, assets);

    assert_eq!(pass.task(), Task::Read { path: "/p/core/src/lib.rs".to_string() });
    pass.advance(Reply::Read(file("a /app.css")));
    assert_eq!(
        pass.task(),
        Task::Write(Replacement {
            path: "/p/core/src/lib.rs".to_string(),
            dir: "/p/core/src/".to_string(),
            data: file("a /app.e3b0c44.css"),
        })
    );
    pass.advance(Reply::Done);
    assert_eq!(pass.task(), Task::Read { path: "/p/web/src/main.ts".to_string() });
    pass.advance(Reply::Read(file("nothing")));
    pass.advance(Reply::Done);
    assert_eq!(pass.task(), Task::Rebuild);
    pass.advance(Reply::Done);
    assert_eq!(
        pass.task(),
        Task::Rename(Rename {
            from: "/p/dist/app.css".to_string(),
            to: "/p/dist/app.e3b0c44.css".to_string(),
        })
    );
    pass.advance(Reply::Done);
    assert_eq!(pass.task(), Task::Finished);
    pass.advance(Reply::Failed("late".to_string()));
    assert_eq!(pass.task(), Task::Finished);
}

#[test]
fn failed_rewrite_names_the_file_and_ends_the_pass() {
    let assets = vec![hashed("/app.css", "/p/dist/app.css", EMPTY_SHA256)];
    let mut pass = HashPass::new(strings(&["a.rs", "b.rs"]), assets);
    pass.advance(Reply::Read(file("x")));
    pass.advance(Reply::Done);
    assert_eq!(pass.task(), Task::Read { path: "b.rs".to_string() });
    pass.advance(Reply::Failed("denied".to_string()));
    let failed = Task::Failed(vec![Error::ReadFile("b.rs".to_string(), "denied".to_string())]);
    assert_eq!(pass.task(), failed);
    pass.advance(Reply::Done);
    assert_eq!(pass.task(), failed);
    pass.advance(Reply::Read(file("x")));
    assert_eq!(pass.task(), failed);
}

#[test]
fn failed_write_names_the_file_and_ends_the_pass() {
    let mut pass = HashPass::new(strings(&["a.rs", "b.rs"]), Vec::new());
    pass.advance(Reply::Read(file("x")));
    pass.advance(Reply::Failed("disk full".to_string()));
    let failed =
        Task::Failed(vec![Error::WriteSourceFile("a.rs".to_string(), "disk full".to_string())]);
    assert_eq!(pass.task(), failed);
    pass.advance(Reply::Done);
    assert_eq!(pass.task(), failed);
}

#[test]
fn failed_rebuild_ends_the_pass() {
    let assets = vec![hashed("/a.css", "/p/dist/a.css", EMPTY_SHA256)];
    let mut pass = HashPass::new(Vec::new(), assets);
    assert_eq!(pass.task(), Task::Rebuild);
    pass.advance(Reply::Failed("cargo".to_string()));
    let failed = Task::Failed(vec![Error::Rebuild("cargo".to_string())]);
    assert_eq!(pass.task(), failed);
    pass.advance(Reply::Done);
    assert_eq!(pass.task(), failed);
}

#[test]
fn failed_renaming_stops_no_other() {
    let rename = |name: &str| {
        Task::Rename(Rename {
            from: format!("/p/dist/{}.css", name),
            to: format!("/p/dist/{}.e3b0c44.css", name),
        })
    };
    let assets = vec![
        hashed("/a.css", "/p/dist/a.css", EMPTY_SHA256),
        hashed("/b.css", "/p/dist/b.css", EMPTY_SHA256),
        hashed("/c.css", "/p/dist/c.css", EMPTY_SHA256),
        hashed("/d.css", "/p/dist/d.css", EMPTY_SHA256),
    ];
    let mut pass = HashPass::new(Vec::new(), assets);
    pass.advance(Reply::Done);
    assert_eq!(pass.task(), rename("a"));
    pass.advance(Reply::Done);
    assert_eq!(pass.task(), rename("b"));
    pass.advance(Reply::Failed("busy".to_string()));
    assert_eq!(pass.task(), rename("c"));
    pass.advance(Reply::Done);
    assert_eq!(pass.task(), rename("d"));
    pass.advance(Reply::Failed("gone".to_string()));
    let failed = Task::Failed(vec![
        Error::RenameAssetFile("/p/dist/b.css".to_string(), "busy".to_string()),
        Error::RenameAssetFile("/p/dist/d.css".to_string(), "gone".to_string()),
    ]);
    assert_eq!(pass.task(), failed);
    pass.advance(Reply::Done);
    assert_eq!(pass.task(), failed);
}

#[test]
fn failed_renaming_of_the_only_asset_fails_the_pass() {
    let assets = vec![hashed("/a.css", "/p/dist/a.css", EMPTY_SHA256)];
    let mut pass = HashPass::new(Vec::new(), assets);
    pass.advance(Reply::Done);
    pass.advance(Reply::Failed("busy".to_string()));
    assert_eq!(
        pass.task(),
        Task::Failed(vec![Error::RenameAssetFile("/p/dist/a.css".to_string(), "busy".to_string())])
    );
}

#[test]
fn reply_that_answers_no_task_changes_nothing() {
    let mut pass = HashPass::new(strings(&["a.rs"]), Vec::new());
    pass.advance(Reply::Done);
    assert_eq!(pass.task(), Task::Read { path: "a.rs".to_string() });
    pass.advance(Reply::Read(file("x")));
    pass.advance(Reply::Read(file("y")));
    assert_eq!(
        pass.task(),
        Task::Write(Replacement {
            path: "a.rs".to_string(),
            dir: ".".to_string(),
            data: file("x"),
        })
    );
    pass.advance(Reply::Done);
    assert_eq!(pass.task(), Task::Rebuild);
    pass.advance(Reply::Read(file("z")));
    assert_eq!(pass.task(), Task::Rebuild);
    pass.advance(Reply::Done);
    assert_eq!(pass.task(), Task::Finished);
}

#[test]
fn hashed_uri_is_the_uri_of_the_renamed_file() {
    let h = hasher();
    let files = [
        "/p/dist/app.css",
        "/p/dist/styles/app.css",
        "/p/dist/LICENSE",
        "/p/dist/dir.d/file",
        "/p/dist/.well-known",
        "/p/dist/a.tar.gz",
        "/p/dist//deep/x.y/z.",
    ];
    for path in files {
        let uri = h.get_dist_uri("/p/dist", path).unwrap();
        let asset = hashed(&uri, path, ABC_SHA256);
        assert_eq!(
            h.get_dist_uri("/p/dist", &asset.path_with_hash()),
            Ok(asset.uri_with_hash()),
            "{path}"
        );
    }
}

#[test]
fn rewritten_source_speaks_of_the_renamed_files() {
    let h = hasher();
    let dist = |path: &str, content: &[u8]| DistFile {
        path: path.to_string(),
        content: FileContent::Bytes(content.to_vec()),
    };
    let assets = h
        .collect_hashed_dist_assets(&vec![
            dist("/p/dist/app.css", b""),
            dist("/p/dist/img/logo.png", b"abc"),
        ])
        .unwrap();
    let rewritten = rewrite_content("css(\"/app.css\") img(\"/img/logo.png\")", &assets);
    let renamed: Vec<String> = h
        .rename_assets(&assets)
        .into_iter()
        .map(|rename| h.get_dist_uri("/p/dist", &rename.to).unwrap())
        .collect();
    assert_eq!(renamed, strings(&["/app.e3b0c44.css", "/img/logo.ba7816b.png"]));
    for uri in renamed {
        assert!(rewritten.contains(&uri), "{uri}");
    }
    assert!(!rewritten.contains("/app.css"));
}

#[test]
fn colliding_renames_are_found() {
    let apart = vec![
        hashed("/a.css", "/p/dist/a.css", EMPTY_SHA256),
        hashed("/b.css", "/p/dist/b.css", ABC_SHA256),
    ];
    assert_eq!(find_collision(&apart), None);
    assert_eq!(find_collision(&Vec::new()), None);
    let taken = vec![
        hashed("/b.css", "/p/dist/b.css", ABC_SHA256),
        hashed("/a.css", "/p/dist/a.css", EMPTY_SHA256),
        hashed("/a.e3b0c44.css", "/p/dist/a.e3b0c44.css", ABC_SHA256),
    ];
    assert_eq!(find_collision(&taken), Some(1));
    let twice = vec![
        hashed("/a.css", "/p/dist/a.css", EMPTY_SHA256),
        hashed("/a.css", "/p/dist/a.css", EMPTY_SHA256),
    ];
    assert_eq!(find_collision(&twice), Some(0));
}

#[test]
fn pass_over_colliding_assets_fails_before_it_begins() {
    let assets = vec![
        hashed("/a.css", "/p/dist/a.css", EMPTY_SHA256),
        hashed("/a.e3b0c44.css", "/p/dist/a.e3b0c44.css", ABC_SHA256),
    ];
    let mut pass = HashPass::new(strings(&["a.rs"]), assets);
    let failed = Task::Failed(vec![Error::HashedNameTaken("/p/dist/a.css".to_string())]);
    assert_eq!(pass.task(), failed);
    pass.advance(Reply::Done);
    assert_eq!(pass.task(), failed);
}
