use poly::asset_hasher::Rename;
use poly::project::{Config, FileUpdate, Paths, Project, Template, TemplateInfo};

fn project(name: &str) -> Project {
    Project::new(Config {
        name: name.to_string(),
        template: Template::CounterTailwind,
        current_dir: "/home/me".to_string(),
    })
}

fn strings(v: &[&str]) -> Vec<String> {
    v.iter().map(|s| s.to_string()).collect()
}

#[test]
fn counter_template() {
    let info = Template::CounterTailwind.info();
    assert_eq!(
        info.url(),
        "https://github.com/polyester-web/polyester-templates/archive/refs/heads/main.zip"
    );
    assert_eq!(info.path(), "counter-tailwind");
    assert_eq!(info.placeholder(), "myapp");
}

#[test]
fn custom_template() {
    let custom = TemplateInfo::new("https://e.org/t.zip".into(), "t".into(), "NAME".into());
    assert_eq!(Template::Custom(custom.clone()).info(), custom);
}

#[test]
fn template_directory_lies_in_the_unpacked_archive() {
    assert_eq!(project("shop").template_dir("/tmp/x"), "/tmp/x/counter-tailwind");
}

#[test]
fn template_directory_takes_the_name_of_the_project() {
    assert_eq!(
        project("shop").copy_to_dest("/tmp/x/counter-tailwind"),
        Rename { from: "/tmp/x/counter-tailwind".to_string(), to: "/tmp/x/shop".to_string() }
    );
}

#[test]
fn placeholder_is_replaced_in_files() {
    let info = Template::CounterTailwind.info();
    assert_eq!(
        project("shop").replace_placeholder_in_file(
            &info,
            "/tmp/x/t/Cargo.toml",
            "name = \"myapp_core\"\nmyapp = { path = \"../myapp\" }\n"
        ),
        FileUpdate {
            path: "/tmp/x/t/Cargo.toml".to_string(),
            dir: "/tmp/x/t/".to_string(),
            content: "name = \"shop_core\"\nshop = { path = \"../shop\" }\n".to_string(),
        }
    );
}

#[test]
fn placeholder_is_replaced_in_directory_names() {
    let info = Template::CounterTailwind.info();
    let p = project("shop");
    assert_eq!(
        p.replace_placeholder_in_dir(&info, "/tmp/x/t/myapp_core"),
        Some(Rename { from: "/tmp/x/t/myapp_core".to_string(), to: "/tmp/x/t/shop_core".to_string() })
    );
    assert_eq!(p.replace_placeholder_in_dir(&info, "/tmp/x/myapp/src"), None);
    assert_eq!(p.replace_placeholder_in_dir(&info, "/tmp/x/t/"), None);
    assert_eq!(project("myapp").replace_placeholder_in_dir(&info, "/tmp/x/t/myapp_core"), None);
}

#[test]
fn directories_with_the_placeholder_are_renamed_in_order() {
    let info = Template::CounterTailwind.info();
    let paths = Paths {
        files: strings(&["/t/myapp_core/Cargo.toml"]),
        dirs: strings(&["/t", "/t/myapp_core", "/t/web", "/t/myapp_wasm"]),
    };
    assert_eq!(
        project("shop").replace_placeholders(&info, &paths),
        vec![
            Rename { from: "/t/myapp_core".to_string(), to: "/t/shop_core".to_string() },
            Rename { from: "/t/myapp_wasm".to_string(), to: "/t/shop_wasm".to_string() },
        ]
    );
}
