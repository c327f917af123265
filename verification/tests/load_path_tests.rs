use component_scan::component::{load_from, CmptType, RepoType, TypeCommandType};

fn read_file(path: &str) -> Option<Vec<u8>> {
    match fs_err::metadata(path) {
        Ok(md) if md.is_file() => fs_err::read(path).ok(),
        _ => None,
    }
}

const GEOGOS_DOC: &str = r#"Name: Geogos
VersionScript: 'git describe --tags 2> /dev/null'
SourceDir: 'src/gitlab.subito.int/development/geogos'
Type: supervisored
Ports:
  9996: 9996
RemoteRepo:
  Repo: 'git@gitlab.subito.int:development/geogos.git'
  Type: source
CheckRunning: 'echo "check-status";  curl -o /dev/null --silent --write-out ''%{http_code}\n'' http://localhost:9996/v1/geo/regions'
Envs:
  SERVICE_PORT: '9996'
RunLinks:
  Core: trans
Images:
  Default: 'mesos-registry.subito.dev:5000/regress_golang'
Commands:
  Command:
    Command: 'go build -ldflags "-X main.ServiceVersion {{.VersionNumber}}" geo.go'
  Unit:
    Type: Base
Run: './geo -address=:9996 -syslog=false -trans=trans:20205'
"#;

#[test]
fn load_from_path() {
    let source = "/tmp/cmpt_load_fixture/resources/Component.yaml";
    fs_err::remove_dir_all("/tmp/cmpt_load_fixture").ok();
    fs_err::create_dir_all("/tmp/cmpt_load_fixture/resources").unwrap();
    fs_err::write(source, GEOGOS_DOC).unwrap();
    let contents = read_file(source);
    fs_err::remove_dir_all("/tmp/cmpt_load_fixture").ok();
    let dest = load_from(source, &contents);
    if let Ok(i) = dest {
        assert_eq!("Geogos", i.Name);
        assert_eq!("git describe --tags 2> /dev/null", i.Version.VersionScript);
        assert_eq!("src/gitlab.subito.int/development/geogos", i.SourceDir);
        assert!(CmptType::supervisored == i.Type);
        let port_mapped = i.port(9996);
        match port_mapped {
            Some(x) => assert_eq!(9996, x),
            None => assert!(false, "missing key in Ports"),
        }
        let repotype = &i.RemoteRepo;
        assert_eq!("git@gitlab.subito.int:development/geogos.git", repotype.Repo);
        assert_eq!(RepoType::source, repotype.Type);
        assert_eq!("echo \"check-status\";  curl -o /dev/null --silent --write-out '%{http_code}\\n' http://localhost:9996/v1/geo/regions", i.CheckRunning);
        let declared_env = i.env("SERVICE_PORT");
        match declared_env {
            Some(x) => assert_eq!("9996", x),
            None => assert!(false, "missing key in Envs"),
        }
        let declared_links = i.run_link("Core");
        match declared_links {
            Some(x) => assert_eq!("trans", x),
            None => assert!(false, "missing key for links"),
        }
        let declared_images = i.image("Default");
        match declared_images {
            Some(x) => assert_eq!("mesos-registry.subito.dev:5000/regress_golang", x),
            None => assert!(false, "missing key 'Default' in Images"),
        }
        let declared_command = i.command("Command");
        match declared_command {
            Some(x) => assert_eq!(
                "go build -ldflags \"-X main.ServiceVersion {{.VersionNumber}}\" geo.go",
                x.Command
            ),
            None => assert!(false, "missing key for 'Command' command"),
        }
        let declared_command = i.command("Unit");
        match declared_command {
            Some(x) => assert_eq!(TypeCommandType::Base, x.Type),
            None => assert!(false, "missing key for 'Unit' command"),
        }
        assert_eq!("./geo -address=:9996 -syslog=false -trans=trans:20205", i.Run)
    } else {
        assert!(false, "{:?}", dest.unwrap_err())
    }
}
