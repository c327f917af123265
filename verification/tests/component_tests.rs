use component_scan::component::{
    load_from, load_from_pathbuf, load_from_reader, parse_component, CmptType, LoadError,
    RepoType, TypeCommandType,
};
use component_scan::yaml::YamlValue;

#[test]
fn load_from_string() {
    let raw_cmpt = r###"
    Name: MainDB                     #component name
    VersionNumber: "9.5"               #service version
    RemoteRepo:
        Repo: ''
        Type: builded                  #builded components means just to get an image
        Reference: "9.5"                 #version used for builded image
    CheckRunning: psql -U postgres -h localhost -l | grep "\<postgres\>" ; exit \$? #command that will check if the component is running
    Distribute:
        Run:
            Run: IMG_DEFAULT
            Image: 'postgres'
    Run: IMG_DEFAULT
    Commands:
        BashIn:
            Type: 'Exec'
            Command: bash
            Interactive: true
    "###;
    let dest = load_from_reader(raw_cmpt.as_bytes());
    if let Ok(cmpt) = dest {
        assert_eq!("MainDB", cmpt.Name);
        assert_eq!("9.5", cmpt.Version.VersionNumber);
        assert!(cmpt.Version.VersionScript.is_empty());
    } else {
        assert!(false, "{:?}", dest.unwrap_err());
    }
}

#[test]
fn end_to_end_document() {
    let doc = r#"Name: MainDB
VersionNumber: "9.5"
RemoteRepo: {Repo: '', Type: builded}
Run: IMG_DEFAULT
Commands:
  BashIn: {Type: Exec, Command: bash}
"#;
    let cmpt = load_from_reader(doc.as_bytes()).unwrap();
    assert_eq!("MainDB", cmpt.Name);
    assert_eq!("9.5", cmpt.Version.VersionNumber);
    assert_eq!("", cmpt.Version.VersionScript);
    assert_eq!(RepoType::builded, cmpt.RemoteRepo.Type);
    assert_eq!("", cmpt.RemoteRepo.Repo);
    let bash_in = cmpt.command("BashIn").expect("missing BashIn command");
    assert_eq!(TypeCommandType::Exec, bash_in.Type);
    assert_eq!("bash", bash_in.Command);
    assert_eq!("IMG_DEFAULT", cmpt.Run);
}

#[test]
fn all_defaults_when_no_recognized_key() {
    let cmpt = load_from_reader(b"Foo: 1\nBar: [x, y]\n").unwrap();
    assert_eq!("", cmpt.Name);
    assert_eq!("", cmpt.Version.VersionNumber);
    assert_eq!("", cmpt.Version.VersionScript);
    assert_eq!("", cmpt.SourceDir);
    assert_eq!(CmptType::normal, cmpt.Type);
    assert_eq!("", cmpt.SharedDirMountPoint);
    assert!(cmpt.Ports.is_empty());
    assert_eq!("", cmpt.RemoteRepo.Repo);
    assert_eq!(RepoType::source, cmpt.RemoteRepo.Type);
    assert_eq!("", cmpt.CheckRunning);
    assert!(cmpt.Envs.is_empty());
    assert!(cmpt.RunLinks.is_empty());
    assert!(cmpt.Images.is_empty());
    assert!(cmpt.Commands.is_empty());
    assert_eq!("", cmpt.Run);
}

#[test]
fn all_defaults_on_empty_mapping() {
    let cmpt = load_from_reader(b"{}").unwrap();
    assert_eq!("", cmpt.Name);
    assert_eq!(CmptType::normal, cmpt.Type);
    assert_eq!(RepoType::source, cmpt.RemoteRepo.Type);
    assert!(cmpt.Ports.is_empty());
    assert!(cmpt.Commands.is_empty());
}

#[test]
fn flattened_version_number_alone() {
    let cmpt = load_from_reader(b"VersionNumber: '1.2'\n").unwrap();
    assert_eq!("1.2", cmpt.Version.VersionNumber);
    assert_eq!("", cmpt.Version.VersionScript);
}

#[test]
fn flattened_version_script_alone() {
    let cmpt = load_from_reader(b"VersionScript: git describe --tags\n").unwrap();
    assert_eq!("", cmpt.Version.VersionNumber);
    assert_eq!("git describe --tags", cmpt.Version.VersionScript);
}

#[test]
fn flattened_version_both_keys() {
    let cmpt = load_from_reader(b"VersionNumber: '3'\nVersionScript: 'echo 3'\n").unwrap();
    assert_eq!("3", cmpt.Version.VersionNumber);
    assert_eq!("echo 3", cmpt.Version.VersionScript);
}

#[test]
fn unknown_cmpt_type_is_error() {
    let dest = load_from_reader(b"Type: bogus\n");
    assert!(matches!(dest, Err(LoadError::Malformed { .. })), "{:?}", dest);
}

#[test]
fn absent_cmpt_type_defaults() {
    let cmpt = load_from_reader(b"Name: X\n").unwrap();
    assert_eq!(CmptType::normal, cmpt.Type);
}

#[test]
fn supervisored_cmpt_type() {
    let cmpt = load_from_reader(b"Type: supervisored\n").unwrap();
    assert_eq!(CmptType::supervisored, cmpt.Type);
}

#[test]
fn unknown_repo_type_is_error() {
    let dest = load_from_reader(b"RemoteRepo:\n  Repo: ''\n  Type: wrong\n");
    assert!(matches!(dest, Err(LoadError::Malformed { .. })), "{:?}", dest);
}

#[test]
fn absent_repo_type_defaults() {
    let cmpt = load_from_reader(b"RemoteRepo:\n  Repo: 'git@example:x.git'\n").unwrap();
    assert_eq!(RepoType::source, cmpt.RemoteRepo.Type);
    assert_eq!("git@example:x.git", cmpt.RemoteRepo.Repo);
}

#[test]
fn unknown_command_type_is_error() {
    let dest = load_from_reader(b"Commands:\n  X:\n    Type: wrong\n");
    assert!(matches!(dest, Err(LoadError::Malformed { .. })), "{:?}", dest);
}

#[test]
fn absent_command_type_defaults() {
    let cmpt = load_from_reader(b"Commands:\n  X: {}\n").unwrap();
    let x = cmpt.command("X").expect("missing command X");
    assert_eq!(TypeCommandType::Base, x.Type);
    assert_eq!("", x.Command);
    assert_eq!("", x.Image);
    assert_eq!("", x.LinkSet);
    assert_eq!("", x.HostMask);
    assert_eq!("", x.User);
}

#[test]
fn missing_file_is_not_found_error() {
    let dest = load_from("./no/such/Component.yaml", &None);
    match dest {
        Err(LoadError::NoCmptFile { name }) => {
            assert_eq!("./no/such/Component.yaml", name);
        },
        other => assert!(false, "{:?}", other),
    }
}

#[test]
fn missing_file_is_not_found_error_pathbuf() {
    let path = String::from("./elsewhere/Component.yaml");
    let dest = load_from_pathbuf(&path, &None);
    match dest {
        Err(LoadError::NoCmptFile { name }) => {
            assert_eq!(path, name);
        },
        other => assert!(false, "{:?}", other),
    }
}

#[test]
fn invalid_yaml_is_malformed() {
    let dest = load_from_reader(b"a: [unclosed\n");
    assert!(matches!(dest, Err(LoadError::Malformed { .. })), "{:?}", dest);
}

#[test]
fn non_mapping_document_is_malformed() {
    let dest = load_from_reader(b"- a\n- b\n");
    assert!(matches!(dest, Err(LoadError::Malformed { .. })), "{:?}", dest);
}

#[test]
fn wrong_typed_string_field_is_malformed() {
    let dest = load_from_reader(b"Name: [1, 2]\n");
    assert!(matches!(dest, Err(LoadError::Malformed { .. })), "{:?}", dest);
}

#[test]
fn ports_parse_and_lookup() {
    let cmpt = load_from_reader(b"Ports:\n  8080: 9090\n  22: 2222\n").unwrap();
    assert_eq!(Some(9090), cmpt.port(8080));
    assert_eq!(Some(2222), cmpt.port(22));
    assert_eq!(None, cmpt.port(1));
}

#[test]
fn ports_with_string_key_is_malformed() {
    let dest = load_from_reader(b"Ports:\n  web: 9090\n");
    assert!(matches!(dest, Err(LoadError::Malformed { .. })), "{:?}", dest);
}

#[test]
fn ports_out_of_range_is_malformed() {
    let dest = load_from_reader(b"Ports:\n  70000: 1\n");
    assert!(matches!(dest, Err(LoadError::Malformed { .. })), "{:?}", dest);
}

#[test]
fn envs_parse_and_lookup() {
    let cmpt = load_from_reader(b"Envs:\n  A: 'x'\n  B: 'y'\n").unwrap();
    assert_eq!("x", cmpt.env("A").expect("missing A"));
    assert_eq!("y", cmpt.env("B").expect("missing B"));
    assert!(cmpt.env("C").is_none());
}

#[test]
fn envs_with_non_string_value_is_malformed() {
    let dest = load_from_reader(b"Envs:\n  A: 1\n");
    assert!(matches!(dest, Err(LoadError::Malformed { .. })), "{:?}", dest);
}

#[test]
fn run_links_and_images_lookup() {
    let cmpt = load_from_reader(b"RunLinks:\n  Core: trans\nImages:\n  Default: img:1\n")
        .unwrap();
    assert_eq!("trans", cmpt.run_link("Core").expect("missing Core"));
    assert_eq!("img:1", cmpt.image("Default").expect("missing Default"));
    assert!(cmpt.run_link("Other").is_none());
    assert!(cmpt.image("Other").is_none());
}

#[test]
fn duplicate_keys_last_write_wins() {
    let doc = YamlValue::Mapping(vec![
        (YamlValue::Str("Name".to_string()), YamlValue::Str("A".to_string())),
        (YamlValue::Str("Name".to_string()), YamlValue::Str("B".to_string())),
        (
            YamlValue::Str("Ports".to_string()),
            YamlValue::Mapping(vec![
                (YamlValue::Int(8080), YamlValue::Int(1)),
                (YamlValue::Int(8080), YamlValue::Int(2)),
            ]),
        ),
    ]);
    let cmpt = parse_component(&doc).unwrap();
    assert_eq!("B", cmpt.Name);
    assert_eq!(Some(2), cmpt.port(8080));
    assert_eq!(1, cmpt.Ports.len());
}

#[test]
fn unrecognized_keys_are_ignored_everywhere() {
    let doc = b"Name: A\nUnknownTop: {deep: [1, 2]}\nRemoteRepo:\n  Repo: r\n  Extra: 1\nCommands:\n  C:\n    Command: run\n    Stray: true\n";
    let cmpt = load_from_reader(doc).unwrap();
    assert_eq!("A", cmpt.Name);
    assert_eq!("r", cmpt.RemoteRepo.Repo);
    assert_eq!("run", cmpt.command("C").expect("missing C").Command);
}
