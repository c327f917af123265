//! The component descriptor schema and its loader.
//!
//! A descriptor document is a YAML mapping.  Every recognized field has a
//! total default, so a document may omit any key; a key that is present with
//! a value of the wrong shape, or an enum key with an unrecognized value, is
//! a hard parse error.  The legacy `VersionNumber` / `VersionScript` keys are
//! read from the top level of the document and normalized into one nested
//! [`VersionType`] pair.

use vstd::pervasive::VecAdditionalExecFns;
use vstd::prelude::*;

use crate::mapping::{keys_unique, lemma_pairs_to_map_push, lemma_pairs_to_map_update,
    pairs_to_map};
use crate::yaml::{find_last_str_key, lookup, str_eq, yaml_doc_of, parse_yaml_bytes, YamlValue};

verus! {

/// Why a descriptor could not be loaded.
#[derive(Debug)]
pub enum LoadError {
    /// The addressed path does not exist or is not a regular file.
    NoCmptFile { name: String },
    /// The document is not well-formed YAML, or a present key has a value
    /// that its field cannot accept.
    Malformed { detail: String },
}

/// How the component is supervised at run time.
#[derive(Debug, PartialEq, Clone, Copy)]
#[allow(non_camel_case_types)]
pub enum CmptType {
    normal,
    supervisored,
}

impl Default for CmptType {
    fn default() -> (r: Self)
        ensures
            r == CmptType::normal,
    {
        CmptType::normal
    }
}

/// How the remote repository is consumed.
#[derive(Debug, PartialEq, Clone, Copy)]
#[allow(non_camel_case_types)]
pub enum RepoType {
    source,
    built,
    builded,
}

impl Default for RepoType {
    fn default() -> (r: Self)
        ensures
            r == RepoType::source,
    {
        RepoType::source
    }
}

/// How a named command is executed.
#[derive(Debug, PartialEq, Clone, Copy)]
pub enum TypeCommandType {
    Base,
    External,
    Exec,
}

impl Default for TypeCommandType {
    fn default() -> (r: Self)
        ensures
            r == TypeCommandType::Base,
    {
        TypeCommandType::Base
    }
}

/// The normalized version pair, fed by the two flattened top-level keys.
#[derive(Debug, PartialEq)]
#[allow(non_snake_case)]
pub struct VersionType {
    pub VersionNumber: String,
    pub VersionScript: String,
}

/// The remote repository a component is fetched or built from.
#[derive(Debug, PartialEq)]
#[allow(non_snake_case)]
pub struct RemoteRepoType {
    pub Repo: String,
    pub Type: RepoType,
}

/// One named operational command of a component.
#[derive(Debug, PartialEq)]
#[allow(non_snake_case)]
pub struct CommandType {
    pub Type: TypeCommandType,
    pub Command: String,
    pub Image: String,
    pub LinkSet: String,
    pub HostMask: String,
    pub User: String,
}

/// One parsed component descriptor.
///
/// The mapping-valued fields hold key/value pairs with pairwise-distinct
/// keys; their models are the `Map`s of [`Component::view`].
#[derive(Debug)]
#[allow(non_snake_case)]
pub struct Component {
    pub Name: String,
    pub Version: VersionType,
    pub SourceDir: String,
    pub Type: CmptType,
    pub SharedDirMountPoint: String,
    pub Ports: Vec<(u16, u16)>,
    pub RemoteRepo: RemoteRepoType,
    pub CheckRunning: String,
    pub Envs: Vec<(String, String)>,
    pub RunLinks: Vec<(String, String)>,
    pub Images: Vec<(String, String)>,
    pub Commands: Vec<(String, CommandType)>,
    pub Run: String,
}

/// Model of [`VersionType`].
pub struct VersionV {
    pub version_number: Seq<char>,
    pub version_script: Seq<char>,
}

/// Model of [`RemoteRepoType`].
pub struct RemoteRepoV {
    pub repo: Seq<char>,
    pub repo_type: RepoType,
}

/// Model of [`CommandType`].
pub struct CommandV {
    pub command_type: TypeCommandType,
    pub command: Seq<char>,
    pub image: Seq<char>,
    pub link_set: Seq<char>,
    pub host_mask: Seq<char>,
    pub user: Seq<char>,
}

/// Model of [`Component`]: strings as character sequences, mapping fields as
/// maps.
pub struct ComponentV {
    pub name: Seq<char>,
    pub version: VersionV,
    pub source_dir: Seq<char>,
    pub cmpt_type: CmptType,
    pub shared_dir_mount_point: Seq<char>,
    pub ports: Map<u16, u16>,
    pub remote_repo: RemoteRepoV,
    pub check_running: Seq<char>,
    pub envs: Map<Seq<char>, Seq<char>>,
    pub run_links: Map<Seq<char>, Seq<char>>,
    pub images: Map<Seq<char>, Seq<char>>,
    pub commands: Map<Seq<char>, CommandV>,
    pub run: Seq<char>,
}

impl View for VersionType {
    type V = VersionV;

    open spec fn view(&self) -> VersionV {
        VersionV { version_number: self.VersionNumber@, version_script: self.VersionScript@ }
    }
}

impl View for RemoteRepoType {
    type V = RemoteRepoV;

    open spec fn view(&self) -> RemoteRepoV {
        RemoteRepoV { repo: self.Repo@, repo_type: self.Type }
    }
}

impl View for CommandType {
    type V = CommandV;

    open spec fn view(&self) -> CommandV {
        CommandV {
            command_type: self.Type,
            command: self.Command@,
            image: self.Image@,
            link_set: self.LinkSet@,
            host_mask: self.HostMask@,
            user: self.User@,
        }
    }
}

/// The pair sequence of a string-to-string field, keys and values as
/// character sequences.
pub open spec fn str_pairs(s: Seq<(String, String)>) -> Seq<(Seq<char>, Seq<char>)> {
    s.map_values(|p: (String, String)| (p.0@, p.1@))
}

/// The pair sequence of the `Commands` field, keys as character sequences
/// and values as command models.
pub open spec fn cmd_pairs(s: Seq<(String, CommandType)>) -> Seq<(Seq<char>, CommandV)> {
    s.map_values(|p: (String, CommandType)| (p.0@, p.1@))
}

impl View for Component {
    type V = ComponentV;

    open spec fn view(&self) -> ComponentV {
        ComponentV {
            name: self.Name@,
            version: self.Version@,
            source_dir: self.SourceDir@,
            cmpt_type: self.Type,
            shared_dir_mount_point: self.SharedDirMountPoint@,
            ports: pairs_to_map(self.Ports@),
            remote_repo: self.RemoteRepo@,
            check_running: self.CheckRunning@,
            envs: pairs_to_map(str_pairs(self.Envs@)),
            run_links: pairs_to_map(str_pairs(self.RunLinks@)),
            images: pairs_to_map(str_pairs(self.Images@)),
            commands: pairs_to_map(cmd_pairs(self.Commands@)),
            run: self.Run@,
        }
    }
}

impl Component {
    /// Each mapping field holds pairwise-distinct keys.
    pub open spec fn wf(&self) -> bool {
        &&& keys_unique(self.Ports@)
        &&& keys_unique(str_pairs(self.Envs@))
        &&& keys_unique(str_pairs(self.RunLinks@))
        &&& keys_unique(str_pairs(self.Images@))
        &&& keys_unique(cmd_pairs(self.Commands@))
    }
}

/// The all-defaults model: what an empty document parses to.
pub open spec fn default_component_v() -> ComponentV {
    ComponentV {
        name: Seq::empty(),
        version: VersionV { version_number: Seq::empty(), version_script: Seq::empty() },
        source_dir: Seq::empty(),
        cmpt_type: CmptType::normal,
        shared_dir_mount_point: Seq::empty(),
        ports: Map::empty(),
        remote_repo: RemoteRepoV { repo: Seq::empty(), repo_type: RepoType::source },
        check_running: Seq::empty(),
        envs: Map::empty(),
        run_links: Map::empty(),
        images: Map::empty(),
        commands: Map::empty(),
        run: Seq::empty(),
    }
}

// ---------------------------------------------------------------------------
// Field semantics: what each recognized key accepts and what it denotes.
// ---------------------------------------------------------------------------

/// A string field accepts an absent key or a string value.
pub open spec fn str_field_ok(es: Seq<(YamlValue, YamlValue)>, key: Seq<char>) -> bool {
    match lookup(es, key) {
        None => true,
        Some(v) => v is Str,
    }
}

/// The value of a string field; absent keys default to the empty string.
pub open spec fn str_field_val(es: Seq<(YamlValue, YamlValue)>, key: Seq<char>) -> Seq<char> {
    match lookup(es, key) {
        Some(YamlValue::Str(s)) => s@,
        _ => Seq::empty(),
    }
}

/// The `Type` key accepts an absent key or one of the two variant names.
pub open spec fn cmpt_type_ok(es: Seq<(YamlValue, YamlValue)>) -> bool {
    match lookup(es, "Type"@) {
        None => true,
        Some(YamlValue::Str(s)) => s@ == "normal"@ || s@ == "supervisored"@,
        Some(_) => false,
    }
}

/// The component type denoted; an absent key defaults to `normal`.
pub open spec fn cmpt_type_val(es: Seq<(YamlValue, YamlValue)>) -> CmptType {
    match lookup(es, "Type"@) {
        Some(YamlValue::Str(s)) => if s@ == "supervisored"@ {
            CmptType::supervisored
        } else {
            CmptType::normal
        },
        _ => CmptType::normal,
    }
}

/// The repository `Type` key accepts an absent key or one of the three
/// variant names.
pub open spec fn repo_type_ok(es: Seq<(YamlValue, YamlValue)>) -> bool {
    match lookup(es, "Type"@) {
        None => true,
        Some(YamlValue::Str(s)) => s@ == "source"@ || s@ == "built"@ || s@ == "builded"@,
        Some(_) => false,
    }
}

/// The repository type denoted; an absent key defaults to `source`.
pub open spec fn repo_type_val(es: Seq<(YamlValue, YamlValue)>) -> RepoType {
    match lookup(es, "Type"@) {
        Some(YamlValue::Str(s)) => if s@ == "built"@ {
            RepoType::built
        } else if s@ == "builded"@ {
            RepoType::builded
        } else {
            RepoType::source
        },
        _ => RepoType::source,
    }
}

/// A command's `Type` key accepts an absent key or one of the three variant
/// names.
pub open spec fn type_command_ok(es: Seq<(YamlValue, YamlValue)>) -> bool {
    match lookup(es, "Type"@) {
        None => true,
        Some(YamlValue::Str(s)) => s@ == "Base"@ || s@ == "External"@ || s@ == "Exec"@,
        Some(_) => false,
    }
}

/// The command type denoted; an absent key defaults to `Base`.
pub open spec fn type_command_val(es: Seq<(YamlValue, YamlValue)>) -> TypeCommandType {
    match lookup(es, "Type"@) {
        Some(YamlValue::Str(s)) => if s@ == "External"@ {
            TypeCommandType::External
        } else if s@ == "Exec"@ {
            TypeCommandType::Exec
        } else {
            TypeCommandType::Base
        },
        _ => TypeCommandType::Base,
    }
}

/// One `Ports` entry: a host port and a container port, both unsigned
/// 16-bit integers.
pub open spec fn port_entry_ok(e: (YamlValue, YamlValue)) -> bool {
    &&& e.0 matches YamlValue::Int(k) && 0 <= k <= 65535
    &&& e.1 matches YamlValue::Int(v) && 0 <= v <= 65535
}

/// The port pair an entry denotes (meaningful only for well-typed entries).
pub open spec fn port_pair(e: (YamlValue, YamlValue)) -> (u16, u16) {
    (
        match e.0 {
            YamlValue::Int(k) => k as u16,
            _ => 0,
        },
        match e.1 {
            YamlValue::Int(v) => v as u16,
            _ => 0,
        },
    )
}

/// The port pairs of a `Ports` mapping.
pub open spec fn port_entry_pairs(s: Seq<(YamlValue, YamlValue)>) -> Seq<(u16, u16)> {
    s.map_values(|e: (YamlValue, YamlValue)| port_pair(e))
}

/// The `Ports` field accepts an absent key or a mapping of well-typed
/// entries.
pub open spec fn ports_ok(es: Seq<(YamlValue, YamlValue)>) -> bool {
    match lookup(es, "Ports"@) {
        None => true,
        Some(YamlValue::Mapping(m)) => forall|i: int| 0 <= i < m@.len() ==> port_entry_ok(m@[i]),
        Some(_) => false,
    }
}

/// The port map denoted; an absent key defaults to the empty map.
pub open spec fn ports_val(es: Seq<(YamlValue, YamlValue)>) -> Map<u16, u16> {
    match lookup(es, "Ports"@) {
        Some(YamlValue::Mapping(m)) => pairs_to_map(port_entry_pairs(m@)),
        _ => Map::empty(),
    }
}

/// One entry of a string-to-string mapping field.
pub open spec fn str_entry_ok(e: (YamlValue, YamlValue)) -> bool {
    e.0 is Str && e.1 is Str
}

/// The character-sequence pair an entry denotes.
pub open spec fn str_entry_pair(e: (YamlValue, YamlValue)) -> (Seq<char>, Seq<char>) {
    (
        match e.0 {
            YamlValue::Str(s) => s@,
            _ => Seq::empty(),
        },
        match e.1 {
            YamlValue::Str(s) => s@,
            _ => Seq::empty(),
        },
    )
}

/// The pairs of a string-to-string mapping value.
pub open spec fn str_entry_pairs(s: Seq<(YamlValue, YamlValue)>) -> Seq<(Seq<char>, Seq<char>)> {
    s.map_values(|e: (YamlValue, YamlValue)| str_entry_pair(e))
}

/// A string-to-string field accepts an absent key or a mapping whose keys
/// and values are all strings.
pub open spec fn str_map_ok(es: Seq<(YamlValue, YamlValue)>, key: Seq<char>) -> bool {
    match lookup(es, key) {
        None => true,
        Some(YamlValue::Mapping(m)) => forall|i: int| 0 <= i < m@.len() ==> str_entry_ok(m@[i]),
        Some(_) => false,
    }
}

/// The map denoted by a string-to-string field; an absent key defaults to
/// the empty map.
pub open spec fn str_map_val(es: Seq<(YamlValue, YamlValue)>, key: Seq<char>) -> Map<
    Seq<char>,
    Seq<char>,
> {
    match lookup(es, key) {
        Some(YamlValue::Mapping(m)) => pairs_to_map(str_entry_pairs(m@)),
        _ => Map::empty(),
    }
}

/// The `RemoteRepo` field accepts an absent key or a mapping whose `Repo`
/// and `Type` keys are themselves acceptable.
pub open spec fn remote_repo_ok(es: Seq<(YamlValue, YamlValue)>) -> bool {
    match lookup(es, "RemoteRepo"@) {
        None => true,
        Some(YamlValue::Mapping(m)) => str_field_ok(m@, "Repo"@) && repo_type_ok(m@),
        Some(_) => false,
    }
}

/// The remote repository denoted; an absent key defaults to an empty
/// repository fetched from source.
pub open spec fn remote_repo_val(es: Seq<(YamlValue, YamlValue)>) -> RemoteRepoV {
    match lookup(es, "RemoteRepo"@) {
        Some(YamlValue::Mapping(m)) => RemoteRepoV {
            repo: str_field_val(m@, "Repo"@),
            repo_type: repo_type_val(m@),
        },
        _ => RemoteRepoV { repo: Seq::empty(), repo_type: RepoType::source },
    }
}

/// The recognized keys of one command: `Type` and five string fields, each
/// with its own default.
pub open spec fn command_fields_ok(ce: Seq<(YamlValue, YamlValue)>) -> bool {
    &&& type_command_ok(ce)
    &&& str_field_ok(ce, "Command"@)
    &&& str_field_ok(ce, "Image"@)
    &&& str_field_ok(ce, "LinkSet"@)
    &&& str_field_ok(ce, "HostMask"@)
    &&& str_field_ok(ce, "User"@)
}

/// The command a well-typed command mapping denotes.
pub open spec fn command_val(ce: Seq<(YamlValue, YamlValue)>) -> CommandV {
    CommandV {
        command_type: type_command_val(ce),
        command: str_field_val(ce, "Command"@),
        image: str_field_val(ce, "Image"@),
        link_set: str_field_val(ce, "LinkSet"@),
        host_mask: str_field_val(ce, "HostMask"@),
        user: str_field_val(ce, "User"@),
    }
}

/// One `Commands` entry: a string name bound to a well-typed command
/// mapping.
pub open spec fn command_entry_ok(e: (YamlValue, YamlValue)) -> bool {
    &&& e.0 is Str
    &&& e.1 matches YamlValue::Mapping(m) && command_fields_ok(m@)
}

/// The name/command pair an entry denotes.
pub open spec fn command_entry_pair(e: (YamlValue, YamlValue)) -> (Seq<char>, CommandV) {
    (
        match e.0 {
            YamlValue::Str(s) => s@,
            _ => Seq::empty(),
        },
        match e.1 {
            YamlValue::Mapping(m) => command_val(m@),
            _ => command_val(Seq::empty()),
        },
    )
}

/// The name/command pairs of a `Commands` mapping.
pub open spec fn command_entry_pairs(s: Seq<(YamlValue, YamlValue)>) -> Seq<(Seq<char>, CommandV)> {
    s.map_values(|e: (YamlValue, YamlValue)| command_entry_pair(e))
}

/// The `Commands` field accepts an absent key or a mapping of well-typed
/// command entries.
pub open spec fn commands_ok(es: Seq<(YamlValue, YamlValue)>) -> bool {
    match lookup(es, "Commands"@) {
        None => true,
        Some(YamlValue::Mapping(m)) => forall|i: int| 0 <= i < m@.len() ==> command_entry_ok(m@[i]),
        Some(_) => false,
    }
}

/// The command map denoted; an absent key defaults to the empty map.
pub open spec fn commands_val(es: Seq<(YamlValue, YamlValue)>) -> Map<Seq<char>, CommandV> {
    match lookup(es, "Commands"@) {
        Some(YamlValue::Mapping(m)) => pairs_to_map(command_entry_pairs(m@)),
        _ => Map::empty(),
    }
}

/// Every recognized top-level key of the document is acceptable.
pub open spec fn component_fields_ok(es: Seq<(YamlValue, YamlValue)>) -> bool {
    &&& str_field_ok(es, "Name"@)
    &&& str_field_ok(es, "VersionNumber"@)
    &&& str_field_ok(es, "VersionScript"@)
    &&& str_field_ok(es, "SourceDir"@)
    &&& cmpt_type_ok(es)
    &&& str_field_ok(es, "SharedDirMountPoint"@)
    &&& ports_ok(es)
    &&& remote_repo_ok(es)
    &&& str_field_ok(es, "CheckRunning"@)
    &&& str_map_ok(es, "Envs"@)
    &&& str_map_ok(es, "RunLinks"@)
    &&& str_map_ok(es, "Images"@)
    &&& commands_ok(es)
    &&& str_field_ok(es, "Run"@)
}

/// The component a well-typed document denotes.
pub open spec fn component_val(es: Seq<(YamlValue, YamlValue)>) -> ComponentV {
    ComponentV {
        name: str_field_val(es, "Name"@),
        version: VersionV {
            version_number: str_field_val(es, "VersionNumber"@),
            version_script: str_field_val(es, "VersionScript"@),
        },
        source_dir: str_field_val(es, "SourceDir"@),
        cmpt_type: cmpt_type_val(es),
        shared_dir_mount_point: str_field_val(es, "SharedDirMountPoint"@),
        ports: ports_val(es),
        remote_repo: remote_repo_val(es),
        check_running: str_field_val(es, "CheckRunning"@),
        envs: str_map_val(es, "Envs"@),
        run_links: str_map_val(es, "RunLinks"@),
        images: str_map_val(es, "Images"@),
        commands: commands_val(es),
        run: str_field_val(es, "Run"@),
    }
}

/// What a document parses to: a mapping document with acceptable fields
/// denotes a component; anything else is a malformed document.
pub open spec fn component_of(doc: YamlValue) -> Result<ComponentV, ()> {
    match doc {
        YamlValue::Mapping(m) => if component_fields_ok(m@) {
            Ok(component_val(m@))
        } else {
            Err(())
        },
        _ => Err(()),
    }
}

// ---------------------------------------------------------------------------
// Small facts about the pair-sequence mappings.
// ---------------------------------------------------------------------------

proof fn lemma_port_entry_pairs_push(s: Seq<(YamlValue, YamlValue)>, e: (YamlValue, YamlValue))
    ensures
        port_entry_pairs(s.push(e)) =~= port_entry_pairs(s).push(port_pair(e)),
{
}

proof fn lemma_str_entry_pairs_push(s: Seq<(YamlValue, YamlValue)>, e: (YamlValue, YamlValue))
    ensures
        str_entry_pairs(s.push(e)) =~= str_entry_pairs(s).push(str_entry_pair(e)),
{
}

proof fn lemma_command_entry_pairs_push(s: Seq<(YamlValue, YamlValue)>, e: (YamlValue, YamlValue))
    ensures
        command_entry_pairs(s.push(e)) =~= command_entry_pairs(s).push(command_entry_pair(e)),
{
}

proof fn lemma_str_pairs_push(s: Seq<(String, String)>, p: (String, String))
    ensures
        str_pairs(s.push(p)) =~= str_pairs(s).push((p.0@, p.1@)),
{
}

proof fn lemma_str_pairs_update(s: Seq<(String, String)>, i: int, p: (String, String))
    requires
        0 <= i < s.len(),
    ensures
        str_pairs(s.update(i, p)) =~= str_pairs(s).update(i, (p.0@, p.1@)),
{
}

proof fn lemma_cmd_pairs_push(s: Seq<(String, CommandType)>, p: (String, CommandType))
    ensures
        cmd_pairs(s.push(p)) =~= cmd_pairs(s).push((p.0@, p.1@)),
{
}

proof fn lemma_cmd_pairs_update(s: Seq<(String, CommandType)>, i: int, p: (String, CommandType))
    requires
        0 <= i < s.len(),
    ensures
        cmd_pairs(s.update(i, p)) =~= cmd_pairs(s).update(i, (p.0@, p.1@)),
{
}

// ---------------------------------------------------------------------------
// Executable parsing.
// ---------------------------------------------------------------------------

/// Index of the last pair of `acc` with key `k`, if any.
fn find_key_u16(acc: &Vec<(u16, u16)>, k: u16) -> (r: Option<usize>)
    ensures
        r matches Some(i) ==> i < acc@.len() && acc@[i as int].0 == k,
        r is None ==> forall|j: int| 0 <= j < acc@.len() ==> acc@[j].0 != k,
{
    let mut j: usize = 0;
    while j < acc.len()
        invariant
            j <= acc@.len(),
            forall|t: int| 0 <= t < j ==> acc@[t].0 != k,
        decreases acc@.len() - j,
    {
        if acc[j].0 == k {
            return Some(j);
        }
        j += 1;
    }
    None
}

/// Index of the last pair of `acc` whose key reads as `k`, if any.
fn find_key_string(acc: &Vec<(String, String)>, k: &String) -> (r: Option<usize>)
    ensures
        r matches Some(i) ==> i < acc@.len() && acc@[i as int].0@ == k@,
        r is None ==> forall|j: int| 0 <= j < acc@.len() ==> acc@[j].0@ != k@,
{
    let mut j: usize = 0;
    while j < acc.len()
        invariant
            j <= acc@.len(),
            forall|t: int| 0 <= t < j ==> acc@[t].0@ != k@,
        decreases acc@.len() - j,
    {
        if str_eq(acc[j].0.as_str(), k.as_str()) {
            return Some(j);
        }
        j += 1;
    }
    None
}

/// Index of the last command pair of `acc` whose name reads as `k`, if any.
fn find_key_command(acc: &Vec<(String, CommandType)>, k: &String) -> (r: Option<usize>)
    ensures
        r matches Some(i) ==> i < acc@.len() && acc@[i as int].0@ == k@,
        r is None ==> forall|j: int| 0 <= j < acc@.len() ==> acc@[j].0@ != k@,
{
    let mut j: usize = 0;
    while j < acc.len()
        invariant
            j <= acc@.len(),
            forall|t: int| 0 <= t < j ==> acc@[t].0@ != k@,
        decreases acc@.len() - j,
    {
        if str_eq(acc[j].0.as_str(), k.as_str()) {
            return Some(j);
        }
        j += 1;
    }
    None
}

/// Reads a string field of mapping `m`; an absent key yields the empty
/// string, a present non-string value is refused.
fn get_str_field(m: &Vec<(YamlValue, YamlValue)>, key: &str) -> (r: Result<String, ()>)
    ensures
        str_field_ok(m@, key@) ==> (r matches Ok(s) && s@ == str_field_val(m@, key@)),
        !str_field_ok(m@, key@) ==> r is Err,
{
    match find_last_str_key(m, key) {
        None => Ok(String::new()),
        Some(i) => match &m[i].1 {
            YamlValue::Str(s) => Ok(s.clone()),
            _ => Err(()),
        },
    }
}

/// Reads the component `Type` field.
fn get_cmpt_type(m: &Vec<(YamlValue, YamlValue)>) -> (r: Result<CmptType, ()>)
    ensures
        cmpt_type_ok(m@) ==> (r matches Ok(t) && t == cmpt_type_val(m@)),
        !cmpt_type_ok(m@) ==> r is Err,
{
    match find_last_str_key(m, "Type") {
        None => Ok(CmptType::normal),
        Some(i) => match &m[i].1 {
            YamlValue::Str(s) => {
                if str_eq(s.as_str(), "supervisored") {
                    Ok(CmptType::supervisored)
                } else if str_eq(s.as_str(), "normal") {
                    Ok(CmptType::normal)
                } else {
                    Err(())
                }
            },
            _ => Err(()),
        },
    }
}

/// Reads a repository `Type` field.
fn get_repo_type(m: &Vec<(YamlValue, YamlValue)>) -> (r: Result<RepoType, ()>)
    ensures
        repo_type_ok(m@) ==> (r matches Ok(t) && t == repo_type_val(m@)),
        !repo_type_ok(m@) ==> r is Err,
{
    match find_last_str_key(m, "Type") {
        None => Ok(RepoType::source),
        Some(i) => match &m[i].1 {
            YamlValue::Str(s) => {
                if str_eq(s.as_str(), "built") {
                    Ok(RepoType::built)
                } else if str_eq(s.as_str(), "builded") {
                    Ok(RepoType::builded)
                } else if str_eq(s.as_str(), "source") {
                    Ok(RepoType::source)
                } else {
                    Err(())
                }
            },
            _ => Err(()),
        },
    }
}

/// Reads a command `Type` field.
fn get_type_command(m: &Vec<(YamlValue, YamlValue)>) -> (r: Result<TypeCommandType, ()>)
    ensures
        type_command_ok(m@) ==> (r matches Ok(t) && t == type_command_val(m@)),
        !type_command_ok(m@) ==> r is Err,
{
    match find_last_str_key(m, "Type") {
        None => Ok(TypeCommandType::Base),
        Some(i) => match &m[i].1 {
            YamlValue::Str(s) => {
                if str_eq(s.as_str(), "External") {
                    Ok(TypeCommandType::External)
                } else if str_eq(s.as_str(), "Exec") {
                    Ok(TypeCommandType::Exec)
                } else if str_eq(s.as_str(), "Base") {
                    Ok(TypeCommandType::Base)
                } else {
                    Err(())
                }
            },
            _ => Err(()),
        },
    }
}

/// Turns a `Ports` mapping into port pairs, later duplicates overwriting
/// earlier ones.
fn build_ports(pm: &Vec<(YamlValue, YamlValue)>) -> (r: Result<Vec<(u16, u16)>, ()>)
    ensures
        (forall|i: int| 0 <= i < pm@.len() ==> port_entry_ok(pm@[i])) ==> (r matches Ok(v)
            && keys_unique(v@) && pairs_to_map(v@) == pairs_to_map(port_entry_pairs(pm@))),
        !(forall|i: int| 0 <= i < pm@.len() ==> port_entry_ok(pm@[i])) ==> r is Err,
{
    let mut acc: Vec<(u16, u16)> = Vec::new();
    let mut idx: usize = 0;
    proof {
        assert(pm@.take(0) =~= Seq::<(YamlValue, YamlValue)>::empty());
        assert(port_entry_pairs(pm@.take(0)) =~= Seq::<(u16, u16)>::empty());
    }
    while idx < pm.len()
        invariant
            idx <= pm@.len(),
            forall|j: int| 0 <= j < idx ==> port_entry_ok(pm@[j]),
            keys_unique(acc@),
            pairs_to_map(acc@) == pairs_to_map(port_entry_pairs(pm@.take(idx as int))),
        decreases pm@.len() - idx,
    {
        let k16: u16;
        let v16: u16;
        match (&pm[idx].0, &pm[idx].1) {
            (YamlValue::Int(k), YamlValue::Int(v)) => {
                if *k < 0 || *k > 65535 || *v < 0 || *v > 65535 {
                    assert(!port_entry_ok(pm@[idx as int]));
                    return Err(());
                }
                k16 = *k as u16;
                v16 = *v as u16;
            },
            _ => {
                assert(!port_entry_ok(pm@[idx as int]));
                return Err(());
            },
        }
        assert(port_pair(pm@[idx as int]) == (k16, v16));
        let ghost acc_old = acc@;
        match find_key_u16(&acc, k16) {
            Some(p) => {
                acc.set(p, (k16, v16));
                proof {
                    lemma_pairs_to_map_update(acc_old, p as int, v16);
                    assert(keys_unique(acc@)) by {
                        assert(forall|t: int| 0 <= t < acc@.len() ==> acc@[t].0
                            == acc_old[t].0);
                    }
                }
            },
            None => {
                acc.push((k16, v16));
                proof {
                    lemma_pairs_to_map_push(acc_old, k16, v16);
                }
            },
        }
        proof {
            assert(pm@.take(idx + 1) =~= pm@.take(idx as int).push(pm@[idx as int]));
            lemma_port_entry_pairs_push(pm@.take(idx as int), pm@[idx as int]);
            lemma_pairs_to_map_push(port_entry_pairs(pm@.take(idx as int)), k16, v16);
        }
        idx += 1;
    }
    proof {
        assert(pm@.take(pm@.len() as int) =~= pm@);
    }
    Ok(acc)
}

/// Turns a string-to-string mapping into owned pairs, later duplicates
/// overwriting earlier ones.
fn build_str_map(pm: &Vec<(YamlValue, YamlValue)>) -> (r: Result<Vec<(String, String)>, ()>)
    ensures
        (forall|i: int| 0 <= i < pm@.len() ==> str_entry_ok(pm@[i])) ==> (r matches Ok(v)
            && keys_unique(str_pairs(v@)) && pairs_to_map(str_pairs(v@)) == pairs_to_map(
            str_entry_pairs(pm@),
        )),
        !(forall|i: int| 0 <= i < pm@.len() ==> str_entry_ok(pm@[i])) ==> r is Err,
{
    let mut acc: Vec<(String, String)> = Vec::new();
    let mut idx: usize = 0;
    proof {
        assert(pm@.take(0) =~= Seq::<(YamlValue, YamlValue)>::empty());
        assert(str_entry_pairs(pm@.take(0)) =~= Seq::<(Seq<char>, Seq<char>)>::empty());
        assert(str_pairs(acc@) =~= Seq::<(Seq<char>, Seq<char>)>::empty());
    }
    while idx < pm.len()
        invariant
            idx <= pm@.len(),
            forall|j: int| 0 <= j < idx ==> str_entry_ok(pm@[j]),
            keys_unique(str_pairs(acc@)),
            pairs_to_map(str_pairs(acc@)) == pairs_to_map(str_entry_pairs(pm@.take(idx as int))),
        decreases pm@.len() - idx,
    {
        let key: String;
        let val: String;
        match (&pm[idx].0, &pm[idx].1) {
            (YamlValue::Str(ks), YamlValue::Str(vs)) => {
                key = ks.clone();
                val = vs.clone();
            },
            _ => {
                assert(!str_entry_ok(pm@[idx as int]));
                return Err(());
            },
        }
        assert(str_entry_pair(pm@[idx as int]) == (key@, val@));
        let ghost acc_old = acc@;
        match find_key_string(&acc, &key) {
            Some(p) => {
                proof {
                    assert(str_pairs(acc_old)[p as int].0 == acc_old[p as int].0@);
                }
                acc.set(p, (key, val));
                proof {
                    lemma_str_pairs_update(acc_old, p as int, acc@[p as int]);
                    lemma_pairs_to_map_update(str_pairs(acc_old), p as int, acc@[p as int].1@);
                    assert(keys_unique(str_pairs(acc@))) by {
                        assert(forall|t: int| 0 <= t < acc@.len() ==> str_pairs(acc@)[t].0
                            == str_pairs(acc_old)[t].0);
                    }
                }
            },
            None => {
                acc.push((key, val));
                proof {
                    lemma_str_pairs_push(acc_old, acc@[acc@.len() - 1]);
                    lemma_pairs_to_map_push(
                        str_pairs(acc_old),
                        acc@[acc@.len() - 1].0@,
                        acc@[acc@.len() - 1].1@,
                    );
                }
            },
        }
        proof {
            assert(pm@.take(idx + 1) =~= pm@.take(idx as int).push(pm@[idx as int]));
            lemma_str_entry_pairs_push(pm@.take(idx as int), pm@[idx as int]);
            lemma_pairs_to_map_push(
                str_entry_pairs(pm@.take(idx as int)),
                str_entry_pair(pm@[idx as int]).0,
                str_entry_pair(pm@[idx as int]).1,
            );
        }
        idx += 1;
    }
    proof {
        assert(pm@.take(pm@.len() as int) =~= pm@);
    }
    Ok(acc)
}

/// Reads one command mapping: six independently defaulted fields.
fn get_command(ce: &Vec<(YamlValue, YamlValue)>) -> (r: Result<CommandType, ()>)
    ensures
        command_fields_ok(ce@) ==> (r matches Ok(c) && c@ == command_val(ce@)),
        !command_fields_ok(ce@) ==> r is Err,
{
    let t = match get_type_command(ce) {
        Ok(t) => t,
        Err(_) => return Err(()),
    };
    let command = match get_str_field(ce, "Command") {
        Ok(s) => s,
        Err(_) => return Err(()),
    };
    let image = match get_str_field(ce, "Image") {
        Ok(s) => s,
        Err(_) => return Err(()),
    };
    let link_set = match get_str_field(ce, "LinkSet") {
        Ok(s) => s,
        Err(_) => return Err(()),
    };
    let host_mask = match get_str_field(ce, "HostMask") {
        Ok(s) => s,
        Err(_) => return Err(()),
    };
    let user = match get_str_field(ce, "User") {
        Ok(s) => s,
        Err(_) => return Err(()),
    };
    Ok(
        CommandType {
            Type: t,
            Command: command,
            Image: image,
            LinkSet: link_set,
            HostMask: host_mask,
            User: user,
        },
    )
}

/// Turns a `Commands` mapping into named commands, later duplicates
/// overwriting earlier ones.
fn build_commands(pm: &Vec<(YamlValue, YamlValue)>) -> (r: Result<Vec<(String, CommandType)>, ()>)
    ensures
        (forall|i: int| 0 <= i < pm@.len() ==> command_entry_ok(pm@[i])) ==> (r matches Ok(v)
            && keys_unique(cmd_pairs(v@)) && pairs_to_map(cmd_pairs(v@)) == pairs_to_map(
            command_entry_pairs(pm@),
        )),
        !(forall|i: int| 0 <= i < pm@.len() ==> command_entry_ok(pm@[i])) ==> r is Err,
{
    let mut acc: Vec<(String, CommandType)> = Vec::new();
    let mut idx: usize = 0;
    proof {
        assert(pm@.take(0) =~= Seq::<(YamlValue, YamlValue)>::empty());
        assert(command_entry_pairs(pm@.take(0)) =~= Seq::<(Seq<char>, CommandV)>::empty());
        assert(cmd_pairs(acc@) =~= Seq::<(Seq<char>, CommandV)>::empty());
    }
    while idx < pm.len()
        invariant
            idx <= pm@.len(),
            forall|j: int| 0 <= j < idx ==> command_entry_ok(pm@[j]),
            keys_unique(cmd_pairs(acc@)),
            pairs_to_map(cmd_pairs(acc@)) == pairs_to_map(
                command_entry_pairs(pm@.take(idx as int)),
            ),
        decreases pm@.len() - idx,
    {
        let key: String;
        let cmd: CommandType;
        match (&pm[idx].0, &pm[idx].1) {
            (YamlValue::Str(ks), YamlValue::Mapping(cm)) => {
                match get_command(cm) {
                    Ok(c) => {
                        key = ks.clone();
                        cmd = c;
                    },
                    Err(_) => {
                        assert(!command_entry_ok(pm@[idx as int]));
                        return Err(());
                    },
                }
            },
            _ => {
                assert(!command_entry_ok(pm@[idx as int]));
                return Err(());
            },
        }
        assert(command_entry_pair(pm@[idx as int]) == (key@, cmd@));
        let ghost acc_old = acc@;
        match find_key_command(&acc, &key) {
            Some(p) => {
                proof {
                    assert(cmd_pairs(acc_old)[p as int].0 == acc_old[p as int].0@);
                }
                acc.set(p, (key, cmd));
                proof {
                    lemma_cmd_pairs_update(acc_old, p as int, acc@[p as int]);
                    lemma_pairs_to_map_update(cmd_pairs(acc_old), p as int, acc@[p as int].1@);
                    assert(keys_unique(cmd_pairs(acc@))) by {
                        assert(forall|t: int| 0 <= t < acc@.len() ==> cmd_pairs(acc@)[t].0
                            == cmd_pairs(acc_old)[t].0);
                    }
                }
            },
            None => {
                acc.push((key, cmd));
                proof {
                    lemma_cmd_pairs_push(acc_old, acc@[acc@.len() - 1]);
                    lemma_pairs_to_map_push(
                        cmd_pairs(acc_old),
                        acc@[acc@.len() - 1].0@,
                        acc@[acc@.len() - 1].1@,
                    );
                }
            },
        }
        proof {
            assert(pm@.take(idx + 1) =~= pm@.take(idx as int).push(pm@[idx as int]));
            lemma_command_entry_pairs_push(pm@.take(idx as int), pm@[idx as int]);
            lemma_pairs_to_map_push(
                command_entry_pairs(pm@.take(idx as int)),
                command_entry_pair(pm@[idx as int]).0,
                command_entry_pair(pm@[idx as int]).1,
            );
        }
        idx += 1;
    }
    proof {
        assert(pm@.take(pm@.len() as int) =~= pm@);
    }
    Ok(acc)
}

/// Reads the `Ports` field of the document.
fn get_ports_field(es: &Vec<(YamlValue, YamlValue)>) -> (r: Result<Vec<(u16, u16)>, ()>)
    ensures
        ports_ok(es@) ==> (r matches Ok(v) && keys_unique(v@) && pairs_to_map(v@) == ports_val(es@)),
        !ports_ok(es@) ==> r is Err,
{
    match find_last_str_key(es, "Ports") {
        None => Ok(Vec::new()),
        Some(i) => match &es[i].1 {
            YamlValue::Mapping(m) => build_ports(m),
            _ => Err(()),
        },
    }
}

/// Reads one of the string-to-string fields of the document.
fn get_str_map_field(es: &Vec<(YamlValue, YamlValue)>, key: &str) -> (r: Result<
    Vec<(String, String)>,
    (),
>)
    ensures
        str_map_ok(es@, key@) ==> (r matches Ok(v) && keys_unique(str_pairs(v@))
            && pairs_to_map(str_pairs(v@)) == str_map_val(es@, key@)),
        !str_map_ok(es@, key@) ==> r is Err,
{
    match find_last_str_key(es, key) {
        None => {
            let v: Vec<(String, String)> = Vec::new();
            proof {
                assert(str_pairs(v@) =~= Seq::<(Seq<char>, Seq<char>)>::empty());
            }
            Ok(v)
        },
        Some(i) => match &es[i].1 {
            YamlValue::Mapping(m) => build_str_map(m),
            _ => Err(()),
        },
    }
}

/// Reads the `Commands` field of the document.
fn get_commands_field(es: &Vec<(YamlValue, YamlValue)>) -> (r: Result<
    Vec<(String, CommandType)>,
    (),
>)
    ensures
        commands_ok(es@) ==> (r matches Ok(v) && keys_unique(cmd_pairs(v@))
            && pairs_to_map(cmd_pairs(v@)) == commands_val(es@)),
        !commands_ok(es@) ==> r is Err,
{
    match find_last_str_key(es, "Commands") {
        None => {
            let v: Vec<(String, CommandType)> = Vec::new();
            proof {
                assert(cmd_pairs(v@) =~= Seq::<(Seq<char>, CommandV)>::empty());
            }
            Ok(v)
        },
        Some(i) => match &es[i].1 {
            YamlValue::Mapping(m) => build_commands(m),
            _ => Err(()),
        },
    }
}

/// Reads the `RemoteRepo` field of the document.
fn get_remote_repo(es: &Vec<(YamlValue, YamlValue)>) -> (r: Result<RemoteRepoType, ()>)
    ensures
        remote_repo_ok(es@) ==> (r matches Ok(rr) && rr@ == remote_repo_val(es@)),
        !remote_repo_ok(es@) ==> r is Err,
{
    match find_last_str_key(es, "RemoteRepo") {
        None => Ok(RemoteRepoType { Repo: String::new(), Type: RepoType::source }),
        Some(i) => match &es[i].1 {
            YamlValue::Mapping(m) => {
                let repo = match get_str_field(m, "Repo") {
                    Ok(s) => s,
                    Err(_) => return Err(()),
                };
                let t = match get_repo_type(m) {
                    Ok(t) => t,
                    Err(_) => return Err(()),
                };
                Ok(RemoteRepoType { Repo: repo, Type: t })
            },
            _ => Err(()),
        },
    }
}

/// A malformed-document error with the given diagnostic.
fn malformed(detail: &str) -> (e: LoadError)
    ensures
        e is Malformed,
{
    LoadError::Malformed { detail: detail.to_owned() }
}

/// Applies the descriptor schema to a parsed document.
///
/// A mapping document whose recognized keys all hold acceptable values
/// denotes exactly the component model [`component_of`] gives; any other
/// document is refused as malformed.
pub fn parse_component(doc: &YamlValue) -> (r: Result<Component, LoadError>)
    ensures
        component_of(*doc) matches Ok(cv) ==> (r matches Ok(c) && c@ == cv && c.wf()),
        component_of(*doc) is Err ==> (r matches Err(e) && e is Malformed),
{
    let m = match doc {
        YamlValue::Mapping(m) => m,
        _ => return Err(malformed("descriptor document is not a mapping")),
    };
    let name = match get_str_field(m, "Name") {
        Ok(s) => s,
        Err(_) => return Err(malformed("Name must be a string")),
    };
    let version_number = match get_str_field(m, "VersionNumber") {
        Ok(s) => s,
        Err(_) => return Err(malformed("VersionNumber must be a string")),
    };
    let version_script = match get_str_field(m, "VersionScript") {
        Ok(s) => s,
        Err(_) => return Err(malformed("VersionScript must be a string")),
    };
    let source_dir = match get_str_field(m, "SourceDir") {
        Ok(s) => s,
        Err(_) => return Err(malformed("SourceDir must be a string")),
    };
    let cmpt_type = match get_cmpt_type(m) {
        Ok(t) => t,
        Err(_) => return Err(malformed("Type must be 'normal' or 'supervisored'")),
    };
    let shared_dir = match get_str_field(m, "SharedDirMountPoint") {
        Ok(s) => s,
        Err(_) => return Err(malformed("SharedDirMountPoint must be a string")),
    };
    let ports = match get_ports_field(m) {
        Ok(v) => v,
        Err(_) => return Err(malformed("Ports must map port numbers to port numbers")),
    };
    let remote_repo = match get_remote_repo(m) {
        Ok(rr) => rr,
        Err(_) => return Err(malformed("RemoteRepo must be a mapping with Repo and Type")),
    };
    let check_running = match get_str_field(m, "CheckRunning") {
        Ok(s) => s,
        Err(_) => return Err(malformed("CheckRunning must be a string")),
    };
    let envs = match get_str_map_field(m, "Envs") {
        Ok(v) => v,
        Err(_) => return Err(malformed("Envs must map strings to strings")),
    };
    let run_links = match get_str_map_field(m, "RunLinks") {
        Ok(v) => v,
        Err(_) => return Err(malformed("RunLinks must map strings to strings")),
    };
    let images = match get_str_map_field(m, "Images") {
        Ok(v) => v,
        Err(_) => return Err(malformed("Images must map strings to strings")),
    };
    let commands = match get_commands_field(m) {
        Ok(v) => v,
        Err(_) => return Err(malformed("Commands must map names to command mappings")),
    };
    let run = match get_str_field(m, "Run") {
        Ok(s) => s,
        Err(_) => return Err(malformed("Run must be a string")),
    };
    let c = Component {
        Name: name,
        Version: VersionType { VersionNumber: version_number, VersionScript: version_script },
        SourceDir: source_dir,
        Type: cmpt_type,
        SharedDirMountPoint: shared_dir,
        Ports: ports,
        RemoteRepo: remote_repo,
        CheckRunning: check_running,
        Envs: envs,
        RunLinks: run_links,
        Images: images,
        Commands: commands,
        Run: run,
    };
    proof {
        if component_fields_ok(m@) {
            assert(c@ == component_val(m@));
        }
    }
    Ok(c)
}

/// Parses a descriptor document held in memory.
///
/// This is the `parse` entry point: the whole byte stream is one YAML
/// document, which the schema above is applied to.
pub fn load_from_reader(cmpt: &[u8]) -> (r: Result<Component, LoadError>)
    ensures
        yaml_doc_of(cmpt@) matches Some(doc) ==> component_of(doc) matches Ok(cv) ==> (
        r matches Ok(c) && c@ == cv && c.wf()),
        yaml_doc_of(cmpt@) matches Some(doc) ==> component_of(doc) is Err ==> (r matches Err(e)
            && e is Malformed),
        yaml_doc_of(cmpt@) is None ==> (r matches Err(e) && e is Malformed),
{
    match parse_yaml_bytes(cmpt) {
        Ok(doc) => parse_component(&doc),
        Err(detail) => Err(LoadError::Malformed { detail }),
    }
}

/// Loads a descriptor addressed by path, given what the driver found there.
///
/// `contents` is the outcome of probing the path: `None` where the path does
/// not exist or is not a regular file, else the file's bytes.  A missing
/// file is the distinct not-found error, naming the path; the bytes are
/// otherwise parsed as by [`load_from_reader`].
pub fn load_from(cmpt: &str, contents: &Option<Vec<u8>>) -> (r: Result<Component, LoadError>)
    ensures
        contents is None ==> (r matches Err(e) && e matches LoadError::NoCmptFile { name }
            && name@ == cmpt@),
        contents matches Some(b) ==> yaml_doc_of(b@) matches Some(doc) ==> component_of(
            doc,
        ) matches Ok(cv) ==> (r matches Ok(c) && c@ == cv && c.wf()),
        contents matches Some(b) ==> yaml_doc_of(b@) matches Some(doc) ==> component_of(doc) is Err
            ==> (r matches Err(e) && e is Malformed),
        contents matches Some(b) ==> yaml_doc_of(b@) is None ==> (r matches Err(e)
            && e is Malformed),
{
    match contents {
        None => Err(LoadError::NoCmptFile { name: cmpt.to_owned() }),
        Some(b) => load_from_reader(b.as_slice()),
    }
}

/// [`load_from`], taking the path as an owned string.
pub fn load_from_pathbuf(cmpt: &String, contents: &Option<Vec<u8>>) -> (r: Result<
    Component,
    LoadError,
>)
    ensures
        contents is None ==> (r matches Err(e) && e matches LoadError::NoCmptFile { name }
            && name@ == cmpt@),
        contents matches Some(b) ==> yaml_doc_of(b@) matches Some(doc) ==> component_of(
            doc,
        ) matches Ok(cv) ==> (r matches Ok(c) && c@ == cv && c.wf()),
        contents matches Some(b) ==> yaml_doc_of(b@) matches Some(doc) ==> component_of(doc) is Err
            ==> (r matches Err(e) && e is Malformed),
        contents matches Some(b) ==> yaml_doc_of(b@) is None ==> (r matches Err(e)
            && e is Malformed),
{
    load_from(cmpt.as_str(), contents)
}

// ---------------------------------------------------------------------------
// Laws of the schema.
// ---------------------------------------------------------------------------

/// No recognized top-level key is present among the entries.
pub open spec fn no_recognized_keys(es: Seq<(YamlValue, YamlValue)>) -> bool {
    &&& lookup(es, "Name"@) is None
    &&& lookup(es, "VersionNumber"@) is None
    &&& lookup(es, "VersionScript"@) is None
    &&& lookup(es, "SourceDir"@) is None
    &&& lookup(es, "Type"@) is None
    &&& lookup(es, "SharedDirMountPoint"@) is None
    &&& lookup(es, "Ports"@) is None
    &&& lookup(es, "RemoteRepo"@) is None
    &&& lookup(es, "CheckRunning"@) is None
    &&& lookup(es, "Envs"@) is None
    &&& lookup(es, "RunLinks"@) is None
    &&& lookup(es, "Images"@) is None
    &&& lookup(es, "Commands"@) is None
    &&& lookup(es, "Run"@) is None
}

/// A mapping document without any recognized key parses to the all-defaults
/// component: every string empty, every mapping empty, every enum at its
/// first-listed variant.
pub proof fn lemma_defaults(doc: YamlValue)
    requires
        doc matches YamlValue::Mapping(m) && no_recognized_keys(m@),
    ensures
        component_of(doc) == Ok::<ComponentV, ()>(default_component_v()),
{
}

/// The flattened legacy keys `VersionNumber` and `VersionScript`, read at
/// the top level of the document, feed the normalized version pair, each
/// defaulting independently to the empty string when absent.
pub proof fn lemma_version_flattening(doc: YamlValue, cv: ComponentV)
    requires
        component_of(doc) == Ok::<ComponentV, ()>(cv),
    ensures
        doc matches YamlValue::Mapping(m) ==> (lookup(m@, "VersionNumber"@) matches Some(v) ==> (
        v matches YamlValue::Str(s) && cv.version.version_number == s@)),
        doc matches YamlValue::Mapping(m) ==> (lookup(m@, "VersionNumber"@) is None
            ==> cv.version.version_number == Seq::<char>::empty()),
        doc matches YamlValue::Mapping(m) ==> (lookup(m@, "VersionScript"@) matches Some(v) ==> (
        v matches YamlValue::Str(s) && cv.version.version_script == s@)),
        doc matches YamlValue::Mapping(m) ==> (lookup(m@, "VersionScript"@) is None
            ==> cv.version.version_script == Seq::<char>::empty()),
{
}

/// A present component `Type` key with an unrecognized value makes the
/// whole document malformed; an absent key yields the default variant.
pub proof fn lemma_cmpt_type_strict(doc: YamlValue)
    ensures
        doc matches YamlValue::Mapping(m) ==> (lookup(m@, "Type"@) matches Some(v) ==> (!(
        v matches YamlValue::Str(s) && (s@ == "normal"@ || s@ == "supervisored"@))
            ==> component_of(doc) is Err)),
        doc matches YamlValue::Mapping(m) ==> (lookup(m@, "Type"@) is None ==> (component_of(
            doc,
        ) matches Ok(cv) ==> cv.cmpt_type == CmptType::normal)),
{
}

/// A present `RemoteRepo.Type` key with an unrecognized value makes the
/// whole document malformed; an absent key yields the default variant.
pub proof fn lemma_repo_type_strict(doc: YamlValue)
    ensures
        doc matches YamlValue::Mapping(m) ==> (lookup(m@, "RemoteRepo"@) matches Some(
            YamlValue::Mapping(rm),
        ) ==> (lookup(rm@, "Type"@) matches Some(v) ==> (!(v matches YamlValue::Str(s) && (s@
            == "source"@ || s@ == "built"@ || s@ == "builded"@)) ==> component_of(doc) is Err))),
        doc matches YamlValue::Mapping(m) ==> (lookup(m@, "RemoteRepo"@) matches Some(
            YamlValue::Mapping(rm),
        ) ==> (lookup(rm@, "Type"@) is None ==> (component_of(doc) matches Ok(cv)
            ==> cv.remote_repo.repo_type == RepoType::source))),
        doc matches YamlValue::Mapping(m) ==> (lookup(m@, "RemoteRepo"@) is None ==> (component_of(
            doc,
        ) matches Ok(cv) ==> cv.remote_repo.repo_type == RepoType::source)),
{
}

/// A present `Type` key of any command with an unrecognized value makes the
/// whole document malformed; an absent key denotes the default variant.
pub proof fn lemma_command_type_strict(doc: YamlValue, i: int)
    ensures
        doc matches YamlValue::Mapping(m) ==> (lookup(m@, "Commands"@) matches Some(
            YamlValue::Mapping(cm),
        ) ==> (0 <= i < cm@.len() ==> (cm@[i].1 matches YamlValue::Mapping(ce) ==> (lookup(
            ce@,
            "Type"@,
        ) matches Some(v) ==> (!(v matches YamlValue::Str(s) && (s@ == "Base"@ || s@
            == "External"@ || s@ == "Exec"@)) ==> component_of(doc) is Err))))),
{
}

/// A command mapping without a `Type` key denotes the default command type.
pub proof fn lemma_command_type_default(ce: Seq<(YamlValue, YamlValue)>)
    ensures
        lookup(ce, "Type"@) is None ==> command_val(ce).command_type == TypeCommandType::Base,
{
}

/// In a parsed component, each `Commands` entry that is the last occurrence
/// of its name is the command that name is bound to; in particular, such a
/// command without a `Type` key comes out with the default variant.
pub proof fn lemma_command_last_occurrence(doc: YamlValue, cv: ComponentV, i: int)
    requires
        component_of(doc) == Ok::<ComponentV, ()>(cv),
    ensures
        doc matches YamlValue::Mapping(m) ==> (lookup(m@, "Commands"@) matches Some(
            YamlValue::Mapping(cm),
        ) ==> (0 <= i < cm@.len() ==> ((forall|j: int|
            i < j < cm@.len() ==> command_entry_pair(cm@[j]).0 != command_entry_pair(cm@[i]).0)
            ==> (cv.commands.contains_key(command_entry_pair(cm@[i]).0) && cv.commands[
            command_entry_pair(cm@[i]).0] == command_entry_pair(cm@[i]).1 && (
        cm@[i].1 matches YamlValue::Mapping(ce) ==> (lookup(ce@, "Type"@) is None
            ==> cv.commands[command_entry_pair(cm@[i]).0].command_type
            == TypeCommandType::Base)))))),
{
    match doc {
        YamlValue::Mapping(m) => {
            match lookup(m@, "Commands"@) {
                Some(YamlValue::Mapping(cm)) => {
                    if 0 <= i < cm@.len() && (forall|j: int|
                        i < j < cm@.len() ==> command_entry_pair(cm@[j]).0 != command_entry_pair(
                            cm@[i],
                        ).0) {
                        let ps = command_entry_pairs(cm@);
                        assert(ps[i] == command_entry_pair(cm@[i]));
                        assert(forall|j: int| i < j < ps.len() ==> ps[j].0 != ps[i].0);
                        crate::mapping::lemma_pairs_to_map_last_occurrence(ps, i);
                    }
                },
                _ => {},
            }
        },
        _ => {},
    }
}

// ---------------------------------------------------------------------------
// Reading the mapping fields of a parsed component.
// ---------------------------------------------------------------------------

/// Looks a key up in an owned string-to-string pair vector.
fn lookup_str_pair<'a>(v: &'a Vec<(String, String)>, key: &str) -> (r: Option<&'a String>)
    ensures
        pairs_to_map(str_pairs(v@)).contains_key(key@) ==> (r matches Some(s) && s@
            == pairs_to_map(str_pairs(v@))[key@]),
        !pairs_to_map(str_pairs(v@)).contains_key(key@) ==> r is None,
{
    let ghost ps = str_pairs(v@);
    let mut found: Option<usize> = None;
    let mut i: usize = 0;
    proof {
        assert(ps.take(0) =~= Seq::<(Seq<char>, Seq<char>)>::empty());
    }
    while i < v.len()
        invariant
            i <= v@.len(),
            ps == str_pairs(v@),
            ps.len() == v@.len(),
            pairs_to_map(ps.take(i as int)).contains_key(key@) ==> (found matches Some(j) && j
                < v@.len() && v@[j as int].1@ == pairs_to_map(ps.take(i as int))[key@]),
            !pairs_to_map(ps.take(i as int)).contains_key(key@) ==> found is None,
        decreases v@.len() - i,
    {
        if str_eq(v[i].0.as_str(), key) {
            found = Some(i);
        }
        proof {
            assert(ps.take(i + 1) =~= ps.take(i as int).push(ps[i as int]));
            lemma_pairs_to_map_push(ps.take(i as int), ps[i as int].0, ps[i as int].1);
            assert(ps[i as int] == (v@[i as int].0@, v@[i as int].1@));
        }
        i += 1;
    }
    proof {
        assert(ps.take(v@.len() as int) =~= ps);
    }
    match found {
        Some(j) => Some(&v[j].1),
        None => None,
    }
}

impl Component {
    /// The container port that host port `host` maps to, if any.
    pub fn port(&self, host: u16) -> (r: Option<u16>)
        ensures
            self@.ports.contains_key(host) ==> r == Some(self@.ports[host]),
            !self@.ports.contains_key(host) ==> r is None,
    {
        let mut found: Option<u16> = None;
        let mut i: usize = 0;
        proof {
            assert(self.Ports@.take(0) =~= Seq::<(u16, u16)>::empty());
        }
        while i < self.Ports.len()
            invariant
                i <= self.Ports@.len(),
                pairs_to_map(self.Ports@.take(i as int)).contains_key(host) ==> found == Some(
                    pairs_to_map(self.Ports@.take(i as int))[host],
                ),
                !pairs_to_map(self.Ports@.take(i as int)).contains_key(host) ==> found is None,
            decreases self.Ports@.len() - i,
        {
            let (k, v) = self.Ports[i];
            if k == host {
                found = Some(v);
            }
            proof {
                assert(self.Ports@.take(i + 1) =~= self.Ports@.take(i as int).push(
                    self.Ports@[i as int],
                ));
                lemma_pairs_to_map_push(
                    self.Ports@.take(i as int),
                    self.Ports@[i as int].0,
                    self.Ports@[i as int].1,
                );
            }
            i += 1;
        }
        proof {
            assert(self.Ports@.take(self.Ports@.len() as int) =~= self.Ports@);
        }
        found
    }

    /// The declared value of environment variable `key`, if any.
    pub fn env(&self, key: &str) -> (r: Option<&String>)
        ensures
            self@.envs.contains_key(key@) ==> (r matches Some(s) && s@ == self@.envs[key@]),
            !self@.envs.contains_key(key@) ==> r is None,
    {
        lookup_str_pair(&self.Envs, key)
    }

    /// The run-time link target named `key`, if any.
    pub fn run_link(&self, key: &str) -> (r: Option<&String>)
        ensures
            self@.run_links.contains_key(key@) ==> (r matches Some(s)
                && s@ == self@.run_links[key@]),
            !self@.run_links.contains_key(key@) ==> r is None,
    {
        lookup_str_pair(&self.RunLinks, key)
    }

    /// The image reference named `key`, if any.
    pub fn image(&self, key: &str) -> (r: Option<&String>)
        ensures
            self@.images.contains_key(key@) ==> (r matches Some(s) && s@ == self@.images[key@]),
            !self@.images.contains_key(key@) ==> r is None,
    {
        lookup_str_pair(&self.Images, key)
    }

    /// The operational command named `key`, if any.
    pub fn command(&self, key: &str) -> (r: Option<&CommandType>)
        ensures
            self@.commands.contains_key(key@) ==> (r matches Some(c) && c@ == self@.commands[key@]),
            !self@.commands.contains_key(key@) ==> r is None,
    {
        let ghost ps = cmd_pairs(self.Commands@);
        let mut found: Option<usize> = None;
        let mut i: usize = 0;
        proof {
            assert(ps.take(0) =~= Seq::<(Seq<char>, CommandV)>::empty());
        }
        while i < self.Commands.len()
            invariant
                i <= self.Commands@.len(),
                ps == cmd_pairs(self.Commands@),
                ps.len() == self.Commands@.len(),
                pairs_to_map(ps.take(i as int)).contains_key(key@) ==> (found matches Some(j) && j
                    < self.Commands@.len() && self.Commands@[j as int].1@ == pairs_to_map(
                    ps.take(i as int),
                )[key@]),
                !pairs_to_map(ps.take(i as int)).contains_key(key@) ==> found is None,
            decreases self.Commands@.len() - i,
        {
            if str_eq(self.Commands[i].0.as_str(), key) {
                found = Some(i);
            }
            proof {
                assert(ps.take(i + 1) =~= ps.take(i as int).push(ps[i as int]));
                lemma_pairs_to_map_push(ps.take(i as int), ps[i as int].0, ps[i as int].1);
                assert(ps[i as int] == (self.Commands@[i as int].0@, self.Commands@[i as int].1@));
            }
            i += 1;
        }
        proof {
            assert(ps.take(self.Commands@.len() as int) =~= ps);
        }
        match found {
            Some(j) => Some(&self.Commands[j].1),
            None => None,
        }
    }
}

} // verus!
