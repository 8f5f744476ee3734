//! The configuration of the tool providers: which servers are known, how each
//! is launched, and where the configuration is looked for.

use vstd::prelude::*;
use std::collections::HashMap;
use crate::text::{replace_all, replace_in, same_text};

verus! {

/// The variable in a command or an argument that stands for the workspace
/// folder.
pub const WORKSPACE_FOLDER: &'static str = "${workspaceFolder}";

/// The only server type that can be launched.
pub const STDIO: &'static str = "stdio";

/// Where the configuration is looked for first.
pub const VSCODE_PATH: &'static str = ".vscode/mcp.json";

/// Where the configuration is looked for second.
pub const LOCAL_PATH: &'static str = "mcp.json";

/// A prompt for a value that the configuration needs.
#[derive(Debug, Clone)]
pub struct InputConfig {
    pub input_type: String,
    pub id: String,
    pub description: String,
    pub password: bool,
}

/// How one server is launched.
#[derive(Debug, Clone)]
pub struct ServerConfig {
    pub server_type: String,
    pub command: String,
    pub args: Vec<String>,
    pub env: HashMap<String, String>,
    pub env_file: Option<String>,
    pub cwd: Option<String>,
}

/// `text` with the workspace variable expanded to `workspace_folder`, or as
/// it is where there is no workspace folder.
pub open spec fn resolved(text: Seq<char>, workspace_folder: Option<&str>) -> Seq<char> {
    match workspace_folder {
        Some(folder) => replace_all(text, WORKSPACE_FOLDER@, folder@),
        None => text,
    }
}

/// Expands the workspace variable in `text`.
fn resolve(text: &String, workspace_folder: Option<&str>) -> (out: String)
    ensures
        out@ == resolved(text@, workspace_folder),
{
    match workspace_folder {
        Some(folder) => replace_in(text.as_str(), WORKSPACE_FOLDER, folder),
        None => text.clone(),
    }
}

impl ServerConfig {
    /// The command to run, with the workspace variable expanded.
    pub fn resolve_command(&self, workspace_folder: Option<&str>) -> (command: String)
        ensures
            command@ == resolved(self.command@, workspace_folder),
    {
        resolve(&self.command, workspace_folder)
    }

    /// The arguments to pass, in order, each with the workspace variable
    /// expanded.
    pub fn resolve_args(&self, workspace_folder: Option<&str>) -> (args: Vec<String>)
        ensures
            args@.len() == self.args@.len(),
            forall|i: int|
                0 <= i < args@.len() ==> (#[trigger] args@[i])@ == resolved(
                    self.args@[i]@,
                    workspace_folder,
                ),
    {
        let mut args: Vec<String> = Vec::new();
        let mut i: usize = 0;
        while i < self.args.len()
            invariant
                i <= self.args.len(),
                args@.len() == i,
                forall|k: int|
                    0 <= k < i ==> (#[trigger] args@[k])@ == resolved(
                        self.args@[k]@,
                        workspace_folder,
                    ),
            decreases self.args.len() - i,
        {
            args.push(resolve(&self.args[i], workspace_folder));
            i += 1;
        }
        args
    }

    /// Whether this server speaks over its standard input and output, the
    /// one way that is supported.
    pub fn is_stdio(&self) -> (yes: bool)
        ensures
            yes == (self.server_type@ == STDIO@),
    {
        same_text(self.server_type.as_str(), STDIO)
    }
}

/// Why a server cannot be launched.
#[derive(Debug, PartialEq, Eq)]
pub enum LaunchError {
    /// No server has the name.
    UnknownServer { name: String },
    /// The server's type is not the supported one.
    UnsupportedType { server_type: String },
}

/// What to run to launch a server.
#[derive(Debug, PartialEq, Eq)]
pub struct LaunchPlan {
    pub command: String,
    pub args: Vec<String>,
}

/// A server under its name.
#[derive(Debug, Clone)]
pub struct ServerEntry {
    pub name: String,
    pub config: ServerConfig,
}

/// The whole configuration: the prompts and the servers. In a well-formed
/// configuration each server has a name of its own.
#[derive(Debug, Clone)]
pub struct McpConfig {
    pub inputs: Vec<InputConfig>,
    pub servers: Vec<ServerEntry>,
}

/// The index of the first of `entries` that is named `name`, or the number of
/// entries where none is.
pub open spec fn position_of(entries: Seq<ServerEntry>, name: Seq<char>) -> int
    decreases entries.len(),
{
    if entries.len() == 0 {
        0
    } else if entries[0].name@ == name {
        0
    } else {
        1 + position_of(entries.skip(1), name)
    }
}

/// The place of a name lies within the list or just behind it; where it lies
/// within, the entry there has the name; and no entry before it has.
pub proof fn lemma_position_of(entries: Seq<ServerEntry>, name: Seq<char>)
    ensures
        0 <= position_of(entries, name) <= entries.len(),
        position_of(entries, name) < entries.len() ==> entries[position_of(
            entries,
            name,
        )].name@ == name,
        forall|i: int|
            0 <= i < position_of(entries, name) ==> (#[trigger] entries[i]).name@ != name,
    decreases entries.len(),
{
    if entries.len() > 0 && entries[0].name@ != name {
        lemma_position_of(entries.skip(1), name);
        assert forall|i: int| 0 <= i < position_of(entries, name) implies (
        #[trigger] entries[i]).name@ != name by {
            if i > 0 {
                assert(entries[i] == entries.skip(1)[i - 1]);
            }
        }
    }
}

/// Whether `name` is among `names`.
pub open spec fn listed(names: Seq<&String>, name: Seq<char>) -> bool {
    exists|i: int| 0 <= i < names.len() && (*#[trigger] names[i])@ == name
}

impl McpConfig {
    /// The servers in the order in which they were put in.
    pub open spec fn entries(&self) -> Seq<ServerEntry> {
        self.servers@
    }

    /// Whether no two servers share a name.
    pub open spec fn well_formed(&self) -> bool {
        forall|i: int, j: int|
            0 <= i < j < self.entries().len() ==> (#[trigger] self.entries()[i]).name@ != (
            #[trigger] self.entries()[j]).name@
    }

    /// Whether a server is named `name`.
    pub open spec fn has_server(&self, name: Seq<char>) -> bool {
        position_of(self.entries(), name) < self.entries().len()
    }

    /// The server named `name`, where there is one.
    pub open spec fn server(&self, name: Seq<char>) -> ServerConfig {
        self.entries()[position_of(self.entries(), name)].config
    }

    /// A configuration without servers, with the prompts `inputs`.
    pub fn new(inputs: Vec<InputConfig>) -> (config: Self)
        ensures
            config.well_formed(),
            config.entries().len() == 0,
            config.inputs == inputs,
    {
        McpConfig { inputs, servers: Vec::new() }
    }

    /// How many servers there are.
    pub fn server_count(&self) -> (n: usize)
        ensures
            n == self.entries().len(),
    {
        self.servers.len()
    }

    /// The server at `index`, in the order in which the servers were put in,
    /// if there are that many.
    pub fn server_at(&self, index: usize) -> (entry: Option<&ServerEntry>)
        ensures
            entry == (if index < self.entries().len() {
                Some(&self.entries()[index as int])
            } else {
                None
            }),
    {
        if index < self.servers.len() {
            Some(&self.servers[index])
        } else {
            None
        }
    }

    fn find(&self, name: &str) -> (index: usize)
        ensures
            index == position_of(self.entries(), name@),
            index <= self.entries().len(),
    {
        let mut i: usize = 0;
        proof {
            lemma_position_of(self.servers@, name@);
        }
        while i < self.servers.len()
            invariant
                i <= self.servers.len(),
                i <= position_of(self.servers@, name@) <= self.servers@.len(),
                position_of(self.servers@, name@) < self.servers@.len() ==> self.servers@[position_of(
                    self.servers@,
                    name@,
                )].name@ == name@,
                forall|k: int|
                    0 <= k < position_of(self.servers@, name@) ==> (
                    #[trigger] self.servers@[k]).name@ != name@,
            decreases self.servers.len() - i,
        {
            if same_text(self.servers[i].name.as_str(), name) {
                return i;
            }
            i += 1;
        }
        i
    }

    /// Puts the server `config` under `name`. A server that had the name is
    /// replaced and handed back; every other server stays.
    pub fn insert_server(&mut self, name: String, config: ServerConfig) -> (replaced: Option<
        ServerConfig,
    >)
        ensures
            old(self).well_formed() ==> final(self).well_formed(),
            final(self).inputs == old(self).inputs,
            final(self).has_server(name@),
            final(self).server(name@) == config,
            replaced == (if old(self).has_server(name@) {
                Some(old(self).server(name@))
            } else {
                None
            }),
            final(self).entries().len() == old(self).entries().len() + (if old(self).has_server(
                name@,
            ) {
                0int
            } else {
                1int
            }),
            forall|other: Seq<char>|
                other != name@ ==> final(self).has_server(other) == old(self).has_server(other)
                    && (old(self).has_server(other) ==> final(self).server(other) == old(
                    self,
                ).server(other)),
    {
        let index = self.find(name.as_str());
        let ghost before = self.servers@;
        proof {
            lemma_position_of(before, name@);
        }
        if index < self.servers.len() {
            let mut entry = ServerEntry { name, config };
            let ghost put = entry;
            core::mem::swap(&mut self.servers[index], &mut entry);
            let ghost after = self.servers@;
            assert(after =~= before.update(index as int, put));
            proof {
                assert forall|i: int| 0 <= i < index implies (#[trigger] after[i]).name@
                    != name@ by {
                    assert(after[i] == before[i]);
                }
                lemma_position_is(after, name@, index as int);
                assert forall|other: Seq<char>| other != name@ implies self.has_server(other)
                    == old(self).has_server(other) && (old(self).has_server(other)
                    ==> self.server(other) == old(self).server(other)) by {
                    lemma_same_names_same_position(before, after, other);
                    lemma_position_of(before, other);
                }
                if old(self).well_formed() {
                    assert forall|i: int, j: int| 0 <= i < j < after.len() implies (
                    #[trigger] after[i]).name@ != (#[trigger] after[j]).name@ by {
                        assert(after[i].name@ == before[i].name@);
                        assert(after[j].name@ == before[j].name@);
                    }
                }
            }
            Some(entry.config)
        } else {
            let ghost put = ServerEntry { name, config };
            self.servers.push(ServerEntry { name, config });
            let ghost after = self.servers@;
            assert(after =~= before.push(put));
            proof {
                assert forall|i: int| 0 <= i < index implies (#[trigger] after[i]).name@
                    != name@ by {
                    assert(after[i] == before[i]);
                }
                lemma_position_is(after, name@, index as int);
                assert forall|other: Seq<char>| other != name@ implies self.has_server(other)
                    == old(self).has_server(other) && (old(self).has_server(other)
                    ==> self.server(other) == old(self).server(other)) by {
                    lemma_position_of(before, other);
                    let p = position_of(before, other);
                    if p < before.len() {
                        assert forall|i: int| 0 <= i < p && i < after.len() implies (
                        #[trigger] after[i]).name@ != other by {
                            assert(after[i] == before[i]);
                        }
                        assert(after[p] == before[p]);
                        lemma_position_is(after, other, p);
                    } else {
                        assert forall|i: int| 0 <= i < p + 1 && i < after.len() implies (
                        #[trigger] after[i]).name@ != other by {
                            if i < p {
                                assert(after[i] == before[i]);
                            }
                        }
                        lemma_position_is(after, other, p + 1);
                    }
                }
                if old(self).well_formed() {
                    assert forall|i: int, j: int| 0 <= i < j < after.len() implies (
                    #[trigger] after[i]).name@ != (#[trigger] after[j]).name@ by {
                        assert(after[i] == before[i]);
                        if j < before.len() {
                            assert(after[j] == before[j]);
                        }
                    }
                }
            }
            None
        }
    }

    /// The names of the servers, in the order in which they were put in. A
    /// name is listed if and only if a server has it; in a well-formed
    /// configuration no name is listed twice.
    pub fn server_names(&self) -> (names: Vec<&String>)
        ensures
            names@.len() == self.entries().len(),
            forall|i: int|
                0 <= i < names@.len() ==> *(#[trigger] names@[i]) == self.entries()[i].name,
            forall|name: Seq<char>| #[trigger]
                self.has_server(name) <==> listed(names@, name),
            self.well_formed() ==> forall|i: int, j: int|
                0 <= i < j < names@.len() ==> (#[trigger] names@[i])@ != (#[trigger] names@[j])@,
    {
        let mut names: Vec<&String> = Vec::new();
        let mut i: usize = 0;
        while i < self.servers.len()
            invariant
                i <= self.servers.len(),
                names@.len() == i,
                forall|k: int| 0 <= k < i ==> *(#[trigger] names@[k]) == self.servers@[k].name,
            decreases self.servers.len() - i,
        {
            names.push(&self.servers[i].name);
            i += 1;
        }
        proof {
            assert forall|name: Seq<char>| #[trigger]
                self.has_server(name) <==> listed(names@, name) by {
                lemma_position_of(self.servers@, name);
                if self.has_server(name) {
                    let p = position_of(self.servers@, name);
                    assert((*names@[p])@ == name);
                }
                if listed(names@, name) {
                    let i = choose|i: int| 0 <= i < names@.len() && (*#[trigger] names@[i])@ == name;
                    assert(self.servers@[i].name@ == name);
                }
            }
        }
        names
    }

    /// The server named `name`, if there is one.
    pub fn get_server(&self, name: &str) -> (server: Option<&ServerConfig>)
        ensures
            match server {
                Some(config) => self.has_server(name@) && *config == self.server(name@),
                None => !self.has_server(name@),
            },
    {
        let index = self.find(name);
        if index < self.servers.len() {
            Some(&self.servers[index].config)
        } else {
            None
        }
    }

    /// What to run to launch the server named `server_name`: its command and
    /// arguments with the workspace variable expanded. Fails where no server
    /// has the name, and where the server's type is not `stdio`.
    pub fn launch_plan(&self, server_name: &str, workspace_folder: Option<&str>) -> (plan: Result<
        LaunchPlan,
        LaunchError,
    >)
        ensures
            match plan {
                Ok(launch) => {
                    &&& self.has_server(server_name@)
                    &&& self.server(server_name@).server_type@ == STDIO@
                    &&& launch.command@ == resolved(
                        self.server(server_name@).command@,
                        workspace_folder,
                    )
                    &&& launch.args@.len() == self.server(server_name@).args@.len()
                    &&& forall|i: int|
                        0 <= i < launch.args@.len() ==> (#[trigger] launch.args@[i])@ == resolved(
                            self.server(server_name@).args@[i]@,
                            workspace_folder,
                        )
                },
                Err(LaunchError::UnknownServer { name }) => !self.has_server(server_name@)
                    && name@ == server_name@,
                Err(LaunchError::UnsupportedType { server_type }) => {
                    &&& self.has_server(server_name@)
                    &&& self.server(server_name@).server_type@ != STDIO@
                    &&& server_type@ == self.server(server_name@).server_type@
                },
            },
    {
        match self.get_server(server_name) {
            None => Err(LaunchError::UnknownServer { name: server_name.to_owned() }),
            Some(server) => {
                if !server.is_stdio() {
                    return Err(
                        LaunchError::UnsupportedType { server_type: server.server_type.clone() },
                    );
                }
                Ok(
                    LaunchPlan {
                        command: server.resolve_command(workspace_folder),
                        args: server.resolve_args(workspace_folder),
                    },
                )
            },
        }
    }

    /// Where the configuration is read from, given which of the two places
    /// hold a file: the editor's folder goes first.
    pub fn default_path(vscode_file_exists: bool, local_file_exists: bool) -> (path: Option<
        &'static str,
    >)
        ensures
            path == (if vscode_file_exists {
                Some(VSCODE_PATH)
            } else if local_file_exists {
                Some(LOCAL_PATH)
            } else {
                None
            }),
    {
        if vscode_file_exists {
            Some(VSCODE_PATH)
        } else if local_file_exists {
            Some(LOCAL_PATH)
        } else {
            None
        }
    }

    /// The configuration of the default place, given what came of loading
    /// it: `None` where no place held a file. A file that is there and
    /// cannot be loaded is an error; the other place is not tried.
    pub fn load_default<E>(loaded: Option<Result<McpConfig, E>>) -> (result: Result<
        Option<McpConfig>,
        E,
    >)
        ensures
            result == (match loaded {
                Some(Ok(config)) => Ok(Some(config)),
                Some(Err(error)) => Err(error),
                None => Ok(None),
            }),
    {
        match loaded {
            Some(Ok(config)) => Ok(Some(config)),
            Some(Err(error)) => Err(error),
            None => Ok(None),
        }
    }
}

/// The place of a name is the first place that holds it.
proof fn lemma_position_is(entries: Seq<ServerEntry>, name: Seq<char>, p: int)
    requires
        0 <= p <= entries.len(),
        forall|i: int| 0 <= i < p && i < entries.len() ==> (#[trigger] entries[i]).name@ != name,
        p < entries.len() ==> entries[p].name@ == name,
    ensures
        position_of(entries, name) == p,
    decreases entries.len(),
{
    if entries.len() > 0 && p > 0 {
        assert(entries[0].name@ != name);
        let rest = entries.skip(1);
        assert forall|i: int| 0 <= i < p - 1 && i < rest.len() implies (#[trigger] rest[i]).name@
            != name by {
            assert(rest[i] == entries[i + 1]);
        }
        if p - 1 < rest.len() {
            assert(rest[p - 1] == entries[p]);
        }
        lemma_position_is(rest, name, p - 1);
    }
}

/// Where two lists carry the same names at the same places, a name is found
/// at the same place in both.
proof fn lemma_same_names_same_position(
    left: Seq<ServerEntry>,
    right: Seq<ServerEntry>,
    name: Seq<char>,
)
    requires
        left.len() == right.len(),
        forall|i: int|
            0 <= i < left.len() ==> ((#[trigger] left[i]).name@ == name) == (right[i].name@
                == name),
    ensures
        position_of(left, name) == position_of(right, name),
    decreases left.len(),
{
    if left.len() > 0 {
        assert(left[0].name@ == name <==> right[0].name@ == name);
        if left[0].name@ != name {
            assert forall|i: int| 0 <= i < left.skip(1).len() implies ((
            #[trigger] left.skip(1)[i]).name@ == name) == (right.skip(1)[i].name@ == name) by {
                assert(left.skip(1)[i] == left[i + 1]);
                assert(right.skip(1)[i] == right[i + 1]);
            }
            lemma_same_names_same_position(left.skip(1), right.skip(1), name);
        }
    }
}

} // verus!
