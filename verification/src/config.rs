//! The servers that a configuration declares.
//!
//! A configuration holds a directive `http` with a block; each directive
//! `server` of that block declares one server, with the directives
//! `server_name` and `listen` in its own block. The address that a server
//! listens on is kept here as it is written.

use crate::directive::{
    directives_view, lemma_views, parameters_view, Block, BlockView, Directive, DirectiveView,
};
use vstd::prelude::*;
use vstd::string::*;

verus! {

/// What a configuration declares.
pub struct Config {
    pub http: Http,
}

/// The servers of a configuration, in the order in which it declares them.
#[derive(Debug, Clone)]
pub struct Http {
    pub servers: Vec<Server>,
}

/// One server: its name and the address it listens on.
#[derive(Debug, Clone)]
pub struct Server {
    pub server_name: String,
    /// The address to listen on, as the configuration writes it.
    pub listen: String,
}

/// Why a configuration declares no list of servers.
#[derive(Debug, Clone, Copy, PartialEq, Eq, Structural)]
pub enum ConfigError {
    /// There is no directive `http`.
    NoHttp,
    /// The directive `http`, or a directive `server`, has no block.
    NoBlock,
    /// A server has no directive `server_name`.
    NoServerName,
    /// A server has no directive `listen`.
    NoListen,
    /// A directive `server_name` or `listen` has no parameter.
    NoParameter,
}

/// A server as plain values.
pub struct ServerView {
    pub server_name: Seq<char>,
    pub listen: Seq<char>,
}

impl View for Server {
    type V = ServerView;

    open spec fn view(&self) -> ServerView {
        ServerView { server_name: self.server_name@, listen: self.listen@ }
    }
}

/// The servers of a list as plain values.
pub open spec fn servers_view(servers: Seq<Server>) -> Seq<ServerView> {
    Seq::new(servers.len(), |i: int| servers[i]@)
}

impl View for Config {
    type V = Seq<ServerView>;

    open spec fn view(&self) -> Seq<ServerView> {
        servers_view(self.http.servers@)
    }
}

/// The index of the first directive named `name`, from `from` on; the
/// number of directives where there is none.
pub open spec fn first_named(directives: Seq<DirectiveView>, name: Seq<char>, from: nat) -> nat
    decreases directives.len() - from,
{
    if from >= directives.len() {
        directives.len()
    } else if directives[from as int].name == name {
        from
    } else {
        first_named(directives, name, from + 1)
    }
}

/// The first parameter of the first directive named `name`.
pub open spec fn setting(directives: Seq<DirectiveView>, name: Seq<char>, missing: ConfigError) -> Result<
    Seq<char>,
    ConfigError,
> {
    let at = first_named(directives, name, 0);
    if at >= directives.len() {
        Err(missing)
    } else if directives[at as int].parameters.len() == 0 {
        Err(ConfigError::NoParameter)
    } else {
        Ok(directives[at as int].parameters[0].1)
    }
}

/// The server that a directive `server` declares.
pub open spec fn server_of(d: DirectiveView) -> Result<ServerView, ConfigError> {
    match d.block {
        None => Err(ConfigError::NoBlock),
        Some(block) => match setting(block.directives, "server_name"@, ConfigError::NoServerName) {
            Err(e) => Err(e),
            Ok(server_name) => match setting(block.directives, "listen"@, ConfigError::NoListen) {
                Err(e) => Err(e),
                Ok(listen) => Ok(ServerView { server_name, listen }),
            },
        },
    }
}

/// The servers that the directives declare from the index `from` on, after
/// the servers `found`: one for each directive named `server`, in their
/// order, or the first fault.
pub open spec fn servers_from(directives: Seq<DirectiveView>, from: nat, found: Seq<ServerView>) -> Result<
    Seq<ServerView>,
    ConfigError,
>
    decreases directives.len() - from,
{
    if from >= directives.len() {
        Ok(found)
    } else if directives[from as int].name != "server"@ {
        servers_from(directives, from + 1, found)
    } else {
        match server_of(directives[from as int]) {
            Err(e) => Err(e),
            Ok(server) => servers_from(directives, from + 1, found.push(server)),
        }
    }
}

/// The servers that a configuration declares.
pub open spec fn config_of(block: BlockView) -> Result<Seq<ServerView>, ConfigError> {
    let at = first_named(block.directives, "http"@, 0);
    if at >= block.directives.len() {
        Err(ConfigError::NoHttp)
    } else {
        match block.directives[at as int].block {
            None => Err(ConfigError::NoBlock),
            Some(http) => servers_from(http.directives, 0, Seq::empty()),
        }
    }
}

/// What [`Config::from`] returns, as plain values.
pub open spec fn config_view(r: Result<Config, ConfigError>) -> Result<Seq<ServerView>, ConfigError> {
    match r {
        Ok(config) => Ok(config@),
        Err(e) => Err(e),
    }
}

/// The index of the first directive named `name`, if there is one.
fn find(directives: &Vec<Directive>, name: &str) -> (r: Option<usize>)
    ensures
        r is Some ==> r.unwrap() < directives@.len(),
        first_named(directives_view(directives@), name@, 0) == match r {
            Some(at) => at as nat,
            None => directives@.len(),
        },
{
    let ghost views = directives_view(directives@);
    let wanted = String::from_str(name);
    let mut i: usize = 0;
    while i < directives.len()
        invariant
            i <= directives@.len(),
            views == directives_view(directives@),
            wanted@ == name@,
            first_named(views, name@, 0) == first_named(views, name@, i as nat),
        decreases directives@.len() - i,
    {
        assert(views[i as int].name == directives@[i as int].name@);
        if directives[i].name == wanted {
            return Some(i);
        }
        i += 1;
    }
    None
}


/// The first parameter of the first directive named `name`.
fn find_setting(directives: &Vec<Directive>, name: &str, missing: ConfigError) -> (r: Result<
    String,
    ConfigError,
>)
    ensures
        setting(directives_view(directives@), name@, missing) == match r {
            Ok(text) => Ok(text@),
            Err(e) => Err(e),
        },
{
    match find(directives, name) {
        None => Err(missing),
        Some(at) => {
            let d = &directives[at];
            assert(directives_view(directives@)[at as int].parameters == parameters_view(
                d.parameters@,
            ));
            if d.parameters.len() == 0 {
                Err(ConfigError::NoParameter)
            } else {
                Ok(d.parameters[0].1.clone())
            }
        },
    }
}

/// The server that a directive `server` declares.
fn read_server(d: &Directive) -> (r: Result<Server, ConfigError>)
    ensures
        server_of(d@) == match r {
            Ok(server) => Ok(server@),
            Err(e) => Err(e),
        },
{
    match &d.block {
        None => Err(ConfigError::NoBlock),
        Some(block) => {
            proof {
                lemma_views(*block);
            }
            let server_name = match find_setting(
                &block.directives,
                "server_name",
                ConfigError::NoServerName,
            ) {
                Ok(text) => text,
                Err(e) => {
                    return Err(e);
                },
            };
            let listen = match find_setting(&block.directives, "listen", ConfigError::NoListen) {
                Ok(text) => text,
                Err(e) => {
                    return Err(e);
                },
            };
            Ok(Server { server_name, listen })
        },
    }
}

impl Config {
    /// The servers that the configuration `b` declares, in the order in
    /// which it declares them; or the first fault found in that order.
    pub fn from(b: Block) -> (r: Result<Config, ConfigError>)
        ensures
            config_view(r) == config_of(b@),
    {
        proof {
            lemma_views(b);
        }
        let at = match find(&b.directives, "http") {
            Some(at) => at,
            None => {
                return Err(ConfigError::NoHttp);
            },
        };
        let http = match &b.directives[at].block {
            Some(block) => block,
            None => {
                return Err(ConfigError::NoBlock);
            },
        };
        proof {
            lemma_views(*http);
        }
        let ghost views = directives_view(http.directives@);
        let key = String::from_str("server");
        let mut servers: Vec<Server> = Vec::new();
        let mut i: usize = 0;
        assert(servers_view(servers@) =~= Seq::empty());
        while i < http.directives.len()
            invariant
                i <= http.directives@.len(),
                views == directives_view(http.directives@),
                key@ == "server"@,
                config_of(b@) == servers_from(views, i as nat, servers_view(servers@)),
            decreases http.directives@.len() - i,
        {
            let d = &http.directives[i];
            assert(views[i as int] == d@);
            if d.name == key {
                let ghost found = servers_view(servers@);
                match read_server(d) {
                    Ok(server) => {
                        servers.push(server);
                        assert(servers_view(servers@) =~= found.push(server@));
                    },
                    Err(e) => {
                        return Err(e);
                    },
                }
            }
            i += 1;
        }
        Ok(Config { http: Http { servers } })
    }
}

} // verus!
