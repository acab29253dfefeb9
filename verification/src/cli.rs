//! What the command line decides before and around a request: the start-up
//! configuration, the base address, the argument that stands for each
//! parameter, and which operation a command invokes.

use crate::binder::{SuppliedValue, SuppliedValues};
use crate::errors::{ErrorKind, Errors};
use crate::http::{
    prepare_request, preparation, Credentials, CredentialsView, RequestDescriptor, RequestView,
};
use crate::openapi::{
    endpoint_views, parameter_views, Document, Endpoint, EndpointView, Parameter,
    ParameterLocation, ParameterView,
};
use crate::text::same_text;
use vstd::prelude::*;

verus! {

/// The document that is read where the command line names none.
pub const DEFAULT_CONFIG: &'static str = "openapi.yaml";

/// The address that requests go to where neither the command line nor the
/// document names one.
pub const DEFAULT_SERVER: &'static str = "http://localhost:3000";

/// The help text of the argument that takes the request body.
pub const BODY_HELP: &'static str = "JSON string for request body";

/// What the command line says before the document is read.
#[derive(Debug, Clone)]
pub struct InitialConfig {
    /// The path of the interface description.
    pub config: String,
    /// The address given on the command line, if any.
    pub server: Option<String>,
}

impl Default for InitialConfig {
    fn default() -> (out: InitialConfig)
        ensures
            out.config@ == DEFAULT_CONFIG@,
            out.server is None,
    {
        InitialConfig { config: DEFAULT_CONFIG.to_owned(), server: None }
    }
}

/// The start-up configuration for what the command line gave: the default
/// document where it names none, and its server address as it is.
pub fn initial_config(config: Option<String>, server: Option<String>) -> (out: InitialConfig)
    ensures
        out.config@ == (match config {
            Some(path) => path@,
            None => DEFAULT_CONFIG@,
        }),
        out.server == server,
{
    match config {
        Some(path) => InitialConfig { config: path, server },
        None => InitialConfig { config: DEFAULT_CONFIG.to_owned(), server },
    }
}

/// The base address of an invocation: the address from the command line
/// where there is one, else the first server of the document, else the
/// default.
pub open spec fn base_url_of(servers: Seq<String>, server: Option<String>) -> Seq<char> {
    match server {
        Some(address) => address@,
        None => if servers.len() > 0 {
            servers[0]@
        } else {
            DEFAULT_SERVER@
        },
    }
}

/// Chooses the base address of an invocation. An address from the command
/// line goes before the document's.
pub fn select_base_url(document: &Document, server: Option<String>) -> (base_url: String)
    ensures
        base_url@ == base_url_of(document.servers@, server),
{
    match server {
        Some(address) => address,
        None => if document.servers.len() > 0 {
            document.servers[0].clone()
        } else {
            DEFAULT_SERVER.to_owned()
        },
    }
}

/// The command-line argument that stands for one parameter.
#[derive(Debug, Clone)]
pub struct ArgumentDecl {
    pub name: String,
    pub required: bool,
    /// Whether the argument is given as `--name value`; otherwise by
    /// position.
    pub long: bool,
    pub help: Option<String>,
}

/// An argument as the contracts see it.
pub struct ArgumentView {
    pub name: Seq<char>,
    pub required: bool,
    pub long: bool,
    pub help: Option<Seq<char>>,
}

impl View for ArgumentDecl {
    type V = ArgumentView;

    open spec fn view(&self) -> ArgumentView {
        ArgumentView {
            name: self.name@,
            required: self.required,
            long: self.long,
            help: match self.help {
                Some(text) => Some(text@),
                None => None,
            },
        }
    }
}

/// The argument of a parameter: named and required as the parameter is;
/// query and header parameters are given by name, path and body parameters
/// by position; the body argument says that it takes JSON.
pub open spec fn argument_of(param: ParameterView) -> ArgumentView {
    ArgumentView {
        name: param.name,
        required: param.required,
        long: param.location == ParameterLocation::Query || param.location
            == ParameterLocation::Header,
        help: if param.location == ParameterLocation::Body {
            Some(BODY_HELP@)
        } else {
            None
        },
    }
}

/// Declares the argument that stands for `param`.
pub fn argument_for(param: &Parameter) -> (argument: ArgumentDecl)
    ensures
        argument@ == argument_of(param@),
{
    let name = param.name.clone();
    match param.location {
        ParameterLocation::Query => ArgumentDecl {
            name,
            required: param.required,
            long: true,
            help: None,
        },
        ParameterLocation::Header => ArgumentDecl {
            name,
            required: param.required,
            long: true,
            help: None,
        },
        ParameterLocation::Path => ArgumentDecl {
            name,
            required: param.required,
            long: false,
            help: None,
        },
        ParameterLocation::Body => ArgumentDecl {
            name,
            required: param.required,
            long: false,
            help: Some(BODY_HELP.to_owned()),
        },
    }
}

/// The subcommand that stands for one operation.
#[derive(Debug, Clone)]
pub struct CommandDecl {
    pub name: String,
    pub arguments: Vec<ArgumentDecl>,
}

/// A subcommand as the contracts see it.
pub struct CommandView {
    pub name: Seq<char>,
    pub arguments: Seq<ArgumentView>,
}

impl View for CommandDecl {
    type V = CommandView;

    open spec fn view(&self) -> CommandView {
        CommandView {
            name: self.name@,
            arguments: self.arguments@.map_values(|a: ArgumentDecl| a@),
        }
    }
}

/// The subcommand of an operation: named as the operation, with one
/// argument for each parameter, in their order.
pub open spec fn command_of(endpoint: EndpointView) -> CommandView {
    CommandView {
        name: endpoint.name,
        arguments: endpoint.params.map_values(|p: ParameterView| argument_of(p)),
    }
}

/// Declares the subcommand that stands for `endpoint`.
pub fn command_for(endpoint: &Endpoint) -> (command: CommandDecl)
    ensures
        command@ == command_of(endpoint@),
{
    let mut arguments: Vec<ArgumentDecl> = Vec::new();
    let mut i: usize = 0;
    while i < endpoint.params.len()
        invariant
            i <= endpoint.params.len(),
            arguments@.map_values(|a: ArgumentDecl| a@) == parameter_views(
                endpoint.params@,
            ).take(i as int).map_values(|p: ParameterView| argument_of(p)),
        decreases endpoint.params.len() - i,
    {
        let argument = argument_for(&endpoint.params[i]);
        let ghost before = arguments@;
        arguments.push(argument);
        assert(arguments@.map_values(|a: ArgumentDecl| a@) == before.map_values(
            |a: ArgumentDecl| a@,
        ).push(argument@));
        i += 1;
    }
    assert(parameter_views(endpoint.params@).take(i as int) == parameter_views(endpoint.params@));
    CommandDecl { name: endpoint.name.clone(), arguments }
}

/// Declares one subcommand for each operation, in their order.
pub fn command_surface(endpoints: &Vec<Endpoint>) -> (commands: Vec<CommandDecl>)
    ensures
        commands@.map_values(|c: CommandDecl| c@) == endpoint_views(endpoints@).map_values(
            |e: EndpointView| command_of(e),
        ),
{
    let mut commands: Vec<CommandDecl> = Vec::new();
    let mut i: usize = 0;
    while i < endpoints.len()
        invariant
            i <= endpoints.len(),
            commands@.map_values(|c: CommandDecl| c@) == endpoint_views(endpoints@).take(
                i as int,
            ).map_values(|e: EndpointView| command_of(e)),
        decreases endpoints.len() - i,
    {
        let command = command_for(&endpoints[i]);
        let ghost before = commands@;
        commands.push(command);
        assert(commands@.map_values(|c: CommandDecl| c@) == before.map_values(
            |c: CommandDecl| c@,
        ).push(command@));
        i += 1;
    }
    commands
}

/// The position of the first operation at `from` or later that is named
/// `command`.
pub open spec fn first_named(endpoints: Seq<EndpointView>, command: Seq<char>, from: int) -> Option<
    int,
>
    decreases endpoints.len() - from,
{
    if from < 0 || from >= endpoints.len() {
        None
    } else if endpoints[from].name == command {
        Some(from)
    } else {
        first_named(endpoints, command, from + 1)
    }
}

/// Finds the operation that `command` invokes: the first one of that name.
pub fn find_endpoint(endpoints: &Vec<Endpoint>, command: &str) -> (found: Option<usize>)
    ensures
        match found {
            Some(k) => first_named(endpoint_views(endpoints@), command@, 0) == Some(k as int),
            None => first_named(endpoint_views(endpoints@), command@, 0) is None,
        },
        found matches Some(k) ==> k < endpoints.len(),
{
    let mut i: usize = 0;
    while i < endpoints.len()
        invariant
            i <= endpoints.len(),
            first_named(endpoint_views(endpoints@), command@, 0) == first_named(
                endpoint_views(endpoints@),
                command@,
                i as int,
            ),
        decreases endpoints.len() - i,
    {
        if same_text(endpoints[i].name.as_str(), command) {
            return Some(i);
        }
        i += 1;
    }
    None
}

/// What is to be done for one command invocation.
#[derive(Debug)]
pub enum Invocation {
    /// Send this request.
    Send(RequestDescriptor),
    /// No operation has the invoked name: show how the program is used.
    ShowUsage,
}

/// An invocation as the contracts see it.
pub enum InvocationView {
    Send(RequestView),
    ShowUsage,
}

impl View for Invocation {
    type V = InvocationView;

    open spec fn view(&self) -> InvocationView {
        match *self {
            Invocation::Send(request) => InvocationView::Send(request@),
            Invocation::ShowUsage => InvocationView::ShowUsage,
        }
    }
}

/// What a command invocation comes to: usage where no operation has the
/// invoked name, else the request that the first operation of that name
/// makes of the supplied values, or the failure of making it.
pub open spec fn invocation_of(
    endpoints: Seq<EndpointView>,
    command: Seq<char>,
    supplied: Seq<SuppliedValue>,
    base_url: Seq<char>,
    credentials: CredentialsView,
) -> Result<InvocationView, ErrorKind> {
    match first_named(endpoints, command, 0) {
        None => Ok(InvocationView::ShowUsage),
        Some(k) => match preparation(endpoints[k], supplied, base_url, credentials) {
            Ok(request) => Ok(InvocationView::Send(request)),
            Err(error) => Err(error),
        },
    }
}

/// Decides what to do for the invocation of `command` with the supplied
/// values: find the operation, bind, synthesize.
pub fn plan_invocation(
    endpoints: &Vec<Endpoint>,
    command: &str,
    supplied: &SuppliedValues,
    base_url: &str,
    credentials: &Credentials,
) -> (plan: Result<Invocation, Errors>)
    ensures
        crate::errors::outcome(plan) == invocation_of(
            endpoint_views(endpoints@),
            command@,
            supplied.values@,
            base_url@,
            credentials@,
        ),
{
    match find_endpoint(endpoints, command) {
        None => Ok(Invocation::ShowUsage),
        Some(k) => {
            match prepare_request(&endpoints[k], supplied, base_url, credentials) {
                Ok(request) => Ok(Invocation::Send(request)),
                Err(error) => Err(error),
            }
        },
    }
}

} // verus!
