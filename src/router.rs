//! Choosing what to answer to a parsed request.
//!
//! Routing never touches the file system: for the `/files/` route it names the
//! file to read or to write, and the caller does the work and then frames the
//! answer with `get_file_response` or `post_file_response`.
use vstd::prelude::*;
use vstd::string::StringSliceAdditionalSpecFns;
use crate::bytes::{append_bytes, bytes_eq, copy_range, opt_bytes, starts_with};
use crate::request::{HttpMethod, HttpRequest, RequestModel};
use crate::response::{
    echo_response, echo_spec, not_found, not_found_response, ok_empty, root_response, text_head,
    sized_response, user_agent_response,
};

verus! {

/// The byte `/`.
pub const SLASH: u8 = 47;

/// What a request calls for, as mathematical values.
pub enum ActionModel {
    Respond(Seq<u8>),
    ReadFile(Seq<u8>),
    WriteFile(Seq<u8>, Seq<u8>),
}

/// What a request calls for.
pub enum Action {
    /// Send these bytes.
    Respond(Vec<u8>),
    /// Read the file at this path and answer with `get_file_response`.
    ReadFile(Vec<u8>),
    /// Write these bytes to the file at this path, creating or truncating it,
    /// and answer with `post_file_response`.
    WriteFile(Vec<u8>, Vec<u8>),
}

impl View for Action {
    type V = ActionModel;

    open spec fn view(&self) -> ActionModel {
        match self {
            Action::Respond(b) => ActionModel::Respond(b@),
            Action::ReadFile(p) => ActionModel::ReadFile(p@),
            Action::WriteFile(p, b) => ActionModel::WriteFile(p@, b@),
        }
    }
}

/// Why a request gets no answer at all.
#[derive(PartialEq, Eq, Structural, Clone, Copy, Debug)]
pub enum RouteError {
    /// `/user-agent` was asked for without a `User-Agent` header.
    MissingUserAgent,
    /// A `/files/` path was asked for, but no directory was configured.
    NoDirectory,
}

/// The path of the health check.
pub open spec fn root_path() -> Seq<u8> {
    "/".spec_bytes()
}

/// The path that echoes the `User-Agent` header.
pub open spec fn user_agent_path() -> Seq<u8> {
    "/user-agent".spec_bytes()
}

/// The prefix of echo paths.
pub open spec fn echo_prefix() -> Seq<u8> {
    "/echo/".spec_bytes()
}

/// The prefix of file paths.
pub open spec fn files_prefix() -> Seq<u8> {
    "/files/".spec_bytes()
}

/// The lower-cased name of the `User-Agent` header.
pub open spec fn user_agent_name() -> Seq<u8> {
    "user-agent".spec_bytes()
}

/// The lower-cased name of the `Accept-Encoding` header.
pub open spec fn accept_encoding_name() -> Seq<u8> {
    "accept-encoding".spec_bytes()
}

/// Whether `p` begins with `prefix`.
pub open spec fn has_prefix(p: Seq<u8>, prefix: Seq<u8>) -> bool {
    prefix.len() <= p.len() && p.take(prefix.len() as int) == prefix
}

/// The file that `/files/<name>` names: the directory, `/`, and the name.
pub open spec fn file_path(dir: Seq<u8>, name: Seq<u8>) -> Seq<u8> {
    dir.push(SLASH) + name
}

/// The value of header `name`, if present.
pub open spec fn header_value(hs: Map<Seq<u8>, Seq<u8>>, name: Seq<u8>) -> Option<Seq<u8>> {
    if hs.contains_key(name) {
        Some(hs[name])
    } else {
        None
    }
}

/// What the request `req` calls for, with `dir` the configured directory.
/// `/` and `/user-agent` match exactly; then `/echo/` and `/files/` match as
/// prefixes; any other path is not found. Only the files route looks at the
/// method.
pub open spec fn route_spec(req: RequestModel, dir: Option<Seq<u8>>) -> Result<
    ActionModel,
    RouteError,
> {
    let p = req.path;
    if p == root_path() {
        Ok(ActionModel::Respond(ok_empty()))
    } else if p == user_agent_path() {
        match header_value(req.headers, user_agent_name()) {
            Some(ua) => Ok(ActionModel::Respond(sized_response(text_head(), ua, seq![]))),
            None => Err(RouteError::MissingUserAgent),
        }
    } else if has_prefix(p, echo_prefix()) {
        Ok(
            ActionModel::Respond(
                echo_spec(
                    p.skip(echo_prefix().len() as int),
                    header_value(req.headers, accept_encoding_name()),
                ),
            ),
        )
    } else if has_prefix(p, files_prefix()) {
        match dir {
            None => Err(RouteError::NoDirectory),
            Some(d) => {
                let path = file_path(d, p.skip(files_prefix().len() as int));
                match req.method {
                    HttpMethod::Get => Ok(ActionModel::ReadFile(path)),
                    HttpMethod::Post => Ok(
                        ActionModel::WriteFile(
                            path,
                            match req.body {
                                Some(b) => b,
                                None => seq![],
                            },
                        ),
                    ),
                }
            },
        }
    } else {
        Ok(ActionModel::Respond(not_found()))
    }
}

/// Decides what to do with `req`; `dir` is the configured directory for the
/// `/files/` route, if any.
pub fn route(req: &HttpRequest, dir: Option<&[u8]>) -> (r: Result<Action, RouteError>)
    ensures
        match r {
            Ok(a) => route_spec(req@, opt_bytes(dir)) == Ok::<ActionModel, RouteError>(a@),
            Err(e) => route_spec(req@, opt_bytes(dir)) == Err::<ActionModel, RouteError>(e),
        },
{
    let p = req.path.as_slice();
    if bytes_eq(p, "/".as_bytes()) {
        Ok(Action::Respond(root_response()))
    } else if bytes_eq(p, "/user-agent".as_bytes()) {
        match req.header("user-agent".as_bytes()) {
            Some(ua) => Ok(Action::Respond(user_agent_response(ua.as_slice()))),
            None => Err(RouteError::MissingUserAgent),
        }
    } else if starts_with(p, "/echo/".as_bytes()) {
        let payload = copy_range(p, "/echo/".as_bytes().len(), p.len());
        assert(payload@ =~= p@.skip(echo_prefix().len() as int));
        let accept = match req.header("accept-encoding".as_bytes()) {
            Some(a) => Some(a.as_slice()),
            None => None,
        };
        Ok(Action::Respond(echo_response(payload.as_slice(), accept)))
    } else if starts_with(p, "/files/".as_bytes()) {
        match dir {
            None => Err(RouteError::NoDirectory),
            Some(d) => {
                let name = copy_range(p, "/files/".as_bytes().len(), p.len());
                assert(name@ =~= p@.skip(files_prefix().len() as int));
                let mut path: Vec<u8> = Vec::new();
                append_bytes(&mut path, d);
                path.push(SLASH);
                append_bytes(&mut path, name.as_slice());
                match req.method {
                    HttpMethod::Get => Ok(Action::ReadFile(path)),
                    HttpMethod::Post => {
                        let body = match &req.body {
                            Some(b) => copy_range(b.as_slice(), 0, b.len()),
                            None => Vec::new(),
                        };
                        proof {
                            if let Some(b) = &req.body {
                                assert(b@.subrange(0, b@.len() as int) =~= b@);
                            }
                        }
                        Ok(Action::WriteFile(path, body))
                    },
                }
            },
        }
    } else {
        Ok(Action::Respond(not_found_response()))
    }
}

} // verus!
