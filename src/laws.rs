//! Properties that relate the parser, the router and the response builders.
use vstd::prelude::*;
use vstd::string::StringSliceAdditionalSpecFns;
use crate::request::{HttpMethod, RequestModel};
use crate::response::{
    echo_spec, file_answer, gzip_header, not_found, ok_empty, octet_head, sized_response,
    text_head,
};
use crate::router::{
    echo_prefix, files_prefix, file_path, header_value, accept_encoding_name, root_path,
    has_prefix, route_spec, user_agent_path, ActionModel, RouteError,
};

verus! {

proof fn lemma_route_literals()
    ensures
        root_path().len() == 1,
        user_agent_path().len() == 11,
        user_agent_path()[1] == 117,
        echo_prefix().len() == 6,
        echo_prefix()[1] == 101,
        files_prefix().len() == 7,
        files_prefix()[1] == 102,
{
    reveal_strlit("/");
    reveal_strlit("/user-agent");
    reveal_strlit("/echo/");
    reveal_strlit("/files/");
    assert(vstd::string::is_ascii("/user-agent"));
    assert(vstd::string::is_ascii("/echo/"));
    assert(vstd::string::is_ascii("/files/"));
    assert(vstd::string::is_ascii("/"));
}

/// The health check: whatever the method, headers and body, `/` is answered
/// with exactly `HTTP/1.1 200 OK` and a blank line.
pub proof fn lemma_root_answer(req: RequestModel, dir: Option<Seq<u8>>)
    requires
        req.path == root_path(),
    ensures
        route_spec(req, dir) == Ok::<ActionModel, RouteError>(ActionModel::Respond(ok_empty())),
{
}

/// Echo: for every payload `s`, whatever the method, `/echo/` followed by `s`
/// is answered with `200 OK`, `text/plain`, a `Content-Length` equal to the
/// byte length of `s`, and `s` itself as the body; the one header that may
/// come in addition is `Content-Encoding: gzip`.
pub proof fn lemma_echo_answer(req: RequestModel, dir: Option<Seq<u8>>, s: Seq<u8>)
    requires
        req.path == echo_prefix() + s,
    ensures
        route_spec(req, dir) == Ok::<ActionModel, RouteError>(
            ActionModel::Respond(echo_spec(s, header_value(req.headers, accept_encoding_name()))),
        ),
        echo_spec(s, header_value(req.headers, accept_encoding_name())) == sized_response(
            text_head(),
            s,
            seq![],
        ) || echo_spec(s, header_value(req.headers, accept_encoding_name())) == sized_response(
            text_head(),
            s,
            gzip_header(),
        ),
{
    lemma_route_literals();
    let p = echo_prefix() + s;
    assert(p[1] == echo_prefix()[1]);
    assert(p.take(6) =~= echo_prefix());
    assert(p.skip(6) =~= s);
}

/// Writing then reading a file: `POST /files/<name>` with body `b` writes
/// exactly `b` to `<dir>/<name>`, `GET /files/<name>` reads that same file,
/// and a file holding `b` is answered with `200 OK` and `b` as the body. A
/// request without a body writes an empty file.
pub proof fn lemma_file_round_trip(
    post: RequestModel,
    get: RequestModel,
    dir: Seq<u8>,
    name: Seq<u8>,
    b: Seq<u8>,
)
    requires
        post.method == HttpMethod::Post,
        get.method == HttpMethod::Get,
        post.path == files_prefix() + name,
        get.path == files_prefix() + name,
        post.body == Some(b) || (post.body is None && b.len() == 0),
    ensures
        route_spec(post, Some(dir)) == Ok::<ActionModel, RouteError>(
            ActionModel::WriteFile(file_path(dir, name), b),
        ),
        route_spec(get, Some(dir)) == Ok::<ActionModel, RouteError>(
            ActionModel::ReadFile(file_path(dir, name)),
        ),
        file_answer(Some(b)) == sized_response(octet_head(), b, seq![]),
{
    lemma_route_literals();
    let p = files_prefix() + name;
    assert(p[1] == files_prefix()[1]);
    assert(p.take(7) =~= files_prefix());
    assert(p.skip(7) =~= name);
    if post.body is None {
        assert(b =~= seq![]);
    }
}

/// Unknown paths: a path that is neither `/` nor `/user-agent` and begins
/// with neither `/echo/` nor `/files/` is answered with `404 Not Found`,
/// whatever the method, headers, body and configured directory.
pub proof fn lemma_unknown_path_not_found(req: RequestModel, dir: Option<Seq<u8>>)
    requires
        req.path != root_path(),
        req.path != user_agent_path(),
        !has_prefix(req.path, echo_prefix()),
        !has_prefix(req.path, files_prefix()),
    ensures
        route_spec(req, dir) == Ok::<ActionModel, RouteError>(ActionModel::Respond(not_found())),
{
}

} // verus!
