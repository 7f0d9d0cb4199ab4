//! The user domain seen by the core: data-transfer values, the service
//! facade and the controller route registrations. Persistence, password
//! hashing and JSON decoding are collaborator work outside the core; the
//! controllers that need them are registered as collaborator tags and
//! called back through [`crate::routing::ControllerHook`].

use vstd::prelude::*;
use vstd::string::*;

use crate::http::{Request, Response};
use crate::routing::{
    is_plain_response, plain_response, ControllerKind, HandlerKind, Route, RouteParams,
};

verus! {

/// Collaborator tag of the paginated user listing (`GET /user`).
pub const USER_GET_ALL_TAG: u32 = 0;

/// Collaborator tag of user creation (`POST /user`).
pub const USER_CREATE_TAG: u32 = 1;

/// An incoming user payload.
pub struct UserDto {
    pub id: String,
    pub username: String,
    pub password: String,
}

impl UserDto {
    pub fn new(id: String, username: String, password: String) -> (r: Self)
        ensures
            r.id == id,
            r.username == username,
            r.password == password,
    {
        UserDto { id, username, password }
    }
}

/// An outgoing user record, without the password.
pub struct UserRet {
    pub id: String,
    pub username: String,
}

/// The user repository handle. Its queries run outside the core.
pub struct UserRepo;

impl UserRepo {
    pub fn new() -> (r: Self) {
        UserRepo
    }
}

/// The user service facade over the repository.
pub struct UserService {
    repo: UserRepo,
}

impl UserService {
    pub fn new(repo: UserRepo) -> (r: Self) {
        UserService { repo }
    }

    /// The fixed placeholder body of the unimplemented user endpoints.
    pub fn respond(&self) -> (r: String)
        ensures
            r@ == "User"@,
    {
        String::from_str("User")
    }
}

/// The user endpoints.
pub struct UserController;

/// The controller of the unimplemented single-user endpoints: a fixed
/// 200 plain-text response with the placeholder body.
pub open spec fn is_user_placeholder(h: HandlerKind) -> bool {
    &&& h matches HandlerKind::Controller(ControllerKind::Fixed(c, ct, b))
    &&& c == 200
    &&& ct@ == "text/plain"@
    &&& b@ == "User"@
}

/// The exact shape of the user route table: five routes, in registration
/// order, each ending in one controller.
pub open spec fn user_routes_wf(rs: Seq<Route>) -> bool {
    &&& rs.len() == 5
    &&& rs[0].method@ == "GET"@
    &&& rs[0].path.deep_view() == seq!["user"@]
    &&& rs[0].handlers@ == seq![
        HandlerKind::Controller(ControllerKind::Extern(USER_GET_ALL_TAG)),
    ]
    &&& rs[1].method@ == "POST"@
    &&& rs[1].path.deep_view() == seq!["user"@]
    &&& rs[1].handlers@ == seq![HandlerKind::Controller(ControllerKind::Extern(USER_CREATE_TAG))]
    &&& rs[2].method@ == "GET"@
    &&& rs[2].path.deep_view() == seq!["user"@, ":id"@]
    &&& rs[2].handlers@.len() == 1 && is_user_placeholder(rs[2].handlers@[0])
    &&& rs[3].method@ == "PUT"@
    &&& rs[3].path.deep_view() == seq!["user"@, ":id"@]
    &&& rs[3].handlers@.len() == 1 && is_user_placeholder(rs[3].handlers@[0])
    &&& rs[4].method@ == "DELETE"@
    &&& rs[4].path.deep_view() == seq!["user"@, ":id"@]
    &&& rs[4].handlers@.len() == 1 && is_user_placeholder(rs[4].handlers@[0])
}

fn path1(a: &str) -> (r: Vec<String>)
    ensures
        r.deep_view() == seq![a@],
{
    let mut r: Vec<String> = Vec::new();
    r.push(String::from_str(a));
    proof {
        assert(r.deep_view() =~= seq![a@]);
    }
    r
}

fn path2(a: &str, b: &str) -> (r: Vec<String>)
    ensures
        r.deep_view() == seq![a@, b@],
{
    let mut r: Vec<String> = Vec::new();
    r.push(String::from_str(a));
    r.push(String::from_str(b));
    proof {
        assert(r.deep_view() =~= seq![a@, b@]);
    }
    r
}

fn one_handler(h: HandlerKind) -> (r: Vec<HandlerKind>)
    ensures
        r@ == seq![h],
{
    let mut r: Vec<HandlerKind> = Vec::new();
    r.push(h);
    proof {
        assert(r@ =~= seq![h]);
    }
    r
}

impl UserController {
    /// The user endpoints in registration order. Listing and creation are
    /// collaborator controllers; the single-user endpoints answer with the
    /// fixed placeholder.
    pub fn routes() -> (r: Vec<Route>)
        ensures
            user_routes_wf(r@),
    {
        let mut r: Vec<Route> = Vec::new();
        r.push(
            Route::new(
                String::from_str("GET"),
                path1("user"),
                one_handler(HandlerKind::Controller(ControllerKind::Extern(USER_GET_ALL_TAG))),
            ),
        );
        r.push(
            Route::new(
                String::from_str("POST"),
                path1("user"),
                one_handler(HandlerKind::Controller(ControllerKind::Extern(USER_CREATE_TAG))),
            ),
        );
        r.push(
            Route::new(
                String::from_str("GET"),
                path2("user", ":id"),
                one_handler(
                    HandlerKind::Controller(
                        ControllerKind::Fixed(
                            200,
                            String::from_str("text/plain"),
                            String::from_str("User"),
                        ),
                    ),
                ),
            ),
        );
        r.push(
            Route::new(
                String::from_str("PUT"),
                path2("user", ":id"),
                one_handler(
                    HandlerKind::Controller(
                        ControllerKind::Fixed(
                            200,
                            String::from_str("text/plain"),
                            String::from_str("User"),
                        ),
                    ),
                ),
            ),
        );
        r.push(
            Route::new(
                String::from_str("DELETE"),
                path2("user", ":id"),
                one_handler(
                    HandlerKind::Controller(
                        ControllerKind::Fixed(
                            200,
                            String::from_str("text/plain"),
                            String::from_str("User"),
                        ),
                    ),
                ),
            ),
        );
        r
    }

    /// Answers a single-user read with the fixed placeholder body.
    pub fn get_one(request: &mut Request, _params: &RouteParams) -> (r: Response)
        ensures
            is_plain_response(r, 200, "User"@),
            *final(request) == *old(request),
    {
        let service = UserService::new(UserRepo::new());
        let body = service.respond();
        plain_response(200, body)
    }

    /// Answers a user update with the fixed placeholder body.
    pub fn update(request: &mut Request, _params: &RouteParams) -> (r: Response)
        ensures
            is_plain_response(r, 200, "User"@),
            *final(request) == *old(request),
    {
        let service = UserService::new(UserRepo::new());
        let body = service.respond();
        plain_response(200, body)
    }

    /// Answers a user deletion with the fixed placeholder body.
    pub fn delete(request: &mut Request, _params: &RouteParams) -> (r: Response)
        ensures
            is_plain_response(r, 200, "User"@),
            *final(request) == *old(request),
    {
        let service = UserService::new(UserRepo::new());
        let body = service.respond();
        plain_response(200, body)
    }
}

} // verus!
