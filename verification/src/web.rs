//! The library's seam to the web server: mounting the tournament routes.
//!
//! A server build and a route are opaque web-server values; nothing about
//! them can be stated or proved. The route handlers themselves are built by
//! the host (their attributes cannot stand here) and handed in as values.

use vstd::prelude::*;

verus! {

/// An opaque web-server build in the course of assembly. The host wraps
/// rocket's build value here and unwraps it again to launch.
#[verifier::external_body]
pub struct ServerBuild {
    pub inner: rocket::Rocket<rocket::Build>,
}

/// An opaque set of route handlers, built by the host.
#[verifier::external_body]
pub struct RouteSet {
    pub inner: Vec<rocket::Route>,
}

/// Relies on rocket's Rocket::mount: returns the build with the routes
/// attached under the tournament base path. The base is the fixed literal
/// "/tournaments", a valid static path, so the call cannot panic.
#[verifier::external_body]
fn mount_tournament_routes(rocket_build: ServerBuild, routes: RouteSet) -> ServerBuild {
    ServerBuild { inner: rocket_build.inner.mount("/tournaments", routes.inner) }
}

/// Attach the tournament route handlers to the web-server build under
/// their base path.
pub fn mount(rocket_build: ServerBuild, routes: RouteSet) -> ServerBuild {
    mount_tournament_routes(rocket_build, routes)
}

} // verus!
