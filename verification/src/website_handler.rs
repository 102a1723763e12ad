//! How a site of static files answers: which file a request asks for, and
//! what is sent once the file was read or found missing. Reading the file is
//! left to the caller.
use vstd::prelude::*;
use vstd::string::*;

use crate::http::method::Method;
use crate::http::request::Request;
use crate::http::response::Response;
use crate::http::response::ResponseView;
use crate::http::status_code::StatusCode;
use crate::text;

verus! {

/// What a request asks the site for.
#[derive(Debug, Clone, Copy)]
pub enum Route<'a> {
    /// One of the site's own pages, by the name of its file. It is answered
    /// with the status `OK` whether or not the file can be read.
    Page(&'static str),
    /// The file at the path of the request. It is answered with the status
    /// `NotFound` if it cannot be read.
    File(&'a str),
    /// Nothing that the site serves.
    NotServed,
}

/// The model of a [`Route`]: each name by its bytes.
pub enum RouteView {
    Page(Seq<u8>),
    File(Seq<u8>),
    NotServed,
}

impl<'a> View for Route<'a> {
    type V = RouteView;

    open spec fn view(&self) -> RouteView {
        match self {
            Route::Page(name) => RouteView::Page(name.spec_bytes()),
            Route::File(path) => RouteView::File(path.spec_bytes()),
            Route::NotServed => RouteView::NotServed,
        }
    }
}

/// The route of a request: only `GET` is served; `/` is the page
/// `index.html`, `/hello` the page `hello.html`, and every other path names
/// a file.
pub open spec fn route_of(method: Method, path: Seq<u8>) -> RouteView {
    if method != Method::GET {
        RouteView::NotServed
    } else if path == "/".spec_bytes() {
        RouteView::Page("index.html".spec_bytes())
    } else if path == "/hello".spec_bytes() {
        RouteView::Page("hello.html".spec_bytes())
    } else {
        RouteView::File(path)
    }
}

/// The response on a route, once its file was read (`Some` with what it
/// holds) or could not be read (`None`).
pub open spec fn response_on(route: RouteView, contents: Option<Seq<char>>) -> ResponseView {
    match route {
        RouteView::Page(_) => ResponseView { status_code: StatusCode::OK, body: contents },
        RouteView::File(_) => match contents {
            Some(_) => ResponseView { status_code: StatusCode::OK, body: contents },
            None => ResponseView { status_code: StatusCode::NotFound, body: None },
        },
        RouteView::NotServed => ResponseView { status_code: StatusCode::NotFound, body: None },
    }
}

impl<'a> Route<'a> {
    /// The route of a request.
    pub fn of(request: &'a Request) -> (r: Route<'a>)
        ensures
            r@ == route_of(request@.method, request@.path),
    {
        match request.method() {
            Method::GET => {
                let path = request.path();
                if text::eq(path, "/") {
                    Route::Page("index.html")
                } else if text::eq(path, "/hello") {
                    Route::Page("hello.html")
                } else {
                    Route::File(path)
                }
            },
            _ => Route::NotServed,
        }
    }

    /// The file to read for this route, if it has one.
    pub fn file(&self) -> (r: Option<&str>)
        ensures
            match self@ {
                RouteView::Page(name) => r matches Some(s) && s.spec_bytes() == name,
                RouteView::File(path) => r matches Some(s) && s.spec_bytes() == path,
                RouteView::NotServed => r is None,
            },
    {
        match self {
            Route::Page(name) => Some(name),
            Route::File(path) => Some(path),
            Route::NotServed => None,
        }
    }

    /// The response on this route, given what reading its file gave. A route
    /// without a file is answered with `NotFound` whatever is handed in.
    pub fn respond(&self, contents: Option<String>) -> (r: Response)
        ensures
            r@ == response_on(
                self@,
                match contents {
                    Some(text) => Some(text@),
                    None => None,
                },
            ),
    {
        match self {
            Route::Page(_) => Response::new(StatusCode::OK, contents),
            Route::File(_) => match contents {
                Some(text) => Response::new(StatusCode::OK, Some(text)),
                None => Response::new(StatusCode::NotFound, None),
            },
            Route::NotServed => Response::new(StatusCode::NotFound, None),
        }
    }
}

} // verus!
