//! What the console asks of a building. Every request carries the master's key.
use crate::text::{Dup, chars_of, decimal, numeral, prefixed, string_of_range};
use vstd::prelude::*;

verus! {

/// A davet as the console sees it.
#[derive(Debug)]
pub struct Invite {
    pub id: String,
    pub room: String,
    pub name: String,
    pub kind: String,
}

/// The view of an [`Invite`].
pub struct InviteView {
    pub id: Seq<char>,
    pub room: Seq<char>,
    pub name: Seq<char>,
    pub kind: Seq<char>,
}

impl View for Invite {
    type V = InviteView;

    open spec fn view(&self) -> InviteView {
        InviteView { id: self.id@, room: self.room@, name: self.name@, kind: self.kind@ }
    }
}

impl Dup for Invite {
    fn dup(&self) -> (r: Self) {
        Invite {
            id: self.id.clone(),
            room: self.room.clone(),
            name: self.name.clone(),
            kind: self.kind.clone(),
        }
    }
}

impl Clone for Invite {
    fn clone(&self) -> (r: Self)
        ensures
            r@ == self@,
    {
        self.dup()
    }
}

/// How a request is made.
#[derive(Debug, Clone, Copy, PartialEq, Eq, Structural)]
pub enum Method {
    Get,
    Post,
    Delete,
}

/// A request to a building: the address, the key that goes with it, and whom it
/// is about, where it is about somebody.
#[derive(Debug)]
pub struct ApiRequest {
    pub method: Method,
    pub url: String,
    pub key: String,
    pub person: Option<Person>,
}

/// Who is to get a davet.
#[derive(Debug)]
pub struct Person {
    pub name: String,
    pub kind: String,
}

/// The view of an [`ApiRequest`].
pub struct ApiRequestView {
    pub method: Method,
    pub url: Seq<char>,
    pub key: Seq<char>,
    pub person: Option<(Seq<char>, Seq<char>)>,
}

impl View for ApiRequest {
    type V = ApiRequestView;

    open spec fn view(&self) -> ApiRequestView {
        ApiRequestView {
            method: self.method,
            url: self.url@,
            key: self.key@,
            person: match self.person {
                Some(p) => Some((p.name@, p.kind@)),
                None => None,
            },
        }
    }
}

/// A building that the console talks to.
pub struct Api {
    server: String,
    key: String,
}

/// A text without slashes at its end.
pub open spec fn without_slashes(s: Seq<char>) -> Seq<char>
    decreases s.len(),
{
    if s.len() > 0 && s.last() == '/' {
        without_slashes(s.drop_last())
    } else {
        s
    }
}

/// Drops the slashes at the end of a text.
pub fn trim_slashes(s: &str) -> (r: String)
    ensures
        r@ == without_slashes(s@),
{
    let v = chars_of(s);
    let mut n: usize = v.len();
    assert(v@.take(n as int) =~= v@);
    while n > 0 && v[n - 1] == '/'
        invariant
            n <= v@.len(),
            without_slashes(v@) == without_slashes(v@.take(n as int)),
        decreases n,
    {
        assert(v@.take(n as int).drop_last() =~= v@.take(n as int - 1));
        n -= 1;
    }
    assert(v@.take(n as int) =~= v@.subrange(0, n as int));
    string_of_range(&v, 0, n)
}

impl Api {
    /// The address of the building.
    pub closed spec fn at(&self) -> Seq<char> {
        self.server@
    }

    /// The key of its master.
    pub closed spec fn with_key(&self) -> Seq<char> {
        self.key@
    }

    /// A building at an address, with its key.
    pub fn new(server: String, key: String) -> (r: Self)
        ensures
            r.at() == without_slashes(server@),
            r.with_key() == key@,
    {
        Api { server: trim_slashes(server.as_str()), key }
    }

    fn ask(&self, method: Method, path: &str, person: Option<Person>) -> (r: ApiRequest)
        ensures
            r@.method == method,
            r@.url == self.at() + path@,
            r@.key == self.with_key(),
            r.person == person,
    {
        ApiRequest { method, url: prefixed(self.server.as_str(), path), key: self.key.clone(), person }
    }

    /// Asks for every room of the building.
    pub fn locas(&self) -> (r: ApiRequest)
        ensures
            r@ == (ApiRequestView {
                method: Method::Get,
                url: self.at() + "/rooms"@,
                key: self.with_key(),
                person: None,
            }),
    {
        self.ask(Method::Get, "/rooms", None)
    }

    /// Asks who holds a davet for a room.
    pub fn invites(&self, loca: &str) -> (r: ApiRequest)
        ensures
            r@ == (ApiRequestView {
                method: Method::Get,
                url: self.at() + invites_path(loca@),
                key: self.with_key(),
                person: None,
            }),
    {
        self.ask(Method::Get, path_of_invites(loca).as_str(), None)
    }

    /// Asks for a davet for somebody.
    pub fn issue(&self, loca: &str, name: &str, kind: &str) -> (r: ApiRequest)
        ensures
            r@ == (ApiRequestView {
                method: Method::Post,
                url: self.at() + invites_path(loca@),
                key: self.with_key(),
                person: Some((name@, kind@)),
            }),
    {
        self.ask(
            Method::Post,
            path_of_invites(loca).as_str(),
            Some(Person { name: name.to_owned(), kind: kind.to_owned() }),
        )
    }

    /// Asks for the end of a davet.
    pub fn revoke(&self, loca: &str, id: &str) -> (r: ApiRequest)
        ensures
            r@ == (ApiRequestView {
                method: Method::Delete,
                url: self.at() + (invites_path(loca@) + "/"@ + id@),
                key: self.with_key(),
                person: None,
            }),
    {
        let base = path_of_invites(loca);
        let dir = prefixed(base.as_str(), "/");
        let path = prefixed(dir.as_str(), id);
        self.ask(Method::Delete, path.as_str(), None)
    }
}

/// Where the davets of a room are.
pub open spec fn invites_path(loca: Seq<char>) -> Seq<char> {
    "/rooms/"@ + loca + "/invites"@
}

fn path_of_invites(loca: &str) -> (r: String)
    ensures
        r@ == invites_path(loca@),
{
    let head = prefixed("/rooms/", loca);
    prefixed(head.as_str(), "/invites")
}

/// What a refusal of the building means to the one at the console.
pub open spec fn explained(status: u16) -> Seq<char> {
    if status == 401 {
        "the master key was refused"@
    } else if status == 404 {
        "no such loca"@
    } else {
        "the building answered "@ + numeral(status as nat)
    }
}

/// What a refusal of the building means to the one at the console.
pub fn explain(status: u16) -> (r: String)
    ensures
        r@ == explained(status),
{
    if status == 401 {
        "the master key was refused".to_owned()
    } else if status == 404 {
        "no such loca".to_owned()
    } else {
        let n = decimal(status as u64);
        prefixed("the building answered ", n.as_str())
    }
}

} // verus!
