//! Object-oriented patterns: animals behind a common trait, a publishing
//! workflow whose states are types, and a builder for HTTP requests.
use vstd::prelude::*;
use crate::text::{to_uppercase, uppercase};

verus! {

/// An animal that has a name and makes a sound.
pub trait Animal {
    /// The animal's name.
    spec fn name_view(&self) -> Seq<char>;

    /// The animal's sound.
    spec fn sound_view(&self) -> Seq<char>;

    fn name(&self) -> (r: &str)
        ensures
            r@ == self.name_view(),
    ;

    fn sound(&self) -> (r: &str)
        ensures
            r@ == self.sound_view(),
    ;

    /// `<name> каже <sound>`.
    fn describe(&self) -> (r: String)
        ensures
            r@ == self.name_view() + " каже "@ + self.sound_view(),
    {
        let mut s = self.name().to_owned();
        s.append(" каже ");
        s.append(self.sound());
        s
    }
}

pub struct Dog {
    pub name: String,
}

pub struct Cat {
    pub name: String,
}

pub struct Cow;

impl Animal for Dog {
    open spec fn name_view(&self) -> Seq<char> {
        self.name@
    }

    open spec fn sound_view(&self) -> Seq<char> {
        "Гав!"@
    }

    fn name(&self) -> (r: &str) {
        self.name.as_str()
    }

    fn sound(&self) -> (r: &str) {
        "Гав!"
    }
}

impl Animal for Cat {
    open spec fn name_view(&self) -> Seq<char> {
        self.name@
    }

    open spec fn sound_view(&self) -> Seq<char> {
        "Няв!"@
    }

    fn name(&self) -> (r: &str) {
        self.name.as_str()
    }

    fn sound(&self) -> (r: &str) {
        "Няв!"
    }
}

impl Animal for Cow {
    open spec fn name_view(&self) -> Seq<char> {
        "Корова"@
    }

    open spec fn sound_view(&self) -> Seq<char> {
        "Му!"@
    }

    fn name(&self) -> (r: &str) {
        "Корова"
    }

    fn sound(&self) -> (r: &str) {
        "Му!"
    }
}

/// The description of an animal whose type is known where it is called.
pub fn static_describe(animal: &impl Animal) -> (r: String)
    ensures
        r@ == animal.name_view() + " каже "@ + animal.sound_view(),
{
    animal.describe()
}

/// The description of an animal reached through a trait object.
pub fn dynamic_describe(animal: &dyn Animal) -> (r: String)
    ensures
        r@ == animal.name_view() + " каже "@ + animal.sound_view(),
{
    animal.describe()
}

/// A post being written.
pub struct Draft {
    content: String,
}

/// A post waiting for review.
pub struct PendingReview {
    content: String,
}

/// A post that readers can see.
pub struct Published {
    content: String,
}

impl Draft {
    /// The text of the post.
    pub closed spec fn text(&self) -> Seq<char> {
        self.content@
    }

    pub fn new(content: &str) -> (r: Self)
        ensures
            r.text() == content@,
    {
        Self { content: content.to_owned() }
    }

    /// Sends the draft for review, unchanged.
    pub fn request_review(self) -> (r: PendingReview)
        ensures
            r.text() == self.text(),
    {
        PendingReview { content: self.content }
    }
}

impl PendingReview {
    /// The text of the post.
    pub closed spec fn text(&self) -> Seq<char> {
        self.content@
    }

    /// Publishes the post, unchanged.
    pub fn approve(self) -> (r: Published)
        ensures
            r.text() == self.text(),
    {
        Published { content: self.content }
    }

    /// Sends the post back to its author, unchanged.
    pub fn reject(self) -> (r: Draft)
        ensures
            r.text() == self.text(),
    {
        Draft { content: self.content }
    }
}

impl Published {
    /// The text of the post.
    pub closed spec fn text(&self) -> Seq<char> {
        self.content@
    }

    /// What readers see.
    pub fn content(&self) -> (r: &str)
        ensures
            r@ == self.text(),
    {
        self.content.as_str()
    }
}

/// Whatever path a post takes through review (any number of rejections
/// before its approval), readers see exactly the text its author wrote:
/// each step keeps the text, so a chain of steps does too.
pub proof fn review_keeps_text(steps: Seq<Seq<char>>)
    requires
        steps.len() > 0,
        forall|i: int| 0 < i < steps.len() ==> #[trigger] steps[i] == steps[i - 1],
    ensures
        steps.last() == steps[0],
    decreases steps.len(),
{
    if steps.len() > 1 {
        review_keeps_text(steps.drop_last());
        assert(steps.drop_last().last() == steps[steps.len() - 2]);
    }
}

/// An HTTP request ready to send.
#[derive(Debug)]
pub struct HttpRequest {
    method: String,
    url: String,
    headers: Vec<(String, String)>,
    body: Option<String>,
    timeout_ms: u64,
}

/// A request under construction.
pub struct HttpRequestBuilder {
    method: String,
    url: String,
    headers: Vec<(String, String)>,
    body: Option<String>,
    timeout_ms: u64,
}

/// What a request (or a builder) holds, as plain values.
pub struct RequestView {
    pub method: Seq<char>,
    pub url: Seq<char>,
    pub headers: Seq<(Seq<char>, Seq<char>)>,
    pub body: Option<Seq<char>>,
    pub timeout_ms: u64,
}

/// The character sequences of a list of headers.
pub open spec fn header_views(h: Seq<(String, String)>) -> Seq<(Seq<char>, Seq<char>)> {
    h.map_values(|p: (String, String)| (p.0@, p.1@))
}

/// The character sequence of an optional text.
pub open spec fn body_view(b: Option<String>) -> Option<Seq<char>> {
    match b {
        Some(s) => Some(s@),
        None => None,
    }
}

impl View for HttpRequestBuilder {
    type V = RequestView;

    closed spec fn view(&self) -> RequestView {
        RequestView {
            method: self.method@,
            url: self.url@,
            headers: header_views(self.headers@),
            body: body_view(self.body),
            timeout_ms: self.timeout_ms,
        }
    }
}

impl View for HttpRequest {
    type V = RequestView;

    closed spec fn view(&self) -> RequestView {
        RequestView {
            method: self.method@,
            url: self.url@,
            headers: header_views(self.headers@),
            body: body_view(self.body),
            timeout_ms: self.timeout_ms,
        }
    }
}

impl HttpRequest {
    /// The method, in upper case.
    pub fn method(&self) -> (r: &str)
        ensures
            r@ == self@.method,
    {
        self.method.as_str()
    }

    /// The address.
    pub fn url(&self) -> (r: &str)
        ensures
            r@ == self@.url,
    {
        self.url.as_str()
    }

    /// The headers in the order they were added.
    pub fn headers(&self) -> (r: &Vec<(String, String)>)
        ensures
            header_views(r@) == self@.headers,
    {
        &self.headers
    }

    /// The body, if one was set.
    pub fn body(&self) -> (r: &Option<String>)
        ensures
            body_view(*r) == self@.body,
    {
        &self.body
    }

    /// The timeout in milliseconds.
    pub fn timeout_ms(&self) -> (r: u64)
        ensures
            r == self@.timeout_ms,
    {
        self.timeout_ms
    }
}

impl HttpRequestBuilder {
    /// A request with the method in upper case, no headers, no body and a
    /// timeout of 5000 ms.
    pub fn new(method: &str, url: &str) -> (r: Self)
        ensures
            r@.method == uppercase(method@),
            r@.url == url@,
            r@.headers == Seq::<(Seq<char>, Seq<char>)>::empty(),
            r@.body is None,
            r@.timeout_ms == 5000,
    {
        let r = Self {
            method: to_uppercase(method),
            url: url.to_owned(),
            headers: Vec::new(),
            body: None,
            timeout_ms: 5000,
        };
        assert(header_views(r.headers@) =~= Seq::<(Seq<char>, Seq<char>)>::empty());
        r
    }

    /// Adds a header after those already set.
    pub fn header(self, key: &str, value: &str) -> (r: Self)
        ensures
            r@.headers == self@.headers.push((key@, value@)),
            r@.method == self@.method,
            r@.url == self@.url,
            r@.body == self@.body,
            r@.timeout_ms == self@.timeout_ms,
    {
        let mut b = self;
        let ghost before = b.headers@;
        b.headers.push((key.to_owned(), value.to_owned()));
        assert(header_views(b.headers@) =~= header_views(before).push((key@, value@)));
        b
    }

    /// Sets the body, replacing any earlier one.
    pub fn body(self, body: &str) -> (r: Self)
        ensures
            r@.body == Some(body@),
            r@.method == self@.method,
            r@.url == self@.url,
            r@.headers == self@.headers,
            r@.timeout_ms == self@.timeout_ms,
    {
        let mut b = self;
        b.body = Some(body.to_owned());
        b
    }

    /// Sets the timeout.
    pub fn timeout(self, ms: u64) -> (r: Self)
        ensures
            r@.timeout_ms == ms,
            r@.method == self@.method,
            r@.url == self@.url,
            r@.headers == self@.headers,
            r@.body == self@.body,
    {
        let mut b = self;
        b.timeout_ms = ms;
        b
    }

    /// The finished request; refused when the address is empty.
    pub fn build(self) -> (r: Result<HttpRequest, String>)
        ensures
            self@.url.len() == 0 ==> (r matches Err(e) && e@ == "URL не може бути порожнім"@),
            self@.url.len() > 0 ==> (r matches Ok(req) && req@ == self@),
    {
        if self.url.as_str().is_empty() {
            return Err(String::from_str("URL не може бути порожнім"));
        }
        Ok(
            HttpRequest {
                method: self.method,
                url: self.url,
                headers: self.headers,
                body: self.body,
                timeout_ms: self.timeout_ms,
            },
        )
    }
}

} // verus!
