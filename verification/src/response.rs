//! Responses, the descriptors that scripts return, and how a descriptor
//! becomes a response.

use vstd::prelude::*;

verus! {

/// The status a response gets when its descriptor names none that is valid.
pub const DEFAULT_STATUS: u16 = 200;

/// The status of every response that reports a failure.
pub const FAILURE_STATUS: u16 = 500;

/// The status of a permanent redirect.
pub const REDIRECT_STATUS: u16 = 308;

/// A response, complete and in memory, ready to be handed to the transport.
#[derive(Debug, PartialEq, Eq)]
pub struct HttpResponse {
    pub status: u16,
    pub body: String,
    pub headers: Vec<(String, String)>,
}

/// What an `HttpResponse` stands for.
pub struct ResponseModel {
    pub status: u16,
    pub body: Seq<char>,
    pub headers: Seq<(Seq<char>, Seq<char>)>,
}

/// The name-value pairs that a vector of owned pairs stands for, in its order.
pub open spec fn pairs_model(pairs: Seq<(String, String)>) -> Seq<(Seq<char>, Seq<char>)> {
    Seq::new(pairs.len(), |i: int| (pairs[i].0@, pairs[i].1@))
}

impl View for HttpResponse {
    type V = ResponseModel;

    open spec fn view(&self) -> ResponseModel {
        ResponseModel {
            status: self.status,
            body: self.body@,
            headers: pairs_model(self.headers@),
        }
    }
}

/// One entry of a descriptor's header mapping. A side that is not a string is `None`.
#[derive(Debug, PartialEq, Eq)]
pub struct HeaderEntry {
    pub name: Option<String>,
    pub value: Option<String>,
}

/// What a `HeaderEntry` stands for.
pub struct HeaderEntryModel {
    pub name: Option<Seq<char>>,
    pub value: Option<Seq<char>>,
}

/// What an optional string stands for.
pub open spec fn text_model(text: Option<String>) -> Option<Seq<char>> {
    match text {
        Some(s) => Some(s@),
        None => None,
    }
}

impl View for HeaderEntry {
    type V = HeaderEntryModel;

    open spec fn view(&self) -> HeaderEntryModel {
        HeaderEntryModel { name: text_model(self.name), value: text_model(self.value) }
    }
}

/// The structured value a route module returns. A field is `None` where the
/// script left it out or gave it a value of another type.
#[derive(Debug, PartialEq, Eq)]
pub struct ResponseDescriptor {
    pub status: Option<u16>,
    pub body: Option<String>,
    pub headers: Option<Vec<HeaderEntry>>,
}

/// What a `ResponseDescriptor` stands for.
pub struct DescriptorModel {
    pub status: Option<u16>,
    pub body: Option<Seq<char>>,
    pub headers: Option<Seq<HeaderEntryModel>>,
}

/// The entries that a vector of header entries stands for, in its order.
pub open spec fn entries_model(entries: Seq<HeaderEntry>) -> Seq<HeaderEntryModel> {
    Seq::new(entries.len(), |i: int| entries[i]@)
}

impl View for ResponseDescriptor {
    type V = DescriptorModel;

    open spec fn view(&self) -> DescriptorModel {
        DescriptorModel {
            status: self.status,
            body: text_model(self.body),
            headers: match self.headers {
                Some(entries) => Some(entries_model(entries@)),
                None => None,
            },
        }
    }
}

/// The status codes that a response can carry.
pub open spec fn valid_status(status: u16) -> bool {
    100 <= status <= 999
}

/// The status of the response to a descriptor: its own where that is valid,
/// the default otherwise.
pub open spec fn status_of(status: Option<u16>) -> u16 {
    match status {
        Some(s) => if valid_status(s) { s } else { DEFAULT_STATUS },
        None => DEFAULT_STATUS,
    }
}

/// The body of the response to a descriptor: its own, or the empty string.
pub open spec fn body_of(body: Option<Seq<char>>) -> Seq<char> {
    match body {
        Some(text) => text,
        None => Seq::empty(),
    }
}

/// The header that an entry contributes: itself where both sides are strings,
/// nothing otherwise.
pub open spec fn applied_entry(entry: HeaderEntryModel) -> Seq<(Seq<char>, Seq<char>)> {
    match (entry.name, entry.value) {
        (Some(name), Some(value)) => seq![(name, value)],
        _ => Seq::empty(),
    }
}

/// The headers that a mapping contributes: its string entries, verbatim and in
/// order; the others are passed over.
pub open spec fn applied_headers(entries: Seq<HeaderEntryModel>) -> Seq<(Seq<char>, Seq<char>)>
    decreases entries.len(),
{
    if entries.len() == 0 {
        Seq::empty()
    } else {
        applied_headers(entries.drop_last()) + applied_entry(entries.last())
    }
}

/// The headers of the response to a descriptor.
pub open spec fn headers_of(headers: Option<Seq<HeaderEntryModel>>) -> Seq<(Seq<char>, Seq<char>)> {
    match headers {
        Some(entries) => applied_headers(entries),
        None => Seq::empty(),
    }
}

/// The response that a descriptor describes.
pub open spec fn translated(descriptor: DescriptorModel) -> ResponseModel {
    ResponseModel {
        status: status_of(descriptor.status),
        body: body_of(descriptor.body),
        headers: headers_of(descriptor.headers),
    }
}

/// Tells whether `status` is one that a response can carry.
pub fn is_valid_status(status: u16) -> (valid: bool)
    ensures
        valid == valid_status(status),
{
    100 <= status && status <= 999
}

/// Collects the headers that `entries` contribute.
pub fn apply_headers(entries: &Vec<HeaderEntry>) -> (headers: Vec<(String, String)>)
    ensures
        pairs_model(headers@) == applied_headers(entries_model(entries@)),
{
    let mut headers: Vec<(String, String)> = Vec::new();
    let mut i: usize = 0;
    while i < entries.len()
        invariant
            i <= entries.len(),
            pairs_model(headers@) == applied_headers(entries_model(entries@).take(i as int)),
        decreases entries.len() - i,
    {
        let ghost before = pairs_model(headers@);
        let entry = &entries[i];
        match (&entry.name, &entry.value) {
            (Some(name), Some(value)) => {
                headers.push((name.clone(), value.clone()));
            },
            _ => {},
        }
        proof {
            let model = entries_model(entries@);
            assert(model.take(i + 1).drop_last() =~= model.take(i as int));
            assert(model.take(i + 1).last() == entries[i as int]@);
            assert(pairs_model(headers@) =~= before + applied_entry(entries[i as int]@));
        }
        i += 1;
    }
    proof {
        assert(entries_model(entries@).take(i as int) =~= entries_model(entries@));
    }
    headers
}

/// Turns the descriptor that a route module returned into the response.
///
/// A missing or invalid status becomes 200, a missing body the empty string,
/// and of the header mapping the entries whose name and value are both strings
/// are applied verbatim.
pub fn translate(descriptor: ResponseDescriptor) -> (response: HttpResponse)
    ensures
        response@ == translated(descriptor@),
{
    let status = match descriptor.status {
        Some(s) => if is_valid_status(s) { s } else { DEFAULT_STATUS },
        None => DEFAULT_STATUS,
    };
    let headers = match &descriptor.headers {
        Some(entries) => apply_headers(entries),
        None => Vec::new(),
    };
    let body = match descriptor.body {
        Some(text) => text,
        None => String::new(),
    };
    proof {
        assert(pairs_model(headers@) =~= headers_of(descriptor@.headers));
    }
    HttpResponse { status, body, headers }
}

/// Whatever the descriptor, the response carries a valid status: the
/// descriptor's own where that is valid, 200 otherwise.
pub proof fn lemma_status_always_valid(descriptor: DescriptorModel)
    ensures
        valid_status(translated(descriptor).status),
        translated(descriptor).status == match descriptor.status {
            Some(status) if valid_status(status) => status,
            _ => DEFAULT_STATUS,
        },
{
}

/// A descriptor that names neither a status nor headers is answered with
/// status 200, its own body, and no header at all.
pub proof fn lemma_defaults(body: Option<Seq<char>>)
    ensures
        translated(DescriptorModel { status: None, body, headers: None }) == (ResponseModel {
            status: 200,
            body: body_of(body),
            headers: Seq::empty(),
        }),
{
}

/// Every entry of the mapping whose name and value are strings is among the
/// headers, as it stands.
pub proof fn lemma_string_entries_applied(entries: Seq<HeaderEntryModel>, i: int)
    requires
        0 <= i < entries.len(),
        entries[i].name is Some,
        entries[i].value is Some,
    ensures
        applied_headers(entries).contains((entries[i].name->0, entries[i].value->0)),
    decreases entries.len(),
{
    let front = applied_headers(entries.drop_last());
    let back = applied_entry(entries.last());
    if i == entries.len() - 1 {
        assert(back[0] == (entries[i].name->0, entries[i].value->0));
        assert((front + back)[front.len() as int] == back[0]);
    } else {
        lemma_string_entries_applied(entries.drop_last(), i);
        let k = choose|k: int|
            0 <= k < front.len() && front[k] == (entries[i].name->0, entries[i].value->0);
        assert((front + back)[k] == front[k]);
    }
}

/// Every header comes from an entry of the mapping whose name and value are
/// strings: nothing is made up, and no other entry is applied.
pub proof fn lemma_headers_from_entries(entries: Seq<HeaderEntryModel>, k: int)
    requires
        0 <= k < applied_headers(entries).len(),
    ensures
        exists|i: int|
            0 <= i < entries.len() && entries[i].name == Some(applied_headers(entries)[k].0)
                && entries[i].value == Some(applied_headers(entries)[k].1),
    decreases entries.len(),
{
    let front = applied_headers(entries.drop_last());
    if k < front.len() {
        lemma_headers_from_entries(entries.drop_last(), k);
        let i = choose|i: int|
            0 <= i < entries.drop_last().len() && entries.drop_last()[i].name == Some(front[k].0)
                && entries.drop_last()[i].value == Some(front[k].1);
        assert(entries[i] == entries.drop_last()[i]);
    } else {
        let i = entries.len() - 1;
        assert(entries[i] == entries.last());
    }
}

/// The response that sends the client on to `target` for good.
pub open spec fn redirect_model(target: Seq<char>) -> ResponseModel {
    ResponseModel {
        status: REDIRECT_STATUS,
        body: Seq::empty(),
        headers: seq![("location"@, target)],
    }
}

/// Builds the permanent redirect to `target`.
pub fn permanent_redirect(target: &str) -> (response: HttpResponse)
    ensures
        response@ == redirect_model(target@),
{
    let mut headers: Vec<(String, String)> = Vec::new();
    headers.push((String::from_str("location"), String::from_str(target)));
    proof {
        assert(pairs_model(headers@) =~= seq![("location"@, target@)]);
    }
    HttpResponse { status: REDIRECT_STATUS, body: String::new(), headers }
}

/// The content type of every response that reports a failure: plain text.
pub open spec fn plain_text() -> (Seq<char>, Seq<char>) {
    ("content-type"@, "text/plain; charset=utf-8"@)
}

/// The response that reports a failure with the text `message`: status 500,
/// the message as plain text.
pub open spec fn failure_model(message: Seq<char>) -> ResponseModel {
    ResponseModel { status: FAILURE_STATUS, body: message, headers: seq![plain_text()] }
}

/// Builds the response that reports a failure with the text `message`.
pub fn failure(message: String) -> (response: HttpResponse)
    ensures
        response@ == failure_model(message@),
{
    let mut headers: Vec<(String, String)> = Vec::new();
    headers.push((String::from_str("content-type"), String::from_str("text/plain; charset=utf-8")));
    proof {
        assert(pairs_model(headers@) =~= seq![plain_text()]);
    }
    HttpResponse { status: FAILURE_STATUS, body: message, headers }
}

/// The fields of a descriptor.
#[derive(PartialEq, Eq, Structural, Clone, Copy, Debug)]
pub enum DescriptorField {
    Status,
    Body,
    Headers,
}

/// The key under which a field stands in the table that a route module returns.
pub open spec fn field_key(field: DescriptorField) -> Seq<char> {
    match field {
        DescriptorField::Status => "status"@,
        DescriptorField::Body => "body"@,
        DescriptorField::Headers => "headers"@,
    }
}

/// The key under which `field` stands in the table that a route module returns.
pub fn key_of(field: DescriptorField) -> (key: &'static str)
    ensures
        key@ == field_key(field),
{
    match field {
        DescriptorField::Status => "status",
        DescriptorField::Body => "body",
        DescriptorField::Headers => "headers",
    }
}

} // verus!
