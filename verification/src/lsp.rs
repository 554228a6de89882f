//! The client side of a language-server session, as far as it decides: which
//! request gets which id, which document has which version, which answers
//! are waited for, and what an incoming message is.  Sending, receiving and
//! waiting are left to the caller.

use crate::chars::{chars_to_string, joined, same_text, str_chars, str_to_string};
use crate::code::matches_at;
use crate::config::option_view;
use crate::framing::{decode_message, parse, Frame, FrameError, FrameView};
use crate::text::occurrences;
use vstd::prelude::*;
use vstd::utf8::{decode_utf8, encode_utf8, valid_utf8};

verus! {

/// The seconds that a request waits for its answer.
pub const REQUEST_TIMEOUT_SECS: usize = 3;

/// The seconds that the handshake waits for its answer.
pub const INIT_TIMEOUT_SECS: usize = 5;

/// The id of the handshake request.
pub const INIT_ID: usize = 0;

/// Why a request has no result.
#[derive(Debug)]
pub enum LspError {
    /// The handshake is not over.
    NotReady,
    /// No answer came in time.
    NoResponse,
    /// The answer is not a response: no JSON, or no `jsonrpc` or `id` in it.
    BadResponse,
    /// The server answered with this error.
    Server(String),
    /// The answer holds no result.
    MissingResult,
}

/// The members of a JSON-RPC message that the client looks at.  `params`,
/// `result` and `error` are JSON texts.
#[derive(Debug)]
pub struct MessageFields {
    pub jsonrpc: Option<String>,
    pub has_id: bool,
    pub id: Option<u64>,
    pub method: Option<String>,
    pub params: Option<String>,
    pub result: Option<String>,
    pub error: Option<String>,
}

/// The members of a message, as plain values.
pub struct FieldsView {
    pub jsonrpc: Option<Seq<char>>,
    pub has_id: bool,
    pub id: Option<u64>,
    pub method: Option<Seq<char>>,
    pub params: Option<Seq<char>>,
    pub result: Option<Seq<char>>,
    pub error: Option<Seq<char>>,
}

impl View for MessageFields {
    type V = FieldsView;

    open spec fn view(&self) -> FieldsView {
        FieldsView {
            jsonrpc: option_view(self.jsonrpc),
            has_id: self.has_id,
            id: self.id,
            method: option_view(self.method),
            params: option_view(self.params),
            result: option_view(self.result),
            error: option_view(self.error),
        }
    }
}

/// One member of a JSON object, as far as the client reads it: its text
/// where it is a string, its number where it is an unsigned number, and the
/// JSON text that spells it.
#[derive(Debug)]
pub struct Member {
    pub text: Option<String>,
    pub number: Option<u64>,
    pub json: String,
}

/// A member, as plain values.
pub struct MemberView {
    pub text: Option<Seq<char>>,
    pub number: Option<u64>,
    pub json: Seq<char>,
}

impl View for Member {
    type V = MemberView;

    open spec fn view(&self) -> MemberView {
        MemberView { text: option_view(self.text), number: self.number, json: self.json@ }
    }
}

/// What was read of a member, as plain values.
pub open spec fn read_view(read: Option<Option<Member>>) -> Option<Option<MemberView>> {
    match read {
        Some(Some(m)) => Some(Some(m@)),
        Some(None) => Some(None),
        None => None,
    }
}

/// The member `name` of the value that a JSON text spells: nothing where the
/// text is not JSON, and no member where the value has none of that name.
pub uninterp spec fn json_member(body: Seq<char>, name: Seq<char>) -> Option<Option<MemberView>>;

/// `serde_json::from_str` to a `Value`, `Value::get` with the name, and of
/// the member that it finds `as_str`, `as_u64` and the value's `Display`.
/// The same text and name always give the same answer; what it is, is left
/// to the parser.
#[verifier::external_body]
fn read_member(body: &str, name: &str) -> (read: Option<Option<Member>>)
    ensures
        read_view(read) == json_member(body@, name@),
{
    let value: serde_json::Value = serde_json::from_str(body).ok()?;
    match value.get(name) {
        Some(m) => Some(
            Some(
                Member { text: m.as_str().map(String::from), number: m.as_u64(), json: m.to_string() },
            ),
        ),
        None => Some(None),
    }
}

/// The text of a member that is a string.
pub open spec fn text_of(member: Option<MemberView>) -> Option<Seq<char>> {
    match member {
        Some(m) => m.text,
        None => None,
    }
}

/// The number of a member that is an unsigned number.
pub open spec fn number_of(member: Option<MemberView>) -> Option<u64> {
    match member {
        Some(m) => m.number,
        None => None,
    }
}

/// The JSON text of a member that is there.
pub open spec fn json_of(member: Option<MemberView>) -> Option<Seq<char>> {
    match member {
        Some(m) => Some(m.json),
        None => None,
    }
}

/// The members of a message that a JSON text holds: `jsonrpc` and `method`
/// where they are strings, whether there is an `id` and its number where it
/// is one, and the JSON texts of `params`, `result` and `error`.  Nothing
/// where the text is not JSON.
pub open spec fn json_fields(body: Seq<char>) -> Option<FieldsView> {
    match (
        json_member(body, "jsonrpc"@),
        json_member(body, "id"@),
        json_member(body, "method"@),
        json_member(body, "params"@),
        json_member(body, "result"@),
        json_member(body, "error"@),
    ) {
        (Some(jsonrpc), Some(id), Some(method), Some(params), Some(result), Some(error)) => Some(
            FieldsView {
                jsonrpc: text_of(jsonrpc),
                has_id: id is Some,
                id: number_of(id),
                method: text_of(method),
                params: json_of(params),
                result: json_of(result),
                error: json_of(error),
            },
        ),
        _ => None,
    }
}

/// The text of a member that is a string.
fn member_text(member: Option<Member>) -> (text: Option<String>)
    ensures
        option_view(text) == text_of(read_view(Some(member))->0),
{
    match member {
        Some(m) => m.text,
        None => None,
    }
}

/// The JSON text of a member that is there.
fn member_json(member: Option<Member>) -> (json: Option<String>)
    ensures
        option_view(json) == json_of(read_view(Some(member))->0),
{
    match member {
        Some(m) => Some(m.json),
        None => None,
    }
}

/// Reads the members of a message from its JSON text; nothing where the text
/// is not JSON.
pub fn read_fields(body: &str) -> (fields: Option<MessageFields>)
    ensures
        (match fields {
            Some(f) => Some(f@),
            None => None,
        }) == json_fields(body@),
{
    let jsonrpc = read_member(body, "jsonrpc")?;
    let id = read_member(body, "id")?;
    let method = read_member(body, "method")?;
    let params = read_member(body, "params")?;
    let result = read_member(body, "result")?;
    let error = read_member(body, "error")?;
    let has_id = id.is_some();
    let number = match &id {
        Some(m) => m.number,
        None => None,
    };
    Some(
        MessageFields {
            jsonrpc: member_text(jsonrpc),
            has_id,
            id: number,
            method: member_text(method),
            params: member_json(params),
            result: member_json(result),
            error: member_json(error),
        },
    )
}

/// What an incoming message is.
#[derive(Debug)]
pub enum Incoming {
    /// The answer to the request `id`, with the whole message.
    Response { id: usize, body: String },
    /// Diagnostics that the server publishes, with their parameters.
    Diagnostics { params: String },
    /// Anything else.
    Other,
}

/// What an incoming message is, as plain values.
pub enum IncomingView {
    Response { id: usize, body: Seq<char> },
    Diagnostics { params: Seq<char> },
    Other,
}

impl View for Incoming {
    type V = IncomingView;

    open spec fn view(&self) -> IncomingView {
        match *self {
            Incoming::Response { id, body } => IncomingView::Response { id, body: body@ },
            Incoming::Diagnostics { params } => IncomingView::Diagnostics { params: params@ },
            Incoming::Other => IncomingView::Other,
        }
    }
}

/// The method by which a server publishes diagnostics.
pub open spec fn diagnostics_method() -> Seq<char> {
    "textDocument/publishDiagnostics"@
}

/// The JSON text of the null value.
pub open spec fn null_text() -> Seq<char> {
    "null"@
}

/// What a message with these members is: a response where it has a number as
/// its id; else diagnostics where its method says so and it has parameters;
/// else something that the client does not look at.
pub open spec fn kind_of(fields: FieldsView, body: Seq<char>) -> IncomingView {
    match fields.id {
        Some(id) => IncomingView::Response { id: id as usize, body },
        None => if fields.method == Some(diagnostics_method()) && fields.params is Some {
            IncomingView::Diagnostics { params: fields.params->0 }
        } else {
            IncomingView::Other
        },
    }
}

/// What a message with these members is.
pub fn classify(fields: &MessageFields, body: &str) -> (incoming: Incoming)
    ensures
        incoming@ == kind_of(fields@, body@),
{
    if let Some(id) = fields.id {
        return Incoming::Response {
            id: #[verifier::truncate] (id as usize),
            body: str_to_string(body),
        };
    }
    match (&fields.method, &fields.params) {
        (Some(method), Some(params)) => {
            if same_text(method.as_str(), "textDocument/publishDiagnostics") {
                Incoming::Diagnostics { params: params.clone() }
            } else {
                Incoming::Other
            }
        },
        _ => Incoming::Other,
    }
}

/// What an incoming message is; nothing where it is not JSON.
pub fn dispatch(body: &str) -> (incoming: Option<Incoming>)
    ensures
        (match incoming {
            Some(i) => Some(i@),
            None => None,
        }) == (match json_fields(body@) {
            Some(f) => Some(kind_of(f, body@)),
            None => None,
        }),
{
    match read_fields(body) {
        Some(fields) => Some(classify(&fields, body)),
        None => None,
    }
}

/// The result that a response with these members carries, as a JSON text.
/// A response has a `jsonrpc` member and an id.  One with an error that is
/// not null is the server's refusal; one without a result, or with a null
/// one, carries nothing.
pub open spec fn outcome_of(fields: FieldsView) -> Result<Seq<char>, LspErrorView> {
    if fields.jsonrpc is None || !fields.has_id {
        Err(LspErrorView::BadResponse)
    } else if fields.error is Some && fields.error->0 != null_text() {
        Err(LspErrorView::Server(fields.error->0))
    } else if fields.result is None || fields.result->0 == null_text() {
        Err(LspErrorView::MissingResult)
    } else {
        Ok(fields.result->0)
    }
}

/// Why a request has no result, as plain values.
pub enum LspErrorView {
    NotReady,
    NoResponse,
    BadResponse,
    Server(Seq<char>),
    MissingResult,
}

impl View for LspError {
    type V = LspErrorView;

    open spec fn view(&self) -> LspErrorView {
        match *self {
            LspError::NotReady => LspErrorView::NotReady,
            LspError::NoResponse => LspErrorView::NoResponse,
            LspError::BadResponse => LspErrorView::BadResponse,
            LspError::Server(e) => LspErrorView::Server(e@),
            LspError::MissingResult => LspErrorView::MissingResult,
        }
    }
}

/// The view of a result or of the reason why there is none.
pub open spec fn result_view(r: Result<String, LspError>) -> Result<Seq<char>, LspErrorView> {
    match r {
        Ok(s) => Ok(s@),
        Err(e) => Err(e@),
    }
}

/// The result that a response with these members carries.
pub fn response_result(fields: &MessageFields) -> (r: Result<String, LspError>)
    ensures
        result_view(r) == outcome_of(fields@),
{
    if fields.jsonrpc.is_none() || !fields.has_id {
        return Err(LspError::BadResponse);
    }
    if let Some(err) = &fields.error {
        if !same_text(err.as_str(), "null") {
            return Err(LspError::Server(err.clone()));
        }
    }
    match &fields.result {
        Some(result) => {
            if same_text(result.as_str(), "null") {
                Err(LspError::MissingResult)
            } else {
                Ok(result.clone())
            }
        },
        None => Err(LspError::MissingResult),
    }
}

/// The session with one server.
pub struct Lsp {
    /// The language that the server serves.
    pub lang: String,
    /// The id of the next request.
    pub next_id: usize,
    /// For each document that was changed, the version of its next change.
    pub versions: Vec<(String, usize)>,
    /// The ids of the requests whose answers are waited for.
    pub pending: Vec<usize>,
    /// The handshake is over.
    pub ready: bool,
    /// The documents that the server was told of.
    pub opened: Vec<String>,
}

/// The place of `path` among the documents, where it is among them.
pub open spec fn place_in(paths: Seq<Seq<char>>, path: Seq<char>, i: int) -> Option<int>
    decreases paths.len() - i,
{
    if i < 0 || i >= paths.len() {
        None
    } else if paths[i] == path {
        Some(i)
    } else {
        place_in(paths, path, i + 1)
    }
}

impl Lsp {
    /// The paths of the documents that the server was told of.
    pub open spec fn opened_paths(&self) -> Seq<Seq<char>> {
        self.opened@.map_values(|p: String| p@)
    }

    /// The paths of the documents that have a version.
    pub open spec fn versioned_paths(&self) -> Seq<Seq<char>> {
        self.versions@.map_values(|v: (String, usize)| v.0@)
    }

    /// The version that the next change of `path` gets: 0 for a document
    /// that was not changed yet.
    pub open spec fn version_of(&self, path: Seq<char>) -> usize {
        match place_in(self.versioned_paths(), path, 0) {
            Some(i) => self.versions@[i].1,
            None => 0,
        }
    }

    /// Whether the server was told of `path`.
    pub open spec fn is_open(&self, path: Seq<char>) -> bool {
        place_in(self.opened_paths(), path, 0) is Some
    }

    /// Whether the answer to request `id` is waited for.
    pub open spec fn waits_for(&self, id: usize) -> bool {
        self.pending@.contains(id)
    }

    /// A session that has not started: the first request gets the id 1.
    pub fn new() -> (lsp: Self)
        ensures
            lsp.lang@.len() == 0,
            lsp.next_id == 1,
            lsp.versions@.len() == 0,
            lsp.pending@.len() == 0,
            !lsp.ready,
            lsp.opened@.len() == 0,
    {
        Self {
            lang: String::new(),
            next_id: 1,
            versions: Vec::new(),
            pending: Vec::new(),
            ready: false,
            opened: Vec::new(),
        }
    }

    /// Takes note of the language that the server is started for.
    pub fn start(&mut self, lang: &str)
        ensures
            final(self).lang@ == lang@,
            final(self).next_id == old(self).next_id,
            final(self).versions == old(self).versions,
            final(self).pending == old(self).pending,
            final(self).ready == old(self).ready,
            final(self).opened == old(self).opened,
    {
        self.lang = str_to_string(lang);
    }

    /// Whether the handshake with the server is done.
    pub fn is_ready(&mut self) -> (r: bool)
        ensures
            r == old(self).ready,
            *final(self) == *old(self),
    {
        self.ready
    }

    /// The id of the next request.  Ids count up by one; behind the largest
    /// number they start again at 0.
    pub fn get_next_id(&mut self) -> (id: usize)
        ensures
            id == old(self).next_id,
            final(self).next_id == next_after(old(self).next_id),
            final(self).lang == old(self).lang,
            final(self).versions == old(self).versions,
            final(self).pending == old(self).pending,
            final(self).ready == old(self).ready,
            final(self).opened == old(self).opened,
    {
        let id = self.next_id;
        self.next_id = if id == usize::MAX {
            0
        } else {
            id + 1
        };
        id
    }

    /// Takes note that the answer to request `id` is waited for.
    pub fn add_pending(&mut self, id: usize)
        ensures
            final(self).pending@ == old(self).pending@.push(id),
            final(self).lang == old(self).lang,
            final(self).next_id == old(self).next_id,
            final(self).versions == old(self).versions,
            final(self).ready == old(self).ready,
            final(self).opened == old(self).opened,
    {
        self.pending.push(id);
    }

    /// Takes note that the answer to request `id` is waited for no more.
    pub fn remove_pending(&mut self, id: usize)
        ensures
            final(self).pending@ == old(self).pending@.filter(|other: usize| other != id),
            final(self).lang == old(self).lang,
            final(self).next_id == old(self).next_id,
            final(self).versions == old(self).versions,
            final(self).ready == old(self).ready,
            final(self).opened == old(self).opened,
    {
        let ghost before = self.pending@;
        let ghost keep = |other: usize| other != id;
        let mut kept: Vec<usize> = Vec::new();
        let mut i: usize = 0;
        assert(before.take(0).filter(keep) =~= Seq::<usize>::empty()) by {
            reveal(Seq::filter);
        }
        while i < self.pending.len()
            invariant
                i <= self.pending@.len(),
                self.pending@ == before,
                keep == (|other: usize| other != id),
                self.lang == old(self).lang,
                self.next_id == old(self).next_id,
                self.versions == old(self).versions,
                self.ready == old(self).ready,
                self.opened == old(self).opened,
                kept@ == before.take(i as int).filter(keep),
            decreases self.pending@.len() - i,
        {
            let item = self.pending[i];
            proof {
                before.lemma_take_succ_push(i as int);
                before.take(i as int).lemma_filter_push(item, keep);
            }
            if item != id {
                kept.push(item);
            }
            i += 1;
        }
        assert(before.take(i as int) =~= before);
        self.pending = kept;
    }

    /// Starts the handshake: its answer is waited for under the id 0.
    pub fn begin_init(&mut self) -> (id: usize)
        ensures
            id == INIT_ID,
            final(self).pending@ == old(self).pending@.push(INIT_ID),
            final(self).lang == old(self).lang,
            final(self).next_id == old(self).next_id,
            final(self).versions == old(self).versions,
            final(self).ready == old(self).ready,
            final(self).opened == old(self).opened,
    {
        self.add_pending(INIT_ID);
        INIT_ID
    }

    /// Ends the handshake, whether its answer came or the time ran out: from
    /// now on requests are accepted.
    pub fn finish_init(&mut self)
        ensures
            final(self).ready,
            final(self).pending@ == old(self).pending@.filter(|other: usize| other != INIT_ID),
            final(self).lang == old(self).lang,
            final(self).next_id == old(self).next_id,
            final(self).versions == old(self).versions,
            final(self).opened == old(self).opened,
    {
        self.remove_pending(INIT_ID);
        self.ready = true;
    }

    /// Starts a request: it gets the next id, and its answer is waited for.
    /// Before the handshake is over no request is started.
    pub fn begin_request(&mut self) -> (r: Result<usize, LspError>)
        ensures
            !old(self).ready ==> r is Err && r->Err_0@ == LspErrorView::NotReady,
            !old(self).ready ==> *final(self) == *old(self),
            old(self).ready ==> r == Ok::<usize, LspError>(old(self).next_id),
            old(self).ready ==> final(self).next_id == next_after(old(self).next_id),
            old(self).ready ==> final(self).pending@ == old(self).pending@.push(old(self).next_id),
            final(self).ready == old(self).ready,
            final(self).lang == old(self).lang,
            final(self).versions == old(self).versions,
            final(self).opened == old(self).opened,
    {
        if !self.ready {
            return Err(LspError::NotReady);
        }
        let id = self.get_next_id();
        self.add_pending(id);
        Ok(id)
    }

    /// Ends a request with what came for it: the whole message of the
    /// answer, or nothing where the time ran out.  The answer is waited for
    /// no more.
    pub fn finish_request(&mut self, id: usize, response: Option<&str>) -> (r: Result<
        String,
        LspError,
    >)
        ensures
            final(self).pending@ == old(self).pending@.filter(|other: usize| other != id),
            final(self).lang == old(self).lang,
            final(self).next_id == old(self).next_id,
            final(self).versions == old(self).versions,
            final(self).ready == old(self).ready,
            final(self).opened == old(self).opened,
            result_view(r) == (match response {
                None => Err(LspErrorView::NoResponse),
                Some(body) => match json_fields(body@) {
                    None => Err(LspErrorView::BadResponse),
                    Some(f) => outcome_of(f),
                },
            }),
    {
        self.remove_pending(id);
        match response {
            None => Err(LspError::NoResponse),
            Some(body) => match read_fields(body) {
                None => Err(LspError::BadResponse),
                Some(fields) => response_result(&fields),
            },
        }
    }

    /// Takes note that the server is told of the document at `path`.
    /// Returns whether it has to be told: it has not where it was told
    /// before.
    pub fn did_open(&mut self, path: &str) -> (send: bool)
        ensures
            send == !old(self).is_open(path@),
            final(self).is_open(path@),
            forall|other: Seq<char>|
                other != path@ ==> final(self).is_open(other) == old(self).is_open(other),
            final(self).lang == old(self).lang,
            final(self).next_id == old(self).next_id,
            final(self).versions == old(self).versions,
            final(self).pending == old(self).pending,
            final(self).ready == old(self).ready,
    {
        let found = find_path(&self.opened, path);
        proof {
            lemma_place_in(self.opened_paths(), path@, 0);
        }
        if found.is_some() {
            return false;
        }
        let ghost before = self.opened_paths();
        self.opened.push(str_to_string(path));
        proof {
            let after = self.opened_paths();
            assert(after =~= before.push(path@));
            assert forall|other: Seq<char>| #![auto] place_in(after, other, 0) is Some == (other
                == path@ || place_in(before, other, 0) is Some) by {
                lemma_place_in(after, other, 0);
                lemma_place_in(before, other, 0);
                if place_in(before, other, 0) is Some {
                    assert(after[place_in(before, other, 0)->0] == other);
                }
                if other == path@ {
                    assert(after[before.len() as int] == other);
                }
            }
        }
        true
    }

    /// Takes note that the document at `path` is closed.  Returns whether
    /// the server has to be told: it has not where it was never told of the
    /// document.
    pub fn did_close(&mut self, path: &str) -> (send: bool)
        ensures
            send == old(self).is_open(path@),
            final(self).lang == old(self).lang,
            final(self).next_id == old(self).next_id,
            final(self).versions == old(self).versions,
            final(self).pending == old(self).pending,
            final(self).ready == old(self).ready,
            !send ==> final(self).opened == old(self).opened,
            send ==> final(self).opened@ == old(self).opened@.remove(
                place_in(old(self).opened_paths(), path@, 0)->0,
            ),
    {
        proof {
            lemma_place_in(self.opened_paths(), path@, 0);
        }
        match find_path(&self.opened, path) {
            Some(i) => {
                self.opened.remove(i);
                true
            },
            None => false,
        }
    }

    /// The version of the next change of the document at `path`: versions
    /// count up from 0, each document by itself.
    pub fn get_next_version(&mut self, path: &str) -> (version: usize)
        ensures
            version == old(self).version_of(path@),
            final(self).version_of(path@) == next_after(version),
            forall|other: Seq<char>|
                other != path@ ==> final(self).version_of(other) == old(self).version_of(other),
            final(self).lang == old(self).lang,
            final(self).next_id == old(self).next_id,
            final(self).pending == old(self).pending,
            final(self).ready == old(self).ready,
            final(self).opened == old(self).opened,
    {
        let ghost before = self.versioned_paths();
        proof {
            lemma_place_in(before, path@, 0);
        }
        let mut i: usize = 0;
        while i < self.versions.len()
            invariant
                i <= self.versions@.len(),
                *self == *old(self),
                before == self.versioned_paths(),
                place_in(before, path@, i as int) == place_in(before, path@, 0),
            decreases self.versions@.len() - i,
        {
            if same_text(self.versions[i].0.as_str(), path) {
                let version = self.versions[i].1;
                let next = if version == usize::MAX {
                    0
                } else {
                    version + 1
                };
                let ghost old_versions = self.versions@;
                self.versions.set(i, (str_to_string(path), next));
                proof {
                    let after = self.versioned_paths();
                    assert(after =~= before);
                    lemma_place_in(before, path@, i as int);
                    assert forall|other: Seq<char>| other != path@ implies self.version_of(other)
                        == old(self).version_of(other) by {
                        lemma_place_in(before, other, 0);
                    }
                }
                return version;
            }
            i += 1;
        }
        self.versions.push((str_to_string(path), 1));
        proof {
            let after = self.versioned_paths();
            assert(after =~= before.push(path@));
            lemma_place_in(after, path@, 0);
            assert(after[before.len() as int] == path@);
            assert forall|other: Seq<char>| other != path@ implies self.version_of(other) == old(
                self,
            ).version_of(other) by {
                lemma_place_in(after, other, 0);
                lemma_place_in(before, other, 0);
                if place_in(before, other, 0) is Some {
                    assert(after[place_in(before, other, 0)->0] == other);
                }
                if place_in(after, other, 0) is Some {
                    assert(before[place_in(after, other, 0)->0] == other);
                }
            }
            assert(place_in(after, path@, 0) == Some(before.len() as int));
        }
        0
    }
}

/// The number behind `n`; 0 behind the largest.
pub open spec fn next_after(n: usize) -> usize {
    if n == usize::MAX {
        0
    } else {
        (n + 1) as usize
    }
}

/// Where `place_in` finds a path: at the first place that holds it.
pub proof fn lemma_place_in(paths: Seq<Seq<char>>, path: Seq<char>, i: int)
    requires
        0 <= i <= paths.len(),
    ensures
        match place_in(paths, path, i) {
            Some(k) => i <= k < paths.len() && paths[k] == path && forall|j: int|
                i <= j < k ==> paths[j] != path,
            None => forall|j: int| i <= j < paths.len() ==> paths[j] != path,
        },
    decreases paths.len() - i,
{
    if i < paths.len() && paths[i] != path {
        lemma_place_in(paths, path, i + 1);
    }
}

/// The first place of `path` in the list.
pub fn find_path(paths: &Vec<String>, path: &str) -> (at: Option<usize>)
    ensures
        (match at {
            Some(i) => Some(i as int),
            None => None,
        }) == place_in(paths@.map_values(|p: String| p@), path@, 0),
{
    let ghost views = paths@.map_values(|p: String| p@);
    let mut i: usize = 0;
    while i < paths.len()
        invariant
            i <= paths@.len(),
            views == paths@.map_values(|p: String| p@),
            place_in(views, path@, i as int) == place_in(views, path@, 0),
        decreases paths@.len() - i,
    {
        if same_text(paths[i].as_str(), path) {
            return Some(i);
        }
        i += 1;
    }
    None
}

/// The ids of `k` requests in a row, the first of which gets `first`.
pub open spec fn ids_from(first: usize, k: nat) -> Seq<usize>
    decreases k,
{
    if k == 0 {
        Seq::empty()
    } else {
        seq![first] + ids_from(next_after(first), (k - 1) as nat)
    }
}

/// As long as the ids have not run through all numbers, each request gets an
/// id that is larger than those of all requests before it: ids count up and
/// no two requests share one.
pub proof fn lemma_ids_increase(first: usize, k: nat)
    requires
        first + k <= usize::MAX + 1,
    ensures
        ids_from(first, k).len() == k,
        forall|i: int| 0 <= i < k ==> #[trigger] ids_from(first, k)[i] == first + i,
        forall|i: int, j: int|
            0 <= i < j < k ==> #[trigger] ids_from(first, k)[i] < #[trigger] ids_from(first, k)[j],
    decreases k,
{
    if k > 0 {
        if k > 1 {
            lemma_ids_increase(next_after(first), (k - 1) as nat);
        }
        let rest = ids_from(next_after(first), (k - 1) as nat);
        lemma_ids_len(next_after(first), (k - 1) as nat);
        assert forall|i: int| 0 <= i < k implies #[trigger] ids_from(first, k)[i] == first + i by {
            if i > 0 {
                assert(ids_from(first, k)[i] == rest[i - 1]);
            }
        }
    }
}

/// `k` requests get `k` ids.
pub proof fn lemma_ids_len(first: usize, k: nat)
    ensures
        ids_from(first, k).len() == k,
    decreases k,
{
    if k > 0 {
        lemma_ids_len(next_after(first), (k - 1) as nat);
    }
}

/// The address of the file at `path`.
pub fn uri_of(path: &str) -> (uri: String)
    ensures
        uri@ == "file://"@ + path@,
{
    joined("file://", path)
}

/// The path in an address: what stands between the first `file://` and the
/// next one, or the end.
pub open spec fn path_in(uri: Seq<char>) -> Option<Seq<char>> {
    let marks = occurrences(uri, "file://"@, 0);
    if "file://"@.len() == 0 || marks.len() == 0 {
        None
    } else {
        Some(
            uri.subrange(
                marks[0] + "file://"@.len(),
                if marks.len() > 1 {
                    marks[1]
                } else {
                    uri.len() as int
                },
            ),
        )
    }
}

/// The first place at or behind `from` at which `pattern` stands in
/// `content`.
pub fn first_occurrence(content: &Vec<char>, pattern: &Vec<char>, from: usize) -> (at: Option<
    usize,
>)
    requires
        pattern@.len() > 0,
    ensures
        match at {
            Some(i) => occurrences(content@, pattern@, from as int).len() > 0 && occurrences(
                content@,
                pattern@,
                from as int,
            )[0] == i && from <= i && i + pattern@.len() <= content@.len() && occurrences(
                content@,
                pattern@,
                from as int,
            ) == seq![i as int] + occurrences(content@, pattern@, i + pattern@.len()),
            None => occurrences(content@, pattern@, from as int).len() == 0,
        },
{
    if from > content.len() || pattern.len() > content.len() - from {
        return None;
    }
    let last = content.len() - pattern.len();
    let mut i = from;
    loop
        invariant
            from <= i <= last,
            last == content@.len() - pattern@.len(),
            pattern@.len() > 0,
            occurrences(content@, pattern@, i as int) == occurrences(
                content@,
                pattern@,
                from as int,
            ),
        decreases last - i,
    {
        if matches_at(content, pattern, i) {
            return Some(i);
        }
        if i == last {
            assert(occurrences(content@, pattern@, i + 1).len() == 0);
            return None;
        }
        i += 1;
    }
}

/// The path in an address.
pub fn path_of_uri(uri: &str) -> (path: Option<String>)
    ensures
        option_view(path) == path_in(uri@),
{
    let content = str_chars(uri);
    let mark = str_chars("file://");
    proof {
        reveal_strlit("file://");
    }
    let total = content.len();
    let start = match first_occurrence(&content, &mark, 0) {
        Some(at) => at + mark.len(),
        None => {
            return None;
        },
    };
    let end = match first_occurrence(&content, &mark, start) {
        Some(at) => at,
        None => content.len(),
    };
    let mut piece: Vec<char> = Vec::new();
    let mut i = start;
    while i < end
        invariant
            start <= i <= end <= content@.len(),
            piece@ == content@.subrange(start as int, i as int),
        decreases end - i,
    {
        piece.push(content[i]);
        i += 1;
        assert(piece@ =~= content@.subrange(start as int, i as int));
    }
    Some(chars_to_string(&piece))
}

/// `String::from_utf8`: the text that bytes spell in UTF-8; nothing where
/// they spell none.
#[verifier::external_body]
fn utf8_text(bytes: Vec<u8>) -> (text: Option<String>)
    ensures
        text is Some == valid_utf8(bytes@),
        text matches Some(t) ==> encode_utf8(t@) == bytes@,
{
    String::from_utf8(bytes).ok()
}

/// What a stream of bytes from the server starts with.
#[derive(Debug)]
pub enum Received {
    /// The start of a message: more bytes are needed.
    Incomplete,
    /// No message: the stream cannot be read any further.
    Malformed(FrameError),
    /// A message of so many bytes whose body is no text.
    NotText(usize),
    /// A message of so many bytes whose body is no JSON.
    NotJson(usize),
    /// A message of so many bytes, and what it is.  `expected` tells, for a
    /// response, that its request waits for it.
    Message { consumed: usize, incoming: Incoming, expected: bool },
}

impl Lsp {
    /// Reads one message from what the server sent.  A response is expected
    /// where the session waits for the answer to its id.
    pub fn receive(&self, stream: &[u8]) -> (received: Received)
        ensures
            match parse(stream@) {
                FrameView::Incomplete => received is Incomplete,
                FrameView::Malformed(e) => received == Received::Malformed(e),
                FrameView::Message { body, consumed } => if !valid_utf8(body) {
                    received == Received::NotText(consumed as usize)
                } else {
                    match json_fields(decode_utf8(body)) {
                        None => received == Received::NotJson(consumed as usize),
                        Some(f) => received matches Received::Message {
                            consumed: n,
                            incoming,
                            expected,
                        } && n == consumed && incoming@ == kind_of(f, decode_utf8(body))
                            && expected == (f.id is Some && self.waits_for(f.id->0 as usize)),
                    }
                },
            },
    {
        let (body, consumed) = match decode_message(stream) {
            Frame::Incomplete => {
                return Received::Incomplete;
            },
            Frame::Malformed(e) => {
                return Received::Malformed(e);
            },
            Frame::Message { body, consumed } => (body, consumed),
        };
        let ghost bytes = body@;
        let text = match utf8_text(body) {
            Some(text) => text,
            None => {
                return Received::NotText(consumed);
            },
        };
        proof {
            vstd::utf8::encode_utf8_decode_utf8(text@);
        }
        let incoming = match dispatch(text.as_str()) {
            Some(incoming) => incoming,
            None => {
                return Received::NotJson(consumed);
            },
        };
        let expected = match &incoming {
            Incoming::Response { id, .. } => self.is_pending(*id),
            _ => false,
        };
        Received::Message { consumed, incoming, expected }
    }

    /// Whether the answer to request `id` is waited for.
    pub fn is_pending(&self, id: usize) -> (r: bool)
        ensures
            r == self.waits_for(id),
    {
        let mut i: usize = 0;
        while i < self.pending.len()
            invariant
                i <= self.pending@.len(),
                forall|j: int| 0 <= j < i ==> self.pending@[j] != id,
            decreases self.pending@.len() - i,
        {
            if self.pending[i] == id {
                return true;
            }
            i += 1;
        }
        false
    }
}

} // verus!
