//! The extension itself: its identity, its table of methods, the request it
//! answers, and the two things it does for its host.
use vstd::hash_map::StringHashMap;
use vstd::prelude::*;
use vstd::utf8::{decode_utf8, encode_utf8, valid_utf8};

use crate::error::{fails_with, succeeds_with, FatalError};
use crate::framing::{framed_payload, read_frame};
use crate::json::{
    bool_value, encode_json, encoded_json, entry_of, field_of, insert_entry, is_null, items_of,
    json_of, json_of_optional, jsons_of, new_entries, no_entries, object_value, parse_json,
    parsed_json, text_of, text_value, unsigned_of, Json,
};
use crate::utf8::text_from_utf8;

verus! {

/// A handler as a plain function, for extensions that register several.
pub type CGIExtensionMethod = fn(Vec<String>) -> Result<String, String>;

/// The texts of a list of strings, in order.
pub open spec fn texts(strings: Seq<String>) -> Seq<Seq<char>> {
    strings.map_values(|s: String| s@)
}

/// A request as a mathematical value.
pub struct RequestView {
    pub id: Option<u32>,
    pub method: Seq<char>,
    pub parameters: Seq<Seq<char>>,
}

/// One request of the host: the method to run and its positional arguments.
/// The id is the host's own token; nothing here reads it.
#[derive(Debug)]
pub struct CGIExtensionRequest {
    pub id: Option<u32>,
    pub method: String,
    pub parameters: Vec<String>,
}

impl View for CGIExtensionRequest {
    type V = RequestView;

    open spec fn view(&self) -> RequestView {
        RequestView { id: self.id, method: self.method@, parameters: texts(self.parameters@) }
    }
}

/// The id that the entry under `id` gives a request: none where the entry is
/// absent or null, the number where it is an integer that a `u32` holds. The
/// outer `None` says that the entry does not fit.
pub open spec fn id_of(entry: Option<Json>) -> Option<Option<u32>> {
    match entry {
        None => Some(None),
        Some(Json::Null) => Some(None),
        Some(Json::Integer(n)) => if 0 <= n <= u32::MAX {
            Some(Some(n as u32))
        } else {
            None
        },
        Some(_) => None,
    }
}

/// Whether every element of an array is a string.
pub open spec fn all_texts(items: Seq<Json>) -> bool {
    forall|i: int| 0 <= i < items.len() ==> #[trigger] items[i] is Text
}

/// The strings of an array of strings, in order.
pub open spec fn texts_of(items: Seq<Json>) -> Seq<Seq<char>> {
    items.map_values(|item: Json| item->Text_0)
}

/// The request that a document holds, or `None` where the document has not
/// the shape of one. A request is an object with a string under `method`, an
/// array of strings under `parameters`, and under `id` nothing, null or an
/// integer that a `u32` holds. Other fields are not looked at.
pub open spec fn request_of(document: Json) -> Option<RequestView> {
    match (
        id_of(entry_of(document, "id"@)),
        entry_of(document, "method"@),
        entry_of(document, "parameters"@),
    ) {
        (Some(id), Some(Json::Text(method)), Some(Json::Array(items))) => if all_texts(items) {
            Some(RequestView { id, method, parameters: texts_of(items) })
        } else {
            None
        },
        _ => None,
    }
}

/// The request that a payload holds: the payload is UTF-8 text, the text is a
/// JSON document, and the document has the shape of a request.
pub open spec fn decoded_request(payload: Seq<u8>) -> Result<RequestView, FatalError> {
    if !valid_utf8(payload) {
        Err(FatalError::InvalidUtf8)
    } else {
        match parsed_json(decode_utf8(payload)) {
            Some(document) => match request_of(document) {
                Some(request) => Ok(request),
                None => Err(FatalError::InvalidRequest),
            },
            None => Err(FatalError::InvalidRequest),
        }
    }
}

/// Reads the id of a request from the entry under `id`.
fn id_from_json(entry: Option<&serde_json::Value>) -> (id: Option<Option<u32>>)
    ensures
        id == id_of(json_of_optional(entry)),
{
    match entry {
        None => Some(None),
        Some(value) => {
            if is_null(value) {
                Some(None)
            } else {
                match unsigned_of(value) {
                    Some(n) => if n <= 0xFFFF_FFFF {
                        Some(Some(n as u32))
                    } else {
                        None
                    },
                    None => None,
                }
            }
        },
    }
}

/// Reads the strings of an array of strings.
fn texts_from_json(items: &Vec<serde_json::Value>) -> (list: Option<Vec<String>>)
    ensures
        match list {
            Some(strings) => all_texts(jsons_of(items@)) && texts(strings@) == texts_of(
                jsons_of(items@),
            ),
            None => !all_texts(jsons_of(items@)),
        },
{
    let mut strings: Vec<String> = Vec::new();
    let mut at: usize = 0;
    while at < items.len()
        invariant
            at <= items.len(),
            strings@.len() == at,
            forall|i: int| 0 <= i < at ==> #[trigger] jsons_of(items@)[i] == Json::Text(strings@[i]@),
        decreases items.len() - at,
    {
        match text_of(&items[at]) {
            Some(text) => {
                strings.push(text.to_owned());
            },
            None => {
                assert(!(jsons_of(items@)[at as int] is Text));
                return None;
            },
        }
        at += 1;
    }
    assert(texts(strings@) =~= texts_of(jsons_of(items@)));
    Some(strings)
}

impl CGIExtensionRequest {
    /// Reads a request from a JSON document.
    pub fn from_json(document: &serde_json::Value) -> (request: Option<CGIExtensionRequest>)
        ensures
            match request {
                Some(r) => request_of(json_of(*document)) == Some(r@),
                None => request_of(json_of(*document)) is None,
            },
    {
        let method: String = match field_of(document, "method") {
            Some(field) => match text_of(field) {
                Some(text) => text.to_owned(),
                None => {
                    return None;
                },
            },
            None => {
                return None;
            },
        };
        let parameters: Vec<String> = match field_of(document, "parameters") {
            Some(field) => match items_of(field) {
                Some(items) => match texts_from_json(items) {
                    Some(strings) => strings,
                    None => {
                        return None;
                    },
                },
                None => {
                    return None;
                },
            },
            None => {
                return None;
            },
        };
        let id: Option<u32> = match id_from_json(field_of(document, "id")) {
            Some(id) => id,
            None => {
                return None;
            },
        };
        Some(CGIExtensionRequest { id, method, parameters })
    }

    /// Reads a request from the bytes of a payload. An empty payload holds no
    /// document and is refused like any other that is no request.
    pub fn decode(payload: Vec<u8>) -> (outcome: Result<CGIExtensionRequest, FatalError>)
        ensures
            match outcome {
                Ok(request) => succeeds_with(decoded_request(payload@), request@),
                Err(error) => fails_with(decoded_request(payload@), error),
            },
            payload@.len() == 0 ==> fails_with(outcome, FatalError::InvalidRequest),
    {
        let ghost bytes = payload@;
        let text: String = match text_from_utf8(payload) {
            Some(text) => text,
            None => {
                assert(bytes.len() != 0) by {
                    reveal_with_fuel(valid_utf8, 1);
                }
                return Err(FatalError::InvalidUtf8);
            },
        };
        assert(bytes.len() == 0 ==> text@.len() == 0) by {
            reveal_with_fuel(decode_utf8, 1);
        }
        let document: serde_json::Value = match parse_json(text.as_str()) {
            Ok(document) => document,
            Err(_) => {
                return Err(FatalError::InvalidRequest);
            },
        };
        match CGIExtensionRequest::from_json(&document) {
            Some(request) => Ok(request),
            None => Err(FatalError::InvalidRequest),
        }
    }
}

/// Whether a handler takes every list of arguments.
pub open spec fn accepts_all<H: Fn(Vec<String>) -> Result<String, String>>(handler: H) -> bool {
    forall|arguments: Vec<String>| #[trigger] call_requires(handler, (arguments,))
}

/// The text that answers a request: what the handler returned, be it its
/// success or its failure, or the fixed text for a method that is not there.
pub open spec fn reply_of(outcome: Option<Result<String, String>>) -> Seq<char> {
    match outcome {
        Some(Ok(text)) => text@,
        Some(Err(text)) => text@,
        None => "Invalid command."@,
    }
}

/// Turns the outcome of a lookup and call into the text of the response. The
/// wire does not tell a handler's success from its failure.
pub fn reply_text(outcome: Option<Result<String, String>>) -> (body: String)
    ensures
        body@ == reply_of(outcome),
        outcome matches Some(Ok(text)) ==> body == text,
        outcome matches Some(Err(text)) ==> body == text,
{
    match outcome {
        Some(Ok(text)) => text,
        Some(Err(text)) => text,
        None => "Invalid command.".to_owned(),
    }
}

/// Whether the arguments of a process ask for the identity document: whether
/// `--ext_verify` is among them.
pub open spec fn wants_verification(args: Seq<String>) -> bool {
    exists|i: int| 0 <= i < args.len() && #[trigger] args[i]@ == "--ext_verify"@
}

/// Tells from the arguments of the process which of the two modes it runs in.
pub fn is_verify_mode(args: &Vec<String>) -> (verify: bool)
    ensures
        verify == wants_verification(args@),
{
    let flag: String = "--ext_verify".to_owned();
    let mut at: usize = 0;
    while at < args.len()
        invariant
            at <= args.len(),
            flag@ == "--ext_verify"@,
            forall|i: int| 0 <= i < at ==> #[trigger] args[i]@ != "--ext_verify"@,
        decreases args.len() - at,
    {
        if args[at] == flag {
            return true;
        }
        at += 1;
    }
    false
}

/// An extension as a mathematical value.
#[verifier::reject_recursive_types(H)]
pub struct ExtensionView<H> {
    pub name: Seq<char>,
    pub alias: Seq<char>,
    pub description: Seq<char>,
    pub methods: Map<Seq<char>, H>,
}

impl<H: Fn(Vec<String>) -> Result<String, String>> ExtensionView<H> {
    /// This extension with `handler` registered under `method`.
    pub open spec fn with_method(self, method: Seq<char>, handler: H) -> ExtensionView<H> {
        ExtensionView { methods: self.methods.insert(method, handler), ..self }
    }

    /// Whether `body` answers a request for `method` with `arguments`: it is
    /// the text of what the handler under that name returns for exactly these
    /// arguments, or the fixed text where no handler is under that name.
    pub open spec fn answers(self, method: Seq<char>, arguments: Vec<String>, body: Seq<char>) -> bool {
        if self.methods.contains_key(method) {
            exists|result: Result<String, String>| #[trigger]
                call_ensures(self.methods[method], (arguments,), result) && body == reply_of(
                    Some(result),
                )
        } else {
            body == reply_of(None)
        }
    }

    /// Whether `outcome` is a way in which the identity document of this
    /// extension comes out: as the bytes that the JSON writer gives for it, or
    /// as the error where the writer fails.
    pub open spec fn verifies_as(self, outcome: Result<Vec<u8>, FatalError>) -> bool {
        let document = identity_document(self.alias, self.name, self.description);
        match outcome {
            Ok(bytes) => encoded_json(document) == Some(bytes@),
            Err(error) => error == FatalError::Serialization && encoded_json(document) is None,
        }
    }

    /// Whether `outcome` is a way in which a payload is answered: with the
    /// error of a payload that holds no request, or else with the UTF-8 bytes
    /// of a text that answers the request it holds. Nothing is put before or
    /// behind those bytes.
    pub open spec fn responds_with(self, payload: Seq<u8>, outcome: Result<Vec<u8>, FatalError>) -> bool {
        match decoded_request(payload) {
            Ok(request) => outcome matches Ok(bytes) && exists|arguments: Vec<String>, body: Seq<char>|
                texts(arguments@) == request.parameters && #[trigger] self.answers(
                    request.method,
                    arguments,
                    body,
                ) && bytes@ == encode_utf8(body),
            Err(error) => fails_with(outcome, error),
        }
    }
}

/// Of two handlers registered under one name the later one stays; the earlier
/// one leaves no trace.
pub proof fn lemma_last_registration_wins<H: Fn(Vec<String>) -> Result<String, String>>(extension: ExtensionView<H>, method: Seq<char>, earlier: H, later: H)
    ensures
        extension.with_method(method, earlier).with_method(method, later) == extension.with_method(
            method,
            later,
        ),
{
    assert(extension.methods.insert(method, earlier).insert(method, later) =~= extension.methods.insert(
        method,
        later,
    ));
}

/// What an extension announces of itself does not depend on the methods it
/// offers.
pub proof fn lemma_identity_ignores_methods<H: Fn(Vec<String>) -> Result<String, String>>(extension: ExtensionView<H>, method: Seq<char>, handler: H, outcome: Result<Vec<u8>, FatalError>)
    ensures
        extension.with_method(method, handler).verifies_as(outcome) == extension.verifies_as(outcome),
{
}

/// Once a handler is registered under a name, a request for that name is
/// answered with what this handler returns for the arguments of the request,
/// whatever was registered under the name before.
pub proof fn lemma_registered_handler_answers<H: Fn(Vec<String>) -> Result<String, String>>(extension: ExtensionView<H>, method: Seq<char>, handler: H, arguments: Vec<String>, body: Seq<char>)
    requires
        extension.with_method(method, handler).answers(method, arguments, body),
    ensures
        exists|result: Result<String, String>| #[trigger]
            call_ensures(handler, (arguments,), result) && body == reply_of(Some(result)),
{
}

/// The identity document of an extension: its alias, name and description,
/// and the marker `is_cgi`, which is always true. No method is in it.
pub open spec fn identity_document(alias: Seq<char>, name: Seq<char>, description: Seq<char>) -> Json {
    Json::Object(
        no_entries().insert("alias"@, Json::Text(alias)).insert("name"@, Json::Text(name)).insert(
            "description"@,
            Json::Text(description),
        ).insert("is_cgi"@, Json::Bool(true)),
    )
}

/// The identity document is an object of exactly four fields: the alias, the
/// name and the description as they were given, and `is_cgi` as `true`.
pub proof fn lemma_identity_document_fields(alias: Seq<char>, name: Seq<char>, description: Seq<char>)
    ensures
        identity_document(alias, name, description) matches Json::Object(fields) && {
            &&& fields.dom() =~= set!["alias"@, "name"@, "description"@, "is_cgi"@]
            &&& fields.dom().len() == 4
            &&& fields["alias"@] == Json::Text(alias)
            &&& fields["name"@] == Json::Text(name)
            &&& fields["description"@] == Json::Text(description)
            &&& fields["is_cgi"@] == Json::Bool(true)
        },
{
    reveal_strlit("alias");
    reveal_strlit("name");
    reveal_strlit("description");
    reveal_strlit("is_cgi");
    assert("alias"@.len() == 5 && "name"@.len() == 4 && "description"@.len() == 11 && "is_cgi"@.len()
        == 6);
    let keys = set!["alias"@, "name"@, "description"@, "is_cgi"@];
    assert(keys =~= Set::<Seq<char>>::empty().insert("alias"@).insert("name"@).insert(
        "description"@,
    ).insert("is_cgi"@));
}

/// An extension: who it is, and the handlers it offers by name.
#[verifier::reject_recursive_types(H)]
pub struct CGIExtension<H> {
    name: String,
    alias: String,
    description: String,
    methods: StringHashMap<H>,
}

impl<H> View for CGIExtension<H> {
    type V = ExtensionView<H>;

    closed spec fn view(&self) -> ExtensionView<H> {
        ExtensionView {
            name: self.name@,
            alias: self.alias@,
            description: self.description@,
            methods: self.methods@,
        }
    }
}

impl<H: Fn(Vec<String>) -> Result<String, String>> CGIExtension<H> {
    /// Whether this extension is well formed: every handler in its table
    /// takes every list of arguments.
    pub open spec fn wf(&self) -> bool {
        forall|method: Seq<char>|
            self@.methods.contains_key(method) ==> accepts_all(#[trigger] self@.methods[method])
    }

    /// Creates a new [`CGIExtension`] that offers no method yet.
    pub fn new(name: String, alias: String, description: String) -> (extension: Self)
        ensures
            extension@.name == name@,
            extension@.alias == alias@,
            extension@.description == description@,
            extension@.methods =~= Map::empty(),
            extension.wf(),
    {
        CGIExtension { name, alias, description, methods: StringHashMap::new() }
    }

    /// Registers `method_fn` under the name `method`. A handler registered
    /// earlier under the same name is replaced.
    pub fn export(&mut self, method: String, method_fn: H)
        requires
            old(self).wf(),
            accepts_all(method_fn),
        ensures
            final(self)@ == old(self)@.with_method(method@, method_fn),
            final(self).wf(),
    {
        self.methods.insert(method, method_fn);
        assert forall|name: Seq<char>| self@.methods.contains_key(name) implies accepts_all(
            #[trigger] self@.methods[name],
        ) by {
            if name != method@ {
                assert(accepts_all(old(self)@.methods[name]));
            }
        }
    }

    /// Builds the identity document of this extension.
    pub fn identity(&self) -> (document: serde_json::Value)
        ensures
            json_of(document) == identity_document(self@.alias, self@.name, self@.description),
    {
        let mut entries = new_entries();
        insert_entry(&mut entries, "alias".to_owned(), text_value(self.alias.clone()));
        insert_entry(&mut entries, "name".to_owned(), text_value(self.name.clone()));
        insert_entry(&mut entries, "description".to_owned(), text_value(self.description.clone()));
        insert_entry(&mut entries, "is_cgi".to_owned(), bool_value(true));
        object_value(entries)
    }

    /// Writes the identity document of this extension as JSON. A failure of
    /// the JSON writer is returned as an error.
    pub fn verify(&self) -> (outcome: Result<Vec<u8>, FatalError>)
        ensures
            self@.verifies_as(outcome),
    {
        let document = self.identity();
        match encode_json(&document) {
            Ok(bytes) => Ok(bytes),
            Err(_) => Err(FatalError::Serialization),
        }
    }

    /// Answers a request: runs the handler registered under its method on its
    /// parameters and returns what the handler returned. A request for a
    /// method that was never registered is answered with `Invalid command.`.
    pub fn dispatch(&self, request: CGIExtensionRequest) -> (body: String)
        requires
            self.wf(),
        ensures
            self@.answers(request.method@, request.parameters, body@),
            !self@.methods.contains_key(request.method@) ==> body@ == "Invalid command."@,
    {
        let outcome: Option<Result<String, String>> = match self.methods.get(
            request.method.as_str(),
        ) {
            Some(handler) => {
                assert(accepts_all(self@.methods[request.method@]));
                Some(handler(request.parameters))
            },
            None => None,
        };
        reply_text(outcome)
    }

    /// Answers the payload of one framed request with the bytes of the
    /// response.
    pub fn respond(&self, payload: Vec<u8>) -> (outcome: Result<Vec<u8>, FatalError>)
        requires
            self.wf(),
        ensures
            self@.responds_with(payload@, outcome),
            payload@.len() == 0 ==> fails_with(outcome, FatalError::InvalidRequest),
    {
        let request: CGIExtensionRequest = match CGIExtensionRequest::decode(payload) {
            Ok(request) => request,
            Err(error) => {
                return Err(error);
            },
        };
        let ghost decoded = request@;
        let ghost arguments = request.parameters;
        let body: String = self.dispatch(request);
        let bytes: Vec<u8> = body.as_str().as_bytes_vec();
        assert(texts(arguments@) == decoded.parameters);
        assert(self@.answers(decoded.method, arguments, body@));
        Ok(bytes)
    }

    /// Runs the extension once on the arguments of the process and on what its
    /// standard input holds, and returns what is to be written to its standard
    /// output. With `--ext_verify` among the arguments that is the identity
    /// document, and the input is not read; without it, the response to the
    /// one request that the input frames.
    pub fn execute(&self, args: &Vec<String>, input: &[u8]) -> (outcome: Result<Vec<u8>, FatalError>)
        requires
            self.wf(),
        ensures
            wants_verification(args@) ==> self@.verifies_as(outcome),
            !wants_verification(args@) ==> match framed_payload(input@) {
                Ok(payload) => self@.responds_with(payload, outcome),
                Err(error) => fails_with(outcome, error),
            },
            !wants_verification(args@) && succeeds_with(framed_payload(input@), Seq::empty())
                ==> fails_with(outcome, FatalError::InvalidRequest),
    {
        if is_verify_mode(args) {
            self.verify()
        } else {
            match read_frame(input) {
                Ok(payload) => self.respond(payload),
                Err(error) => Err(error),
            }
        }
    }
}

} // verus!
