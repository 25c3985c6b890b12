//! The Home Assistant WebSocket protocol: the messages the bridge sends, and the
//! decisions it takes on the frames it receives.
//!
//! The WebSocket connection itself is outside work. The functions here build
//! the JSON messages, and decide, for each received frame, what the client does
//! next: during the authentication handshake ([`Handshake`]) and while waiting
//! for the result of a service call ([`on_result_frame`]).
use vstd::prelude::*;
use crate::json::{
    Json,
    JsonModel,
    NotJson,
    bool_member,
    distinct_keys,
    entries_map,
    entries_view,
    json_parse,
    json_text,
    lemma_entries_map_keys,
    lemma_entries_map_member,
    member,
    str_member,
    u64_member,
};
use crate::text::opt_text;

verus! {

/// How long the client waits for the server during the handshake, and for the
/// result of a call, before it gives up on the connection, in milliseconds.
pub const REPLY_TIMEOUT_MS: u64 = 10_000;

/// A string value.
pub open spec fn jstr(s: Seq<char>) -> JsonModel {
    JsonModel::Str(s)
}

/// The `target` of a service call: `{"entity_id": [lights...]}`.
pub open spec fn target_model(lights: Seq<Seq<char>>) -> JsonModel {
    JsonModel::Object(
        entries_map(seq![("entity_id"@, JsonModel::Array(lights.map_values(|l: Seq<char>| jstr(l))))]),
    )
}

/// The `service_data` of `light.turn_on`: `{"rgb_color": [r, g, b]}`.
pub open spec fn rgb_data_model(rgb: (u8, u8, u8)) -> JsonModel {
    JsonModel::Object(
        entries_map(
            seq![
                (
                    "rgb_color"@,
                    JsonModel::Array(
                        seq![
                            JsonModel::Int(rgb.0 as int),
                            JsonModel::Int(rgb.1 as int),
                            JsonModel::Int(rgb.2 as int),
                        ],
                    ),
                ),
            ],
        ),
    )
}

/// The entries that every `call_service` message of the `light` domain opens with.
pub open spec fn call_service_entries(id: u64, service: Seq<char>, lights: Seq<Seq<char>>) -> Seq<
    (Seq<char>, JsonModel),
> {
    seq![
        ("id"@, JsonModel::Int(id as int)),
        ("type"@, jstr("call_service"@)),
        ("domain"@, jstr("light"@)),
        ("service"@, jstr(service)),
        ("target"@, target_model(lights)),
    ]
}

/// `{"id": id, "type": "call_service", "domain": "light", "service": "turn_on",
///   "target": {"entity_id": lights}, "service_data": {"rgb_color": [r, g, b]}}`
pub open spec fn turn_on_model(id: u64, lights: Seq<Seq<char>>, rgb: (u8, u8, u8)) -> JsonModel {
    JsonModel::Object(
        entries_map(
            call_service_entries(id, "turn_on"@, lights).push(("service_data"@, rgb_data_model(rgb))),
        ),
    )
}

/// `{"id": id, "type": "call_service", "domain": "light", "service": "turn_off",
///   "target": {"entity_id": lights}}`
pub open spec fn turn_off_model(id: u64, lights: Seq<Seq<char>>) -> JsonModel {
    JsonModel::Object(entries_map(call_service_entries(id, "turn_off"@, lights)))
}

/// `{"type": "auth", "access_token": token}`
pub open spec fn auth_model(token: Seq<char>) -> JsonModel {
    JsonModel::Object(entries_map(seq![("type"@, jstr("auth"@)), ("access_token"@, jstr(token))]))
}

/// The texts of a list of strings.
pub open spec fn texts(v: Seq<String>) -> Seq<Seq<char>> {
    v.map_values(|s: String| s@)
}

fn target(lights: &[String]) -> (r: Json)
    ensures
        r@ == target_model(texts(lights@)),
{
    let mut items: Vec<Json> = Vec::new();
    let mut i: usize = 0;
    while i < lights.len()
        invariant
            i <= lights@.len(),
            items@.len() == i,
            forall|k: int| 0 <= k < i ==> #[trigger] items@[k]@ == jstr(lights@[k]@),
        decreases lights@.len() - i,
    {
        items.push(Json::string(lights[i].clone()));
        i = i + 1;
    }
    let arr = Json::array(items);
    let mut entries: Vec<(String, Json)> = Vec::new();
    entries.push((String::from_str("entity_id"), arr));
    proof {
        assert(items@.map_values(|j: Json| j@) =~= texts(lights@).map_values(|l: Seq<char>| jstr(l)));
        assert(entries_view(entries@) =~= seq![
            ("entity_id"@, JsonModel::Array(texts(lights@).map_values(|l: Seq<char>| jstr(l)))),
        ]);
    }
    Json::object(entries)
}

fn rgb_data(rgb: (u8, u8, u8)) -> (r: Json)
    ensures
        r@ == rgb_data_model(rgb),
{
    let mut items: Vec<Json> = Vec::new();
    items.push(Json::number(rgb.0 as u64));
    items.push(Json::number(rgb.1 as u64));
    items.push(Json::number(rgb.2 as u64));
    let arr = Json::array(items);
    let mut entries: Vec<(String, Json)> = Vec::new();
    entries.push((String::from_str("rgb_color"), arr));
    proof {
        assert(items@.map_values(|j: Json| j@) =~= seq![
            JsonModel::Int(rgb.0 as int),
            JsonModel::Int(rgb.1 as int),
            JsonModel::Int(rgb.2 as int),
        ]);
        assert(entries_view(entries@) =~= seq![
            (
                "rgb_color"@,
                JsonModel::Array(
                    seq![
                        JsonModel::Int(rgb.0 as int),
                        JsonModel::Int(rgb.1 as int),
                        JsonModel::Int(rgb.2 as int),
                    ],
                ),
            ),
        ]);
    }
    Json::object(entries)
}

proof fn lemma_keys_distinct()
    ensures
        "id"@ != "type"@,
        "id"@ != "domain"@,
        "id"@ != "service"@,
        "id"@ != "target"@,
        "id"@ != "service_data"@,
        "type"@ != "domain"@,
        "type"@ != "service"@,
        "type"@ != "target"@,
        "type"@ != "service_data"@,
        "domain"@ != "service"@,
        "domain"@ != "target"@,
        "domain"@ != "service_data"@,
        "service"@ != "target"@,
        "service"@ != "service_data"@,
        "target"@ != "service_data"@,
        "type"@ != "access_token"@,
{
    reveal_strlit("id");
    reveal_strlit("type");
    reveal_strlit("domain");
    reveal_strlit("service");
    reveal_strlit("target");
    reveal_strlit("service_data");
    reveal_strlit("access_token");
    assert("id"@.len() == 2 && "type"@.len() == 4 && "domain"@.len() == 6 && "service"@.len() == 7);
    assert("target"@.len() == 6 && "service_data"@.len() == 12 && "access_token"@.len() == 12);
    assert("domain"@[0] != "target"@[0]);
}

fn call_service(id: u64, service: &str, lights: &[String]) -> (r: Vec<(String, Json)>)
    ensures
        entries_view(r@) == call_service_entries(id, service@, texts(lights@)),
{
    let mut entries: Vec<(String, Json)> = Vec::new();
    entries.push((String::from_str("id"), Json::number(id)));
    entries.push((String::from_str("type"), Json::string(String::from_str("call_service"))));
    entries.push((String::from_str("domain"), Json::string(String::from_str("light"))));
    entries.push((String::from_str("service"), Json::string(String::from_str(service))));
    entries.push((String::from_str("target"), target(lights)));
    proof {
        assert(entries_view(entries@) =~= call_service_entries(id, service@, texts(lights@)));
    }
    entries
}

/// Build the HA WebSocket `call_service` JSON for `light.turn_on` with rgb_color.
pub fn build_turn_on(id: u64, lights: &[String], rgb: (u8, u8, u8)) -> (r: Json)
    ensures
        r@ == turn_on_model(id, texts(lights@), rgb),
{
    let mut entries = call_service(id, "turn_on", lights);
    entries.push((String::from_str("service_data"), rgb_data(rgb)));
    proof {
        lemma_keys_distinct();
        let e = entries_view(entries@);
        assert(e =~= call_service_entries(id, "turn_on"@, texts(lights@)).push(
            ("service_data"@, rgb_data_model(rgb)),
        ));
        assert(distinct_keys(e));
    }
    Json::object(entries)
}

/// Build the HA WebSocket `call_service` JSON for `light.turn_off`.
pub fn build_turn_off(id: u64, lights: &[String]) -> (r: Json)
    ensures
        r@ == turn_off_model(id, texts(lights@)),
{
    let entries = call_service(id, "turn_off", lights);
    proof {
        lemma_keys_distinct();
        assert(distinct_keys(entries_view(entries@)));
    }
    Json::object(entries)
}

/// Build the HA WebSocket auth message.
pub fn build_auth(token: &str) -> (r: Json)
    ensures
        r@ == auth_model(token@),
{
    let mut entries: Vec<(String, Json)> = Vec::new();
    entries.push((String::from_str("type"), Json::string(String::from_str("auth"))));
    entries.push((String::from_str("access_token"), Json::string(String::from_str(token))));
    proof {
        lemma_keys_distinct();
        let e = entries_view(entries@);
        assert(e =~= seq![("type"@, jstr("auth"@)), ("access_token"@, jstr(token@))]);
        assert(distinct_keys(e));
    }
    Json::object(entries)
}


/// Message ids: `build_turn_on` and `build_turn_off` put the given id where
/// the result of the call is matched against it.
pub proof fn lemma_message_carries_id(id: u64, lights: Seq<Seq<char>>, rgb: (u8, u8, u8))
    ensures
        u64_member(turn_on_model(id, lights, rgb), "id"@) == Some(id),
        u64_member(turn_off_model(id, lights), "id"@) == Some(id),
{
    lemma_keys_distinct();
    let e_off = call_service_entries(id, "turn_off"@, lights);
    let e_on = call_service_entries(id, "turn_on"@, lights).push(("service_data"@, rgb_data_model(rgb)));
    assert(e_off[0].0 == "id"@);
    assert(e_on[0].0 == "id"@);
    crate::json::lemma_entries_map_member(e_off, 0);
    crate::json::lemma_entries_map_member(e_on, 0);
}

/// The `turn_off` message: an object with exactly the members `id` (the given
/// id), `type` (`"call_service"`), `domain` (`"light"`), `service`
/// (`"turn_off"`) and `target`, whose only member `entity_id` lists exactly
/// the given lights, in order.
pub proof fn lemma_turn_off_message(id: u64, lights: Seq<Seq<char>>)
    ensures
        turn_off_model(id, lights) matches JsonModel::Object(o) && o.dom() == set![
            "id"@,
            "type"@,
            "domain"@,
            "service"@,
            "target"@,
        ],
        member(turn_off_model(id, lights), "id"@) == Some(JsonModel::Int(id as int)),
        member(turn_off_model(id, lights), "type"@) == Some(JsonModel::Str("call_service"@)),
        member(turn_off_model(id, lights), "domain"@) == Some(JsonModel::Str("light"@)),
        member(turn_off_model(id, lights), "service"@) == Some(JsonModel::Str("turn_off"@)),
        member(turn_off_model(id, lights), "target"@) matches Some(t) && t matches JsonModel::Object(
            to,
        ) && to.dom() == set!["entity_id"@] && member(t, "entity_id"@) == Some(
            JsonModel::Array(lights.map_values(|l: Seq<char>| JsonModel::Str(l))),
        ),
{
    lemma_keys_distinct();
    let e = call_service_entries(id, "turn_off"@, lights);
    assert(distinct_keys(e));
    lemma_entries_map_keys(e);
    lemma_entries_map_member(e, 0);
    lemma_entries_map_member(e, 1);
    lemma_entries_map_member(e, 2);
    lemma_entries_map_member(e, 3);
    lemma_entries_map_member(e, 4);
    let o = entries_map(e);
    assert(o.dom() =~= set!["id"@, "type"@, "domain"@, "service"@, "target"@]) by {
        assert(e[0].0 == "id"@ && e[1].0 == "type"@ && e[2].0 == "domain"@);
        assert(e[3].0 == "service"@ && e[4].0 == "target"@);
    }
    lemma_target_members(lights);
}

/// The `turn_on` message: the members of the `turn_off` message with
/// `service` `"turn_on"`, plus `service_data`, whose only member `rgb_color`
/// is `[r, g, b]`.
pub proof fn lemma_turn_on_message(id: u64, lights: Seq<Seq<char>>, rgb: (u8, u8, u8))
    ensures
        turn_on_model(id, lights, rgb) matches JsonModel::Object(o) && o.dom() == set![
            "id"@,
            "type"@,
            "domain"@,
            "service"@,
            "target"@,
            "service_data"@,
        ],
        member(turn_on_model(id, lights, rgb), "id"@) == Some(JsonModel::Int(id as int)),
        member(turn_on_model(id, lights, rgb), "type"@) == Some(JsonModel::Str("call_service"@)),
        member(turn_on_model(id, lights, rgb), "domain"@) == Some(JsonModel::Str("light"@)),
        member(turn_on_model(id, lights, rgb), "service"@) == Some(JsonModel::Str("turn_on"@)),
        member(turn_on_model(id, lights, rgb), "target"@) matches Some(t) && t matches JsonModel::Object(
            to,
        ) && to.dom() == set!["entity_id"@] && member(t, "entity_id"@) == Some(
            JsonModel::Array(lights.map_values(|l: Seq<char>| JsonModel::Str(l))),
        ),
        member(turn_on_model(id, lights, rgb), "service_data"@) matches Some(d) && d matches JsonModel::Object(
            dobj,
        ) && dobj.dom() == set!["rgb_color"@] && member(d, "rgb_color"@) == Some(
            JsonModel::Array(
                seq![
                    JsonModel::Int(rgb.0 as int),
                    JsonModel::Int(rgb.1 as int),
                    JsonModel::Int(rgb.2 as int),
                ],
            ),
        ),
{
    lemma_keys_distinct();
    let e = call_service_entries(id, "turn_on"@, lights).push(("service_data"@, rgb_data_model(rgb)));
    assert(distinct_keys(e));
    lemma_entries_map_keys(e);
    lemma_entries_map_member(e, 0);
    lemma_entries_map_member(e, 1);
    lemma_entries_map_member(e, 2);
    lemma_entries_map_member(e, 3);
    lemma_entries_map_member(e, 4);
    lemma_entries_map_member(e, 5);
    let o = entries_map(e);
    assert(o.dom() =~= set!["id"@, "type"@, "domain"@, "service"@, "target"@, "service_data"@]) by {
        assert(e[0].0 == "id"@ && e[1].0 == "type"@ && e[2].0 == "domain"@);
        assert(e[3].0 == "service"@ && e[4].0 == "target"@ && e[5].0 == "service_data"@);
    }
    lemma_target_members(lights);
    let d = seq![
        (
            "rgb_color"@,
            JsonModel::Array(
                seq![
                    JsonModel::Int(rgb.0 as int),
                    JsonModel::Int(rgb.1 as int),
                    JsonModel::Int(rgb.2 as int),
                ],
            ),
        ),
    ];
    lemma_entries_map_keys(d);
    lemma_entries_map_member(d, 0);
    assert(entries_map(d).dom() =~= set!["rgb_color"@]) by {
        assert(d[0].0 == "rgb_color"@);
    }
}

proof fn lemma_target_members(lights: Seq<Seq<char>>)
    ensures
        target_model(lights) matches JsonModel::Object(to) && to.dom() == set!["entity_id"@] && member(
            target_model(lights),
            "entity_id"@,
        ) == Some(JsonModel::Array(lights.map_values(|l: Seq<char>| JsonModel::Str(l)))),
{
    let t = seq![("entity_id"@, JsonModel::Array(lights.map_values(|l: Seq<char>| jstr(l))))];
    lemma_entries_map_keys(t);
    lemma_entries_map_member(t, 0);
    assert(entries_map(t).dom() =~= set!["entity_id"@]) by {
        assert(t[0].0 == "entity_id"@);
    }
    assert(lights.map_values(|l: Seq<char>| jstr(l)) =~= lights.map_values(
        |l: Seq<char>| JsonModel::Str(l),
    ));
}

/// The auth message: an object with exactly the members `type` (`"auth"`) and
/// `access_token` (the given token).
pub proof fn lemma_auth_message(token: Seq<char>)
    ensures
        auth_model(token) matches JsonModel::Object(o) && o.dom() == set!["type"@, "access_token"@],
        member(auth_model(token), "type"@) == Some(JsonModel::Str("auth"@)),
        member(auth_model(token), "access_token"@) == Some(JsonModel::Str(token)),
{
    lemma_keys_distinct();
    let e = seq![("type"@, jstr("auth"@)), ("access_token"@, jstr(token))];
    assert(distinct_keys(e));
    lemma_entries_map_keys(e);
    lemma_entries_map_member(e, 0);
    lemma_entries_map_member(e, 1);
    assert(entries_map(e).dom() =~= set!["type"@, "access_token"@]) by {
        assert(e[0].0 == "type"@ && e[1].0 == "access_token"@);
    }
}

/// The id of a message: its `u64` member `"id"`.
pub fn message_id(msg: &Json) -> (r: Option<u64>)
    ensures
        r == u64_member(msg@, "id"@),
{
    msg.get_u64("id")
}

/// The abstract state of an [`IdCounter`].
pub struct IdCounterView {
    /// The id that the next call takes.
    pub next: u64,
    /// How many ids were taken so far.
    pub taken: nat,
}

/// The next message id, `1` first; each call takes the next one
/// (`u64` arithmetic wraps around, as an atomic fetch-add does).
pub struct IdCounter {
    next: u64,
    taken: Ghost<nat>,
}

impl View for IdCounter {
    type V = IdCounterView;

    closed spec fn view(&self) -> IdCounterView {
        IdCounterView { next: self.next, taken: self.taken@ }
    }
}

/// The id that follows `n`.
pub open spec fn id_after(n: u64) -> u64 {
    if n == u64::MAX {
        0
    } else {
        (n + 1) as u64
    }
}

/// The id that the `k`-th call takes (counting from 1).
pub open spec fn nth_id(k: nat) -> u64
    decreases k,
{
    if k <= 1 {
        1
    } else {
        id_after(nth_id((k - 1) as nat))
    }
}

/// Ids increment by one: the `k`-th id taken is `k` (for every `k` that a
/// `u64` holds, so the ids of successive calls are distinct).
pub proof fn lemma_kth_id_is_k(k: nat)
    requires
        1 <= k <= u64::MAX,
    ensures
        nth_id(k) == k,
    decreases k,
{
    if k > 1 {
        lemma_kth_id_is_k((k - 1) as nat);
    }
}

impl IdCounter {
    #[verifier::type_invariant]
    closed spec fn next_follows_taken(self) -> bool {
        self.next == nth_id(self.taken@ + 1)
    }

    /// A counter whose first id is 1.
    pub fn new() -> (c: IdCounter)
        ensures
            c@.next == 1,
            c@.taken == 0,
    {
        IdCounter { next: 1, taken: Ghost(0) }
    }

    /// Take the next id: the `k`-th call takes `nth_id(k)`.
    pub fn next_id(&mut self) -> (r: u64)
        ensures
            r == old(self)@.next,
            r == nth_id(old(self)@.taken + 1),
            final(self)@.next == id_after(old(self)@.next),
            final(self)@.taken == old(self)@.taken + 1,
    {
        proof {
            use_type_invariant(&*self);
        }
        let r = self.next;
        let ghost t = self.taken@;
        *self = IdCounter { next: self.next.wrapping_add(1), taken: Ghost(t + 1) };
        r
    }
}

/// What the reply to the auth message says.
pub enum AuthResult {
    /// `auth_ok`.
    Accepted,
    /// `auth_invalid`, with the reply's `message` (empty when it has none).
    Invalid(String),
    /// Any other reply: its `type` if it is a string, and the reply's JSON text.
    Unexpected(Option<String>, String),
}

/// `r` is what the auth reply `v` says.
pub open spec fn auth_result_of(r: AuthResult, v: JsonModel) -> bool {
    let ty = str_member(v, "type"@);
    if ty == Some("auth_ok"@) {
        r is Accepted
    } else if ty == Some("auth_invalid"@) {
        r matches AuthResult::Invalid(m) && m@ == match str_member(v, "message"@) {
            Some(m) => m,
            None => Seq::<char>::empty(),
        }
    } else {
        r matches AuthResult::Unexpected(t, txt) && opt_text(t) == ty && txt@ == json_text(v)
    }
}

fn str_eq(a: &str, b: &str) -> (r: bool)
    ensures
        r == (a@ == b@),
{
    let n = a.unicode_len();
    if n != b.unicode_len() {
        return false;
    }
    let mut i: usize = 0;
    while i < n
        invariant
            n == a@.len() == b@.len(),
            i <= n,
            forall|k: int| 0 <= k < i ==> a@[k] == b@[k],
        decreases n - i,
    {
        if a.get_char(i) != b.get_char(i) {
            return false;
        }
        i = i + 1;
    }
    assert(a@ =~= b@);
    true
}

fn opt_str_is(o: &Option<String>, b: &str) -> (r: bool)
    ensures
        r == (opt_text(*o) == Some(b@)),
{
    match o {
        Some(s) => str_eq(s.as_str(), b),
        None => false,
    }
}

/// Whether `reply` is the `auth_required` greeting.
pub fn is_auth_required(reply: &Json) -> (r: bool)
    ensures
        r == (str_member(reply@, "type"@) == Some("auth_required"@)),
{
    opt_str_is(&reply.get_str("type"), "auth_required")
}

/// What the reply to the auth message says.
pub fn auth_result(reply: &Json) -> (r: AuthResult)
    ensures
        auth_result_of(r, reply@),
{
    let ty = reply.get_str("type");
    if opt_str_is(&ty, "auth_ok") {
        AuthResult::Accepted
    } else if opt_str_is(&ty, "auth_invalid") {
        match reply.get_str("message") {
            Some(m) => AuthResult::Invalid(m),
            None => AuthResult::Invalid(String::new()),
        }
    } else {
        AuthResult::Unexpected(ty, reply.text())
    }
}


/// Where the authentication handshake stands.
#[derive(Clone, Copy, Debug, PartialEq, Eq, Structural)]
pub enum HandshakePhase {
    /// Waiting for the server's `auth_required` greeting.
    AwaitingAuthRequired,
    /// The auth message was sent; waiting for `auth_ok` or `auth_invalid`.
    AwaitingAuthResult,
    /// The handshake is over (authenticated or failed).
    Finished,
}

/// Why the handshake failed.
pub enum HandshakeError {
    /// The greeting is not JSON.
    RequiredNotJson,
    /// The greeting is not `auth_required`; its JSON text.
    ExpectedAuthRequired(String),
    /// The reply to the auth message is not JSON.
    ResultNotJson,
    /// The server rejected the token; its message.
    AuthInvalid(String),
    /// The reply to the auth message is neither `auth_ok` nor `auth_invalid`:
    /// its `type` if it is a string, and its JSON text.
    UnexpectedAuthResponse(Option<String>, String),
    /// A frame arrived after the handshake was over.
    AlreadyFinished,
}

/// What `{:?}` writes for an optional text (`None`, or `Some("...")` with
/// the text escaped as `str`'s `Debug` escapes it).
pub uninterp spec fn option_debug_text(o: Option<Seq<char>>) -> Seq<char>;

/// `Debug` of `Option<String>` (through `format!`).
#[verifier::external_body]
fn debug_option(o: &Option<String>) -> (r: String)
    ensures
        r@ == option_debug_text(opt_text(*o)),
{
    format!("{:?}", o)
}

/// The message of each handshake failure.
pub open spec fn handshake_error_text(e: HandshakeError) -> Seq<char> {
    match e {
        HandshakeError::RequiredNotJson => "auth_required not JSON"@,
        HandshakeError::ExpectedAuthRequired(v) => "expected auth_required, got "@ + v@,
        HandshakeError::ResultNotJson => "auth result not JSON"@,
        HandshakeError::AuthInvalid(m) => auth_invalid_text(m@),
        HandshakeError::UnexpectedAuthResponse(t, v) => "unexpected auth response: "@
            + option_debug_text(opt_text(t)) + " \u{2014} "@ + v@,
        HandshakeError::AlreadyFinished => "auth handshake already finished"@,
    }
}

impl HandshakeError {
    /// The failure's message.
    pub fn message(&self) -> (r: String)
        ensures
            r@ == handshake_error_text(*self),
    {
        match self {
            HandshakeError::RequiredNotJson => String::from_str("auth_required not JSON"),
            HandshakeError::ExpectedAuthRequired(v) => {
                let mut r = String::from_str("expected auth_required, got ");
                r.append(v.as_str());
                r
            },
            HandshakeError::ResultNotJson => String::from_str("auth result not JSON"),
            HandshakeError::AuthInvalid(m) => auth_invalid_message(m.as_str()),
            HandshakeError::UnexpectedAuthResponse(t, v) => {
                let mut r = String::from_str("unexpected auth response: ");
                let d = debug_option(t);
                r.append(d.as_str());
                r.append(" \u{2014} ");
                r.append(v.as_str());
                r
            },
            HandshakeError::AlreadyFinished => String::from_str("auth handshake already finished"),
        }
    }

    /// The failure as an error whose message is [`HandshakeError::message`].
    pub fn into_error(self) -> (r: anyhow::Error)
        ensures
            crate::reconnect::error_text(r) == handshake_error_text(self),
    {
        crate::reconnect::error_with_message(self.message())
    }
}

/// A rejected token ends the reconnect loop: the error that an `auth_invalid`
/// reply to the auth message gives is a fatal authentication failure.
pub proof fn lemma_rejected_token_error_is_fatal(
    token: Seq<char>,
    text: Seq<char>,
    s: HandshakeStep,
    next: HandshakePhase,
)
    requires
        handshake_step(HandshakePhase::AwaitingAuthResult, token, text, s, next),
        json_parse(text) matches Some(v) && str_member(v, "type"@) == Some("auth_invalid"@),
    ensures
        s matches HandshakeStep::Failed(e) && crate::reconnect::contains_text(
            handshake_error_text(e),
            crate::reconnect::auth_invalid_marker(),
        ),
{
    lemma_auth_invalid_fails(token, text, s, next);
    if let HandshakeStep::Failed(HandshakeError::AuthInvalid(m)) = s {
        lemma_rejected_token_is_fatal(m@);
    }
}

/// What the client does next in the handshake.
pub enum HandshakeStep {
    /// Send this text frame, then wait for the next frame.
    Send(String),
    /// The connection is authenticated.
    Authenticated,
    /// The handshake failed.
    Failed(HandshakeError),
}

/// The client side of the Home Assistant authentication handshake: the server
/// greets with `auth_required`, the client answers with `auth` and its token,
/// and the server replies `auth_ok` or `auth_invalid`.
pub struct Handshake {
    token: String,
    phase: HandshakePhase,
}

/// The abstract state of a [`Handshake`].
pub struct HandshakeView {
    pub token: Seq<char>,
    pub phase: HandshakePhase,
}

impl View for Handshake {
    type V = HandshakeView;

    closed spec fn view(&self) -> HandshakeView {
        HandshakeView { token: self.token@, phase: self.phase }
    }
}

/// The step that an auth reply gives: authenticated on `auth_ok`, failure otherwise.
pub open spec fn auth_step_of(s: HandshakeStep, v: JsonModel) -> bool {
    let ty = str_member(v, "type"@);
    if ty == Some("auth_ok"@) {
        s is Authenticated
    } else if ty == Some("auth_invalid"@) {
        s matches HandshakeStep::Failed(HandshakeError::AuthInvalid(m)) && m@ == match str_member(
            v,
            "message"@,
        ) {
            Some(m) => m,
            None => Seq::<char>::empty(),
        }
    } else {
        s matches HandshakeStep::Failed(HandshakeError::UnexpectedAuthResponse(t, txt)) && opt_text(t)
            == ty && txt@ == json_text(v)
    }
}

/// One step of the handshake: in phase `phase`, with `token`, the text frame
/// `text` gives the step `s` and moves to phase `next`.
///
/// Awaiting the greeting, an `auth_required` greeting is answered with the
/// auth message and the handshake awaits the result; any other greeting fails.
/// Awaiting the result, `auth_ok` authenticates, `auth_invalid` and anything
/// else fail. Text that is not JSON fails in either phase. After the result,
/// every frame fails.
pub open spec fn handshake_step(
    phase: HandshakePhase,
    token: Seq<char>,
    text: Seq<char>,
    s: HandshakeStep,
    next: HandshakePhase,
) -> bool {
    match phase {
        HandshakePhase::AwaitingAuthRequired => match json_parse(text) {
            None => s matches HandshakeStep::Failed(HandshakeError::RequiredNotJson) && next
                == HandshakePhase::Finished,
            Some(v) => if str_member(v, "type"@) == Some("auth_required"@) {
                s matches HandshakeStep::Send(t) && t@ == json_text(auth_model(token)) && next
                    == HandshakePhase::AwaitingAuthResult
            } else {
                s matches HandshakeStep::Failed(HandshakeError::ExpectedAuthRequired(t)) && t@
                    == json_text(v) && next == HandshakePhase::Finished
            },
        },
        HandshakePhase::AwaitingAuthResult => next == HandshakePhase::Finished && match json_parse(
            text,
        ) {
            None => s matches HandshakeStep::Failed(HandshakeError::ResultNotJson),
            Some(v) => auth_step_of(s, v),
        },
        HandshakePhase::Finished => s matches HandshakeStep::Failed(HandshakeError::AlreadyFinished)
            && next == HandshakePhase::Finished,
    }
}

impl Handshake {
    /// A handshake that will authenticate with `token`.
    pub fn new(token: &str) -> (h: Handshake)
        ensures
            h@.token == token@,
            h@.phase == HandshakePhase::AwaitingAuthRequired,
    {
        Handshake { token: String::from_str(token), phase: HandshakePhase::AwaitingAuthRequired }
    }

    /// Where the handshake stands.
    pub fn phase(&self) -> (r: HandshakePhase)
        ensures
            r == self@.phase,
    {
        self.phase
    }

    /// A text frame arrived: decide the next step (see [`handshake_step`]).
    pub fn on_text(&mut self, text: &str) -> (s: HandshakeStep)
        ensures
            final(self)@.token == old(self)@.token,
            handshake_step(old(self)@.phase, old(self)@.token, text@, s, final(self)@.phase),
    {
        match self.phase {
            HandshakePhase::AwaitingAuthRequired => {
                match Json::parse(text) {
                    Err(_) => {
                        self.phase = HandshakePhase::Finished;
                        HandshakeStep::Failed(HandshakeError::RequiredNotJson)
                    },
                    Ok(v) => {
                        if is_auth_required(&v) {
                            self.phase = HandshakePhase::AwaitingAuthResult;
                            HandshakeStep::Send(build_auth(self.token.as_str()).text())
                        } else {
                            self.phase = HandshakePhase::Finished;
                            HandshakeStep::Failed(HandshakeError::ExpectedAuthRequired(v.text()))
                        }
                    },
                }
            },
            HandshakePhase::AwaitingAuthResult => {
                self.phase = HandshakePhase::Finished;
                match Json::parse(text) {
                    Err(_) => HandshakeStep::Failed(HandshakeError::ResultNotJson),
                    Ok(v) => match auth_result(&v) {
                        AuthResult::Accepted => HandshakeStep::Authenticated,
                        AuthResult::Invalid(m) => HandshakeStep::Failed(HandshakeError::AuthInvalid(m)),
                        AuthResult::Unexpected(t, txt) => HandshakeStep::Failed(
                            HandshakeError::UnexpectedAuthResponse(t, txt),
                        ),
                    },
                }
            },
            HandshakePhase::Finished => HandshakeStep::Failed(HandshakeError::AlreadyFinished),
        }
    }
}

/// The message of an [`HandshakeError::AuthInvalid`] failure with the server's
/// message `m`: `auth_invalid: m`.
pub open spec fn auth_invalid_text(m: Seq<char>) -> Seq<char> {
    "auth_invalid: "@ + m
}

/// The error message for a rejected token with the server's message `m`.
pub fn auth_invalid_message(m: &str) -> (r: String)
    ensures
        r@ == auth_invalid_text(m@),
{
    let mut r = String::from_str("auth_invalid: ");
    r.append(m);
    r
}

/// A rejected token is fatal: the message of an `auth_invalid` failure always
/// reads as a fatal authentication failure to the reconnect loop.
pub proof fn lemma_rejected_token_is_fatal(m: Seq<char>)
    ensures
        crate::reconnect::contains_text(auth_invalid_text(m), crate::reconnect::auth_invalid_marker()),
{
    reveal_strlit("auth_invalid: ");
    reveal_strlit("auth_invalid");
    let t = auth_invalid_text(m);
    let p = crate::reconnect::auth_invalid_marker();
    assert(p.len() == 12);
    assert(t.subrange(0, 0 + p.len() as int) =~= p);
}

/// The handshake authenticates only as its second step, and only after the
/// first step answered an `auth_required` greeting with the auth message
/// carrying the token, and the second frame is an `auth_ok` reply. In
/// particular no frame authenticates once the handshake is over.
pub proof fn lemma_authenticated_only_after_token(
    token: Seq<char>,
    phase: HandshakePhase,
    t1: Seq<char>,
    s1: HandshakeStep,
    p1: HandshakePhase,
    t2: Seq<char>,
    s2: HandshakeStep,
    p2: HandshakePhase,
)
    requires
        handshake_step(phase, token, t1, s1, p1),
        handshake_step(p1, token, t2, s2, p2),
        s2 is Authenticated,
    ensures
        phase == HandshakePhase::AwaitingAuthRequired,
        json_parse(t1) matches Some(v1) && str_member(v1, "type"@) == Some("auth_required"@),
        s1 matches HandshakeStep::Send(a) && a@ == json_text(auth_model(token)),
        json_parse(t2) matches Some(v2) && str_member(v2, "type"@) == Some("auth_ok"@),
        p2 == HandshakePhase::Finished,
{
    reveal_strlit("auth_ok");
    reveal_strlit("auth_invalid");
    assert("auth_ok"@ != "auth_invalid"@) by {
        assert("auth_ok"@.len() != "auth_invalid"@.len());
    }
}

/// A rejected token ends the handshake: an `auth_invalid` reply to the auth
/// message fails with the server's message and the handshake is over.
pub proof fn lemma_auth_invalid_fails(token: Seq<char>, text: Seq<char>, s: HandshakeStep, next: HandshakePhase)
    requires
        handshake_step(HandshakePhase::AwaitingAuthResult, token, text, s, next),
        json_parse(text) matches Some(v) && str_member(v, "type"@) == Some("auth_invalid"@),
    ensures
        s matches HandshakeStep::Failed(HandshakeError::AuthInvalid(_)),
        next == HandshakePhase::Finished,
{
    reveal_strlit("auth_ok");
    reveal_strlit("auth_invalid");
    assert("auth_ok"@ != "auth_invalid"@) by {
        assert("auth_ok"@.len() != "auth_invalid"@.len());
    }
}

/// A WebSocket frame, as the client sees it.
pub enum Frame {
    Text(String),
    Binary,
    Ping,
    Pong,
    Close,
    Raw,
}

/// Why waiting for a result failed.
#[derive(Clone, Copy, Debug, PartialEq, Eq, Structural)]
pub enum WaitError {
    /// The server sent a close frame.
    Closed,
    /// A text frame is not JSON.
    NotJson,
}

/// The message of each way waiting can fail.
pub open spec fn wait_error_text(e: WaitError) -> Seq<char> {
    match e {
        WaitError::Closed => "WS closed (close frame)"@,
        WaitError::NotJson => "result not JSON"@,
    }
}

impl WaitError {
    /// The failure's message.
    pub fn message(&self) -> (r: String)
        ensures
            r@ == wait_error_text(*self),
    {
        match self {
            WaitError::Closed => String::from_str("WS closed (close frame)"),
            WaitError::NotJson => String::from_str("result not JSON"),
        }
    }
}

/// What the client does after a frame while it waits for the result of a call.
#[derive(Clone, Copy, Debug, PartialEq, Eq, Structural)]
pub enum WaitStep {
    /// Not the result: read the next frame.
    KeepWaiting,
    /// The result arrived: whether Home Assistant reports success.
    Finished(bool),
    /// Waiting failed.
    Failed(WaitError),
}

/// The result that a reply gives for the call with id `id`: nothing unless it is
/// a `result` for that id; then its `success` flag, `false` when it has none.
pub open spec fn reply_result(id: u64, v: JsonModel) -> Option<bool> {
    if str_member(v, "type"@) != Some("result"@) || u64_member(v, "id"@) != Some(id) {
        None
    } else {
        Some(
            match bool_member(v, "success"@) {
                Some(b) => b,
                None => false,
            },
        )
    }
}

/// The step after a frame, while waiting for the result of call `id`: text
/// frames are read as JSON replies, close frames end the wait, other frames
/// are skipped.
pub open spec fn wait_step_of(id: u64, frame: Frame) -> WaitStep {
    match frame {
        Frame::Text(t) => match json_parse(t@) {
            None => WaitStep::Failed(WaitError::NotJson),
            Some(v) => match reply_result(id, v) {
                None => WaitStep::KeepWaiting,
                Some(b) => WaitStep::Finished(b),
            },
        },
        Frame::Close => WaitStep::Failed(WaitError::Closed),
        _ => WaitStep::KeepWaiting,
    }
}

/// A wait finishes only on a `result` reply that carries the call's id.
pub proof fn lemma_wait_finishes_only_on_own_result(id: u64, frame: Frame)
    ensures
        wait_step_of(id, frame) is Finished ==> (frame matches Frame::Text(t) && json_parse(t@) matches Some(v)
            && str_member(v, "type"@) == Some("result"@) && u64_member(v, "id"@) == Some(id)),
{
}

/// The result reply that Home Assistant sends for call `id`,
/// `{"id": id, "type": "result", "success": success}`.
pub open spec fn result_reply_model(id: u64, success: bool) -> JsonModel {
    JsonModel::Object(
        entries_map(
            seq![
                ("id"@, JsonModel::Int(id as int)),
                ("type"@, jstr("result"@)),
                ("success"@, JsonModel::Bool(success)),
            ],
        ),
    )
}

/// The result of a message is recognised: the reply for the id that a message
/// carries gives that reply's success flag, and a reply for any other id gives
/// nothing.
pub proof fn lemma_result_for_message_is_recognised(
    id: u64,
    other: u64,
    lights: Seq<Seq<char>>,
    rgb: (u8, u8, u8),
    success: bool,
)
    requires
        other != id,
    ensures
        u64_member(turn_on_model(id, lights, rgb), "id"@) == Some(id),
        reply_result(id, result_reply_model(id, success)) == Some(success),
        reply_result(other, result_reply_model(id, success)) is None,
{
    lemma_message_carries_id(id, lights, rgb);
    reveal_strlit("id");
    reveal_strlit("type");
    reveal_strlit("success");
    let e = seq![
        ("id"@, JsonModel::Int(id as int)),
        ("type"@, jstr("result"@)),
        ("success"@, JsonModel::Bool(success)),
    ];
    assert("id"@.len() == 2 && "type"@.len() == 4 && "success"@.len() == 7);
    assert(crate::json::distinct_keys(e));
    crate::json::lemma_entries_map_member(e, 0);
    crate::json::lemma_entries_map_member(e, 1);
    crate::json::lemma_entries_map_member(e, 2);
}

/// The outcome of waiting through a sequence of frames: the step of the first
/// frame that is not skipped, or nothing when every frame is skipped.
pub open spec fn wait_outcome(id: u64, frames: Seq<Frame>) -> Option<WaitStep>
    decreases frames.len(),
{
    if frames.len() == 0 {
        None
    } else if wait_step_of(id, frames[0]) == WaitStep::KeepWaiting {
        wait_outcome(id, frames.drop_first())
    } else {
        Some(wait_step_of(id, frames[0]))
    }
}

/// Skipped frames do not matter: inserting, anywhere in a sequence, a frame
/// that the wait skips (ping, pong, binary or raw frames, events, results for
/// other calls) leaves the outcome unchanged; so does removing one.
pub proof fn lemma_skipped_frames_do_not_matter(id: u64, frames: Seq<Frame>, i: int, f: Frame)
    requires
        0 <= i <= frames.len(),
        wait_step_of(id, f) == WaitStep::KeepWaiting,
    ensures
        wait_outcome(id, frames.insert(i, f)) == wait_outcome(id, frames),
    decreases i,
{
    if i == 0 {
        assert(frames.insert(0, f).drop_first() =~= frames);
    } else {
        lemma_skipped_frames_do_not_matter(id, frames.drop_first(), i - 1, f);
        assert(frames.insert(i, f)[0] == frames[0]);
        assert(frames.insert(i, f).drop_first() =~= frames.drop_first().insert(i - 1, f));
    }
}

/// A reply ends the wait for call `id` only when it is an object whose `type`
/// is `"result"` and whose `id` is `id`; it reports success only when its
/// `success` member is `true`.
pub proof fn lemma_result_reply_members(id: u64, v: JsonModel)
    ensures
        reply_result(id, v) is Some ==> member(v, "type"@) == Some(JsonModel::Str("result"@))
            && member(v, "id"@) == Some(JsonModel::Int(id as int)),
        reply_result(id, v) == Some(true) <==> (reply_result(id, v) is Some && member(v, "success"@)
            == Some(JsonModel::Bool(true))),
{
}

/// Whether `reply` is the result of call `id`, and if so whether it succeeded.
pub fn result_of(id: u64, reply: &Json) -> (r: Option<bool>)
    ensures
        r == reply_result(id, reply@),
{
    if !opt_str_is(&reply.get_str("type"), "result") {
        return None;
    }
    match reply.get_u64("id") {
        Some(i) => if i != id {
            return None;
        },
        None => return None,
    }
    match reply.get_bool("success") {
        Some(b) => Some(b),
        None => Some(false),
    }
}

/// A frame arrived while waiting for the result of call `id`: decide the next step.
pub fn on_result_frame(id: u64, frame: &Frame) -> (r: WaitStep)
    ensures
        r == wait_step_of(id, *frame),
{
    match frame {
        Frame::Text(t) => match Json::parse(t.as_str()) {
            Err(_) => WaitStep::Failed(WaitError::NotJson),
            Ok(v) => match result_of(id, &v) {
                None => WaitStep::KeepWaiting,
                Some(b) => WaitStep::Finished(b),
            },
        },
        Frame::Close => WaitStep::Failed(WaitError::Closed),
        _ => WaitStep::KeepWaiting,
    }
}

} // verus!
