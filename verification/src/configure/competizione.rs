//! Assetto Corsa Competizione: a JSON settings file in UTF-16, low byte first
//! and without a byte order mark. The game spells one of its keys
//! `updListenerPort`.

use vstd::prelude::*;

use crate::assetto_corsa_competizione;
use crate::assetto_corsa_competizione::Message;
use crate::configure::dialogue;
use crate::configure::dialogue::{Contents, Finding, Found, Next, Offer};
use crate::configure::style;
use crate::configure::Game;
use crate::json;
use crate::json::{Document, Figure, Json};
use crate::text;
use crate::utf16;

verus! {

/// The current settings.
#[derive(Debug)]
pub struct Settings {
    pub port: i64,
    pub password: String,
}

/// What is to be done with a settings file.
#[derive(Debug)]
pub struct Plan {
    /// Whether the port is to be set.
    pub set_port: bool,
    /// Whether the password is to be set.
    pub set_password: bool,
    /// The password that holds then.
    pub password: String,
}

/// The port: zero where there is none.
pub open spec fn port_in(doc: Json) -> int {
    match doc.member("updListenerPort"@) {
        Some(m) => match m.whole() {
            Some(n) => n,
            None => 0,
        },
        None => 0,
    }
}

/// The password: empty where there is none.
pub open spec fn password_in(doc: Json) -> Seq<char> {
    match doc.member("connectionPassword"@) {
        Some(Json::Text(s)) => s,
        _ => Seq::empty(),
    }
}

/// What a settings file says, or what is wrong with it.
pub open spec fn document_in(bytes: Seq<u8>) -> Result<Json, Seq<char>> {
    if bytes.len() % 2 != 0 {
        Err("UTF-16 LE decode: "@ + utf16::odd_length_message(bytes.len()))
    } else if !utf16::well_formed(utf16::le_units(bytes)) {
        Err("UTF-16 LE decode: "@ + "invalid utf-16: lone surrogate found"@)
    } else {
        json::parsed(utf16::decode(utf16::le_units(bytes)))
    }
}

/// Reads a settings file. Else, what is wrong with it.
pub fn read(bytes: &[u8]) -> (r: Result<Document, String>)
    ensures
        match r {
            Ok(d) => document_in(bytes@) == Ok::<Json, Seq<char>>(d@),
            Err(e) => document_in(bytes@) == Err::<Json, Seq<char>>(e@),
        },
{
    match utf16::decode_utf16_le(bytes) {
        Ok(raw) => Document::parse(raw.as_str()),
        Err(e) => {
            let mut message: String = String::new();
            message.append("UTF-16 LE decode: ");
            message.append(e.as_str());
            assert(message@ == "UTF-16 LE decode: "@ + e@);
            Err(message)
        },
    }
}

/// The current settings.
pub fn inspect(doc: &Document) -> (r: Settings)
    ensures
        r.port == port_in(doc@),
        r.password@ == password_in(doc@),
{
    let port: i64 = match doc.whole_member("updListenerPort") {
        Some(n) => n,
        None => 0,
    };
    let password: String = match doc.text_member("connectionPassword") {
        Some(s) => s,
        None => String::new(),
    };
    Settings { port, password }
}

/// Whether the port is to be set: it must be the one that clients use.
pub open spec fn sets_port(doc: Json) -> bool {
    port_in(doc) != assetto_corsa_competizione::DEFAULT_PORT
}

/// Whether the password is to be set: there must be one.
pub open spec fn sets_password(doc: Json) -> bool {
    password_in(doc).len() == 0
}

/// The password that holds then.
pub open spec fn password_then(doc: Json) -> Seq<char> {
    if sets_password(doc) {
        assetto_corsa_competizione::DEFAULT_PASSWORD@
    } else {
        password_in(doc)
    }
}

/// The document with the port, the password or both set.
pub open spec fn with_settings(doc: Json, set_port: bool, set_password: bool) -> Json {
    let ported = if set_port {
        doc.with_member(
            "updListenerPort"@,
            Json::Number(Figure::Whole(assetto_corsa_competizione::DEFAULT_PORT as int)),
        )
    } else {
        doc
    };
    if set_password {
        ported.with_member(
            "connectionPassword"@,
            Json::Text(assetto_corsa_competizione::DEFAULT_PASSWORD@),
        )
    } else {
        ported
    }
}

/// The document with broadcasting on.
pub open spec fn with_broadcasting(doc: Json) -> Json {
    with_settings(doc, sets_port(doc), sets_password(doc))
}

/// What is to be done: the port must be the one that clients use, and there must
/// be a password.
pub fn plan(settings: &Settings) -> (r: Plan)
    ensures
        r.set_port == (settings.port != assetto_corsa_competizione::DEFAULT_PORT),
        r.set_password == (settings.password@.len() == 0),
        r.password@ == if r.set_password {
            assetto_corsa_competizione::DEFAULT_PASSWORD@
        } else {
            settings.password@
        },
{
    let set_password: bool = settings.password.as_str().is_empty();
    Plan {
        set_port: settings.port != assetto_corsa_competizione::DEFAULT_PORT as i64,
        set_password,
        password: if set_password {
            assetto_corsa_competizione::DEFAULT_PASSWORD.to_owned()
        } else {
            settings.password.clone()
        },
    }
}

/// A description of a change of the port, the password or both.
pub open spec fn summary_text(set_port: bool, set_password: bool) -> Seq<char> {
    (if set_port {
        "updListenerPort="@ + text::signed_decimal(assetto_corsa_competizione::DEFAULT_PORT as int)
    } else {
        Seq::empty()
    }) + (if set_port && set_password {
        ", "@
    } else {
        Seq::empty()
    }) + (if set_password {
        "connectionPassword=\""@ + assetto_corsa_competizione::DEFAULT_PASSWORD@ + "\""@
    } else {
        Seq::empty()
    })
}

impl Plan {
    /// Whether nothing is to be done.
    pub fn is_empty(&self) -> (r: bool)
        ensures
            r == (!self.set_port && !self.set_password),
    {
        !self.set_port && !self.set_password
    }

    /// A description of the change.
    pub fn summary(&self) -> (r: String)
        ensures
            r@ == summary_text(self.set_port, self.set_password),
    {
        let mut r: String = String::new();
        if self.set_port {
            r.append("updListenerPort=");
            text::push_i64(&mut r, assetto_corsa_competizione::DEFAULT_PORT as i64);
        }
        if self.set_port && self.set_password {
            r.append(", ");
        }
        if self.set_password {
            r.append("connectionPassword=\"");
            r.append(assetto_corsa_competizione::DEFAULT_PASSWORD);
            r.append("\"");
        }
        assert(r@ == summary_text(self.set_port, self.set_password));
        r
    }

    /// Makes the change.
    pub fn apply(&self, doc: &mut Document)
        requires
            self.set_port || self.set_password ==> old(doc)@.takes_members(),
        ensures
            final(doc)@ == with_settings(old(doc)@, self.set_port, self.set_password),
    {
        if self.set_port {
            doc.set_whole(
                "updListenerPort",
                assetto_corsa_competizione::DEFAULT_PORT as i64,
            );
        }
        if self.set_password {
            doc.set_text("connectionPassword", assetto_corsa_competizione::DEFAULT_PASSWORD);
        }
    }
}

/// The text of a document as the game writes it: four spaces per level, no line
/// feed at the end and the keys in their order. Another shape makes the game
/// write the file anew.
pub fn json_to_acc_format(doc: &Document) -> (r: Result<String, String>)
    ensures
        match r {
            Ok(s) => {
                &&& json::indented_bytes(doc@, vstd::utf8::encode_utf8("    "@)) == Ok::<
                    Seq<u8>,
                    Seq<char>,
                >(vstd::utf8::encode_utf8(s@))
                &&& json::readable(doc@) ==> json::parsed(s@) == Ok::<Json, Seq<char>>(doc@)
            },
            Err(e) => json::indented_bytes(doc@, vstd::utf8::encode_utf8("    "@)) == Err::<
                Seq<u8>,
                Seq<char>,
            >(e@),
        },
{
    proof {
        reveal_strlit("    ");
        vstd::utf8::is_ascii_chars_encode_utf8("    "@);
    }
    doc.to_indented("    ")
}

/// The bytes of a settings file, or what went wrong.
pub fn write(doc: &Document) -> (r: Result<Vec<u8>, String>)
    ensures
        match r {
            Ok(b) => {
                &&& file_bytes(doc@) == Ok::<Seq<u8>, Seq<char>>(b@)
                &&& json::readable(doc@) ==> document_in(b@) == Ok::<Json, Seq<char>>(doc@)
            },
            Err(e) => file_bytes(doc@) == Err::<Seq<u8>, Seq<char>>(e@),
        },
{
    match json_to_acc_format(doc) {
        Ok(s) => {
            proof {
                vstd::utf8::encode_utf8_decode_utf8(s@);
                utf16::lemma_utf16_le_round_trip(s@);
            }
            Ok(utf16::encode_utf16_le(s.as_str()))
        },
        Err(e) => Err(e),
    }
}

/// After the change the port is the one that clients use, there is a password,
/// a password that was there is kept, and nothing else has changed.
pub proof fn lemma_broadcasting_is_on(doc: Json, other: Seq<char>)
    requires
        doc.takes_members(),
    ensures
        port_in(with_broadcasting(doc)) == assetto_corsa_competizione::DEFAULT_PORT,
        password_in(with_broadcasting(doc)) == password_then(doc),
        password_then(doc).len() > 0,
        other != "updListenerPort"@ && other != "connectionPassword"@ ==> with_broadcasting(
            doc,
        ).member(other) == doc.member(other),
{
    let port = Json::Number(Figure::Whole(assetto_corsa_competizione::DEFAULT_PORT as int));
    let password = Json::Text(assetto_corsa_competizione::DEFAULT_PASSWORD@);
    reveal_strlit("updListenerPort");
    reveal_strlit("connectionPassword");
    reveal_strlit("moza");
    assert("updListenerPort"@.len() != "connectionPassword"@.len());
    let ported = if sets_port(doc) {
        json::lemma_set_member(doc, "updListenerPort"@, port, "connectionPassword"@);
        json::lemma_set_member(doc, "updListenerPort"@, port, other);
        doc.with_member("updListenerPort"@, port)
    } else {
        doc
    };
    if sets_password(doc) {
        json::lemma_set_member(ported, "connectionPassword"@, password, "updListenerPort"@);
        json::lemma_set_member(ported, "connectionPassword"@, password, other);
    }
}

/// A description of settings, which keeps the password to itself.
pub open spec fn current_text(port: int, password: Seq<char>) -> Seq<char> {
    "updListenerPort="@ + text::signed_decimal(port) + ", connectionPassword="@
        + if password.len() == 0 {
        "(empty)"@
    } else {
        "(set, "@ + text::decimal(password.len()) + " chars)"@
    }
}

/// A description of the current settings, which keeps the password to itself.
pub fn current_settings(settings: &Settings) -> (r: String)
    ensures
        r@ == current_text(settings.port as int, settings.password@),
{
    let mut r: String = "updListenerPort=".to_owned();
    text::push_i64(&mut r, settings.port);
    r.append(", connectionPassword=");
    let ghost head = r@;
    if settings.password.as_str().is_empty() {
        r.append("(empty)");
    } else {
        r.append("(set, ");
        text::push_u64(&mut r, settings.password.as_str().unicode_len() as u64);
        r.append(" chars)");
        assert(r@ == head + ("(set, "@ + text::decimal(settings.password@.len()) + " chars)"@));
    }
    r
}

/// What came of asking the game for a registration.
#[derive(Debug)]
pub enum Probe {
    Listening { connection_id: i32, readonly: bool },
    Rejected { error: String },
    /// Nothing listens on the port.
    Refused,
    Timeout,
    /// It could not be found out.
    Unclear(String),
}

/// What an answer means: a registration, a rejection with the game's reason, or
/// something that was not expected.
pub fn classify_reply(reply: &[u8]) -> (r: Probe)
    ensures
        match assetto_corsa_competizione::message_in(reply@) {
            Some(assetto_corsa_competizione::Said::Registration(m)) => if m.success {
                r == (Probe::Listening {
                    connection_id: m.connection_id,
                    readonly: m.readonly,
                })
            } else {
                &&& r is Rejected
                &&& r->error@ == if m.error_message.len() == 0 {
                    "(no error message)"@
                } else {
                    m.error_message
                }
            },
            _ => r is Unclear && r->Unclear_0@ == "unexpected reply ("@ + text::decimal(
                reply@.len(),
            ) + " bytes)"@,
        },
{
    match assetto_corsa_competizione::parse_message(reply) {
        Some(Message::RegistrationResult(m)) => {
            if m.success {
                Probe::Listening { connection_id: m.connection_id, readonly: m.readonly }
            } else if m.error_message.as_str().is_empty() {
                Probe::Rejected { error: "(no error message)".to_owned() }
            } else {
                Probe::Rejected { error: m.error_message }
            }
        },
        _ => {
            let mut e: String = String::new();
            e.append("unexpected reply (");
            text::push_u64(&mut e, reply.len() as u64);
            e.append(" bytes)");
            assert(e@ == "unexpected reply ("@ + text::decimal(reply@.len()) + " bytes)"@);
            Probe::Unclear(e)
        },
    }
}

/// How a network operation can fail.
#[derive(Debug, Clone, Copy, PartialEq, Eq, Structural)]
pub enum Failure {
    ConnectionRefused,
    WouldBlock,
    TimedOut,
    Interrupted,
    Other,
}

fn unclear(task: &str, error: &str) -> (r: Probe)
    ensures
        r matches Probe::Unclear(reason) && reason@ == task@ + error@,
{
    let mut reason: String = task.to_owned();
    reason.append(error);
    Probe::Unclear(reason)
}

/// What a registration that could not be sent means: refused, or unclear for the
/// given reason.
pub fn classify_send_failure(failure: Failure, error: &str) -> (r: Probe)
    ensures
        failure == Failure::ConnectionRefused ==> r is Refused,
        failure != Failure::ConnectionRefused ==> (r matches Probe::Unclear(reason) && reason@
            == "send register: "@ + error@),
{
    if failure == Failure::ConnectionRefused {
        Probe::Refused
    } else {
        unclear("send register: ", error)
    }
}

/// What an answer that did not come means: refused, too late, or unclear for
/// the given reason.
pub fn classify_receive_failure(failure: Failure, error: &str) -> (r: Probe)
    ensures
        match failure {
            Failure::ConnectionRefused => r is Refused,
            Failure::Other => r matches Probe::Unclear(reason) && reason@ == "recv: "@ + error@,
            _ => r is Timeout,
        },
{
    match failure {
        Failure::ConnectionRefused => Probe::Refused,
        Failure::Other => unclear("recv: ", error),
        _ => Probe::Timeout,
    }
}

/// Advice on a rejection whose reason, in lower case, is given.
pub open spec fn advice(lowered: Seq<char>) -> Seq<char> {
    if text::contains(lowered, "outdated"@) {
        "Bump `assetto_corsa_competizione::PROTOCOL_VERSION` to match the version ACC expects."@
    } else if text::contains(lowered, "password"@) {
        "The connectionPassword on disk doesn't match what's in ACC's memory — close ACC, re-run this command, then restart ACC."@
    } else {
        "See the message above — moza-rev's REGISTER reached ACC but ACC refused it."@
    }
}

/// Advice on a rejection whose reason, in lower case, is given.
pub fn advice_for_lowered(lowered: &str) -> (r: &'static str)
    ensures
        r@ == advice(lowered@),
{
    if text::has(lowered, "outdated") {
        "Bump `assetto_corsa_competizione::PROTOCOL_VERSION` to match the version ACC expects."
    } else if text::has(lowered, "password") {
        "The connectionPassword on disk doesn't match what's in ACC's memory — close ACC, re-run this command, then restart ACC."
    } else {
        "See the message above — moza-rev's REGISTER reached ACC but ACC refused it."
    }
}

/// Advice on a rejection.
pub fn advice_for(error: &str) -> (r: &'static str)
    ensures
        r@ == advice(text::lowercase(error@)),
        vstd::utf8::is_ascii_chars(error@) ==> r@ == advice(text::ascii_lower(error@)),
{
    advice_for_lowered(error.to_lowercase().as_str())
}

/// What to send to find out whether the game takes registrations.
pub fn probe_request(password: &str) -> (r: Vec<u8>)
    ensures
        r@ == assetto_corsa_competizione::register_image(
            "moza-rev-verify"@,
            password@,
            1000,
            ""@,
        ),
{
    assetto_corsa_competizione::build_register("moza-rev-verify", password, 1000, "")
}

/// What to send to a game that has just registered this program, so that it does
/// not keep it on its list.
pub fn farewell(probe: &Probe) -> (r: Option<Vec<u8>>)
    ensures
        match *probe {
            Probe::Listening { connection_id, .. } => r is Some && (r->0)@
                == seq![assetto_corsa_competizione::outbound::UNREGISTER_COMMAND_APPLICATION]
                + crate::wire::i32_image(connection_id),
            _ => r is None,
        },
{
    match probe {
        Probe::Listening { connection_id, .. } => Some(
            assetto_corsa_competizione::build_unregister(*connection_id),
        ),
        _ => None,
    }
}

/// The line that announces the question to the game.
pub open spec fn probing_line() -> Seq<char> {
    "  probing 127.0.0.1:"@ + text::decimal(assetto_corsa_competizione::DEFAULT_PORT as nat)
        + "…\n"@
}

pub fn probing() -> (r: String)
    ensures
        r@ == probing_line(),
{
    let mut r: String = "  probing 127.0.0.1:".to_owned();
    text::push_u64(&mut r, assetto_corsa_competizione::DEFAULT_PORT as u64);
    r.append("…\n");
    r
}

/// What is shown of the game's answer.
pub open spec fn probe_report(enabled: bool, probe: Probe) -> Seq<char> {
    match probe {
        Probe::Listening { connection_id, readonly } => "  "@ + style::ok_mark(enabled)
            + " ACC responded: connection_id="@ + text::signed_decimal(connection_id as int)
            + ", readonly="@ + (if readonly {
            "true"@
        } else {
            "false"@
        }) + ". Broadcasting is live.\n\n"@,
        Probe::Rejected { error } => "  "@ + style::cross_mark(enabled)
            + " ACC rejected our REGISTER: "@ + text::quoted(error@) + ".\n  "@ + advice(
            text::lowercase(error@),
        ) + "\n\n"@,
        Probe::Refused => "  "@ + style::warn_mark(enabled) + " nothing is listening on UDP/"@
            + text::decimal(assetto_corsa_competizione::DEFAULT_PORT as nat)
            + " — ACC isn't running, or it was launched before broadcasting.json was written. Start (or restart) ACC and re-run this command.\n\n"@,
        Probe::Timeout => "  "@ + style::warn_mark(enabled)
            + " no reply within the probe window — ACC may be loading. Try again once it's at the main menu.\n\n"@,
        Probe::Unclear(reason) => "  "@ + style::warn_mark(enabled) + " couldn't probe: "@ + reason@
            + "\n\n"@,
    }
}

/// What to show of the game's answer.
pub fn report_acc_probe(enabled: bool, probe: &Probe) -> (r: String)
    ensures
        r@ == probe_report(enabled, *probe),
{
    let mut r: String = "  ".to_owned();
    match probe {
        Probe::Listening { connection_id, readonly } => {
            r.append(style::ok(enabled));
            r.append(" ACC responded: connection_id=");
            text::push_i64(&mut r, *connection_id as i64);
            r.append(", readonly=");
            r.append(
                if *readonly {
                    "true"
                } else {
                    "false"
                },
            );
            r.append(". Broadcasting is live.\n\n");
        },
        Probe::Rejected { error } => {
            r.append(style::cross(enabled));
            r.append(" ACC rejected our REGISTER: ");
            r.append(text::quote(error.as_str()).as_str());
            r.append(".\n  ");
            r.append(advice_for(error.as_str()));
            r.append("\n\n");
        },
        Probe::Refused => {
            r.append(style::warn(enabled));
            r.append(" nothing is listening on UDP/");
            text::push_u64(&mut r, assetto_corsa_competizione::DEFAULT_PORT as u64);
            r.append(
                " — ACC isn't running, or it was launched before broadcasting.json was written. Start (or restart) ACC and re-run this command.\n\n",
            );
        },
        Probe::Timeout => {
            r.append(style::warn(enabled));
            r.append(
                " no reply within the probe window — ACC may be loading. Try again once it's at the main menu.\n\n",
            );
        },
        Probe::Unclear(reason) => {
            r.append(style::warn(enabled));
            r.append(" couldn't probe: ");
            r.append(reason.as_str());
            r.append("\n\n");
        },
    }
    r
}

/// What is shown once the file was written: the password to use, and what to do
/// then.
pub open spec fn written_text(enabled: bool, password: Seq<char>) -> Seq<char> {
    "  "@ + style::ok_mark(enabled) + " written. Use --password \""@ + password
        + "\" with the broadcasting client (e.g. `cargo run --example assetto_corsa_competizione_log -- --password \""@
        + password + "\"`).\n  "@ + style::warn_mark(enabled)
        + " restart ACC, then re-run `moza-rev configure` to verify the broadcasting port is actually open.\n\n"@
}

/// What a file is to hold: the document as the game writes it.
pub open spec fn file_bytes(doc: Json) -> Result<Seq<u8>, Seq<char>> {
    match json::indented_bytes(doc, vstd::utf8::encode_utf8("    "@)) {
        Ok(b) => Ok(utf16::le_bytes(utf16::encode(vstd::utf8::decode_utf8(b)))),
        Err(e) => Err(e),
    }
}

/// Whether the document is read back from what the file is to hold, where it can
/// be.
pub open spec fn reads_back(contents: Contents, doc: Json) -> bool {
    contents matches Contents::Bytes(b) ==> json::readable(doc) ==> document_in(b@) == Ok::<
        Json,
        Seq<char>,
    >(doc)
}

/// Whether this is what is to be shown and done about a file that holds a
/// document: where broadcasting is on the game is asked for a registration, else
/// the offer is made to turn it on.
pub open spec fn finding_for(enabled: bool, path: Seq<char>, doc: Json, r: Finding) -> bool {
    let shown = dialogue::shown(
        enabled,
        Game::Competizione.called(),
        path,
        current_text(port_in(doc), password_in(doc)),
    );
    if !sets_port(doc) && !sets_password(doc) {
        &&& r.says@ == shown + "  "@ + style::ok_mark(enabled)
            + " broadcasting already enabled — no changes needed.\n"@
        &&& r.next matches Next::Probe(password) && password@ == password_then(doc)
    } else {
        &&& r.says@ == shown + "  proposed: "@ + summary_text(sets_port(doc), sets_password(doc))
            + "\n  "@ + style::warn_mark(enabled)
            + " close ACC before applying — a running game may overwrite the change.\n"@
        &&& r.next matches Next::Ask(offer) && offer.says(
            true,
            "  skipped.\n"@,
            written_text(enabled, password_then(doc)),
            Some(password_then(doc)),
        ) && offer.contents.are(doc.takes_members(), file_bytes(with_broadcasting(doc)))
            && reads_back(offer.contents, with_broadcasting(doc))
    }
}

/// What to show and do about the game, given what was found where it keeps its
/// settings.
pub fn handle_acc_competizione(enabled: bool, found: Found<Vec<u8>>) -> (r: Finding)
    ensures
        match found {
            Found::NeverLaunched => r.next is Nothing && r.says@ == dialogue::heading(
                enabled,
                Game::Competizione.called(),
            ) + dialogue::never_launched(),
            Found::Missing(path) => r.next is Nothing && r.says@ == dialogue::heading(
                enabled,
                Game::Competizione.called(),
            ) + "  Couldn't find "@ + path@ + ".\n\n"@,
            Found::Unreadable(error) => r.next == Next::Fault(error) && r.says@
                == dialogue::heading(enabled, Game::Competizione.called()),
            Found::File(path, bytes) => match document_in(bytes@) {
                Err(error) => r.says@ == dialogue::heading(enabled, Game::Competizione.called())
                    && (r.next matches Next::Fault(e) && e@ == error),
                Ok(doc) => finding_for(enabled, path@, doc, r),
            },
        },
        found matches Found::File(_, bytes) ==> match document_in(bytes@) {
            Ok(doc) => does_what_it_should(doc, r),
            Err(_) => r.next is Fault,
        },
        !(found is File) ==> !(r.next is Ask) && !(r.next is Probe),
{
    let name: &'static str = Game::Competizione.name();
    match found {
        Found::NeverLaunched => {
            let mut says: String = dialogue::heading_text(enabled, name);
            says.append(
                "  Installed but never launched — start the game once so it generates its config, then re-run.\n\n",
            );
            Finding { says, next: Next::Nothing }
        },
        Found::Missing(path) => {
            let mut says: String = dialogue::heading_text(enabled, name);
            says.append("  Couldn't find ");
            says.append(path.as_str());
            says.append(".\n\n");
            Finding { says, next: Next::Nothing }
        },
        Found::Unreadable(error) => dialogue::fault(enabled, name, error),
        Found::File(path, bytes) => match read(bytes.as_slice()) {
            Ok(doc) => offer_broadcasting(enabled, path.as_str(), doc),
            Err(error) => dialogue::fault(enabled, name, error),
        },
    }
}

fn offer_broadcasting(enabled: bool, path: &str, doc: Document) -> (r: Finding)
    ensures
        finding_for(enabled, path@, doc@, r),
        does_what_it_should(doc@, r),
{
    let ghost held = doc@;
    let r: Finding = find_broadcasting(enabled, path, doc);
    proof {
        lemma_finding_does_what_it_should(enabled, path@, held, r);
    }
    r
}

fn find_broadcasting(enabled: bool, path: &str, doc: Document) -> (r: Finding)
    ensures
        finding_for(enabled, path@, doc@, r),
{
    let mut doc: Document = doc;
    let settings: Settings = inspect(&doc);
    let current: String = current_settings(&settings);
    let mut says: String = dialogue::shown_text(
        enabled,
        Game::Competizione.name(),
        path,
        current.as_str(),
    );
    let plan: Plan = plan(&settings);
    let password: String = plan.password.clone();
    if plan.is_empty() {
        says.append("  ");
        says.append(style::ok(enabled));
        says.append(" broadcasting already enabled — no changes needed.\n");
        return Finding { says, next: Next::Probe(password) };
    }
    says.append("  proposed: ");
    says.append(plan.summary().as_str());
    says.append("\n  ");
    says.append(style::warn(enabled));
    says.append(" close ACC before applying — a running game may overwrite the change.\n");
    let contents: Contents = if doc.can_set() {
        plan.apply(&mut doc);
        match write(&doc) {
            Ok(bytes) => Contents::Bytes(bytes),
            Err(error) => Contents::Fault(error),
        }
    } else {
        Contents::Impossible
    };
    let mut done: String = "  ".to_owned();
    done.append(style::ok(enabled));
    done.append(" written. Use --password \"");
    done.append(password.as_str());
    done.append(
        "\" with the broadcasting client (e.g. `cargo run --example assetto_corsa_competizione_log -- --password \"",
    );
    done.append(password.as_str());
    done.append("\"`).\n  ");
    done.append(style::warn(enabled));
    done.append(
        " restart ACC, then re-run `moza-rev configure` to verify the broadcasting port is actually open.\n\n",
    );
    let offer: Offer = Offer {
        contents,
        backs_up: true,
        declined: "  skipped.\n".to_owned(),
        written: done,
        probe: Some(password),
    };
    Finding { says, next: Next::Ask(offer) }
}

/// The change lasts: whoever turns broadcasting on finds it on the next time, and
/// there is nothing left to do but to ask the game. This is so where the document
/// can be read back.
pub proof fn lemma_nothing_left_to_change(
    enabled: bool,
    path: Seq<char>,
    doc: Json,
    first: Finding,
    second: Finding,
)
    requires
        json::readable(doc),
        finding_for(enabled, path, doc, first),
        first.next is Ask,
        first.next->Ask_0.contents is Bytes,
        ({
            let read = document_in(first.next->Ask_0.contents->Bytes_0@);
            read is Ok ==> finding_for(enabled, path, read->Ok_0, second)
        }),
    ensures
        document_in(first.next->Ask_0.contents->Bytes_0@) == Ok::<Json, Seq<char>>(
            with_broadcasting(doc),
        ),
        second.next is Probe,
        second.next->Probe_0@ == password_then(doc),
{
    let port = Json::Number(Figure::Whole(assetto_corsa_competizione::DEFAULT_PORT as int));
    let password = Json::Text(assetto_corsa_competizione::DEFAULT_PASSWORD@);
    let ported = if sets_port(doc) {
        json::lemma_member_stays_readable(doc, "updListenerPort"@, port, 127);
        doc.with_member("updListenerPort"@, port)
    } else {
        doc
    };
    if sets_password(doc) {
        json::lemma_member_stays_readable(ported, "connectionPassword"@, password, 127);
    }
    lemma_broadcasting_is_on(doc, "updListenerPort"@);
}

/// Whether a document says that the game listens for clients where they look for
/// it.
pub open spec fn listens(doc: Json) -> bool {
    &&& doc.member("updListenerPort"@) is Some
    &&& (doc.member("updListenerPort"@)->0).whole() == Some(9000int)
}

/// Whether a document has a password, and which.
pub open spec fn has_password(doc: Json, password: Seq<char>) -> bool {
    doc.member("connectionPassword"@) == Some(Json::Text(password)) && password.len() > 0
}

/// Whether a document differs from another only in that broadcasting is on, with
/// the password that it had or, if it had none, with the one to propose.
pub open spec fn turned_on(before: Json, after: Json) -> bool {
    &&& listens(after)
    &&& exists|password: Seq<char>| has_password(after, password)
    &&& forall|password: Seq<char>| #[trigger]
        has_password(before, password) ==> has_password(after, password)
    &&& (forall|password: Seq<char>| !#[trigger] has_password(before, password)) ==> has_password(
        after,
        "moza"@,
    )
    &&& forall|key: Seq<char>|
        key != "updListenerPort"@ && key != "connectionPassword"@ ==> #[trigger] after.member(key)
            == before.member(key)
}

/// Whether a finding does what a document calls for. The game is asked for a
/// registration with the password of the document exactly where it listens and has
/// one. Else there is an offer, for which the file is kept under another name; and
/// in the file that it writes, where that can be read back, broadcasting is on and
/// all else is as it was.
pub open spec fn does_what_it_should(doc: Json, r: Finding) -> bool {
    &&& r.next is Probe || r.next is Ask
    &&& r.next is Probe <==> listens(doc) && exists|password: Seq<char>|
        #[trigger] has_password(doc, password)
    &&& r.next is Probe ==> has_password(doc, r.next->Probe_0@)
    &&& r.next is Ask ==> {
        let offer = r.next->Ask_0;
        &&& offer.backs_up
        &&& offer.contents is Impossible <==> !(doc is Object || doc is Null)
        &&& offer.contents is Bytes && json::readable(doc) ==> {
            let read = document_in(offer.contents->Bytes_0@);
            &&& read is Ok
            &&& turned_on(doc, read->Ok_0)
            &&& offer.probe is Some
            &&& has_password(read->Ok_0, offer.probe->0@)
        }
    }
}

/// What is found about a document is what the document calls for.
pub proof fn lemma_finding_does_what_it_should(
    enabled: bool,
    path: Seq<char>,
    doc: Json,
    r: Finding,
)
    requires
        finding_for(enabled, path, doc, r),
    ensures
        does_what_it_should(doc, r),
{
    if !sets_password(doc) {
        assert(has_password(doc, password_in(doc)));
    } else {
        assert forall|password: Seq<char>| !#[trigger] has_password(doc, password) by {
        }
    }
    if (sets_port(doc) || sets_password(doc)) && doc.takes_members() && json::readable(doc) {
        let port = Json::Number(Figure::Whole(assetto_corsa_competizione::DEFAULT_PORT as int));
        let password = Json::Text(assetto_corsa_competizione::DEFAULT_PASSWORD@);
        let ported = if sets_port(doc) {
            json::lemma_member_stays_readable(doc, "updListenerPort"@, port, 127);
            doc.with_member("updListenerPort"@, port)
        } else {
            doc
        };
        if sets_password(doc) {
            json::lemma_member_stays_readable(ported, "connectionPassword"@, password, 127);
        }
        let after = with_broadcasting(doc);
        lemma_broadcasting_is_on(doc, "updListenerPort"@);
        assert(has_password(after, password_then(doc)));
        assert forall|key: Seq<char>| key != "updListenerPort"@ && key
            != "connectionPassword"@ implies #[trigger] after.member(key) == doc.member(key) by {
            lemma_broadcasting_is_on(doc, key);
        }
        assert(listens(after));
        assert(turned_on(doc, after));
    }
}

/// Advice on a rejection goes by two words: with `outdated` in the reason it is about
/// the version, else with `password` in it about the password, and else it is to
/// read the reason.
pub proof fn lemma_advice_by_word(reason: Seq<char>)
    ensures
        ({
            let outdated = exists|a: Seq<char>, b: Seq<char>|
                #[trigger] (a + "outdated"@ + b) == reason;
            let password = exists|a: Seq<char>, b: Seq<char>|
                #[trigger] (a + "password"@ + b) == reason;
            advice(reason) == if outdated {
                "Bump `assetto_corsa_competizione::PROTOCOL_VERSION` to match the version ACC expects."@
            } else if password {
                "The connectionPassword on disk doesn't match what's in ACC's memory — close ACC, re-run this command, then restart ACC."@
            } else {
                "See the message above — moza-rev's REGISTER reached ACC but ACC refused it."@
            }
        }),
{
    text::lemma_contains(reason, "outdated"@);
    text::lemma_contains(reason, "password"@);
}

/// What is shown of a password is whether there is one and how long it is, and
/// nothing else.
pub proof fn lemma_password_is_not_shown(port: int, one: Seq<char>, other: Seq<char>)
    requires
        one.len() == other.len(),
    ensures
        current_text(port, one) == current_text(port, other),
{
}

/// A document is read from its text in UTF-16, low bytes first.
pub proof fn lemma_document_is_read(text: Seq<char>)
    ensures
        document_in(utf16::le_bytes(utf16::encode(text))) == json::parsed(text),
{
    utf16::lemma_utf16_le_round_trip(text);
}

} // verus!
