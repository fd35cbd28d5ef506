//! BeamNG.drive: a JSON settings file. Members that are missing have their
//! defaults.

use vstd::prelude::*;

use crate::configure::dialogue;
use crate::configure::dialogue::{Contents, Finding, Found, Next};
use crate::configure::style;
use crate::configure::Game;
use crate::json;
use crate::json::{Document, Json};
use crate::outgauge;
use crate::text;

verus! {

pub const DEFAULT_ADDRESS: &'static str = "127.0.0.1";

/// The current settings.
#[derive(Debug)]
pub struct Settings {
    pub enabled: bool,
    pub address: String,
    pub port: i64,
}

pub open spec fn enabled_in(doc: Json) -> bool {
    doc.member("protocols_outgauge_enabled"@) == Some(Json::Bool(true))
}

pub open spec fn address_in(doc: Json) -> Seq<char> {
    match doc.member("protocols_outgauge_address"@) {
        Some(Json::Text(s)) => s,
        _ => DEFAULT_ADDRESS@,
    }
}

pub open spec fn port_in(doc: Json) -> int {
    match doc.member("protocols_outgauge_port"@) {
        Some(m) => match m.whole() {
            Some(n) => n,
            None => outgauge::DEFAULT_PORT as int,
        },
        None => outgauge::DEFAULT_PORT as int,
    }
}

/// The current settings.
pub fn inspect(doc: &Document) -> (r: Settings)
    ensures
        r.enabled == enabled_in(doc@),
        r.address@ == address_in(doc@),
        r.port == port_in(doc@),
{
    let enabled: bool = match doc.bool_member("protocols_outgauge_enabled") {
        Some(b) => b,
        None => false,
    };
    let address: String = match doc.text_member("protocols_outgauge_address") {
        Some(s) => s,
        None => DEFAULT_ADDRESS.to_owned(),
    };
    let port: i64 = match doc.whole_member("protocols_outgauge_port") {
        Some(n) => n,
        None => outgauge::DEFAULT_PORT as i64,
    };
    Settings { enabled, address, port }
}

/// The document with telemetry turned on.
pub open spec fn with_telemetry(doc: Json) -> Json {
    doc.with_member("protocols_outgauge_enabled"@, Json::Bool(true))
}

/// Turns telemetry on. The new text of the file, or what went wrong.
pub fn enable(doc: &mut Document) -> (r: Result<String, String>)
    requires
        old(doc)@.takes_members(),
    ensures
        final(doc)@ == with_telemetry(old(doc)@),
        match r {
            Ok(s) => {
                &&& json::pretty_text(final(doc)@) == Ok::<Seq<char>, Seq<char>>(s@)
                &&& json::readable(final(doc)@) ==> json::parsed(s@) == Ok::<Json, Seq<char>>(
                    final(doc)@,
                )
            },
            Err(e) => json::pretty_text(final(doc)@) == Err::<Seq<char>, Seq<char>>(e@),
        },
{
    doc.set_bool("protocols_outgauge_enabled", true);
    doc.to_pretty()
}

/// After the change telemetry is on, and nothing else has changed.
pub proof fn lemma_only_telemetry_changes(doc: Json, other: Seq<char>)
    requires
        doc.takes_members(),
    ensures
        ({
            let after = with_telemetry(doc);
            &&& enabled_in(after)
            &&& address_in(after) == address_in(doc)
            &&& port_in(after) == port_in(doc)
            &&& other != "protocols_outgauge_enabled"@ ==> after.member(other) == doc.member(other)
        }),
{
    let key = "protocols_outgauge_enabled"@;
    json::lemma_set_member(doc, key, Json::Bool(true), other);
    json::lemma_set_member(doc, key, Json::Bool(true), "protocols_outgauge_address"@);
    json::lemma_set_member(doc, key, Json::Bool(true), "protocols_outgauge_port"@);
    reveal_strlit("protocols_outgauge_enabled");
    reveal_strlit("protocols_outgauge_address");
    reveal_strlit("protocols_outgauge_port");
    assert("protocols_outgauge_address"@[19] != key[19]);
    assert("protocols_outgauge_port"@.len() != key.len());
}

/// A description of settings.
pub open spec fn current_text(enabled: bool, address: Seq<char>, port: int) -> Seq<char> {
    "OutGauge enabled="@ + (if enabled {
        "true"@
    } else {
        "false"@
    }) + ", address="@ + address + ", port="@ + text::signed_decimal(port)
}

/// A description of the change.
pub open spec fn proposed_text(address: Seq<char>, port: int) -> Seq<char> {
    "protocols_outgauge_enabled = true (address/port unchanged: "@ + address + ":"@
        + text::signed_decimal(port) + ")"@
}

/// A description of the current settings.
pub fn current_settings(settings: &Settings) -> (r: String)
    ensures
        r@ == current_text(settings.enabled, settings.address@, settings.port as int),
{
    let mut r: String = "OutGauge enabled=".to_owned();
    r.append(
        if settings.enabled {
            "true"
        } else {
            "false"
        },
    );
    r.append(", address=");
    r.append(settings.address.as_str());
    r.append(", port=");
    text::push_i64(&mut r, settings.port);
    r
}

/// A description of the change.
pub fn proposed_settings(settings: &Settings) -> (r: String)
    ensures
        r@ == proposed_text(settings.address@, settings.port as int),
{
    let mut r: String = "protocols_outgauge_enabled = true (address/port unchanged: ".to_owned();
    r.append(settings.address.as_str());
    r.append(":");
    text::push_i64(&mut r, settings.port);
    r.append(")");
    r
}

/// Whether this is what is to be shown and done about a file that holds a
/// document: nothing where telemetry is on, else the offer to turn it on.
pub open spec fn finding_for(enabled: bool, path: Seq<char>, doc: Json, r: Finding) -> bool {
    let shown = dialogue::shown(
        enabled,
        Game::BeamNG.called(),
        path,
        current_text(enabled_in(doc), address_in(doc), port_in(doc)),
    );
    if enabled_in(doc) {
        &&& r.next is Nothing
        &&& r.says@ == shown + "  "@ + style::ok_mark(enabled)
            + " OutGauge already enabled — no changes needed.\n\n"@
    } else {
        &&& r.says@ == shown + "  proposed: "@ + proposed_text(address_in(doc), port_in(doc))
            + "\n  "@ + style::warn_mark(enabled)
            + " close BeamNG before applying — a running game may overwrite the change.\n"@
        &&& r.next matches Next::Ask(offer) && offer.says(
            true,
            dialogue::skipped(),
            dialogue::written(enabled),
            None,
        ) && offer.contents.are(
            doc.takes_members(),
            dialogue::encoded(json::pretty_text(with_telemetry(doc))),
        ) && dialogue::reads_back(offer.contents, with_telemetry(doc))
    }
}

/// What to show and do about the game, given what was found where it keeps its
/// settings.
pub fn handle_beamng(enabled: bool, found: Found<String>) -> (r: Finding)
    ensures
        match found {
            Found::Unreadable(error) => r.next == Next::Fault(error) && r.says@
                == dialogue::heading(enabled, Game::BeamNG.called()),
            Found::File(path, raw) => match json::parsed(raw@) {
                Err(error) => r.says@ == dialogue::heading(enabled, Game::BeamNG.called()) && (
                r.next matches Next::Fault(e) && e@ == error),
                Ok(doc) => finding_for(enabled, path@, doc, r),
            },
            _ => r.next is Nothing && r.says@ == dialogue::heading(enabled, Game::BeamNG.called())
                + "  Installed but no settings/cloud/settings.json yet — start the game once, then re-run.\n\n"@,
        },
        found matches Found::File(_, raw) ==> match json::parsed(raw@) {
            Ok(doc) => does_what_it_should(doc, r),
            Err(_) => r.next is Fault,
        },
        !(found is File) ==> !(r.next is Ask),
{
    let name: &'static str = Game::BeamNG.name();
    match found {
        Found::Unreadable(error) => dialogue::fault(enabled, name, error),
        Found::File(path, raw) => match Document::parse(raw.as_str()) {
            Ok(doc) => offer_telemetry(enabled, path.as_str(), doc),
            Err(error) => dialogue::fault(enabled, name, error),
        },
        _ => {
            let mut says: String = dialogue::heading_text(enabled, name);
            says.append(
                "  Installed but no settings/cloud/settings.json yet — start the game once, then re-run.\n\n",
            );
            Finding { says, next: Next::Nothing }
        },
    }
}

fn offer_telemetry(enabled: bool, path: &str, doc: Document) -> (r: Finding)
    ensures
        finding_for(enabled, path@, doc@, r),
        does_what_it_should(doc@, r),
{
    let ghost held = doc@;
    let r: Finding = find_telemetry(enabled, path, doc);
    proof {
        lemma_finding_does_what_it_should(enabled, path@, held, r);
    }
    r
}

fn find_telemetry(enabled: bool, path: &str, doc: Document) -> (r: Finding)
    ensures
        finding_for(enabled, path@, doc@, r),
{
    let mut doc: Document = doc;
    let settings: Settings = inspect(&doc);
    let current: String = current_settings(&settings);
    let mut says: String = dialogue::shown_text(
        enabled,
        Game::BeamNG.name(),
        path,
        current.as_str(),
    );
    if settings.enabled {
        says.append("  ");
        says.append(style::ok(enabled));
        says.append(" OutGauge already enabled — no changes needed.\n\n");
        return Finding { says, next: Next::Nothing };
    }
    says.append("  proposed: ");
    says.append(proposed_settings(&settings).as_str());
    says.append("\n  ");
    says.append(style::warn(enabled));
    says.append(" close BeamNG before applying — a running game may overwrite the change.\n");
    let contents: Contents = if doc.can_set() {
        dialogue::text_contents(enable(&mut doc))
    } else {
        Contents::Impossible
    };
    Finding { says, next: Next::Ask(dialogue::plain_offer(enabled, contents, true)) }
}

/// The change lasts: whoever turns telemetry on finds it on the next time, and
/// there is nothing left to do. This is so where the document can be read back.
pub proof fn lemma_nothing_left_to_change(
    enabled: bool,
    path: Seq<char>,
    doc: Json,
    first: Finding,
    second: Finding,
)
    requires
        json::readable(doc),
        finding_for(enabled, path, doc, first),
        first.next is Ask,
        first.next->Ask_0.contents is Bytes,
        ({
            let written = first.next->Ask_0.contents->Bytes_0@;
            let read = json::parsed(vstd::utf8::decode_utf8(written));
            read is Ok ==> finding_for(enabled, path, read->Ok_0, second)
        }),
    ensures
        ({
            let written = first.next->Ask_0.contents->Bytes_0@;
            json::parsed(vstd::utf8::decode_utf8(written)) == Ok::<Json, Seq<char>>(
                with_telemetry(doc),
            )
        }),
        second.next is Nothing,
{
    json::lemma_member_stays_readable(
        doc,
        "protocols_outgauge_enabled"@,
        Json::Bool(true),
        127,
    );
    lemma_only_telemetry_changes(doc, "protocols_outgauge_enabled"@);
}

/// Whether a document says that telemetry is on.
pub open spec fn is_on(doc: Json) -> bool {
    doc.member("protocols_outgauge_enabled"@) == Some(Json::Bool(true))
}

/// Whether a document differs from another only in that telemetry is on.
pub open spec fn turned_on(before: Json, after: Json) -> bool {
    &&& is_on(after)
    &&& forall|key: Seq<char>|
        key != "protocols_outgauge_enabled"@ ==> #[trigger] after.member(key) == before.member(key)
}

/// Whether a finding does what a document calls for. Nothing is to be done exactly
/// where telemetry is on. Else there is an offer, for which the file is kept under
/// another name; and in the file that it writes, where that can be read back,
/// telemetry is on and all else is as it was.
pub open spec fn does_what_it_should(doc: Json, r: Finding) -> bool {
    &&& r.next is Nothing <==> is_on(doc)
    &&& !(r.next is Nothing) ==> r.next is Ask && r.next->Ask_0.backs_up
    &&& r.next is Ask ==> {
        let contents = r.next->Ask_0.contents;
        &&& contents is Impossible <==> !(doc is Object || doc is Null)
        &&& contents is Bytes && json::readable(doc) ==> {
            let read = json::parsed(vstd::utf8::decode_utf8(contents->Bytes_0@));
            read is Ok && turned_on(doc, read->Ok_0)
        }
    }
}

/// What is found about a document is what the document calls for.
pub proof fn lemma_finding_does_what_it_should(
    enabled: bool,
    path: Seq<char>,
    doc: Json,
    r: Finding,
)
    requires
        finding_for(enabled, path, doc, r),
    ensures
        does_what_it_should(doc, r),
{
    if !enabled_in(doc) && doc.takes_members() && json::readable(doc) {
        let key = "protocols_outgauge_enabled"@;
        let after = with_telemetry(doc);
        json::lemma_member_stays_readable(doc, key, Json::Bool(true), 127);
        lemma_only_telemetry_changes(doc, key);
        assert forall|other: Seq<char>| other != key implies #[trigger] after.member(other)
            == doc.member(other) by {
            lemma_only_telemetry_changes(doc, other);
        }
        assert(turned_on(doc, after));
    }
}

} // verus!
