//! Wreckfest 2: a JSON settings file with an array `udp`, whose first element
//! turns telemetry on.

use vstd::prelude::*;

use crate::configure::dialogue;
use crate::configure::dialogue::{Contents, Finding, Found, Next};
use crate::configure::style;
use crate::configure::Game;
use crate::json;
use crate::json::{Document, Figure, Json};
use crate::text;

verus! {

/// The current settings.
#[derive(Debug)]
pub struct Settings {
    pub enabled: i64,
    pub port: Option<String>,
}

/// What is to be done with a settings file.
#[derive(Debug)]
pub enum Plan {
    /// Nothing: it has no `udp` array.
    NoArray,
    /// Nothing: telemetry is on.
    Enabled(Settings),
    /// Telemetry is to be turned on.
    Enable(Settings),
}

/// The number that turns telemetry on: zero where there is none.
pub open spec fn enabled_in(block: Json) -> int {
    match block.member("enabled"@) {
        Some(m) => match m.whole() {
            Some(n) => n,
            None => 0,
        },
        None => 0,
    }
}

/// The port, where it is given as text.
pub open spec fn port_in(block: Json) -> Option<Seq<char>> {
    match block.member("port"@) {
        Some(Json::Text(s)) => Some(s),
        _ => None,
    }
}

/// The document with telemetry turned on.
pub open spec fn with_telemetry(doc: Json) -> Json {
    match doc.entry("udp"@, 0) {
        Some(block) => doc.with_entry(
            "udp"@,
            0,
            block.with_member("enabled"@, Json::Number(Figure::Whole(1))),
        ),
        None => doc,
    }
}

/// What is to be done with a settings file.
pub fn plan(doc: &Document) -> (r: Plan)
    ensures
        r is NoArray <==> doc@.entry("udp"@, 0) is None,
        r is Enabled ==> enabled_in(doc@.entry("udp"@, 0)->0) == 1,
        r is Enable ==> enabled_in(doc@.entry("udp"@, 0)->0) != 1,
        match r {
            Plan::NoArray => true,
            Plan::Enabled(s) | Plan::Enable(s) => {
                let block = doc@.entry("udp"@, 0)->0;
                s.enabled == enabled_in(block) && text::optional_text(s.port) == port_in(block)
            },
        },
{
    if !doc.has_entry("udp", 0) {
        return Plan::NoArray;
    }
    let enabled: i64 = match doc.entry_whole("udp", 0, "enabled") {
        Some(n) => n,
        None => 0,
    };
    let port: Option<String> = doc.entry_text("udp", 0, "port");
    let settings = Settings { enabled, port };
    if enabled == 1 {
        Plan::Enabled(settings)
    } else {
        Plan::Enable(settings)
    }
}

/// Whether telemetry can be turned on: the first element of `udp` takes members.
pub fn can_enable(doc: &Document) -> (r: bool)
    ensures
        r == (doc@.entry("udp"@, 0) is Some && (doc@.entry("udp"@, 0)->0).takes_members()),
{
    doc.can_set_entry("udp", 0)
}

/// Turns telemetry on. The new text of the file, or what went wrong.
pub fn enable(doc: &mut Document) -> (r: Result<String, String>)
    requires
        old(doc)@.entry("udp"@, 0) is Some,
        (old(doc)@.entry("udp"@, 0)->0).takes_members(),
    ensures
        final(doc)@ == with_telemetry(old(doc)@),
        match r {
            Ok(s) => {
                &&& json::pretty_text(final(doc)@) == Ok::<Seq<char>, Seq<char>>(s@)
                &&& json::readable(final(doc)@) ==> json::parsed(s@) == Ok::<Json, Seq<char>>(
                    final(doc)@,
                )
            },
            Err(e) => json::pretty_text(final(doc)@) == Err::<Seq<char>, Seq<char>>(e@),
        },
{
    doc.set_entry_whole("udp", 0, "enabled", 1);
    doc.to_pretty()
}

/// After the change telemetry is on, and nothing else has changed: neither the
/// port nor any other member of the first element, nor any other member of the
/// document.
pub proof fn lemma_only_telemetry_changes(doc: Json, other: Seq<char>)
    requires
        doc.entry("udp"@, 0) is Some,
        (doc.entry("udp"@, 0)->0).takes_members(),
    ensures
        with_telemetry(doc).entry("udp"@, 0) is Some,
        ({
            let before = doc.entry("udp"@, 0)->0;
            let after = with_telemetry(doc).entry("udp"@, 0)->0;
            &&& enabled_in(after) == 1
            &&& port_in(after) == port_in(before)
            &&& other != "enabled"@ ==> after.member(other) == before.member(other)
        }),
        other != "udp"@ ==> with_telemetry(doc).member(other) == doc.member(other),
{
    let before = doc.entry("udp"@, 0)->0;
    let one = Json::Number(Figure::Whole(1));
    let after = before.with_member("enabled"@, one);
    json::lemma_set_member(before, "enabled"@, one, other);
    json::lemma_set_member(before, "enabled"@, one, "port"@);
    json::lemma_set_entry(doc, "udp"@, 0, after, other);
    reveal_strlit("port");
    reveal_strlit("enabled");
    assert("port"@.len() != "enabled"@.len());
}

/// A description of settings.
pub open spec fn current_text(enabled: int, port: Option<Seq<char>>) -> Seq<char> {
    "enabled="@ + text::signed_decimal(enabled) + ", port="@ + text::or_unknown(port)
}

/// A description of the change.
pub open spec fn proposed_text(port: Option<Seq<char>>) -> Seq<char> {
    "enabled=1 (port unchanged at "@ + text::or_unknown(port) + ")"@
}

/// A description of the current settings.
pub fn current_settings(settings: &Settings) -> (r: String)
    ensures
        r@ == current_text(settings.enabled as int, text::optional_text(settings.port)),
{
    let mut r: String = "enabled=".to_owned();
    text::push_i64(&mut r, settings.enabled);
    r.append(", port=");
    text::push_or_unknown(&mut r, &settings.port);
    r
}

/// A description of the change.
pub fn proposed_settings(settings: &Settings) -> (r: String)
    ensures
        r@ == proposed_text(text::optional_text(settings.port)),
{
    let mut r: String = "enabled=1 (port unchanged at ".to_owned();
    text::push_or_unknown(&mut r, &settings.port);
    r.append(")");
    r
}

/// Whether this is what is to be shown and done about a file that holds a
/// document: nothing without a `udp` array and nothing where telemetry is on,
/// else the offer to turn it on.
pub open spec fn finding_for(enabled: bool, path: Seq<char>, doc: Json, r: Finding) -> bool {
    let name = Game::Wreckfest2.called();
    match doc.entry("udp"@, 0) {
        None => {
            &&& r.next is Nothing
            &&& r.says@ == dialogue::heading(enabled, name)
                + "  config.json doesn't have the expected `udp` array — leaving it alone.\n\n"@
        },
        Some(block) => {
            let shown = dialogue::shown(
                enabled,
                name,
                path,
                current_text(enabled_in(block), port_in(block)),
            );
            if enabled_in(block) == 1 {
                &&& r.next is Nothing
                &&& r.says@ == shown + "  "@ + style::ok_mark(enabled)
                    + " telemetry already enabled — no changes needed.\n\n"@
            } else {
                &&& r.says@ == shown + "  proposed: "@ + proposed_text(port_in(block)) + "\n"@
                &&& r.next matches Next::Ask(offer) && offer.says(
                    true,
                    dialogue::skipped(),
                    dialogue::written(enabled),
                    None,
                ) && offer.contents.are(
                    block.takes_members(),
                    dialogue::encoded(json::pretty_text(with_telemetry(doc))),
                ) && dialogue::reads_back(offer.contents, with_telemetry(doc))
            }
        },
    }
}

/// What to show and do about the game, given what was found where it keeps its
/// settings.
pub fn handle_wf2(enabled: bool, found: Found<String>) -> (r: Finding)
    ensures
        match found {
            Found::NeverLaunched => r.next is Nothing && r.says@ == dialogue::heading(
                enabled,
                Game::Wreckfest2.called(),
            ) + dialogue::never_launched(),
            Found::Missing(docs) => r.next is Nothing && r.says@ == dialogue::heading(
                enabled,
                Game::Wreckfest2.called(),
            ) + "  Couldn't locate telemetry/config.json under "@ + docs@ + ".\n\n"@,
            Found::Unreadable(error) => r.next == Next::Fault(error) && r.says@
                == dialogue::heading(enabled, Game::Wreckfest2.called()),
            Found::File(path, raw) => match json::parsed(raw@) {
                Err(error) => r.says@ == dialogue::heading(enabled, Game::Wreckfest2.called()) && (
                r.next matches Next::Fault(e) && e@ == error),
                Ok(doc) => finding_for(enabled, path@, doc, r),
            },
        },
        found matches Found::File(_, raw) ==> match json::parsed(raw@) {
            Ok(doc) => does_what_it_should(doc, r),
            Err(_) => r.next is Fault,
        },
        !(found is File) ==> !(r.next is Ask),
{
    let name: &'static str = Game::Wreckfest2.name();
    match found {
        Found::NeverLaunched => {
            let mut says: String = dialogue::heading_text(enabled, name);
            says.append(
                "  Installed but never launched — start the game once so it generates its config, then re-run.\n\n",
            );
            Finding { says, next: Next::Nothing }
        },
        Found::Missing(docs) => {
            let mut says: String = dialogue::heading_text(enabled, name);
            says.append("  Couldn't locate telemetry/config.json under ");
            says.append(docs.as_str());
            says.append(".\n\n");
            Finding { says, next: Next::Nothing }
        },
        Found::Unreadable(error) => dialogue::fault(enabled, name, error),
        Found::File(path, raw) => match Document::parse(raw.as_str()) {
            Ok(doc) => offer_telemetry(enabled, path.as_str(), doc),
            Err(error) => dialogue::fault(enabled, name, error),
        },
    }
}

fn offer_telemetry(enabled: bool, path: &str, doc: Document) -> (r: Finding)
    ensures
        finding_for(enabled, path@, doc@, r),
        does_what_it_should(doc@, r),
{
    let ghost held = doc@;
    let r: Finding = find_telemetry(enabled, path, doc);
    proof {
        lemma_finding_does_what_it_should(enabled, path@, held, r);
    }
    r
}

fn find_telemetry(enabled: bool, path: &str, doc: Document) -> (r: Finding)
    ensures
        finding_for(enabled, path@, doc@, r),
{
    let mut doc: Document = doc;
    let name: &'static str = Game::Wreckfest2.name();
    match plan(&doc) {
        Plan::NoArray => {
            let mut says: String = dialogue::heading_text(enabled, name);
            says.append(
                "  config.json doesn't have the expected `udp` array — leaving it alone.\n\n",
            );
            Finding { says, next: Next::Nothing }
        },
        Plan::Enabled(settings) => {
            let current: String = current_settings(&settings);
            let mut says: String = dialogue::shown_text(enabled, name, path, current.as_str());
            says.append("  ");
            says.append(style::ok(enabled));
            says.append(" telemetry already enabled — no changes needed.\n\n");
            Finding { says, next: Next::Nothing }
        },
        Plan::Enable(settings) => {
            let current: String = current_settings(&settings);
            let mut says: String = dialogue::shown_text(enabled, name, path, current.as_str());
            says.append("  proposed: ");
            says.append(proposed_settings(&settings).as_str());
            says.append("\n");
            let contents: Contents = if can_enable(&doc) {
                dialogue::text_contents(enable(&mut doc))
            } else {
                Contents::Impossible
            };
            Finding { says, next: Next::Ask(dialogue::plain_offer(enabled, contents, true)) }
        },
    }
}

/// The change lasts: whoever turns telemetry on finds it on the next time, and
/// there is nothing left to do. This is so where the document can be read back.
pub proof fn lemma_nothing_left_to_change(
    enabled: bool,
    path: Seq<char>,
    doc: Json,
    first: Finding,
    second: Finding,
)
    requires
        json::readable(doc),
        finding_for(enabled, path, doc, first),
        first.next is Ask,
        first.next->Ask_0.contents is Bytes,
        ({
            let written = first.next->Ask_0.contents->Bytes_0@;
            let read = json::parsed(vstd::utf8::decode_utf8(written));
            read is Ok ==> finding_for(enabled, path, read->Ok_0, second)
        }),
    ensures
        ({
            let written = first.next->Ask_0.contents->Bytes_0@;
            json::parsed(vstd::utf8::decode_utf8(written)) == Ok::<Json, Seq<char>>(
                with_telemetry(doc),
            )
        }),
        second.next is Nothing,
{
    let one = Json::Number(Figure::Whole(1));
    json::lemma_entry_stays_readable(doc, "udp"@, 0, "enabled"@, one, 127);
    lemma_only_telemetry_changes(doc, "enabled"@);
}

/// Whether the first element of a document's `udp` array says that telemetry is on.
pub open spec fn is_on(doc: Json) -> bool {
    &&& doc.entry("udp"@, 0) is Some
    &&& (doc.entry("udp"@, 0)->0).member("enabled"@) is Some
    &&& ((doc.entry("udp"@, 0)->0).member("enabled"@)->0).whole() == Some(1int)
}

/// Whether a document differs from another only in that telemetry is on.
pub open spec fn turned_on(before: Json, after: Json) -> bool {
    &&& is_on(after)
    &&& forall|key: Seq<char>|
        key != "udp"@ ==> #[trigger] after.member(key) == before.member(key)
    &&& forall|key: Seq<char>|
        key != "enabled"@ ==> #[trigger] (after.entry("udp"@, 0)->0).member(key) == (before.entry(
            "udp"@,
            0,
        )->0).member(key)
}

/// Whether a finding does what a document calls for. Without a `udp` array there is
/// nothing to do. With one, nothing is to be done exactly where telemetry is on.
/// Else there is an offer, for which the file is kept under another name; and in the
/// file that it writes, where that can be read back, telemetry is on and all else
/// is as it was.
pub open spec fn does_what_it_should(doc: Json, r: Finding) -> bool {
    match doc.entry("udp"@, 0) {
        None => r.next is Nothing,
        Some(block) => {
            &&& r.next is Nothing <==> is_on(doc)
            &&& !(r.next is Nothing) ==> r.next is Ask && r.next->Ask_0.backs_up
            &&& r.next is Ask ==> {
                let contents = r.next->Ask_0.contents;
                &&& contents is Impossible <==> !(block is Object || block is Null)
                &&& contents is Bytes && json::readable(doc) ==> {
                    let read = json::parsed(vstd::utf8::decode_utf8(contents->Bytes_0@));
                    read is Ok && turned_on(doc, read->Ok_0)
                }
            }
        },
    }
}

/// What is found about a document is what the document calls for.
pub proof fn lemma_finding_does_what_it_should(
    enabled: bool,
    path: Seq<char>,
    doc: Json,
    r: Finding,
)
    requires
        finding_for(enabled, path, doc, r),
    ensures
        does_what_it_should(doc, r),
{
    if let Some(block) = doc.entry("udp"@, 0) {
        if enabled_in(block) != 1 && block.takes_members() && json::readable(doc) {
            let one = Json::Number(Figure::Whole(1));
            let after = with_telemetry(doc);
            json::lemma_entry_stays_readable(doc, "udp"@, 0, "enabled"@, one, 127);
            lemma_only_telemetry_changes(doc, "enabled"@);
            json::lemma_set_member(block, "enabled"@, one, "enabled"@);
            assert forall|key: Seq<char>| key != "udp"@ implies #[trigger] after.member(key)
                == doc.member(key) by {
                lemma_only_telemetry_changes(doc, key);
            }
            assert forall|key: Seq<char>| key != "enabled"@ implies #[trigger] (after.entry(
                "udp"@,
                0,
            )->0).member(key) == block.member(key) by {
                lemma_only_telemetry_changes(doc, key);
            }
            assert(turned_on(doc, after));
        }
    }
}

} // verus!
