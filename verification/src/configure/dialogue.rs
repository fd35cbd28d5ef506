//! The dialogue about one game: what to show, whether to ask, and what to write
//! once the answer is yes. Reading, printing and writing is up to the caller, who
//! reports what came of it.

use vstd::prelude::*;

use crate::configure;
use crate::configure::competizione;
use crate::configure::competizione::Probe;
use crate::configure::style;
use crate::json;
use crate::json::Json;
use crate::text;

verus! {

/// What was found where a game keeps its settings.
#[derive(Debug)]
pub enum Found<T> {
    /// The game has no directory yet.
    NeverLaunched,
    /// The file of this name is missing, or the directory of this name has none.
    Missing(String),
    /// The file could not be read for this reason.
    Unreadable(String),
    /// The name of the file, and what it holds.
    File(String, T),
}

/// What a file is to hold.
#[derive(Debug)]
pub enum Contents {
    Bytes(Vec<u8>),
    /// It could not be made for this reason.
    Fault(String),
    /// The file that was read has no place for the settings.
    Impossible,
}

impl Contents {
    /// Whether the settings have a place, and what the file then is to hold or what
    /// went wrong.
    pub open spec fn are(self, possible: bool, bytes: Result<Seq<u8>, Seq<char>>) -> bool {
        match self {
            Contents::Bytes(b) => possible && bytes == Ok::<Seq<u8>, Seq<char>>(b@),
            Contents::Fault(e) => possible && bytes == Err::<Seq<u8>, Seq<char>>(e@),
            Contents::Impossible => !possible,
        }
    }
}

/// A change that is offered.
#[derive(Debug)]
pub struct Offer {
    pub contents: Contents,
    /// Whether the file is kept under another name before it is written.
    pub backs_up: bool,
    /// What to show after a no.
    pub declined: String,
    /// What to show once the file is written.
    pub written: String,
    /// The password to ask the game for a registration with, after a no.
    pub probe: Option<String>,
}

impl Offer {
    /// What an offer says apart from the contents.
    pub open spec fn says(
        self,
        backs_up: bool,
        declined: Seq<char>,
        written: Seq<char>,
        probe: Option<Seq<char>>,
    ) -> bool {
        &&& self.backs_up == backs_up
        &&& self.declined@ == declined
        &&& self.written@ == written
        &&& text::optional_text(self.probe) == probe
    }
}

/// What to do about a game.
#[derive(Debug)]
pub enum Next {
    Nothing,
    /// Ask the game for a registration with this password.
    Probe(String),
    /// Report this failure.
    Fault(String),
    Ask(Offer),
}

/// What to show about a game, and what to do then.
#[derive(Debug)]
pub struct Finding {
    pub says: String,
    pub next: Next,
}

/// The name of a game, above what is shown about it.
pub open spec fn heading(enabled: bool, name: Seq<char>) -> Seq<char> {
    style::heading(enabled, name) + "\n"@
}

/// What is shown about a game without a directory.
pub open spec fn never_launched() -> Seq<char> {
    "  Installed but never launched — start the game once so it generates its config, then re-run.\n\n"@
}

/// What is shown of a file that was read: its name and its settings.
pub open spec fn shown(
    enabled: bool,
    name: Seq<char>,
    path: Seq<char>,
    current: Seq<char>,
) -> Seq<char> {
    heading(enabled, name) + "  config: "@ + path + "\n  current: "@ + current + "\n"@
}

/// What is shown once a file was written.
pub open spec fn written(enabled: bool) -> Seq<char> {
    "  "@ + style::ok_mark(enabled) + " written.\n\n"@
}

/// What is shown after a no.
pub open spec fn skipped() -> Seq<char> {
    "  skipped.\n\n"@
}

pub(crate) fn heading_text(enabled: bool, name: &str) -> (r: String)
    ensures
        r@ == heading(enabled, name@),
{
    let mut r: String = style::title(enabled, name);
    r.append("\n");
    r
}

pub(crate) fn shown_text(enabled: bool, name: &str, path: &str, current: &str) -> (r: String)
    ensures
        r@ == shown(enabled, name@, path@, current@),
{
    let mut r: String = heading_text(enabled, name);
    r.append("  config: ");
    r.append(path);
    r.append("\n  current: ");
    r.append(current);
    r.append("\n");
    r
}

/// An offer that asks nothing of the game after a no.
pub(crate) fn plain_offer(enabled: bool, contents: Contents, backs_up: bool) -> (r: Offer)
    ensures
        r.contents == contents,
        r.says(backs_up, skipped(), written(enabled), None),
{
    let mut done: String = "  ".to_owned();
    done.append(style::ok(enabled));
    done.append(" written.\n\n");
    Offer {
        contents,
        backs_up,
        declined: "  skipped.\n\n".to_owned(),
        written: done,
        probe: None,
    }
}

/// The name of a game and nothing else, before a failure is reported.
pub(crate) fn fault(enabled: bool, name: &str, error: String) -> (r: Finding)
    ensures
        r.says@ == heading(enabled, name@),
        r.next == Next::Fault(error),
{
    Finding { says: heading_text(enabled, name), next: Next::Fault(error) }
}

/// The bytes of a text, where it could be made.
pub open spec fn encoded(s: Result<Seq<char>, Seq<char>>) -> Result<Seq<u8>, Seq<char>> {
    match s {
        Ok(s) => Ok(vstd::utf8::encode_utf8(s)),
        Err(e) => Err(e),
    }
}

/// Whether the document is read back from what the file is to hold, where it can
/// be.
pub open spec fn reads_back(contents: Contents, doc: Json) -> bool {
    contents matches Contents::Bytes(b) ==> json::readable(doc) ==> json::parsed(
        vstd::utf8::decode_utf8(b@),
    ) == Ok::<Json, Seq<char>>(doc)
}

pub(crate) fn text_contents(made: Result<String, String>) -> (r: Contents)
    ensures
        match made {
            Ok(s) => r is Bytes && r.are(true, Ok(vstd::utf8::encode_utf8(s@)))
                && vstd::utf8::decode_utf8(r->Bytes_0@) == s@,
            Err(e) => r.are(true, Err(e@)),
        },
{
    match made {
        Ok(s) => {
            proof {
                vstd::utf8::encode_utf8_decode_utf8(s@);
            }
            Contents::Bytes(text::bytes_of(s.as_str()))
        },
        Err(e) => Contents::Fault(e),
    }
}

/// How far the dialogue is.
#[derive(Debug)]
pub enum Stage {
    Opening(Finding),
    /// An answer is awaited.
    Asking(Offer),
    /// The file is being kept under another name. The contents to write then, and
    /// what to show after that.
    BackingUp(Vec<u8>, String),
    /// The file is being written. What to show after that.
    Saving(String),
    /// The game is being asked for a registration.
    Probing,
    Over,
}

/// What came of the last action.
#[derive(Debug)]
pub enum Event {
    Begin,
    /// This line was typed.
    Answered(String),
    /// The file is kept under this name, or there was none to keep.
    BackedUp(Option<String>),
    Saved,
    Probed(Probe),
    /// The last action could not be done for this reason.
    Failed(String),
}

/// What to do next. The first text, if any, is to be shown before that.
#[derive(Debug)]
pub enum Action {
    /// Read a line; answer with `Answered`.
    Ask(String),
    /// Keep the file under another name; answer with `BackedUp`.
    BackUp,
    /// Write the file; answer with `Saved`.
    Save(String, Vec<u8>),
    /// Ask the game for a registration with a password; answer with `Probed`.
    Probe(String, String),
    /// End the dialogue.
    Finish(String),
    /// End the dialogue with a failure.
    Fail(String, String),
}

/// The line that comes before an answer.
pub open spec fn prompt() -> Seq<char> {
    "  Apply? [y/N] "@
}

/// The line that names a file that was kept.
pub open spec fn backup_line(kept: Option<Seq<char>>) -> Seq<char> {
    match kept {
        Some(path) => "  backup: "@ + path + "\n"@,
        None => Seq::empty(),
    }
}

/// Whether the dialogue goes from one stage to another by an action when an
/// event comes.
pub open spec fn goes(
    enabled: bool,
    stage: Stage,
    event: Event,
    next: Stage,
    action: Action,
) -> bool {
    match (stage, event) {
        (Stage::Opening(finding), _) => match (finding.next, action) {
            (Next::Nothing, Action::Finish(says)) => next is Over && says@ == finding.says@,
            (Next::Probe(password), Action::Probe(says, with)) => next is Probing && says@
                == finding.says@ + competizione::probing_line() && with@ == password@,
            (Next::Fault(error), Action::Fail(says, why)) => next is Over && says@
                == finding.says@ && why@ == error@,
            (Next::Ask(offer), Action::Ask(says)) => next == Stage::Asking(offer) && says@
                == finding.says@ + prompt(),
            _ => false,
        },
        (_, Event::Failed(error)) => next is Over && (action matches Action::Fail(says, why)
            && says@.len() == 0 && why@ == error@),
        (Stage::Asking(offer), Event::Answered(line)) => if configure::says_yes(
            text::trimmed(line@),
        ) {
            match (offer.contents, action) {
                (Contents::Bytes(b), Action::BackUp) => offer.backs_up && next
                    == Stage::BackingUp(b, offer.written),
                (Contents::Bytes(b), Action::Save(says, bytes)) => !offer.backs_up && next
                    == Stage::Saving(offer.written) && says@.len() == 0 && bytes@ == b@,
                (Contents::Fault(error), Action::Fail(says, why)) => next is Over
                    && says@.len() == 0 && why@ == error@,
                _ => false,
            }
        } else {
            match (offer.probe, action) {
                (Some(password), Action::Probe(says, with)) => next is Probing && says@
                    == offer.declined@ + competizione::probing_line() && with@ == password@,
                (None, Action::Finish(says)) => next is Over && says@ == offer.declined@,
                _ => false,
            }
        },
        (Stage::BackingUp(b, written), Event::BackedUp(kept)) => next == Stage::Saving(written)
            && (action matches Action::Save(says, bytes) && says@ == backup_line(
            text::optional_text(kept),
        ) && bytes@ == b@),
        (Stage::Saving(written), _) => next is Over && (action matches Action::Finish(says)
            && says@ == written@),
        (Stage::Probing, Event::Probed(probe)) => next is Over && (action matches Action::Finish(
            says,
        ) && says@ == competizione::probe_report(enabled, probe)),
        _ => next is Over && (action matches Action::Finish(says) && says@.len() == 0),
    }
}

/// Whether an event can follow the last action. A yes cannot where the file that
/// was read has no place for the settings.
pub open spec fn fits(stage: Stage, event: Event) -> bool {
    match (stage, event) {
        (Stage::Opening(_), Event::Begin) => true,
        (Stage::Asking(offer), Event::Answered(line)) => configure::says_yes(text::trimmed(line@))
            ==> !(offer.contents is Impossible),
        (Stage::Asking(_), Event::Failed(_)) => true,
        (Stage::BackingUp(_, _), Event::BackedUp(_)) => true,
        (Stage::BackingUp(_, _), Event::Failed(_)) => true,
        (Stage::Saving(_), Event::Saved) => true,
        (Stage::Saving(_), Event::Failed(_)) => true,
        (Stage::Probing, Event::Probed(_)) => true,
        _ => false,
    }
}

/// Whether a line that was typed can be taken in.
pub fn takes_answer(stage: &Stage, line: &str) -> (r: bool)
    ensures
        r == match stage {
            Stage::Asking(offer) => configure::says_yes(text::trimmed(line@))
                ==> !(offer.contents is Impossible),
            _ => false,
        },
{
    match stage {
        Stage::Asking(offer) => !configure::confirmed(line) || match &offer.contents {
            Contents::Impossible => false,
            _ => true,
        },
        _ => false,
    }
}

fn followed_by(head: &str, tail: &str) -> (r: String)
    ensures
        r@ == head@ + tail@,
{
    let mut r: String = head.to_owned();
    r.append(tail);
    r
}

/// Takes in what came of the last action and decides on the next one.
pub fn step(enabled: bool, stage: Stage, event: Event) -> (r: (Stage, Action))
    requires
        fits(stage, event),
    ensures
        goes(enabled, stage, event, r.0, r.1),
{
    match (stage, event) {
        (Stage::Opening(finding), _) => {
            let says: String = finding.says;
            match finding.next {
                Next::Nothing => (Stage::Over, Action::Finish(says)),
                Next::Probe(password) => (
                    Stage::Probing,
                    Action::Probe(
                        followed_by(says.as_str(), competizione::probing().as_str()),
                        password,
                    ),
                ),
                Next::Fault(error) => (Stage::Over, Action::Fail(says, error)),
                Next::Ask(offer) => (
                    Stage::Asking(offer),
                    Action::Ask(followed_by(says.as_str(), "  Apply? [y/N] ")),
                ),
            }
        },
        (_, Event::Failed(error)) => (Stage::Over, Action::Fail(String::new(), error)),
        (Stage::Asking(offer), Event::Answered(line)) => {
            if configure::confirmed(line.as_str()) {
                match offer.contents {
                    Contents::Bytes(b) => {
                        if offer.backs_up {
                            (Stage::BackingUp(b, offer.written), Action::BackUp)
                        } else {
                            (Stage::Saving(offer.written), Action::Save(String::new(), b))
                        }
                    },
                    Contents::Fault(error) => (Stage::Over, Action::Fail(String::new(), error)),
                    Contents::Impossible => {
                        assert(false);
                        (Stage::Over, Action::Finish(String::new()))
                    },
                }
            } else {
                match offer.probe {
                    Some(password) => (
                        Stage::Probing,
                        Action::Probe(
                            followed_by(offer.declined.as_str(), competizione::probing().as_str()),
                            password,
                        ),
                    ),
                    None => (Stage::Over, Action::Finish(offer.declined)),
                }
            }
        },
        (Stage::BackingUp(b, written), Event::BackedUp(kept)) => {
            let says: String = match kept {
                Some(path) => {
                    let mut line: String = "  backup: ".to_owned();
                    line.append(path.as_str());
                    line.append("\n");
                    line
                },
                None => String::new(),
            };
            (Stage::Saving(written), Action::Save(says, b))
        },
        (Stage::Saving(written), _) => (Stage::Over, Action::Finish(written)),
        (Stage::Probing, Event::Probed(probe)) => (
            Stage::Over,
            Action::Finish(competizione::report_acc_probe(enabled, &probe)),
        ),
        _ => (Stage::Over, Action::Finish(String::new())),
    }
}

/// Whether the stages, events and actions are those of one dialogue.
pub open spec fn dialogue(
    enabled: bool,
    stages: Seq<Stage>,
    events: Seq<Event>,
    actions: Seq<Action>,
) -> bool {
    &&& stages.len() == events.len() + 1
    &&& actions.len() == events.len()
    &&& stages[0] is Opening
    &&& forall|i: int|
        #![trigger events[i]]
        0 <= i < events.len() ==> fits(stages[i], events[i]) && goes(
            enabled,
            stages[i],
            events[i],
            stages[i + 1],
            actions[i],
        )
}

/// Whether an answer was a yes to this offer.
pub open spec fn agreed(stage: Stage, event: Event, offer: Offer) -> bool {
    &&& stage == Stage::Asking(offer)
    &&& event matches Event::Answered(line) && configure::says_yes(text::trimmed(line@))
}

/// Nothing is written without a yes: when a file is to be written, the game's
/// offer was to write just that, the answer was yes, and where the offer was to
/// keep the file first, it has been kept.
pub proof fn lemma_nothing_is_written_unasked(
    enabled: bool,
    stages: Seq<Stage>,
    events: Seq<Event>,
    actions: Seq<Action>,
    n: int,
)
    requires
        dialogue(enabled, stages, events, actions),
        0 <= n < events.len(),
        actions[n] is Save,
    ensures
        exists|i: int, offer: Offer|
            #![trigger agreed(stages[i], events[i], offer)]
            {
                &&& 0 <= i <= n
                &&& agreed(stages[i], events[i], offer)
                &&& offer.contents matches Contents::Bytes(b) && b@ == actions[n]->Save_1@
                &&& offer.backs_up ==> i < n && actions[i] is BackUp && events[n] is BackedUp
                &&& stages[0]->Opening_0.next == Next::Ask(offer)
            },
{
    assert(fits(stages[n], events[n]));
    assert(fits(stages[0], events[0]));
    if let Stage::Asking(offer) = stages[n] {
        lemma_asked_at_once(enabled, stages, events, actions, n);
        assert(agreed(stages[n], events[n], offer));
    } else {
        assert(stages[n] is BackingUp);
        assert(fits(stages[n - 1], events[n - 1]));
        assert(goes(enabled, stages[n - 1], events[n - 1], stages[n], actions[n - 1]));
        let offer = stages[n - 1]->Asking_0;
        lemma_asked_at_once(enabled, stages, events, actions, n - 1);
        assert(agreed(stages[n - 1], events[n - 1], offer));
    }
}

/// An answer is awaited only after what was found was shown, for the offer that
/// comes with it.
proof fn lemma_asked_at_once(
    enabled: bool,
    stages: Seq<Stage>,
    events: Seq<Event>,
    actions: Seq<Action>,
    n: int,
)
    requires
        dialogue(enabled, stages, events, actions),
        0 <= n < events.len(),
        stages[n] is Asking,
    ensures
        n == 1,
        stages[0]->Opening_0.next == Next::Ask(stages[n]->Asking_0),
{
    assert(fits(stages[n - 1], events[n - 1]));
    assert(goes(enabled, stages[n - 1], events[n - 1], stages[n], actions[n - 1]));
    if n > 1 {
        assert(fits(stages[n - 2], events[n - 2]));
        assert(goes(enabled, stages[n - 2], events[n - 2], stages[n - 1], actions[n - 2]));
    }
}

/// Every dialogue ends: after at most four actions there is nothing left to do.
pub proof fn lemma_dialogue_ends(
    enabled: bool,
    stages: Seq<Stage>,
    events: Seq<Event>,
    actions: Seq<Action>,
)
    requires
        dialogue(enabled, stages, events, actions),
    ensures
        events.len() <= 4,
{
    if events.len() > 4 {
        assert(fits(stages[0], events[0]));
        assert(goes(enabled, stages[0], events[0], stages[1], actions[0]));
        assert(fits(stages[1], events[1]));
        assert(goes(enabled, stages[1], events[1], stages[2], actions[1]));
        assert(fits(stages[2], events[2]));
        assert(goes(enabled, stages[2], events[2], stages[3], actions[2]));
        assert(fits(stages[3], events[3]));
        assert(goes(enabled, stages[3], events[3], stages[4], actions[3]));
        assert(fits(stages[4], events[4]));
    }
}

/// A yes is carried out: the file is written with just what was offered, at once
/// or, where the offer was to keep the file first, as soon as it has been kept; and
/// once it is written, that is shown. Anything but a yes writes nothing and keeps
/// nothing.
pub proof fn lemma_answers_are_heeded(
    enabled: bool,
    stages: Seq<Stage>,
    events: Seq<Event>,
    actions: Seq<Action>,
    i: int,
)
    requires
        dialogue(enabled, stages, events, actions),
        0 <= i < events.len(),
        stages[i] is Asking,
        events[i] is Answered,
    ensures
        ({
            let offer = stages[i]->Asking_0;
            let yes = configure::says_yes(text::trimmed(events[i]->Answered_0@));
            &&& stages[0]->Opening_0.next == Next::Ask(offer)
            &&& yes && offer.contents is Bytes ==> {
                let b = offer.contents->Bytes_0@;
                let saving = if offer.backs_up {
                    i + 1
                } else {
                    i
                };
                &&& offer.backs_up ==> actions[i] is BackUp
                &&& saving < events.len() && !(events[saving] is Failed)
                    ==> actions[saving] is Save && actions[saving]->Save_1@ == b
                &&& saving + 1 < events.len() && !(events[saving] is Failed)
                    && events[saving + 1] is Saved ==> actions[saving + 1] is Finish
                    && actions[saving + 1]->Finish_0@ == offer.written@
            }
            &&& !yes ==> {
                &&& actions[i] is Finish <==> offer.probe is None
                &&& actions[i] is Probe <==> offer.probe is Some
                &&& actions[i] matches Action::Probe(_, with) ==> with@ == (offer.probe->0)@
            }
        }),
{
    lemma_asked_at_once(enabled, stages, events, actions, i);
    assert(fits(stages[0], events[0]));
    assert(goes(enabled, stages[0], events[0], stages[1], actions[0]));
    assert(fits(stages[i], events[i]));
    assert(goes(enabled, stages[i], events[i], stages[i + 1], actions[i]));
    if i + 1 < events.len() {
        assert(fits(stages[i + 1], events[i + 1]));
        assert(goes(enabled, stages[i + 1], events[i + 1], stages[i + 2], actions[i + 1]));
    }
    if i + 2 < events.len() {
        assert(fits(stages[i + 2], events[i + 2]));
        assert(goes(enabled, stages[i + 2], events[i + 2], stages[i + 3], actions[i + 2]));
    }
}

} // verus!
