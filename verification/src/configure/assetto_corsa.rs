//! Assetto Corsa: its telemetry needs no settings. Where its launcher fails, the
//! game can be started directly if a file with its number lies next to it.

use vstd::prelude::*;

use crate::assetto_corsa;
use crate::configure;
use crate::configure::dialogue;
use crate::configure::dialogue::{Contents, Finding, Next};
use crate::configure::style;
use crate::configure::Game;
use crate::text;

verus! {

/// What was found where the game is installed.
#[derive(Debug)]
pub enum Install {
    /// Its directory was not found.
    Unknown,
    /// The file of this name is there.
    Present(String),
    /// The file of this name is not there.
    Absent(String),
}

/// What is shown about the game first.
pub open spec fn introduction(enabled: bool) -> Seq<char> {
    dialogue::heading(enabled, Game::AssettoCorsa.called())
        + "  UDP telemetry needs no in-game setup — port "@ + text::decimal(
        assetto_corsa::DEFAULT_PORT as nat,
    ) + " is always listening\n  once a session is loaded.\n"@
}

/// What is shown about the file before it is offered.
pub open spec fn explanation() -> Seq<char> {
    "  AC's stock launcher (AssettoCorsa.exe) often fails on current Wine/Proton with\n  a CEF3/.NET assembly load error. Workaround: add acs.exe as a non-Steam game\n  forced to a stable Proton. That direct launch then needs a steam_appid.txt\n  next to the binary, or acs.exe exits ~2s after start with no error message.\n"@
}

/// What to show and do about the game, given what was found where it is
/// installed.
pub fn handle_ac(enabled: bool, install: Install) -> (r: Finding)
    ensures
        match install {
            Install::Unknown => r.next is Nothing && r.says@ == introduction(enabled)
                + "  Couldn't locate install directory.\n\n"@,
            Install::Present(path) => r.next is Nothing && r.says@ == introduction(enabled) + "  "@
                + style::ok_mark(enabled) + " steam_appid.txt present at "@ + path@
                + " — direct acs.exe launches will work.\n\n"@,
            Install::Absent(path) => {
                &&& r.says@ == introduction(enabled) + explanation() + "  proposed: write \""@
                    + Game::AssettoCorsa.number() + "\" to "@ + path@ + "\n"@
                &&& r.next matches Next::Ask(offer) && offer.says(
                    false,
                    dialogue::skipped(),
                    dialogue::written(enabled),
                    None,
                ) && offer.contents.are(
                    true,
                    Ok(vstd::utf8::encode_utf8(Game::AssettoCorsa.number() + "\n"@)),
                )
            },
        },
        r.next is Ask <==> install is Absent,
        install is Absent ==> r.next->Ask_0.contents.are(
            true,
            Ok(vstd::utf8::encode_utf8("244210\n"@)),
        ),
{
    proof {
        reveal_strlit("244210");
        reveal_strlit("\n");
        reveal_strlit("244210\n");
        assert("244210"@ + "\n"@ =~= "244210\n"@);
    }
    let mut says: String = dialogue::heading_text(enabled, Game::AssettoCorsa.name());
    says.append("  UDP telemetry needs no in-game setup — port ");
    text::push_u64(&mut says, assetto_corsa::DEFAULT_PORT as u64);
    says.append(" is always listening\n  once a session is loaded.\n");
    match install {
        Install::Unknown => {
            says.append("  Couldn't locate install directory.\n\n");
            Finding { says, next: Next::Nothing }
        },
        Install::Present(path) => {
            says.append("  ");
            says.append(style::ok(enabled));
            says.append(" steam_appid.txt present at ");
            says.append(path.as_str());
            says.append(" — direct acs.exe launches will work.\n\n");
            Finding { says, next: Next::Nothing }
        },
        Install::Absent(path) => {
            says.append(
                "  AC's stock launcher (AssettoCorsa.exe) often fails on current Wine/Proton with\n  a CEF3/.NET assembly load error. Workaround: add acs.exe as a non-Steam game\n  forced to a stable Proton. That direct launch then needs a steam_appid.txt\n  next to the binary, or acs.exe exits ~2s after start with no error message.\n",
            );
            says.append("  proposed: write \"");
            says.append(Game::AssettoCorsa.app_id());
            says.append("\" to ");
            says.append(path.as_str());
            says.append("\n");
            let contents: Contents = Contents::Bytes(
                text::bytes_of(configure::steam_appid_text().as_str()),
            );
            Finding { says, next: Next::Ask(dialogue::plain_offer(enabled, contents, false)) }
        },
    }
}

} // verus!
