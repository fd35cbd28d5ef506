//! Automobilista 2: its settings are encrypted, so they can only be explained.
//! What can be found out is whether its broadcasts come back to this machine.

use vstd::prelude::*;

use crate::configure::dialogue;
use crate::configure::style;
use crate::configure::Game;
use crate::madness;
use crate::text;

verus! {

/// What is known about broadcasts from this machine.
#[derive(Debug)]
pub enum Loopback {
    /// They come back.
    Works,
    /// They do not.
    Fails,
    /// It could not be found out for this reason.
    Unclear(String),
}

/// What is shown about the game's settings.
pub open spec fn introduction(enabled: bool) -> Seq<char> {
    dialogue::heading(enabled, Game::Automobilista2.called()) + "  Has UDP telemetry on port "@
        + text::decimal(madness::DEFAULT_PORT as nat)
        + " using the Project CARS 2 format.\n  In game: Options → System → UDP Protocol Version: Project CARS 2,\n                              UDP Frequency: 1+\n  (Settings live in encrypted .sav files; can't auto-edit.)\n"@
}

/// What is shown about broadcasts.
pub open spec fn outcome(enabled: bool, loopback: Loopback) -> Seq<char> {
    let port = text::decimal(madness::DEFAULT_PORT as nat);
    match loopback {
        Loopback::Works => "  "@ + style::ok_mark(enabled) + " broadcast loopback works on port "@
            + port + " — game traffic will reach moza-rev.\n"@,
        Loopback::Fails => "  "@ + style::cross_mark(enabled)
            + " broadcast loopback NOT working on port "@ + port
            + " — game traffic won't reach moza-rev.\n    Linux doesn't loop limited-broadcast (255.255.255.255) to local sockets.\n    Apply this iptables NAT redirect (one-time, reversible with -D):\n      sudo iptables -t nat -I OUTPUT -p udp -d 255.255.255.255 --dport "@
            + port + " \\\n        -j DNAT --to-destination 127.0.0.1:"@ + port + "\n"@,
        Loopback::Unclear(reason) => "  "@ + style::warn_mark(enabled)
            + " couldn't check broadcast loopback: "@ + reason@ + "\n"@,
    }
}

/// What to show about the game's settings, before broadcasts are looked into.
pub fn introduce_ams2(enabled: bool) -> (r: String)
    ensures
        r@ == introduction(enabled),
{
    let mut r: String = dialogue::heading_text(enabled, Game::Automobilista2.name());
    r.append("  Has UDP telemetry on port ");
    text::push_u64(&mut r, madness::DEFAULT_PORT as u64);
    r.append(
        " using the Project CARS 2 format.\n  In game: Options → System → UDP Protocol Version: Project CARS 2,\n                              UDP Frequency: 1+\n  (Settings live in encrypted .sav files; can't auto-edit.)\n",
    );
    r
}

/// What to show then, given what is known about broadcasts.
pub fn handle_ams2(enabled: bool, loopback: Loopback) -> (r: String)
    ensures
        r@ == outcome(enabled, loopback) + "\n"@,
{
    let mut r: String = outcome_text(enabled, loopback);
    r.append("\n");
    r
}

fn outcome_text(enabled: bool, loopback: Loopback) -> (r: String)
    ensures
        r@ == outcome(enabled, loopback),
{
    let mut r: String = "  ".to_owned();
    match loopback {
        Loopback::Works => {
            r.append(style::ok(enabled));
            r.append(" broadcast loopback works on port ");
            text::push_u64(&mut r, madness::DEFAULT_PORT as u64);
            r.append(" — game traffic will reach moza-rev.\n");
        },
        Loopback::Fails => {
            r.append(style::cross(enabled));
            r.append(" broadcast loopback NOT working on port ");
            text::push_u64(&mut r, madness::DEFAULT_PORT as u64);
            r.append(
                " — game traffic won't reach moza-rev.\n    Linux doesn't loop limited-broadcast (255.255.255.255) to local sockets.\n    Apply this iptables NAT redirect (one-time, reversible with -D):\n      sudo iptables -t nat -I OUTPUT -p udp -d 255.255.255.255 --dport ",
            );
            text::push_u64(&mut r, madness::DEFAULT_PORT as u64);
            r.append(" \\\n        -j DNAT --to-destination 127.0.0.1:");
            text::push_u64(&mut r, madness::DEFAULT_PORT as u64);
            r.append("\n");
        },
        Loopback::Unclear(reason) => {
            r.append(style::warn(enabled));
            r.append(" couldn't check broadcast loopback: ");
            r.append(reason.as_str());
            r.append("\n");
        },
    }
    r
}

} // verus!
