//! What it takes to have the games send telemetry: which games are known, where
//! their settings are, and what to change in them.

use vstd::prelude::*;

use crate::text;

pub mod assetto_corsa;
pub mod automobilista_2;
pub mod beamng;
pub mod competizione;
pub mod dialogue;
pub mod dirt;
pub mod style;
pub mod wreckfest_2;
pub mod xml;

verus! {

/// A game that may be installed.
#[derive(Debug, Clone, Copy, PartialEq, Eq, Structural)]
pub enum Game {
    Wreckfest2,
    DirtRally2,
    DirtShowdown,
    Automobilista2,
    BeamNG,
    AssettoCorsa,
    Competizione,
    AssettoCorsaRally,
    ForzaHorizon5,
    ForzaHorizon4,
    Wreckfest,
    Dirt5,
}

impl Game {
    /// The number of the game at Steam.
    pub open spec fn number(self) -> Seq<char> {
        match self {
            Game::Wreckfest2 => "1203190"@,
            Game::DirtRally2 => "690790"@,
            Game::DirtShowdown => "201700"@,
            Game::Automobilista2 => "1066890"@,
            Game::BeamNG => "284160"@,
            Game::AssettoCorsa => "244210"@,
            Game::Competizione => "805550"@,
            Game::AssettoCorsaRally => "3917090"@,
            Game::ForzaHorizon5 => "1551360"@,
            Game::ForzaHorizon4 => "1293830"@,
            Game::Wreckfest => "228380"@,
            Game::Dirt5 => "1038250"@,
        }
    }

    pub open spec fn called(self) -> Seq<char> {
        match self {
            Game::Wreckfest2 => "Wreckfest 2"@,
            Game::DirtRally2 => "DiRT Rally 2.0"@,
            Game::DirtShowdown => "DiRT Showdown"@,
            Game::Automobilista2 => "Automobilista 2"@,
            Game::BeamNG => "BeamNG.drive"@,
            Game::AssettoCorsa => "Assetto Corsa"@,
            Game::Competizione => "Assetto Corsa Competizione"@,
            Game::AssettoCorsaRally => "Assetto Corsa Rally"@,
            Game::ForzaHorizon5 => "Forza Horizon 5"@,
            Game::ForzaHorizon4 => "Forza Horizon 4"@,
            Game::Wreckfest => "Wreckfest"@,
            Game::Dirt5 => "DIRT 5"@,
        }
    }

    /// Whether there is nothing to do about the game but to explain it.
    pub open spec fn only_explained(self) -> bool {
        match self {
            Game::AssettoCorsaRally => true,
            Game::ForzaHorizon5 => true,
            Game::ForzaHorizon4 => true,
            Game::Wreckfest => true,
            Game::Dirt5 => true,
            _ => false,
        }
    }

    /// The number of the game at Steam.
    pub fn app_id(self) -> (r: &'static str)
        ensures
            r@ == self.number(),
    {
        match self {
            Game::Wreckfest2 => "1203190",
            Game::DirtRally2 => "690790",
            Game::DirtShowdown => "201700",
            Game::Automobilista2 => "1066890",
            Game::BeamNG => "284160",
            Game::AssettoCorsa => "244210",
            Game::Competizione => "805550",
            Game::AssettoCorsaRally => "3917090",
            Game::ForzaHorizon5 => "1551360",
            Game::ForzaHorizon4 => "1293830",
            Game::Wreckfest => "228380",
            Game::Dirt5 => "1038250",
        }
    }

    pub fn name(self) -> (r: &'static str)
        ensures
            r@ == self.called(),
    {
        match self {
            Game::Wreckfest2 => "Wreckfest 2",
            Game::DirtRally2 => "DiRT Rally 2.0",
            Game::DirtShowdown => "DiRT Showdown",
            Game::Automobilista2 => "Automobilista 2",
            Game::BeamNG => "BeamNG.drive",
            Game::AssettoCorsa => "Assetto Corsa",
            Game::Competizione => "Assetto Corsa Competizione",
            Game::AssettoCorsaRally => "Assetto Corsa Rally",
            Game::ForzaHorizon5 => "Forza Horizon 5",
            Game::ForzaHorizon4 => "Forza Horizon 4",
            Game::Wreckfest => "Wreckfest",
            Game::Dirt5 => "DIRT 5",
        }
    }
}

/// What is shown about the games that can only be set up by hand, and about those
/// that send no telemetry.
pub open spec fn explanation(enabled: bool, game: Game) -> Seq<char> {
    dialogue::heading(enabled, game.called()) + match game {
        Game::AssettoCorsaRally => "  Built on UE5; Kunos exposes telemetry via a Windows shared-memory\n  ring buffer (binary symbols `KunosPhysicalProperties`, \n  `bSharedMemoryBufferCyclic`), not UDP. Same shape as iRacing on\n  Linux — a Proton-side bridge would be needed to surface it as UDP.\n  Reference: https://luizzak.itch.io/racing-overlay/devlog/1321475/assetto-corsa-rally-telemetry-support\n  (uses an `ACRallyMemReader` companion).\n\n"@,
        Game::ForzaHorizon5 => "  In game: Settings → HUD and Gameplay → Data Out: On,\n  Data Out IP Address: 127.0.0.1\n  Data Out IP Port: 9999  (must match `--forza-port`)\n  Wire format is locked to Dash; no in-game format selector.\n  Settings live inside Proton's compatdata in a format we\n  haven't reverse-engineered, so this is in-game only.\n\n"@,
        Game::ForzaHorizon4 => "  Same Data Out setup as FH5 (Settings → HUD and Gameplay).\n  Same Dash UDP wire format; moza-rev's Forza listener\n  handles both transparently.\n\n"@,
        _ => "  "@ + style::cross_mark(enabled)
            + " detected, but the game has no native UDP telemetry.\n  The only path on Linux is memory injection via SpaceMonkey under Wine — fragile and out of scope for moza-rev.\n\n"@,
    }
}

/// What to show about the games that can only be set up by hand, and about those
/// that send no telemetry.
pub fn explain(enabled: bool, game: Game) -> (r: String)
    requires
        game.only_explained(),
    ensures
        r@ == explanation(enabled, game),
{
    let mut r: String = dialogue::heading_text(enabled, game.name());
    match game {
        Game::AssettoCorsaRally => r.append(
            "  Built on UE5; Kunos exposes telemetry via a Windows shared-memory\n  ring buffer (binary symbols `KunosPhysicalProperties`, \n  `bSharedMemoryBufferCyclic`), not UDP. Same shape as iRacing on\n  Linux — a Proton-side bridge would be needed to surface it as UDP.\n  Reference: https://luizzak.itch.io/racing-overlay/devlog/1321475/assetto-corsa-rally-telemetry-support\n  (uses an `ACRallyMemReader` companion).\n\n",
        ),
        Game::ForzaHorizon5 => r.append(
            "  In game: Settings → HUD and Gameplay → Data Out: On,\n  Data Out IP Address: 127.0.0.1\n  Data Out IP Port: 9999  (must match `--forza-port`)\n  Wire format is locked to Dash; no in-game format selector.\n  Settings live inside Proton's compatdata in a format we\n  haven't reverse-engineered, so this is in-game only.\n\n",
        ),
        Game::ForzaHorizon4 => r.append(
            "  Same Data Out setup as FH5 (Settings → HUD and Gameplay).\n  Same Dash UDP wire format; moza-rev's Forza listener\n  handles both transparently.\n\n",
        ),
        _ => {
            let mut note: String = "  ".to_owned();
            note.append(style::cross(enabled));
            note.append(
                " detected, but the game has no native UDP telemetry.\n  The only path on Linux is memory injection via SpaceMonkey under Wine — fragile and out of scope for moza-rev.\n\n",
            );
            r.append(note.as_str());
        },
    }
    r
}

/// What is shown first.
pub fn introduction(enabled: bool) -> (r: String)
    ensures
        r@ == style::heading(
            enabled,
            "moza-rev configure: scanning for installed racing games"@,
        ) + "\n\n"@,
{
    let mut r: String = style::title(
        enabled,
        "moza-rev configure: scanning for installed racing games",
    );
    r.append("\n\n");
    r
}

/// Some texts with commas between them.
pub open spec fn listed(texts: Seq<String>) -> Seq<char>
    decreases texts.len(),
{
    if texts.len() == 0 {
        Seq::empty()
    } else if texts.len() == 1 {
        texts[0]@
    } else {
        listed(texts.drop_last()) + ", "@ + texts.last()@
    }
}

/// What is shown where no known game is installed in any of the libraries.
pub fn nothing_found(libraries: &[String]) -> (r: String)
    ensures
        r@ == "No supported games detected under Steam's standard library paths.\nSearched: "@
            + listed(libraries@) + "\n"@,
{
    let mut list: String = String::new();
    let mut i: usize = 0;
    while i < libraries.len()
        invariant
            i <= libraries.len(),
            list@ == listed(libraries@.take(i as int)),
        decreases libraries.len() - i,
    {
        if i > 0 {
            list.append(", ");
        }
        list.append(libraries[i].as_str());
        i = i + 1;
        proof {
            let now = libraries@.take(i as int);
            assert(now.drop_last() == libraries@.take(i - 1));
            assert(now.last() == libraries@[i - 1]);
            assert(Seq::<char>::empty() + now.last()@ == now.last()@);
        }
    }
    assert(libraries@.take(i as int) == libraries@);
    let mut r: String =
        "No supported games detected under Steam's standard library paths.\nSearched: ".to_owned();
    r.append(list.as_str());
    r.append("\n");
    r
}

/// The report of a failure.
pub fn failure_line(game: Game, error: &str) -> (r: String)
    ensures
        r@ == game.called() + ": error: "@ + error@ + "\n\n"@,
{
    let mut r: String = game.name().to_owned();
    r.append(": error: ");
    r.append(error);
    r.append("\n\n");
    r
}

/// All games, in the order in which they are reported.
pub open spec fn all_games() -> Seq<Game> {
    seq![
        Game::Wreckfest2,
        Game::DirtRally2,
        Game::DirtShowdown,
        Game::Automobilista2,
        Game::BeamNG,
        Game::AssettoCorsa,
        Game::Competizione,
        Game::AssettoCorsaRally,
        Game::ForzaHorizon5,
        Game::ForzaHorizon4,
        Game::Wreckfest,
        Game::Dirt5,
    ]
}

/// All games, in the order in which they are reported.
pub fn known_games() -> (r: Vec<Game>)
    ensures
        r@ == all_games(),
{
    let mut r: Vec<Game> = Vec::new();
    r.push(Game::Wreckfest2);
    r.push(Game::DirtRally2);
    r.push(Game::DirtShowdown);
    r.push(Game::Automobilista2);
    r.push(Game::BeamNG);
    r.push(Game::AssettoCorsa);
    r.push(Game::Competizione);
    r.push(Game::AssettoCorsaRally);
    r.push(Game::ForzaHorizon5);
    r.push(Game::ForzaHorizon4);
    r.push(Game::Wreckfest);
    r.push(Game::Dirt5);
    assert(r@ == all_games());
    r
}

/// No game is missing, and none is reported twice.
pub proof fn lemma_every_game_once(game: Game, i: int, j: int)
    requires
        0 <= i < all_games().len(),
        0 <= j < all_games().len(),
        all_games()[i] == all_games()[j],
    ensures
        i == j,
        all_games().contains(game),
{
    assert(all_games()[0] == Game::Wreckfest2);
    assert(all_games()[1] == Game::DirtRally2);
    assert(all_games()[2] == Game::DirtShowdown);
    assert(all_games()[3] == Game::Automobilista2);
    assert(all_games()[4] == Game::BeamNG);
    assert(all_games()[5] == Game::AssettoCorsa);
    assert(all_games()[6] == Game::Competizione);
    assert(all_games()[7] == Game::AssettoCorsaRally);
    assert(all_games()[8] == Game::ForzaHorizon5);
    assert(all_games()[9] == Game::ForzaHorizon4);
    assert(all_games()[10] == Game::Wreckfest);
    assert(all_games()[11] == Game::Dirt5);
}

/// Where Steam may keep its library, below the home directory.
pub fn steam_library_roots() -> (r: Vec<&'static str>)
    ensures
        r@ == seq![
            ".var/app/com.valvesoftware.Steam/.local/share/Steam",
            ".steam/steam",
            ".local/share/Steam",
        ],
{
    let mut r: Vec<&'static str> = Vec::new();
    r.push(".var/app/com.valvesoftware.Steam/.local/share/Steam");
    r.push(".steam/steam");
    r.push(".local/share/Steam");
    assert(r@ == seq![
        ".var/app/com.valvesoftware.Steam/.local/share/Steam",
        ".steam/steam",
        ".local/share/Steam",
    ]);
    r
}

/// Where BeamNG.drive may keep its settings, below the home directory.
pub fn beamng_cloud_settings() -> (r: Vec<&'static str>)
    ensures
        r@ == seq![
            ".var/app/com.valvesoftware.Steam/.local/share/BeamNG/BeamNG.drive/current/settings/cloud/settings.json",
            ".local/share/BeamNG/BeamNG.drive/current/settings/cloud/settings.json",
        ],
{
    let mut r: Vec<&'static str> = Vec::new();
    r.push(
        ".var/app/com.valvesoftware.Steam/.local/share/BeamNG/BeamNG.drive/current/settings/cloud/settings.json",
    );
    r.push(".local/share/BeamNG/BeamNG.drive/current/settings/cloud/settings.json");
    assert(r@ == seq![
        ".var/app/com.valvesoftware.Steam/.local/share/BeamNG/BeamNG.drive/current/settings/cloud/settings.json",
        ".local/share/BeamNG/BeamNG.drive/current/settings/cloud/settings.json",
    ]);
    r
}

fn between(head: &str, middle: &str, tail: &str) -> (r: String)
    ensures
        r@ == head@ + middle@ + tail@,
{
    let mut r: String = head.to_owned();
    r.append(middle);
    r.append(tail);
    r
}

/// The manifest that an installed game has, below a library.
pub fn manifest_path(app_id: &str) -> (r: String)
    ensures
        r@ == "steamapps/appmanifest_"@ + app_id@ + ".acf"@,
{
    between("steamapps/appmanifest_", app_id, ".acf")
}

/// The documents of a game that has been started once, below a library.
pub fn proton_documents(app_id: &str) -> (r: String)
    ensures
        r@ == "steamapps/compatdata/"@ + app_id@
            + "/pfx/drive_c/users/steamuser/Documents"@,
{
    between("steamapps/compatdata/", app_id, "/pfx/drive_c/users/steamuser/Documents")
}

/// The directory of an installed game, below a library.
pub fn steam_install_path(install_subdir: &str) -> (r: String)
    ensures
        r@ == "steamapps/common/"@ + install_subdir@,
{
    let r: String = between("steamapps/common/", install_subdir, "");
    proof {
        reveal_strlit("");
        assert("steamapps/common/"@ + install_subdir@ + ""@ == "steamapps/common/"@
            + install_subdir@);
    }
    r
}

/// The settings of a DiRT game, below its documents.
pub fn dirt_settings_path(my_games_subdir: &str) -> (r: String)
    ensures
        r@ == "My Games/"@ + my_games_subdir@
            + "/hardwaresettings/hardware_settings_config.xml"@,
{
    between("My Games/", my_games_subdir, "/hardwaresettings/hardware_settings_config.xml")
}

/// The extension of a backup: that of the file, if any, and `bak`.
pub fn backup_extension(extension: Option<&str>) -> (r: String)
    ensures
        r@ == match extension {
            Some(e) => e@ + ".bak"@,
            None => "bak"@,
        },
{
    match extension {
        Some(e) => {
            let mut r: String = e.to_owned();
            r.append(".bak");
            r
        },
        None => "bak".to_owned(),
    }
}

/// What the file `steam_appid.txt` of Assetto Corsa holds.
pub fn steam_appid_text() -> (r: String)
    ensures
        r@ == Game::AssettoCorsa.number() + "\n"@,
{
    let mut r: String = Game::AssettoCorsa.app_id().to_owned();
    r.append("\n");
    r
}

/// Whether a word without white space around it is a yes.
pub open spec fn says_yes(word: Seq<char>) -> bool {
    text::ascii_lower(word) == "y"@ || text::ascii_lower(word) == "yes"@
}

/// Whether a word without white space around it is a yes, in upper or lower
/// case.
pub fn is_yes(word: &str) -> (r: bool)
    ensures
        r == says_yes(word@),
{
    let lowered: String = text::to_ascii_lower(word);
    let y: String = "y".to_owned();
    let yes: String = "yes".to_owned();
    lowered == y || lowered == yes
}

/// Whether a line that was typed is a yes. Anything else is a no.
pub fn confirmed(line: &str) -> (r: bool)
    ensures
        r == says_yes(text::trimmed(line@)),
        vstd::utf8::is_ascii_chars(line@) ==> r == says_yes(
            text::trim_end(text::trim_start(line@)),
        ),
{
    is_yes(line.trim())
}

/// How long to wait for a datagram to come back, in nanoseconds.
pub const PROBE_TIMEOUT: u64 = 500_000_000;

/// The datagram that is sent to find out whether broadcasts come back.
pub open spec fn probe_datagram() -> Seq<u8> {
    vstd::utf8::encode_utf8("moza-rev-loopback-probe-v1"@)
}

pub fn probe_magic() -> (r: Vec<u8>)
    ensures
        r@ == probe_datagram(),
{
    let mut r: Vec<u8> = Vec::new();
    crate::wire::append(&mut r, "moza-rev-loopback-probe-v1".as_bytes());
    assert(r@ == probe_datagram());
    r
}

/// What a datagram that came, or the lack of one, says about broadcasts: that
/// they come back, that they do not, or nothing yet. Datagrams of a game that is
/// running are passed over.
pub fn judge_loopback(received: Option<&[u8]>, elapsed: u64) -> (r: Option<bool>)
    ensures
        r == match received {
            Some(datagram) => if datagram@ == probe_datagram() {
                Some(true)
            } else if elapsed >= PROBE_TIMEOUT {
                Some(false)
            } else {
                None
            },
            None => Some(false),
        },
        r is None ==> elapsed < 500_000_000 && received is Some,
        received is Some && elapsed < 500_000_000 && r is Some ==> r == Some(true),
{
    match received {
        Some(datagram) => {
            let magic: Vec<u8> = probe_magic();
            if same_bytes(datagram, magic.as_slice()) {
                Some(true)
            } else if elapsed >= PROBE_TIMEOUT {
                Some(false)
            } else {
                None
            }
        },
        None => Some(false),
    }
}

fn same_bytes(a: &[u8], b: &[u8]) -> (r: bool)
    ensures
        r <==> a@ == b@,
{
    if a.len() != b.len() {
        return false;
    }
    let mut i: usize = 0;
    while i < a.len()
        invariant
            i <= a.len() == b.len(),
            forall|k: int| 0 <= k < i ==> a@[k] == b@[k],
        decreases a.len() - i,
    {
        if a[i] != b[i] {
            return false;
        }
        i = i + 1;
    }
    assert(a@ == b@);
    true
}

/// A small letter is the lower case of itself and of its capital, and of nothing
/// else.
proof fn lemma_letter(c: char, small: char)
    requires
        'a' <= small <= 'z',
        text::ascii_lower_char(c) == small,
    ensures
        c == small || c as int + 0x20 == small as int,
{
}

/// What counts as a yes: the letter y, or the three letters of yes, each of them in
/// upper or lower case.
pub proof fn lemma_what_says_yes(word: Seq<char>)
    ensures
        says_yes(word) <==> {
            ||| word.len() == 1 && (word[0] == 'y' || word[0] == 'Y')
            ||| word.len() == 3 && (word[0] == 'y' || word[0] == 'Y') && (word[1] == 'e' || word[1]
                == 'E') && (word[2] == 's' || word[2] == 'S')
        },
{
    reveal_strlit("y");
    reveal_strlit("yes");
    let lowered = text::ascii_lower(word);
    assert("y"@ =~= seq!['y']);
    assert("yes"@ =~= seq!['y', 'e', 's']);
    assert forall|i: int| 0 <= i < word.len() implies lowered[i] == text::ascii_lower_char(
        word[i],
    ) by {
    }
    if lowered == "y"@ {
        assert(lowered[0] == 'y');
        lemma_letter(word[0], 'y');
    }
    if lowered == "yes"@ {
        assert(lowered[0] == 'y' && lowered[1] == 'e' && lowered[2] == 's');
        lemma_letter(word[0], 'y');
        lemma_letter(word[1], 'e');
        lemma_letter(word[2], 's');
    }
    if word.len() == 1 && (word[0] == 'y' || word[0] == 'Y') {
        assert(lowered =~= "y"@);
    }
    if word.len() == 3 && (word[0] == 'y' || word[0] == 'Y') && (word[1] == 'e' || word[1] == 'E')
        && (word[2] == 's' || word[2] == 'S') {
        assert(lowered =~= "yes"@);
    }
}

} // verus!
