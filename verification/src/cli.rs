//! Command-line arguments.

use vstd::prelude::*;

use crate::app::Command;
use crate::config::{Config, SpeedMode};
use crate::text::{join3, same_text};
use crate::transport::{onion_of, OnionAddr};

verus! {

/// Options given on the command line.
#[derive(Debug)]
pub struct Flags {
    /// `--data-dir`.
    pub data_dir: Option<String>,
    /// `--speed`.
    pub speed_mode: Option<SpeedMode>,
    /// `--log`.
    pub log_level: Option<String>,
}

/// What a [`Flags`] holds.
#[verifier::ext_equal]
pub struct FlagsView {
    pub data_dir: Option<Seq<char>>,
    pub speed_mode: Option<SpeedMode>,
    pub log_level: Option<Seq<char>>,
}

/// A string that may be absent, by its view.
pub open spec fn opt_text(s: Option<String>) -> Option<Seq<char>> {
    match s {
        Some(t) => Some(t@),
        None => None,
    }
}

impl View for Flags {
    type V = FlagsView;

    open spec fn view(&self) -> FlagsView {
        FlagsView {
            data_dir: opt_text(self.data_dir),
            speed_mode: self.speed_mode,
            log_level: opt_text(self.log_level),
        }
    }
}

impl FlagsView {
    /// No options.
    pub open spec fn none() -> FlagsView {
        FlagsView { data_dir: None, speed_mode: None, log_level: None }
    }
}

impl Default for Flags {
    fn default() -> (f: Flags)
        ensures
            f@ == FlagsView::none(),
    {
        Flags { data_dir: None, speed_mode: None, log_level: None }
    }
}

impl Flags {
    /// The log level to use: `--log`, or `info`.
    pub fn log_level_or_default(&self) -> (s: &str)
        ensures
            s@ == (match self@.log_level {
                Some(l) => l,
                None => "info"@,
            }),
    {
        match &self.log_level {
            Some(l) => l.as_str(),
            None => "info",
        }
    }

    /// Put the options that name a setting in its place.
    pub fn apply(&self, cfg: &mut Config)
        ensures
            *final(cfg) == (Config {
                speed_mode: match self.speed_mode {
                    Some(m) => m,
                    None => old(cfg).speed_mode,
                },
                ..*old(cfg)
            }),
    {
        if let Some(m) = self.speed_mode {
            cfg.speed_mode = m;
        }
    }
}

/// What the program was asked to do.
#[derive(Debug)]
pub enum ActionCommand {
    /// Run a call.
    Call(Command),
    /// Run the headless self-test.
    SelfTest,
    /// Render an onion as a terminal QR code.
    Qr(OnionAddr),
    /// Print usage.
    Usage,
}

/// What an [`ActionCommand`] says.
pub enum ActionView {
    Host,
    Dial(Seq<char>),
    SelfTest,
    Qr(Seq<char>),
    Usage,
}

impl View for ActionCommand {
    type V = ActionView;

    open spec fn view(&self) -> ActionView {
        match *self {
            ActionCommand::Call(Command::Host) => ActionView::Host,
            ActionCommand::Call(Command::Dial(o)) => ActionView::Dial(o@),
            ActionCommand::SelfTest => ActionView::SelfTest,
            ActionCommand::Qr(o) => ActionView::Qr(o@),
            ActionCommand::Usage => ActionView::Usage,
        }
    }
}

/// A parsed command line.
#[derive(Debug)]
pub struct Action {
    /// What to do.
    pub command: ActionCommand,
    /// The options.
    pub flags: Flags,
}

/// What scanning the options out of the arguments yields.
pub enum Scan {
    /// Help was asked for; the options so far.
    Help(FlagsView),
    /// The arguments are refused, with this message.
    Refused(Seq<char>),
    /// The options, and the arguments that are none.
    Rest(FlagsView, Seq<Seq<char>>),
}

/// The posture with the given name.
pub open spec fn speed_named(name: Seq<char>) -> Option<SpeedMode> {
    if name == "speed_first"@ {
        Some(SpeedMode::SpeedFirst)
    } else if name == "full_anonymity"@ {
        Some(SpeedMode::FullAnonymity)
    } else if name == "single_hop_service"@ {
        Some(SpeedMode::SingleHopService)
    } else {
        None
    }
}

/// Whether an argument asks for help.
pub open spec fn asks_help(arg: Seq<char>) -> bool {
    arg == "-h"@ || arg == "--help"@ || arg == "help"@
}

/// Whether an argument starts with two dashes.
pub open spec fn dashed(arg: Seq<char>) -> bool {
    arg.len() >= 2 && arg[0] == '-' && arg[1] == '-'
}

/// Take the options out of `args`, left to right, adding them to `flags` and the other arguments to
/// `rest`. An option takes the argument behind it, whatever that is; the last one given counts.
pub open spec fn scan(args: Seq<Seq<char>>, flags: FlagsView, rest: Seq<Seq<char>>) -> Scan
    decreases args.len(),
{
    if args.len() == 0 {
        Scan::Rest(flags, rest)
    } else if asks_help(args[0]) {
        Scan::Help(flags)
    } else if args[0] == "--data-dir"@ {
        if args.len() < 2 {
            Scan::Refused("--data-dir requires a path argument"@)
        } else {
            scan(args.skip(2), FlagsView { data_dir: Some(args[1]), ..flags }, rest)
        }
    } else if args[0] == "--speed"@ {
        if args.len() < 2 {
            Scan::Refused("--speed requires a mode argument"@)
        } else {
            match speed_named(args[1]) {
                Some(m) => scan(args.skip(2), FlagsView { speed_mode: Some(m), ..flags }, rest),
                None => Scan::Refused("unknown speed mode `"@ + args[1] + "`"@),
            }
        }
    } else if args[0] == "--log"@ {
        if args.len() < 2 {
            Scan::Refused("--log requires a level argument"@)
        } else {
            scan(args.skip(2), FlagsView { log_level: Some(args[1]), ..flags }, rest)
        }
    } else if dashed(args[0]) {
        Scan::Refused("unknown flag `"@ + args[0] + "`"@)
    } else {
        scan(args.skip(1), flags, rest.push(args[0]))
    }
}

/// The command that the arguments other than options name, or why they name none.
pub open spec fn command_of(rest: Seq<Seq<char>>) -> core::result::Result<ActionView, Seq<char>> {
    if rest.len() == 0 {
        Ok(ActionView::Usage)
    } else if rest[0] == "selftest"@ {
        Ok(ActionView::SelfTest)
    } else if rest[0] == "host"@ {
        Ok(ActionView::Host)
    } else if rest[0] == "dial"@ {
        if rest.len() < 2 {
            Err("`dial` requires an <onion> argument"@)
        } else {
            Ok(ActionView::Dial(onion_of(rest[1])))
        }
    } else if rest[0] == "qr"@ {
        if rest.len() < 2 {
            Err("`qr` requires an <onion> argument"@)
        } else {
            Ok(ActionView::Qr(onion_of(rest[1])))
        }
    } else {
        Err("unknown command `"@ + rest[0] + "`"@)
    }
}

/// What a command line asks for, or why it is refused.
pub open spec fn parsed(args: Seq<Seq<char>>) -> core::result::Result<(ActionView, FlagsView), Seq<char>> {
    match scan(args, FlagsView::none(), Seq::empty()) {
        Scan::Help(flags) => Ok((ActionView::Usage, flags)),
        Scan::Refused(m) => Err(m),
        Scan::Rest(flags, rest) => match command_of(rest) {
            Ok(c) => Ok((c, flags)),
            Err(m) => Err(m),
        },
    }
}

/// Strings by their views.
pub open spec fn texts(v: Seq<String>) -> Seq<Seq<char>> {
    v.map_values(|s: String| s@)
}

/// Whether `r` is the outcome `spec`.
pub open spec fn is_outcome(
    r: core::result::Result<Action, String>,
    spec: core::result::Result<(ActionView, FlagsView), Seq<char>>,
) -> bool {
    match spec {
        Ok((c, f)) => r matches Ok(a) && a.command@ == c && a.flags@ == f,
        Err(m) => r matches Err(e) && e@ == m,
    }
}

fn starts_dashed(s: &str) -> (r: bool)
    ensures
        r == dashed(s@),
{
    s.unicode_len() >= 2 && s.get_char(0) == '-' && s.get_char(1) == '-'
}

fn find_speed(name: &str) -> (r: Option<SpeedMode>)
    ensures
        r == speed_named(name@),
{
    if same_text(name, "speed_first") {
        Some(SpeedMode::SpeedFirst)
    } else if same_text(name, "full_anonymity") {
        Some(SpeedMode::FullAnonymity)
    } else if same_text(name, "single_hop_service") {
        Some(SpeedMode::SingleHopService)
    } else {
        None
    }
}

fn find_command(rest: &Vec<String>) -> (r: core::result::Result<ActionCommand, String>)
    ensures
        match command_of(texts(rest@)) {
            Ok(c) => r matches Ok(a) && a@ == c,
            Err(m) => r matches Err(e) && e@ == m,
        },
{
    if rest.len() == 0 {
        return Ok(ActionCommand::Usage);
    }
    let sub = rest[0].as_str();
    assert(texts(rest@)[0] == sub@);
    if same_text(sub, "selftest") {
        Ok(ActionCommand::SelfTest)
    } else if same_text(sub, "host") {
        Ok(ActionCommand::Call(Command::Host))
    } else if same_text(sub, "dial") {
        if rest.len() < 2 {
            return Err("`dial` requires an <onion> argument".to_owned());
        }
        assert(texts(rest@)[1] == rest@[1]@);
        match OnionAddr::parse(rest[1].as_str()) {
            Ok(addr) => Ok(ActionCommand::Call(Command::Dial(addr))),
            Err(e) => Err(e.message()),
        }
    } else if same_text(sub, "qr") {
        if rest.len() < 2 {
            return Err("`qr` requires an <onion> argument".to_owned());
        }
        assert(texts(rest@)[1] == rest@[1]@);
        match OnionAddr::parse(rest[1].as_str()) {
            Ok(addr) => Ok(ActionCommand::Qr(addr)),
            Err(e) => Err(e.message()),
        }
    } else {
        Err(join3("unknown command `", sub, "`"))
    }
}

/// Parse the arguments behind the program's name.
pub fn parse_args(args: &Vec<String>) -> (r: core::result::Result<Action, String>)
    ensures
        is_outcome(r, parsed(texts(args@))),
        parsed(texts(args@)) matches Ok((c, f)) ==> (r matches Ok(a) && a.command@ == c && opt_text(a.flags.data_dir)
            == f.data_dir && a.flags.speed_mode == f.speed_mode && opt_text(a.flags.log_level) == f.log_level),
        parsed(texts(args@)) matches Err(m) ==> (r matches Err(e) && e@ == m),
{
    let mut flags = Flags::default();
    let mut rest: Vec<String> = Vec::new();
    let mut i: usize = 0;
    let ghost all = texts(args@);
    assert(all.skip(0) =~= all);
    assert(texts(rest@) =~= Seq::<Seq<char>>::empty());
    while i < args.len()
        invariant
            i <= args@.len(),
            all == texts(args@),
            scan(all.skip(i as int), flags@, texts(rest@)) == scan(all, FlagsView::none(), Seq::empty()),
        decreases args@.len() - i,
    {
        let arg = args[i].as_str();
        let ghost left = all.skip(i as int);
        proof {
            assert(left[0] == arg@);
            assert(left.skip(1) =~= all.skip(i + 1));
            if i + 1 < args@.len() {
                assert(left[1] == args@[i + 1]@);
                assert(left.skip(2) =~= all.skip(i + 2));
            }
        }
        if same_text(arg, "-h") || same_text(arg, "--help") || same_text(arg, "help") {
            return Ok(Action { command: ActionCommand::Usage, flags });
        } else if same_text(arg, "--data-dir") {
            if i + 1 >= args.len() {
                return Err("--data-dir requires a path argument".to_owned());
            }
            flags.data_dir = Some(args[i + 1].clone());
            i = i + 2;
        } else if same_text(arg, "--speed") {
            if i + 1 >= args.len() {
                return Err("--speed requires a mode argument".to_owned());
            }
            match find_speed(args[i + 1].as_str()) {
                Some(m) => {
                    flags.speed_mode = Some(m);
                },
                None => {
                    return Err(join3("unknown speed mode `", args[i + 1].as_str(), "`"));
                },
            }
            i = i + 2;
        } else if same_text(arg, "--log") {
            if i + 1 >= args.len() {
                return Err("--log requires a level argument".to_owned());
            }
            flags.log_level = Some(args[i + 1].clone());
            i = i + 2;
        } else if starts_dashed(arg) {
            return Err(join3("unknown flag `", arg, "`"));
        } else {
            let ghost before = rest@;
            rest.push(args[i].clone());
            assert(texts(rest@) =~= texts(before).push(arg@));
            i = i + 1;
        }
    }
    assert(all.skip(i as int) =~= Seq::<Seq<char>>::empty());
    match find_command(&rest) {
        Ok(command) => Ok(Action { command, flags }),
        Err(m) => Err(m),
    }
}

/// The three postures have these names, and no other name is one.
pub proof fn law_speed_names(name: Seq<char>)
    ensures
        speed_named(name) == Some(SpeedMode::SpeedFirst) <==> name == "speed_first"@,
        speed_named(name) == Some(SpeedMode::FullAnonymity) <==> name == "full_anonymity"@,
        speed_named(name) == Some(SpeedMode::SingleHopService) <==> name == "single_hop_service"@,
{
    reveal_strlit("speed_first");
    reveal_strlit("full_anonymity");
    reveal_strlit("single_hop_service");
    assert("speed_first"@.len() == 11 && "full_anonymity"@.len() == 14 && "single_hop_service"@.len() == 18);
}

proof fn lemma_words()
    ensures
        "--data-dir"@.len() == 10 && "--data-dir"@[0] == '-' && "--data-dir"@[1] == '-' && "--data-dir"@[2] == 'd',
        "--speed"@.len() == 7 && "--speed"@[0] == '-' && "--speed"@[1] == '-' && "--speed"@[2] == 's',
        "--log"@.len() == 5 && "--log"@[0] == '-' && "--log"@[1] == '-' && "--log"@[2] == 'l',
        "-h"@.len() == 2 && "-h"@[0] == '-' && "-h"@[1] == 'h',
        "--help"@.len() == 6 && "--help"@[0] == '-' && "--help"@[1] == '-' && "--help"@[2] == 'h',
        "help"@.len() == 4 && "help"@[0] == 'h',
        "selftest"@.len() == 8 && "host"@.len() == 4 && "dial"@.len() == 4 && "qr"@.len() == 2,
        "host"@[0] == 'h' && "dial"@[0] == 'd',
{
    reveal_strlit("--data-dir");
    reveal_strlit("--speed");
    reveal_strlit("--log");
    reveal_strlit("-h");
    reveal_strlit("--help");
    reveal_strlit("help");
    reveal_strlit("selftest");
    reveal_strlit("host");
    reveal_strlit("dial");
    reveal_strlit("qr");
}

/// An option sets its own setting to the argument behind it and nothing else, whatever was set before
/// and whatever follows.
pub proof fn law_an_option_sets_its_own_setting(args: Seq<Seq<char>>, flags: FlagsView, rest: Seq<Seq<char>>)
    requires
        args.len() >= 2,
    ensures
        args[0] == "--data-dir"@ ==> scan(args, flags, rest) == scan(
            args.skip(2),
            (FlagsView { data_dir: Some(args[1]), speed_mode: flags.speed_mode, log_level: flags.log_level }),
            rest,
        ),
        args[0] == "--log"@ ==> scan(args, flags, rest) == scan(
            args.skip(2),
            (FlagsView { data_dir: flags.data_dir, speed_mode: flags.speed_mode, log_level: Some(args[1]) }),
            rest,
        ),
        args[0] == "--speed"@ && speed_named(args[1]) is Some ==> scan(args, flags, rest) == scan(
            args.skip(2),
            (FlagsView { data_dir: flags.data_dir, speed_mode: speed_named(args[1]), log_level: flags.log_level }),
            rest,
        ),
{
    lemma_words();
}

/// What is refused: an option without its argument, a posture that is none, and a word that starts like
/// an option but is none.
pub proof fn law_what_options_are_refused(args: Seq<Seq<char>>, flags: FlagsView, rest: Seq<Seq<char>>)
    requires
        args.len() > 0,
    ensures
        args.len() == 1 && args[0] == "--data-dir"@ ==> scan(args, flags, rest) == Scan::Refused(
            "--data-dir requires a path argument"@,
        ),
        args.len() == 1 && args[0] == "--speed"@ ==> scan(args, flags, rest) == Scan::Refused(
            "--speed requires a mode argument"@,
        ),
        args.len() == 1 && args[0] == "--log"@ ==> scan(args, flags, rest) == Scan::Refused(
            "--log requires a level argument"@,
        ),
        args.len() >= 2 && args[0] == "--speed"@ && speed_named(args[1]) is None ==> scan(args, flags, rest)
            == Scan::Refused("unknown speed mode `"@ + args[1] + "`"@),
        args[0].len() >= 2 && args[0][0] == '-' && args[0][1] == '-' && args[0] != "--data-dir"@ && args[0] != "--speed"@
            && args[0] != "--log"@ && args[0] != "--help"@ ==> scan(args, flags, rest) == Scan::Refused(
            "unknown flag `"@ + args[0] + "`"@,
        ),
{
    lemma_words();
}

/// Any other word is kept, in order, and sets nothing; the end of the arguments ends the scan; and a word
/// that asks for help ends it there, whatever follows.
pub proof fn law_other_words_are_kept(args: Seq<Seq<char>>, flags: FlagsView, rest: Seq<Seq<char>>)
    ensures
        args.len() == 0 ==> scan(args, flags, rest) == Scan::Rest(flags, rest),
        args.len() > 0 && (args[0] == "-h"@ || args[0] == "--help"@ || args[0] == "help"@) ==> scan(args, flags, rest)
            == Scan::Help(flags),
        args.len() > 0 && args[0] != "-h"@ && args[0] != "help"@ && !(args[0].len() >= 2 && args[0][0] == '-'
            && args[0][1] == '-') ==> scan(args, flags, rest) == scan(args.skip(1), flags, rest.push(args[0])),
{
    lemma_words();
}

/// The command is named by the first word that is no option; `dial` and `qr` take the address behind it,
/// and further words are ignored. No word at all asks for the usage, and any other word is refused.
pub proof fn law_commands(rest: Seq<Seq<char>>)
    ensures
        rest.len() == 0 ==> command_of(rest) == Ok::<ActionView, Seq<char>>(ActionView::Usage),
        rest.len() > 0 ==> {
            &&& rest[0] == "selftest"@ ==> command_of(rest) == Ok::<ActionView, Seq<char>>(ActionView::SelfTest)
            &&& rest[0] == "host"@ ==> command_of(rest) == Ok::<ActionView, Seq<char>>(ActionView::Host)
            &&& rest[0] == "dial"@ && rest.len() >= 2 ==> command_of(rest) == Ok::<ActionView, Seq<char>>(
                ActionView::Dial(onion_of(rest[1])),
            )
            &&& rest[0] == "qr"@ && rest.len() >= 2 ==> command_of(rest) == Ok::<ActionView, Seq<char>>(
                ActionView::Qr(onion_of(rest[1])),
            )
            &&& rest[0] == "dial"@ && rest.len() == 1 ==> command_of(rest) == Err::<ActionView, Seq<char>>(
                "`dial` requires an <onion> argument"@,
            )
            &&& rest[0] == "qr"@ && rest.len() == 1 ==> command_of(rest) == Err::<ActionView, Seq<char>>(
                "`qr` requires an <onion> argument"@,
            )
            &&& rest[0] != "selftest"@ && rest[0] != "host"@ && rest[0] != "dial"@ && rest[0] != "qr"@ ==> command_of(
                rest,
            ) == Err::<ActionView, Seq<char>>("unknown command `"@ + rest[0] + "`"@)
        },
{
    lemma_words();
}

/// A command line is its options and its command: refused if the scan refuses it or the words name no
/// command, the usage if help is asked for, and else the command that the words name with the options
/// that were given.
pub proof fn law_command_line(args: Seq<Seq<char>>)
    ensures
        ({
            let none = FlagsView { data_dir: None, speed_mode: None, log_level: None };
            match scan(args, none, Seq::empty()) {
                Scan::Help(flags) => parsed(args) == Ok::<(ActionView, FlagsView), Seq<char>>((ActionView::Usage, flags)),
                Scan::Refused(m) => parsed(args) == Err::<(ActionView, FlagsView), Seq<char>>(m),
                Scan::Rest(flags, rest) => {
                    &&& command_of(rest) matches Ok(c) ==> parsed(args) == Ok::<(ActionView, FlagsView), Seq<char>>(
                        (c, flags),
                    )
                    &&& command_of(rest) matches Err(m) ==> parsed(args) == Err::<(ActionView, FlagsView), Seq<char>>(m)
                },
            }
        }),
{
}

/// A posture on the command line counts over the configured one, and nothing else is changed by it.
pub proof fn law_speed_option_is_taken(name: Seq<char>, words: Seq<Seq<char>>)
    requires
        speed_named(name) is Some,
        plain(words),
        command_of(words) is Ok,
    ensures
        parsed(seq!["--speed"@, name] + words) == Ok::<(ActionView, FlagsView), Seq<char>>(
            (
                command_of(words)->Ok_0,
                (FlagsView { data_dir: None, speed_mode: speed_named(name), log_level: None }),
            ),
        ),
{
    let args = seq!["--speed"@, name] + words;
    law_an_option_sets_its_own_setting(args, FlagsView::none(), Seq::empty());
    assert(args.skip(2) =~= words);
    lemma_scan_plain(
        words,
        FlagsView { data_dir: None, speed_mode: speed_named(name), log_level: None },
        Seq::empty(),
    );
    assert(Seq::<Seq<char>>::empty() + words =~= words);
}

/// Whether none of the words is an option or asks for help.
pub open spec fn plain(words: Seq<Seq<char>>) -> bool {
    forall|i: int| 0 <= i < words.len() ==> !asks_help(#[trigger] words[i]) && !dashed(words[i])
}

/// Arguments are scanned left to right: what stands behind does not change what is made of what
/// stands in front.
pub proof fn law_scan_is_left_to_right(
    front: Seq<Seq<char>>,
    back: Seq<Seq<char>>,
    flags: FlagsView,
    rest: Seq<Seq<char>>,
)
    requires
        scan(front, flags, rest) is Rest,
    ensures
        scan(front + back, flags, rest) == scan(
            back,
            scan(front, flags, rest)->Rest_0,
            scan(front, flags, rest)->Rest_1,
        ),
    decreases front.len(),
{
    if front.len() == 0 {
        assert(front + back =~= back);
    } else {
        let all = front + back;
        assert(all[0] == front[0]);
        assert(all.skip(1) =~= front.skip(1) + back);
        if front.len() >= 2 {
            assert(all[1] == front[1]);
            assert(all.skip(2) =~= front.skip(2) + back);
        }
        if front[0] == "--data-dir"@ {
            law_scan_is_left_to_right(front.skip(2), back, FlagsView { data_dir: Some(front[1]), ..flags }, rest);
        } else if front[0] == "--speed"@ {
            law_scan_is_left_to_right(
                front.skip(2),
                back,
                FlagsView { speed_mode: speed_named(front[1]), ..flags },
                rest,
            );
        } else if front[0] == "--log"@ {
            law_scan_is_left_to_right(front.skip(2), back, FlagsView { log_level: Some(front[1]), ..flags }, rest);
        } else {
            law_scan_is_left_to_right(front.skip(1), back, flags, rest.push(front[0]));
        }
    }
}

proof fn lemma_scan_plain(words: Seq<Seq<char>>, flags: FlagsView, rest: Seq<Seq<char>>)
    requires
        plain(words),
    ensures
        scan(words, flags, rest) == Scan::Rest(flags, rest + words),
    decreases words.len(),
{
    if words.len() == 0 {
        assert(rest + words =~= rest);
    } else {
        reveal_strlit("--data-dir");
        reveal_strlit("--speed");
        reveal_strlit("--log");
        assert(dashed("--data-dir"@) && dashed("--speed"@) && dashed("--log"@));
        assert forall|i: int| 0 <= i < words.skip(1).len() implies !asks_help(#[trigger] words.skip(1)[i]) && !dashed(
            words.skip(1)[i],
        ) by {
            assert(words.skip(1)[i] == words[i + 1]);
        }
        lemma_scan_plain(words.skip(1), flags, rest.push(words[0]));
        assert(rest.push(words[0]) + words.skip(1) =~= rest + words);
    }
}

proof fn lemma_scan_adds_to_rest(args: Seq<Seq<char>>, flags: FlagsView, rest: Seq<Seq<char>>, pre: Seq<Seq<char>>)
    requires
        scan(args, flags, rest) is Rest,
    ensures
        scan(args, flags, pre + rest) == Scan::Rest(
            scan(args, flags, rest)->Rest_0,
            pre + scan(args, flags, rest)->Rest_1,
        ),
    decreases args.len(),
{
    if args.len() > 0 {
        if args[0] == "--data-dir"@ {
            lemma_scan_adds_to_rest(args.skip(2), FlagsView { data_dir: Some(args[1]), ..flags }, rest, pre);
        } else if args[0] == "--speed"@ {
            lemma_scan_adds_to_rest(
                args.skip(2),
                FlagsView { speed_mode: speed_named(args[1]), ..flags },
                rest,
                pre,
            );
        } else if args[0] == "--log"@ {
            lemma_scan_adds_to_rest(args.skip(2), FlagsView { log_level: Some(args[1]), ..flags }, rest, pre);
        } else {
            lemma_scan_adds_to_rest(args.skip(1), flags, rest.push(args[0]), pre);
            assert((pre + rest).push(args[0]) =~= pre + rest.push(args[0]));
        }
    }
}

/// Options mean the same in front of the command and behind it.
pub proof fn law_option_position_is_free(options: Seq<Seq<char>>, words: Seq<Seq<char>>, set: FlagsView)
    requires
        scan(options, FlagsView::none(), Seq::empty()) == Scan::Rest(set, Seq::empty()),
        plain(words),
    ensures
        parsed(options + words) == parsed(words + options),
{
    let none = FlagsView::none();
    let empty = Seq::<Seq<char>>::empty();
    law_scan_is_left_to_right(options, words, none, empty);
    lemma_scan_plain(words, set, empty);
    lemma_scan_plain(words, none, empty);
    law_scan_is_left_to_right(words, options, none, empty);
    lemma_scan_adds_to_rest(options, none, empty, words);
    assert(empty + words =~= words);
    assert(words + empty =~= words);
}

} // verus!
