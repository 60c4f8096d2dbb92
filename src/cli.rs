//! The command line of the challenge-response tool: its options, how a
//! challenge is read, and how a response is rendered.

use vstd::prelude::*;
use crate::codec::{bytes_of_hex, from_hex, hex_of, is_valid_hex, modhex_of, to_hex, to_modhex, CodecError};
use crate::hmac::append_bytes;
use vstd::string::StringSliceAdditionalSpecFns;

verus! {

/// The help text printed for `-h`.
pub const USAGE: &'static str = "ykchalresp [-1|-2] [-x] [-s] [challenge]\n\n-1        use slot 1 (default: slot 2)\n-2        use slot 2\n-x        challenge and response are hex-encoded\n-s        simulate in software (no hardware)\nIf no challenge is provided, read from stdin.\nDefault: use a real YubiKey directly via the Rust 'yubikey-hmac-otp' crate.\nSimulation (-s): compute HMAC using a secret loaded from:\nenv:  YKCHALRESP_SLOT1_KEY / YKCHALRESP_SLOT2_KEY (hex)\nfile: ~/.config/ykchalresp/slot1.key or slot2.key (hex)\n";

/// The help text.
pub fn usage() -> (r: &'static str)
    ensures
        r@ == USAGE@,
{
    USAGE
}

/// Whether two texts hold the same characters.
pub fn same_text(a: &str, b: &str) -> (r: bool)
    ensures
        r == (a@ == b@),
{
    let n = a.unicode_len();
    if n != b.unicode_len() {
        return false;
    }
    let mut i: usize = 0;
    while i < n
        invariant
            n == a@.len(),
            n == b@.len(),
            i <= n,
            a@.subrange(0, i as int) == b@.subrange(0, i as int),
        decreases n - i,
    {
        if a.get_char(i) != b.get_char(i) {
            return false;
        }
        assert(a@.subrange(0, i + 1) =~= a@.subrange(0, i as int).push(a@[i as int]));
        assert(b@.subrange(0, i + 1) =~= b@.subrange(0, i as int).push(b@[i as int]));
        i = i + 1;
    }
    assert(a@ =~= a@.subrange(0, i as int));
    assert(b@ =~= b@.subrange(0, i as int));
    true
}

/// The options of one run.
#[derive(Debug, Clone, PartialEq, Eq)]
pub struct Options {
    pub slot: u8,
    pub hex_mode: bool,
    pub simulate: bool,
    pub challenge: Option<String>,
}

/// What the arguments ask for.
#[derive(Debug, Clone, PartialEq, Eq)]
pub enum Command {
    Run(Options),
    Help,
    Version,
    /// An argument after the challenge.
    Unexpected(String),
}

/// The options, with the challenge as a character sequence.
pub struct OptionsView {
    pub slot: u8,
    pub hex_mode: bool,
    pub simulate: bool,
    pub challenge: Option<Seq<char>>,
}

/// What a `Command` says, with its texts as character sequences.
pub enum CommandView {
    Run(OptionsView),
    Help,
    Version,
    Unexpected(Seq<char>),
}

impl View for Options {
    type V = OptionsView;

    open spec fn view(&self) -> OptionsView {
        OptionsView {
            slot: self.slot,
            hex_mode: self.hex_mode,
            simulate: self.simulate,
            challenge: match self.challenge {
                Some(c) => Some(c@),
                None => None,
            },
        }
    }
}

impl View for Command {
    type V = CommandView;

    open spec fn view(&self) -> CommandView {
        match self {
            Command::Run(o) => CommandView::Run(o@),
            Command::Help => CommandView::Help,
            Command::Version => CommandView::Version,
            Command::Unexpected(a) => CommandView::Unexpected(a@),
        }
    }
}

/// The options before any argument: slot 2, raw text, hardware, no challenge.
pub open spec fn default_options() -> OptionsView {
    OptionsView { slot: 2, hex_mode: false, simulate: false, challenge: None }
}

/// The effect of one argument on the options gathered so far.
pub open spec fn apply_arg(o: OptionsView, a: Seq<char>) -> CommandView {
    if a == "-1"@ {
        CommandView::Run(OptionsView { slot: 1, ..o })
    } else if a == "-2"@ {
        CommandView::Run(OptionsView { slot: 2, ..o })
    } else if a == "-x"@ {
        CommandView::Run(OptionsView { hex_mode: true, ..o })
    } else if a == "-s"@ {
        CommandView::Run(OptionsView { simulate: true, ..o })
    } else if a == "-h"@ || a == "--help"@ {
        CommandView::Help
    } else if a == "-V"@ || a == "--version"@ {
        CommandView::Version
    } else if o.challenge is None {
        CommandView::Run(OptionsView { challenge: Some(a), ..o })
    } else {
        CommandView::Unexpected(a)
    }
}

/// The command that the first `n` arguments give; help, version and an
/// unexpected argument end the scan.
pub open spec fn parse_prefix(args: Seq<Seq<char>>, n: nat) -> CommandView
    decreases n,
{
    if n == 0 {
        CommandView::Run(default_options())
    } else {
        match parse_prefix(args, (n - 1) as nat) {
            CommandView::Run(o) => apply_arg(o, args[n - 1]),
            other => other,
        }
    }
}

/// Once help, version or an unexpected argument is met, later arguments change nothing.
proof fn lemma_parse_stops(args: Seq<Seq<char>>, k: nat, n: nat)
    requires
        k <= n,
        !(parse_prefix(args, k) is Run),
    ensures
        parse_prefix(args, n) == parse_prefix(args, k),
    decreases n - k,
{
    if k < n {
        lemma_parse_stops(args, k, (n - 1) as nat);
    }
}

/// The texts of a list of arguments.
pub open spec fn texts(args: Seq<String>) -> Seq<Seq<char>> {
    args.map_values(|s: String| s@)
}

/// Reads the arguments that follow the program name.
pub fn parse_args(args: &Vec<String>) -> (r: Command)
    ensures
        r@ == parse_prefix(texts(args@), args@.len()),
{
    let mut o = Options { slot: 2, hex_mode: false, simulate: false, challenge: None };
    let mut i: usize = 0;
    while i < args.len()
        invariant
            i <= args@.len(),
            parse_prefix(texts(args@), i as nat) == CommandView::Run(o@),
        decreases args@.len() - i,
    {
        let a = args[i].as_str();
        assert(texts(args@)[i as int] == a@);
        if same_text(a, "-1") {
            proof { reveal_strlit("-1"); }
            o.slot = 1;
        } else if same_text(a, "-2") {
            proof { reveal_strlit("-2"); }
            o.slot = 2;
        } else if same_text(a, "-x") {
            proof { reveal_strlit("-x"); }
            o.hex_mode = true;
        } else if same_text(a, "-s") {
            proof { reveal_strlit("-s"); }
            o.simulate = true;
        } else if same_text(a, "-h") || same_text(a, "--help") {
            proof {
                reveal_strlit("-1");
                reveal_strlit("-2");
                reveal_strlit("-x");
                reveal_strlit("-s");
                reveal_strlit("-h");
                reveal_strlit("--help");
                lemma_parse_stops(texts(args@), (i + 1) as nat, args@.len());
            }
            return Command::Help;
        } else if same_text(a, "-V") || same_text(a, "--version") {
            proof {
                reveal_strlit("-1");
                reveal_strlit("-2");
                reveal_strlit("-x");
                reveal_strlit("-s");
                reveal_strlit("-h");
                reveal_strlit("--help");
                reveal_strlit("-V");
                reveal_strlit("--version");
                lemma_parse_stops(texts(args@), (i + 1) as nat, args@.len());
            }
            return Command::Version;
        } else if o.challenge.is_none() {
            o.challenge = Some(args[i].clone());
        } else {
            let u = Command::Unexpected(args[i].clone());
            proof {
                lemma_parse_stops(texts(args@), (i + 1) as nat, args@.len());
            }
            return u;
        }
        i = i + 1;
    }
    Command::Run(o)
}

/// The challenge bytes that a text stands for: decoded from hex in hex mode,
/// its UTF-8 bytes otherwise.
pub fn parse_challenge(input: &str, hex_mode: bool) -> (r: Result<Vec<u8>, CodecError>)
    ensures
        hex_mode ==> (r is Ok <==> is_valid_hex(input@)),
        hex_mode && r is Ok ==> r->Ok_0@ == bytes_of_hex(input@),
        !hex_mode ==> r is Ok && r->Ok_0@ == input.spec_bytes(),
{
    if hex_mode {
        from_hex(input)
    } else {
        let mut out: Vec<u8> = Vec::new();
        append_bytes(&mut out, input.as_bytes());
        Ok(out)
    }
}

/// A response as printed: lowercase hex in hex mode, modhex otherwise.
pub fn render_response(digest: &[u8], hex_mode: bool) -> (r: String)
    ensures
        hex_mode ==> r@ == hex_of(digest@),
        !hex_mode ==> r@ == modhex_of(hex_of(digest@)),
{
    let hex = to_hex(digest);
    if hex_mode {
        hex
    } else {
        to_modhex(hex.as_str())
    }
}

} // verus!
