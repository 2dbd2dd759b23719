//! What the dispatcher does for a gesture's on-screen message, decided from
//! the display settings.

use vstd::prelude::*;
use vstd::string::*;

use crate::config::OsdConfig;

verus! {

/// How a gesture's message is shown.
pub enum OsdAction {
    /// Nothing is shown: the display is off, or there is no message.
    Silent,
    /// Run `notify-send` with these arguments.
    NotifySend { args: Vec<String> },
    /// Run `swayosd-client` with these arguments.
    SwayOsd { args: Vec<String> },
    /// Write `line` to the pipe at `path`.
    Pipe { path: String, line: String },
    /// The pipe backend is chosen but no pipe path is set.
    MissingPipePath,
    /// The backend is none of the known ones.
    UnknownBackend { backend: String },
}

/// The character sequences of a sequence of strings.
pub open spec fn strings_view(v: Seq<String>) -> Seq<Seq<char>> {
    v.map_values(|s: String| s@)
}

/// The arguments of `notify-send`: the application name, icon, timeout and
/// category, the message, and, with `hints`, the hints that make the
/// notifications replace one another and stay out of the history.
pub open spec fn notify_send_argv(msg: Seq<char>, hints: bool) -> Seq<Seq<char>> {
    seq![
        "-a"@,
        "Bezel"@,
        "-i"@,
        "input-touchpad"@,
        "-t"@,
        "1000"@,
        "-e"@,
        "Bezel"@,
        msg,
    ] + if hints {
        seq!["-h"@, "string:x-canonical-private-synchronous:bezel"@, "-h"@, "int:transient:1"@]
    } else {
        seq![]
    }
}

/// The arguments of `swayosd-client` for a message.
pub open spec fn swayosd_argv(msg: Seq<char>) -> Seq<Seq<char>> {
    seq!["--custom-message"@, msg]
}

/// The arguments of `notify-send` for a message.
pub fn notify_send_args(msg: &String, hints: bool) -> (r: Vec<String>)
    ensures
        strings_view(r@) == notify_send_argv(msg@, hints),
{
    let mut r: Vec<String> = Vec::new();
    r.push(String::from_str("-a"));
    r.push(String::from_str("Bezel"));
    r.push(String::from_str("-i"));
    r.push(String::from_str("input-touchpad"));
    r.push(String::from_str("-t"));
    r.push(String::from_str("1000"));
    r.push(String::from_str("-e"));
    r.push(String::from_str("Bezel"));
    r.push(msg.clone());
    if hints {
        r.push(String::from_str("-h"));
        r.push(String::from_str("string:x-canonical-private-synchronous:bezel"));
        r.push(String::from_str("-h"));
        r.push(String::from_str("int:transient:1"));
    }
    assert(strings_view(r@) =~= notify_send_argv(msg@, hints));
    r
}

/// Decides how to show a gesture's message, from the display settings.
pub fn plan_osd(osd: &OsdConfig, message: Option<String>) -> (r: OsdAction)
    ensures
        !osd.enabled || message is None ==> r is Silent,
        osd.enabled && message is Some ==> {
            let msg = message->0@;
            &&& osd.backend@ == "notify-send"@ ==> (r matches OsdAction::NotifySend { args }
                && strings_view(args@) == notify_send_argv(msg, osd.canonical_hints == Some(true)))
            &&& osd.backend@ == "swayosd"@ ==> (r matches OsdAction::SwayOsd { args }
                && strings_view(args@) == swayosd_argv(msg))
            &&& osd.backend@ == "pipe"@ ==> match osd.pipe_path {
                Some(p) => r matches OsdAction::Pipe { path, line } && path@ == p@ && line@ == msg
                    + "\n"@,
                None => r is MissingPipePath,
            }
            &&& (osd.backend@ != "notify-send"@ && osd.backend@ != "swayosd"@ && osd.backend@
                != "pipe"@) ==> (r matches OsdAction::UnknownBackend { backend } && backend@
                == osd.backend@)
        },
{
    if !osd.enabled {
        return OsdAction::Silent;
    }
    let msg = match message {
        Some(m) => m,
        None => {
            return OsdAction::Silent;
        },
    };
    proof {
        reveal_strlit("notify-send");
        reveal_strlit("swayosd");
        reveal_strlit("pipe");
        assert("notify-send"@.len() == 11);
        assert("swayosd"@.len() == 7);
        assert("notify-send"@ != "swayosd"@);
        assert("pipe"@.len() == 4);
        assert("notify-send"@ != "pipe"@);
        assert("pipe"@ != "swayosd"@);
    }
    let notify_send = String::from_str("notify-send");
    let swayosd = String::from_str("swayosd");
    let pipe = String::from_str("pipe");
    if osd.backend == notify_send {
        let use_hints = match osd.canonical_hints {
            Some(h) => h,
            None => false,
        };
        OsdAction::NotifySend { args: notify_send_args(&msg, use_hints) }
    } else if osd.backend == swayosd {
        let mut args: Vec<String> = Vec::new();
        args.push(String::from_str("--custom-message"));
        args.push(msg);
        assert(strings_view(args@) =~= swayosd_argv(message->0@));
        OsdAction::SwayOsd { args }
    } else if osd.backend == pipe {
        match &osd.pipe_path {
            Some(p) => {
                let mut line = msg;
                line.append("\n");
                OsdAction::Pipe { path: p.clone(), line }
            },
            None => OsdAction::MissingPipePath,
        }
    } else {
        OsdAction::UnknownBackend { backend: osd.backend.clone() }
    }
}

} // verus!
