//! Transport channels and the packet codec.
//!
//! Each logical channel has a well-known identifier, a label string and a
//! delivery class, shared by both peers.  Input packets are encoded
//! channel-wise into plain byte payloads; decoding is the inverse and
//! silently rejects malformed input.

use vstd::prelude::*;
use vstd::string::StrSliceExecFns;

verus! {

/// Channel for reliable, ordered server messages.
pub const CHANNEL_GENERAL: u8 = 0;

/// Channel for latency statistics.
pub const CHANNEL_STATS: u8 = 1;

/// Channel for absolute mouse positions.
pub const CHANNEL_MOUSE_ABSOLUTE: u8 = 2;

/// Channel for touch events.
pub const CHANNEL_TOUCH: u8 = 3;

/// Channel for keyboard events.
pub const CHANNEL_KEYBOARD: u8 = 4;

/// Channel for aggregated controller events.
pub const CHANNEL_CONTROLLERS: u8 = 5;

/// First of the sixteen per-controller channels.
pub const CHANNEL_CONTROLLER_BASE: u8 = 6;

/// Number of per-controller channels.
pub const CONTROLLER_CHANNEL_COUNT: u8 = 16;

/// A transport channel identifier.
#[derive(Clone, Copy, Debug, PartialEq, Eq, Structural)]
pub struct TransportChannel(pub u8);

/// Whether this identifier names a known channel.
pub open spec fn is_known_channel(id: u8) -> bool {
    id < CHANNEL_CONTROLLER_BASE + CONTROLLER_CHANNEL_COUNT
}

/// Whether the channel's delivery class is reliable and ordered.  Mouse,
/// aggregated controller and per-controller traffic is unreliable; the rest
/// is reliable.
pub open spec fn spec_channel_reliable(id: u8) -> bool {
    id == CHANNEL_GENERAL || id == CHANNEL_STATS || id == CHANNEL_TOUCH || id == CHANNEL_KEYBOARD
}

/// Whether the channel's delivery class is reliable and ordered.
pub fn channel_reliable(channel: TransportChannel) -> (r: bool)
    ensures
        r == spec_channel_reliable(channel.0),
{
    channel.0 == CHANNEL_GENERAL || channel.0 == CHANNEL_STATS || channel.0 == CHANNEL_TOUCH
        || channel.0 == CHANNEL_KEYBOARD
}

/// The channel a per-controller label names: one of the sixteen well-known
/// `controller` labels.
pub open spec fn spec_controller_label_channel(l: Seq<char>) -> Option<u8> {
    if l == "controller0"@ {
        Some((CHANNEL_CONTROLLER_BASE + 0) as u8)
    } else if l == "controller1"@ {
        Some((CHANNEL_CONTROLLER_BASE + 1) as u8)
    } else if l == "controller2"@ {
        Some((CHANNEL_CONTROLLER_BASE + 2) as u8)
    } else if l == "controller3"@ {
        Some((CHANNEL_CONTROLLER_BASE + 3) as u8)
    } else if l == "controller4"@ {
        Some((CHANNEL_CONTROLLER_BASE + 4) as u8)
    } else if l == "controller5"@ {
        Some((CHANNEL_CONTROLLER_BASE + 5) as u8)
    } else if l == "controller6"@ {
        Some((CHANNEL_CONTROLLER_BASE + 6) as u8)
    } else if l == "controller7"@ {
        Some((CHANNEL_CONTROLLER_BASE + 7) as u8)
    } else if l == "controller8"@ {
        Some((CHANNEL_CONTROLLER_BASE + 8) as u8)
    } else if l == "controller9"@ {
        Some((CHANNEL_CONTROLLER_BASE + 9) as u8)
    } else if l == "controller10"@ {
        Some((CHANNEL_CONTROLLER_BASE + 10) as u8)
    } else if l == "controller11"@ {
        Some((CHANNEL_CONTROLLER_BASE + 11) as u8)
    } else if l == "controller12"@ {
        Some((CHANNEL_CONTROLLER_BASE + 12) as u8)
    } else if l == "controller13"@ {
        Some((CHANNEL_CONTROLLER_BASE + 13) as u8)
    } else if l == "controller14"@ {
        Some((CHANNEL_CONTROLLER_BASE + 14) as u8)
    } else if l == "controller15"@ {
        Some((CHANNEL_CONTROLLER_BASE + 15) as u8)
    } else {
        None
    }
}

/// The channel a data-channel label resolves to.  The three mouse labels all
/// feed the mouse channel; an unknown label resolves to nothing.
pub open spec fn spec_channel_for_label(l: Seq<char>) -> Option<u8> {
    if l == "general"@ {
        Some(CHANNEL_GENERAL)
    } else if l == "stats"@ {
        Some(CHANNEL_STATS)
    } else if l == "mouse_reliable"@ || l == "mouse_absolute"@ || l == "mouse_relative"@ {
        Some(CHANNEL_MOUSE_ABSOLUTE)
    } else if l == "touch"@ {
        Some(CHANNEL_TOUCH)
    } else if l == "keyboard"@ {
        Some(CHANNEL_KEYBOARD)
    } else if l == "controllers"@ {
        Some(CHANNEL_CONTROLLERS)
    } else {
        spec_controller_label_channel(l)
    }
}

/// Character-wise string comparison.
fn str_eq(s: &str, lit: &str) -> (r: bool)
    ensures
        r == (s@ == lit@),
{
    let n = s.unicode_len();
    let m = lit.unicode_len();
    if n != m {
        proof {
            if s@ == lit@ {
                assert(s@.len() == lit@.len());
            }
        }
        return false;
    }
    let mut i: usize = 0;
    while i < n
        invariant
            n == s@.len(),
            n == lit@.len(),
            i <= n,
            forall|k: int| 0 <= k < i ==> s@[k] == lit@[k],
        decreases n - i,
    {
        if s.get_char(i) != lit.get_char(i) {
            return false;
        }
        i = i + 1;
    }
    proof {
        assert(s@ =~= lit@);
    }
    true
}

/// Resolve a data-channel label to its transport channel.
pub fn channel_for_label(label: &str) -> (r: Option<TransportChannel>)
    ensures
        match r {
            Some(ch) => spec_channel_for_label(label@) == Some(ch.0),
            None => spec_channel_for_label(label@) is None,
        },
{
    if str_eq(label, "general") {
        return Some(TransportChannel(CHANNEL_GENERAL));
    }
    if str_eq(label, "stats") {
        return Some(TransportChannel(CHANNEL_STATS));
    }
    if str_eq(label, "mouse_reliable") || str_eq(label, "mouse_absolute") || str_eq(
        label,
        "mouse_relative",
    ) {
        return Some(TransportChannel(CHANNEL_MOUSE_ABSOLUTE));
    }
    if str_eq(label, "touch") {
        return Some(TransportChannel(CHANNEL_TOUCH));
    }
    if str_eq(label, "keyboard") {
        return Some(TransportChannel(CHANNEL_KEYBOARD));
    }
    if str_eq(label, "controllers") {
        return Some(TransportChannel(CHANNEL_CONTROLLERS));
    }
    if str_eq(label, "controller0") {
        return Some(TransportChannel(CHANNEL_CONTROLLER_BASE + 0));
    }
    if str_eq(label, "controller1") {
        return Some(TransportChannel(CHANNEL_CONTROLLER_BASE + 1));
    }
    if str_eq(label, "controller2") {
        return Some(TransportChannel(CHANNEL_CONTROLLER_BASE + 2));
    }
    if str_eq(label, "controller3") {
        return Some(TransportChannel(CHANNEL_CONTROLLER_BASE + 3));
    }
    if str_eq(label, "controller4") {
        return Some(TransportChannel(CHANNEL_CONTROLLER_BASE + 4));
    }
    if str_eq(label, "controller5") {
        return Some(TransportChannel(CHANNEL_CONTROLLER_BASE + 5));
    }
    if str_eq(label, "controller6") {
        return Some(TransportChannel(CHANNEL_CONTROLLER_BASE + 6));
    }
    if str_eq(label, "controller7") {
        return Some(TransportChannel(CHANNEL_CONTROLLER_BASE + 7));
    }
    if str_eq(label, "controller8") {
        return Some(TransportChannel(CHANNEL_CONTROLLER_BASE + 8));
    }
    if str_eq(label, "controller9") {
        return Some(TransportChannel(CHANNEL_CONTROLLER_BASE + 9));
    }
    if str_eq(label, "controller10") {
        return Some(TransportChannel(CHANNEL_CONTROLLER_BASE + 10));
    }
    if str_eq(label, "controller11") {
        return Some(TransportChannel(CHANNEL_CONTROLLER_BASE + 11));
    }
    if str_eq(label, "controller12") {
        return Some(TransportChannel(CHANNEL_CONTROLLER_BASE + 12));
    }
    if str_eq(label, "controller13") {
        return Some(TransportChannel(CHANNEL_CONTROLLER_BASE + 13));
    }
    if str_eq(label, "controller14") {
        return Some(TransportChannel(CHANNEL_CONTROLLER_BASE + 14));
    }
    if str_eq(label, "controller15") {
        return Some(TransportChannel(CHANNEL_CONTROLLER_BASE + 15));
    }
    None
}

/// Two label texts differ when their lengths differ or some position holds
/// different characters.
proof fn lemma_labels_differ(a: Seq<char>, b: Seq<char>, i: int)
    requires
        a.len() != b.len() || (0 <= i < a.len() && i < b.len() && a[i] != b[i]),
    ensures
        a != b,
{
    if a == b {
        assert(a.len() == b.len());
        if 0 <= i < a.len() {
            assert(a[i] == b[i]);
        }
    }
}

/// The label under which the server creates or recognises a channel.
pub fn channel_label(channel: TransportChannel) -> (r: &'static str)
    ensures
        is_known_channel(channel.0) ==> spec_channel_for_label(r@) == Some(channel.0),
{
    proof {
        reveal_strlit("general");
        reveal_strlit("stats");
        reveal_strlit("mouse_absolute");
        reveal_strlit("mouse_reliable");
        reveal_strlit("mouse_relative");
        reveal_strlit("touch");
        reveal_strlit("keyboard");
        reveal_strlit("controllers");
        reveal_strlit("controller0");
        reveal_strlit("controller1");
        reveal_strlit("controller2");
        reveal_strlit("controller3");
        reveal_strlit("controller4");
        reveal_strlit("controller5");
        reveal_strlit("controller6");
        reveal_strlit("controller7");
        reveal_strlit("controller8");
        reveal_strlit("controller9");
        reveal_strlit("controller10");
        reveal_strlit("controller11");
        reveal_strlit("controller12");
        reveal_strlit("controller13");
        reveal_strlit("controller14");
        reveal_strlit("controller15");
        lemma_labels_differ("general"@, "stats"@, 0);
        lemma_labels_differ("general"@, "mouse_reliable"@, 0);
        lemma_labels_differ("general"@, "mouse_absolute"@, 0);
        lemma_labels_differ("general"@, "mouse_relative"@, 0);
        lemma_labels_differ("general"@, "touch"@, 0);
        lemma_labels_differ("general"@, "keyboard"@, 0);
        lemma_labels_differ("general"@, "controllers"@, 0);
        lemma_labels_differ("general"@, "controller0"@, 0);
        lemma_labels_differ("general"@, "controller1"@, 0);
        lemma_labels_differ("general"@, "controller2"@, 0);
        lemma_labels_differ("general"@, "controller3"@, 0);
        lemma_labels_differ("general"@, "controller4"@, 0);
        lemma_labels_differ("general"@, "controller5"@, 0);
        lemma_labels_differ("general"@, "controller6"@, 0);
        lemma_labels_differ("general"@, "controller7"@, 0);
        lemma_labels_differ("general"@, "controller8"@, 0);
        lemma_labels_differ("general"@, "controller9"@, 0);
        lemma_labels_differ("general"@, "controller10"@, 0);
        lemma_labels_differ("general"@, "controller11"@, 0);
        lemma_labels_differ("general"@, "controller12"@, 0);
        lemma_labels_differ("general"@, "controller13"@, 0);
        lemma_labels_differ("general"@, "controller14"@, 0);
        lemma_labels_differ("general"@, "controller15"@, 0);
        lemma_labels_differ("stats"@, "mouse_reliable"@, 0);
        lemma_labels_differ("stats"@, "mouse_absolute"@, 0);
        lemma_labels_differ("stats"@, "mouse_relative"@, 0);
        lemma_labels_differ("stats"@, "touch"@, 0);
        lemma_labels_differ("stats"@, "keyboard"@, 0);
        lemma_labels_differ("stats"@, "controllers"@, 0);
        lemma_labels_differ("stats"@, "controller0"@, 0);
        lemma_labels_differ("stats"@, "controller1"@, 0);
        lemma_labels_differ("stats"@, "controller2"@, 0);
        lemma_labels_differ("stats"@, "controller3"@, 0);
        lemma_labels_differ("stats"@, "controller4"@, 0);
        lemma_labels_differ("stats"@, "controller5"@, 0);
        lemma_labels_differ("stats"@, "controller6"@, 0);
        lemma_labels_differ("stats"@, "controller7"@, 0);
        lemma_labels_differ("stats"@, "controller8"@, 0);
        lemma_labels_differ("stats"@, "controller9"@, 0);
        lemma_labels_differ("stats"@, "controller10"@, 0);
        lemma_labels_differ("stats"@, "controller11"@, 0);
        lemma_labels_differ("stats"@, "controller12"@, 0);
        lemma_labels_differ("stats"@, "controller13"@, 0);
        lemma_labels_differ("stats"@, "controller14"@, 0);
        lemma_labels_differ("stats"@, "controller15"@, 0);
        lemma_labels_differ("mouse_reliable"@, "mouse_absolute"@, 6);
        lemma_labels_differ("mouse_reliable"@, "mouse_relative"@, 9);
        lemma_labels_differ("mouse_reliable"@, "touch"@, 0);
        lemma_labels_differ("mouse_reliable"@, "keyboard"@, 0);
        lemma_labels_differ("mouse_reliable"@, "controllers"@, 0);
        lemma_labels_differ("mouse_reliable"@, "controller0"@, 0);
        lemma_labels_differ("mouse_reliable"@, "controller1"@, 0);
        lemma_labels_differ("mouse_reliable"@, "controller2"@, 0);
        lemma_labels_differ("mouse_reliable"@, "controller3"@, 0);
        lemma_labels_differ("mouse_reliable"@, "controller4"@, 0);
        lemma_labels_differ("mouse_reliable"@, "controller5"@, 0);
        lemma_labels_differ("mouse_reliable"@, "controller6"@, 0);
        lemma_labels_differ("mouse_reliable"@, "controller7"@, 0);
        lemma_labels_differ("mouse_reliable"@, "controller8"@, 0);
        lemma_labels_differ("mouse_reliable"@, "controller9"@, 0);
        lemma_labels_differ("mouse_reliable"@, "controller10"@, 0);
        lemma_labels_differ("mouse_reliable"@, "controller11"@, 0);
        lemma_labels_differ("mouse_reliable"@, "controller12"@, 0);
        lemma_labels_differ("mouse_reliable"@, "controller13"@, 0);
        lemma_labels_differ("mouse_reliable"@, "controller14"@, 0);
        lemma_labels_differ("mouse_reliable"@, "controller15"@, 0);
        lemma_labels_differ("mouse_absolute"@, "mouse_relative"@, 6);
        lemma_labels_differ("mouse_absolute"@, "touch"@, 0);
        lemma_labels_differ("mouse_absolute"@, "keyboard"@, 0);
        lemma_labels_differ("mouse_absolute"@, "controllers"@, 0);
        lemma_labels_differ("mouse_absolute"@, "controller0"@, 0);
        lemma_labels_differ("mouse_absolute"@, "controller1"@, 0);
        lemma_labels_differ("mouse_absolute"@, "controller2"@, 0);
        lemma_labels_differ("mouse_absolute"@, "controller3"@, 0);
        lemma_labels_differ("mouse_absolute"@, "controller4"@, 0);
        lemma_labels_differ("mouse_absolute"@, "controller5"@, 0);
        lemma_labels_differ("mouse_absolute"@, "controller6"@, 0);
        lemma_labels_differ("mouse_absolute"@, "controller7"@, 0);
        lemma_labels_differ("mouse_absolute"@, "controller8"@, 0);
        lemma_labels_differ("mouse_absolute"@, "controller9"@, 0);
        lemma_labels_differ("mouse_absolute"@, "controller10"@, 0);
        lemma_labels_differ("mouse_absolute"@, "controller11"@, 0);
        lemma_labels_differ("mouse_absolute"@, "controller12"@, 0);
        lemma_labels_differ("mouse_absolute"@, "controller13"@, 0);
        lemma_labels_differ("mouse_absolute"@, "controller14"@, 0);
        lemma_labels_differ("mouse_absolute"@, "controller15"@, 0);
        lemma_labels_differ("mouse_relative"@, "touch"@, 0);
        lemma_labels_differ("mouse_relative"@, "keyboard"@, 0);
        lemma_labels_differ("mouse_relative"@, "controllers"@, 0);
        lemma_labels_differ("mouse_relative"@, "controller0"@, 0);
        lemma_labels_differ("mouse_relative"@, "controller1"@, 0);
        lemma_labels_differ("mouse_relative"@, "controller2"@, 0);
        lemma_labels_differ("mouse_relative"@, "controller3"@, 0);
        lemma_labels_differ("mouse_relative"@, "controller4"@, 0);
        lemma_labels_differ("mouse_relative"@, "controller5"@, 0);
        lemma_labels_differ("mouse_relative"@, "controller6"@, 0);
        lemma_labels_differ("mouse_relative"@, "controller7"@, 0);
        lemma_labels_differ("mouse_relative"@, "controller8"@, 0);
        lemma_labels_differ("mouse_relative"@, "controller9"@, 0);
        lemma_labels_differ("mouse_relative"@, "controller10"@, 0);
        lemma_labels_differ("mouse_relative"@, "controller11"@, 0);
        lemma_labels_differ("mouse_relative"@, "controller12"@, 0);
        lemma_labels_differ("mouse_relative"@, "controller13"@, 0);
        lemma_labels_differ("mouse_relative"@, "controller14"@, 0);
        lemma_labels_differ("mouse_relative"@, "controller15"@, 0);
        lemma_labels_differ("touch"@, "keyboard"@, 0);
        lemma_labels_differ("touch"@, "controllers"@, 0);
        lemma_labels_differ("touch"@, "controller0"@, 0);
        lemma_labels_differ("touch"@, "controller1"@, 0);
        lemma_labels_differ("touch"@, "controller2"@, 0);
        lemma_labels_differ("touch"@, "controller3"@, 0);
        lemma_labels_differ("touch"@, "controller4"@, 0);
        lemma_labels_differ("touch"@, "controller5"@, 0);
        lemma_labels_differ("touch"@, "controller6"@, 0);
        lemma_labels_differ("touch"@, "controller7"@, 0);
        lemma_labels_differ("touch"@, "controller8"@, 0);
        lemma_labels_differ("touch"@, "controller9"@, 0);
        lemma_labels_differ("touch"@, "controller10"@, 0);
        lemma_labels_differ("touch"@, "controller11"@, 0);
        lemma_labels_differ("touch"@, "controller12"@, 0);
        lemma_labels_differ("touch"@, "controller13"@, 0);
        lemma_labels_differ("touch"@, "controller14"@, 0);
        lemma_labels_differ("touch"@, "controller15"@, 0);
        lemma_labels_differ("keyboard"@, "controllers"@, 0);
        lemma_labels_differ("keyboard"@, "controller0"@, 0);
        lemma_labels_differ("keyboard"@, "controller1"@, 0);
        lemma_labels_differ("keyboard"@, "controller2"@, 0);
        lemma_labels_differ("keyboard"@, "controller3"@, 0);
        lemma_labels_differ("keyboard"@, "controller4"@, 0);
        lemma_labels_differ("keyboard"@, "controller5"@, 0);
        lemma_labels_differ("keyboard"@, "controller6"@, 0);
        lemma_labels_differ("keyboard"@, "controller7"@, 0);
        lemma_labels_differ("keyboard"@, "controller8"@, 0);
        lemma_labels_differ("keyboard"@, "controller9"@, 0);
        lemma_labels_differ("keyboard"@, "controller10"@, 0);
        lemma_labels_differ("keyboard"@, "controller11"@, 0);
        lemma_labels_differ("keyboard"@, "controller12"@, 0);
        lemma_labels_differ("keyboard"@, "controller13"@, 0);
        lemma_labels_differ("keyboard"@, "controller14"@, 0);
        lemma_labels_differ("keyboard"@, "controller15"@, 0);
        lemma_labels_differ("controllers"@, "controller0"@, 10);
        lemma_labels_differ("controllers"@, "controller1"@, 10);
        lemma_labels_differ("controllers"@, "controller2"@, 10);
        lemma_labels_differ("controllers"@, "controller3"@, 10);
        lemma_labels_differ("controllers"@, "controller4"@, 10);
        lemma_labels_differ("controllers"@, "controller5"@, 10);
        lemma_labels_differ("controllers"@, "controller6"@, 10);
        lemma_labels_differ("controllers"@, "controller7"@, 10);
        lemma_labels_differ("controllers"@, "controller8"@, 10);
        lemma_labels_differ("controllers"@, "controller9"@, 10);
        lemma_labels_differ("controllers"@, "controller10"@, 0);
        lemma_labels_differ("controllers"@, "controller11"@, 0);
        lemma_labels_differ("controllers"@, "controller12"@, 0);
        lemma_labels_differ("controllers"@, "controller13"@, 0);
        lemma_labels_differ("controllers"@, "controller14"@, 0);
        lemma_labels_differ("controllers"@, "controller15"@, 0);
        lemma_labels_differ("controller0"@, "controller1"@, 10);
        lemma_labels_differ("controller0"@, "controller2"@, 10);
        lemma_labels_differ("controller0"@, "controller3"@, 10);
        lemma_labels_differ("controller0"@, "controller4"@, 10);
        lemma_labels_differ("controller0"@, "controller5"@, 10);
        lemma_labels_differ("controller0"@, "controller6"@, 10);
        lemma_labels_differ("controller0"@, "controller7"@, 10);
        lemma_labels_differ("controller0"@, "controller8"@, 10);
        lemma_labels_differ("controller0"@, "controller9"@, 10);
        lemma_labels_differ("controller0"@, "controller10"@, 0);
        lemma_labels_differ("controller0"@, "controller11"@, 0);
        lemma_labels_differ("controller0"@, "controller12"@, 0);
        lemma_labels_differ("controller0"@, "controller13"@, 0);
        lemma_labels_differ("controller0"@, "controller14"@, 0);
        lemma_labels_differ("controller0"@, "controller15"@, 0);
        lemma_labels_differ("controller1"@, "controller2"@, 10);
        lemma_labels_differ("controller1"@, "controller3"@, 10);
        lemma_labels_differ("controller1"@, "controller4"@, 10);
        lemma_labels_differ("controller1"@, "controller5"@, 10);
        lemma_labels_differ("controller1"@, "controller6"@, 10);
        lemma_labels_differ("controller1"@, "controller7"@, 10);
        lemma_labels_differ("controller1"@, "controller8"@, 10);
        lemma_labels_differ("controller1"@, "controller9"@, 10);
        lemma_labels_differ("controller1"@, "controller10"@, 0);
        lemma_labels_differ("controller1"@, "controller11"@, 0);
        lemma_labels_differ("controller1"@, "controller12"@, 0);
        lemma_labels_differ("controller1"@, "controller13"@, 0);
        lemma_labels_differ("controller1"@, "controller14"@, 0);
        lemma_labels_differ("controller1"@, "controller15"@, 0);
        lemma_labels_differ("controller2"@, "controller3"@, 10);
        lemma_labels_differ("controller2"@, "controller4"@, 10);
        lemma_labels_differ("controller2"@, "controller5"@, 10);
        lemma_labels_differ("controller2"@, "controller6"@, 10);
        lemma_labels_differ("controller2"@, "controller7"@, 10);
        lemma_labels_differ("controller2"@, "controller8"@, 10);
        lemma_labels_differ("controller2"@, "controller9"@, 10);
        lemma_labels_differ("controller2"@, "controller10"@, 0);
        lemma_labels_differ("controller2"@, "controller11"@, 0);
        lemma_labels_differ("controller2"@, "controller12"@, 0);
        lemma_labels_differ("controller2"@, "controller13"@, 0);
        lemma_labels_differ("controller2"@, "controller14"@, 0);
        lemma_labels_differ("controller2"@, "controller15"@, 0);
        lemma_labels_differ("controller3"@, "controller4"@, 10);
        lemma_labels_differ("controller3"@, "controller5"@, 10);
        lemma_labels_differ("controller3"@, "controller6"@, 10);
        lemma_labels_differ("controller3"@, "controller7"@, 10);
        lemma_labels_differ("controller3"@, "controller8"@, 10);
        lemma_labels_differ("controller3"@, "controller9"@, 10);
        lemma_labels_differ("controller3"@, "controller10"@, 0);
        lemma_labels_differ("controller3"@, "controller11"@, 0);
        lemma_labels_differ("controller3"@, "controller12"@, 0);
        lemma_labels_differ("controller3"@, "controller13"@, 0);
        lemma_labels_differ("controller3"@, "controller14"@, 0);
        lemma_labels_differ("controller3"@, "controller15"@, 0);
        lemma_labels_differ("controller4"@, "controller5"@, 10);
        lemma_labels_differ("controller4"@, "controller6"@, 10);
        lemma_labels_differ("controller4"@, "controller7"@, 10);
        lemma_labels_differ("controller4"@, "controller8"@, 10);
        lemma_labels_differ("controller4"@, "controller9"@, 10);
        lemma_labels_differ("controller4"@, "controller10"@, 0);
        lemma_labels_differ("controller4"@, "controller11"@, 0);
        lemma_labels_differ("controller4"@, "controller12"@, 0);
        lemma_labels_differ("controller4"@, "controller13"@, 0);
        lemma_labels_differ("controller4"@, "controller14"@, 0);
        lemma_labels_differ("controller4"@, "controller15"@, 0);
        lemma_labels_differ("controller5"@, "controller6"@, 10);
        lemma_labels_differ("controller5"@, "controller7"@, 10);
        lemma_labels_differ("controller5"@, "controller8"@, 10);
        lemma_labels_differ("controller5"@, "controller9"@, 10);
        lemma_labels_differ("controller5"@, "controller10"@, 0);
        lemma_labels_differ("controller5"@, "controller11"@, 0);
        lemma_labels_differ("controller5"@, "controller12"@, 0);
        lemma_labels_differ("controller5"@, "controller13"@, 0);
        lemma_labels_differ("controller5"@, "controller14"@, 0);
        lemma_labels_differ("controller5"@, "controller15"@, 0);
        lemma_labels_differ("controller6"@, "controller7"@, 10);
        lemma_labels_differ("controller6"@, "controller8"@, 10);
        lemma_labels_differ("controller6"@, "controller9"@, 10);
        lemma_labels_differ("controller6"@, "controller10"@, 0);
        lemma_labels_differ("controller6"@, "controller11"@, 0);
        lemma_labels_differ("controller6"@, "controller12"@, 0);
        lemma_labels_differ("controller6"@, "controller13"@, 0);
        lemma_labels_differ("controller6"@, "controller14"@, 0);
        lemma_labels_differ("controller6"@, "controller15"@, 0);
        lemma_labels_differ("controller7"@, "controller8"@, 10);
        lemma_labels_differ("controller7"@, "controller9"@, 10);
        lemma_labels_differ("controller7"@, "controller10"@, 0);
        lemma_labels_differ("controller7"@, "controller11"@, 0);
        lemma_labels_differ("controller7"@, "controller12"@, 0);
        lemma_labels_differ("controller7"@, "controller13"@, 0);
        lemma_labels_differ("controller7"@, "controller14"@, 0);
        lemma_labels_differ("controller7"@, "controller15"@, 0);
        lemma_labels_differ("controller8"@, "controller9"@, 10);
        lemma_labels_differ("controller8"@, "controller10"@, 0);
        lemma_labels_differ("controller8"@, "controller11"@, 0);
        lemma_labels_differ("controller8"@, "controller12"@, 0);
        lemma_labels_differ("controller8"@, "controller13"@, 0);
        lemma_labels_differ("controller8"@, "controller14"@, 0);
        lemma_labels_differ("controller8"@, "controller15"@, 0);
        lemma_labels_differ("controller9"@, "controller10"@, 0);
        lemma_labels_differ("controller9"@, "controller11"@, 0);
        lemma_labels_differ("controller9"@, "controller12"@, 0);
        lemma_labels_differ("controller9"@, "controller13"@, 0);
        lemma_labels_differ("controller9"@, "controller14"@, 0);
        lemma_labels_differ("controller9"@, "controller15"@, 0);
        lemma_labels_differ("controller10"@, "controller11"@, 11);
        lemma_labels_differ("controller10"@, "controller12"@, 11);
        lemma_labels_differ("controller10"@, "controller13"@, 11);
        lemma_labels_differ("controller10"@, "controller14"@, 11);
        lemma_labels_differ("controller10"@, "controller15"@, 11);
        lemma_labels_differ("controller11"@, "controller12"@, 11);
        lemma_labels_differ("controller11"@, "controller13"@, 11);
        lemma_labels_differ("controller11"@, "controller14"@, 11);
        lemma_labels_differ("controller11"@, "controller15"@, 11);
        lemma_labels_differ("controller12"@, "controller13"@, 11);
        lemma_labels_differ("controller12"@, "controller14"@, 11);
        lemma_labels_differ("controller12"@, "controller15"@, 11);
        lemma_labels_differ("controller13"@, "controller14"@, 11);
        lemma_labels_differ("controller13"@, "controller15"@, 11);
        lemma_labels_differ("controller14"@, "controller15"@, 11);
        assert(spec_channel_for_label("general"@) == Some(CHANNEL_GENERAL));
        assert(spec_channel_for_label("stats"@) == Some(CHANNEL_STATS));
        assert(spec_channel_for_label("mouse_absolute"@) == Some(CHANNEL_MOUSE_ABSOLUTE));
        assert(spec_channel_for_label("touch"@) == Some(CHANNEL_TOUCH));
        assert(spec_channel_for_label("keyboard"@) == Some(CHANNEL_KEYBOARD));
        assert(spec_channel_for_label("controllers"@) == Some(CHANNEL_CONTROLLERS));
        assert(spec_channel_for_label("controller0"@) == Some(6u8));
        assert(spec_channel_for_label("controller1"@) == Some(7u8));
        assert(spec_channel_for_label("controller2"@) == Some(8u8));
        assert(spec_channel_for_label("controller3"@) == Some(9u8));
        assert(spec_channel_for_label("controller4"@) == Some(10u8));
        assert(spec_channel_for_label("controller5"@) == Some(11u8));
        assert(spec_channel_for_label("controller6"@) == Some(12u8));
        assert(spec_channel_for_label("controller7"@) == Some(13u8));
        assert(spec_channel_for_label("controller8"@) == Some(14u8));
        assert(spec_channel_for_label("controller9"@) == Some(15u8));
        assert(spec_channel_for_label("controller10"@) == Some(16u8));
        assert(spec_channel_for_label("controller11"@) == Some(17u8));
        assert(spec_channel_for_label("controller12"@) == Some(18u8));
        assert(spec_channel_for_label("controller13"@) == Some(19u8));
        assert(spec_channel_for_label("controller14"@) == Some(20u8));
        assert(spec_channel_for_label("controller15"@) == Some(21u8));
    }
    match channel.0 {
        0 => "general",
        1 => "stats",
        2 => "mouse_absolute",
        3 => "touch",
        4 => "keyboard",
        5 => "controllers",
        6 => "controller0",
        7 => "controller1",
        8 => "controller2",
        9 => "controller3",
        10 => "controller4",
        11 => "controller5",
        12 => "controller6",
        13 => "controller7",
        14 => "controller8",
        15 => "controller9",
        16 => "controller10",
        17 => "controller11",
        18 => "controller12",
        19 => "controller13",
        20 => "controller14",
        21 => "controller15",
        _ => "general",
    }
}

/// A typed inbound packet: an input event arriving from a peer.
#[derive(Clone, Copy, Debug, PartialEq, Eq, Structural)]
pub enum InboundPacket {
    /// An absolute mouse position within a reference surface.
    MouseAbsolute { x: u16, y: u16, ref_width: u16, ref_height: u16 },
    /// A touch event.
    Touch { event_kind: u8, pointer_id: u32, x: u16, y: u16 },
    /// A keyboard event.
    Keyboard { key_code: u16, modifiers: u8, down: bool },
    /// A gamepad state report.
    Controller {
        index: u8,
        buttons: u32,
        left_trigger: u8,
        right_trigger: u8,
        left_x: u16,
        left_y: u16,
        right_x: u16,
        right_y: u16,
    },
}

/// A typed outbound packet: a server message leaving over a channel.
#[derive(Clone, Debug)]
pub enum OutboundPacket {
    /// A reliable general message body.
    General(Vec<u8>),
    /// A latency-statistics body.
    Stats(Vec<u8>),
}

/// A packet is well-formed when its fields fit the wire format: a controller
/// index names one of the sixteen controller slots.
pub open spec fn wf_inbound_packet(p: InboundPacket) -> bool {
    match p {
        InboundPacket::Controller { index, .. } => index < CONTROLLER_CHANNEL_COUNT,
        _ => true,
    }
}

/// The two big-endian bytes of a 16-bit value.
pub open spec fn be16_bytes(x: u16) -> Seq<u8> {
    seq![(x >> 8) as u8, x as u8]
}

/// The four big-endian bytes of a 32-bit value.
pub open spec fn be32_bytes(x: u32) -> Seq<u8> {
    seq![(x >> 24) as u8, (x >> 16) as u8, (x >> 8) as u8, x as u8]
}

/// A 16-bit value from its two big-endian bytes.
pub open spec fn spec_from_be16(b0: u8, b1: u8) -> u16 {
    (((b0 as u16) << 8) | (b1 as u16)) as u16
}

/// A 32-bit value from its four big-endian bytes.
pub open spec fn spec_from_be32(b0: u8, b1: u8, b2: u8, b3: u8) -> u32 {
    (((b0 as u32) << 24) | ((b1 as u32) << 16) | ((b2 as u32) << 8) | (b3 as u32)) as u32
}

/// Recomposing the big-endian bytes of a 16-bit value gives the value back.
pub proof fn lemma_be16_round(x: u16)
    ensures
        spec_from_be16((x >> 8) as u8, x as u8) == x,
{
    assert((((((x >> 8) as u8) as u16) << 8) | ((x as u8) as u16)) == x) by (bit_vector);
}

/// Recomposing the big-endian bytes of a 32-bit value gives the value back.
pub proof fn lemma_be32_round(x: u32)
    ensures
        spec_from_be32((x >> 24) as u8, (x >> 16) as u8, (x >> 8) as u8, x as u8) == x,
{
    assert(((((x >> 24) as u8) as u32) << 24) | ((((x >> 16) as u8) as u32) << 16) | ((((x >> 8)
        as u8) as u32) << 8) | ((x as u8) as u32) == x) by (bit_vector);
}

/// The channel a packet travels on.  Controller reports travel on the
/// aggregated controller channel.
pub open spec fn spec_packet_channel(p: InboundPacket) -> u8 {
    match p {
        InboundPacket::MouseAbsolute { .. } => CHANNEL_MOUSE_ABSOLUTE,
        InboundPacket::Touch { .. } => CHANNEL_TOUCH,
        InboundPacket::Keyboard { .. } => CHANNEL_KEYBOARD,
        InboundPacket::Controller { .. } => CHANNEL_CONTROLLERS,
    }
}

/// The wire bytes of an inbound packet.
pub open spec fn spec_encode_packet(p: InboundPacket) -> Seq<u8> {
    match p {
        InboundPacket::MouseAbsolute { x, y, ref_width, ref_height } => be16_bytes(x) + be16_bytes(
            y,
        ) + be16_bytes(ref_width) + be16_bytes(ref_height),
        InboundPacket::Touch { event_kind, pointer_id, x, y } => seq![event_kind] + be32_bytes(
            pointer_id,
        ) + be16_bytes(x) + be16_bytes(y),
        InboundPacket::Keyboard { key_code, modifiers, down } => be16_bytes(key_code) + seq![
            modifiers,
            if down {
                1u8
            } else {
                0u8
            },
        ],
        InboundPacket::Controller {
            index,
            buttons,
            left_trigger,
            right_trigger,
            left_x,
            left_y,
            right_x,
            right_y,
        } => seq![index] + be32_bytes(buttons) + seq![left_trigger, right_trigger] + be16_bytes(
            left_x,
        ) + be16_bytes(left_y) + be16_bytes(right_x) + be16_bytes(right_y),
    }
}

/// Decode the bytes received on a channel into a typed packet; malformed
/// input decodes to nothing and is dropped.  A controller report whose index
/// byte is outside the sixteen controller slots is dropped.  On a
/// per-controller channel the controller index is the channel's own.
pub open spec fn spec_decode_packet(ch: u8, b: Seq<u8>) -> Option<InboundPacket> {
    if ch == CHANNEL_MOUSE_ABSOLUTE {
        if b.len() == 8 {
            Some(
                InboundPacket::MouseAbsolute {
                    x: spec_from_be16(b[0], b[1]),
                    y: spec_from_be16(b[2], b[3]),
                    ref_width: spec_from_be16(b[4], b[5]),
                    ref_height: spec_from_be16(b[6], b[7]),
                },
            )
        } else {
            None
        }
    } else if ch == CHANNEL_TOUCH {
        if b.len() == 9 {
            Some(
                InboundPacket::Touch {
                    event_kind: b[0],
                    pointer_id: spec_from_be32(b[1], b[2], b[3], b[4]),
                    x: spec_from_be16(b[5], b[6]),
                    y: spec_from_be16(b[7], b[8]),
                },
            )
        } else {
            None
        }
    } else if ch == CHANNEL_KEYBOARD {
        if b.len() == 4 && b[3] <= 1 {
            Some(
                InboundPacket::Keyboard {
                    key_code: spec_from_be16(b[0], b[1]),
                    modifiers: b[2],
                    down: b[3] == 1,
                },
            )
        } else {
            None
        }
    } else if ch == CHANNEL_CONTROLLERS {
        if b.len() == 15 && b[0] < CONTROLLER_CHANNEL_COUNT {
            Some(
                InboundPacket::Controller {
                    index: b[0],
                    buttons: spec_from_be32(b[1], b[2], b[3], b[4]),
                    left_trigger: b[5],
                    right_trigger: b[6],
                    left_x: spec_from_be16(b[7], b[8]),
                    left_y: spec_from_be16(b[9], b[10]),
                    right_x: spec_from_be16(b[11], b[12]),
                    right_y: spec_from_be16(b[13], b[14]),
                },
            )
        } else {
            None
        }
    } else if CHANNEL_CONTROLLER_BASE <= ch < CHANNEL_CONTROLLER_BASE + CONTROLLER_CHANNEL_COUNT {
        if b.len() == 14 {
            Some(
                InboundPacket::Controller {
                    index: (ch - CHANNEL_CONTROLLER_BASE) as u8,
                    buttons: spec_from_be32(b[0], b[1], b[2], b[3]),
                    left_trigger: b[4],
                    right_trigger: b[5],
                    left_x: spec_from_be16(b[6], b[7]),
                    left_y: spec_from_be16(b[8], b[9]),
                    right_x: spec_from_be16(b[10], b[11]),
                    right_y: spec_from_be16(b[12], b[13]),
                },
            )
        } else {
            None
        }
    } else {
        None
    }
}

/// Append the two big-endian bytes of a 16-bit value.
fn push_be16(out: &mut Vec<u8>, x: u16)
    ensures
        final(out)@ == old(out)@ + be16_bytes(x),
{
    out.push((x >> 8) as u8);
    out.push(x as u8);
    proof {
        assert(out@ =~= old(out)@ + be16_bytes(x));
    }
}

/// Append the four big-endian bytes of a 32-bit value.
fn push_be32(out: &mut Vec<u8>, x: u32)
    ensures
        final(out)@ == old(out)@ + be32_bytes(x),
{
    out.push((x >> 24) as u8);
    out.push((x >> 16) as u8);
    out.push((x >> 8) as u8);
    out.push(x as u8);
    proof {
        assert(out@ =~= old(out)@ + be32_bytes(x));
    }
}

/// Read a 16-bit value from two big-endian bytes.
fn read_be16(b0: u8, b1: u8) -> (r: u16)
    ensures
        r == spec_from_be16(b0, b1),
{
    ((b0 as u16) << 8) | (b1 as u16)
}

/// Read a 32-bit value from four big-endian bytes.
fn read_be32(b0: u8, b1: u8, b2: u8, b3: u8) -> (r: u32)
    ensures
        r == spec_from_be32(b0, b1, b2, b3),
{
    ((b0 as u32) << 24) | ((b1 as u32) << 16) | ((b2 as u32) << 8) | (b3 as u32)
}

impl InboundPacket {
    /// Encode the packet for its channel.
    pub fn encode(&self) -> (r: (TransportChannel, Vec<u8>))
        ensures
            r.0.0 == spec_packet_channel(*self),
            r.1@ == spec_encode_packet(*self),
    {
        let mut out: Vec<u8> = Vec::new();
        match self {
            InboundPacket::MouseAbsolute { x, y, ref_width, ref_height } => {
                push_be16(&mut out, *x);
                push_be16(&mut out, *y);
                push_be16(&mut out, *ref_width);
                push_be16(&mut out, *ref_height);
                proof {
                    assert(out@ =~= spec_encode_packet(*self));
                }
                (TransportChannel(CHANNEL_MOUSE_ABSOLUTE), out)
            },
            InboundPacket::Touch { event_kind, pointer_id, x, y } => {
                out.push(*event_kind);
                push_be32(&mut out, *pointer_id);
                push_be16(&mut out, *x);
                push_be16(&mut out, *y);
                proof {
                    assert(out@ =~= spec_encode_packet(*self));
                }
                (TransportChannel(CHANNEL_TOUCH), out)
            },
            InboundPacket::Keyboard { key_code, modifiers, down } => {
                push_be16(&mut out, *key_code);
                out.push(*modifiers);
                out.push(if *down { 1 } else { 0 });
                proof {
                    assert(out@ =~= spec_encode_packet(*self));
                }
                (TransportChannel(CHANNEL_KEYBOARD), out)
            },
            InboundPacket::Controller {
                index,
                buttons,
                left_trigger,
                right_trigger,
                left_x,
                left_y,
                right_x,
                right_y,
            } => {
                out.push(*index);
                push_be32(&mut out, *buttons);
                out.push(*left_trigger);
                out.push(*right_trigger);
                push_be16(&mut out, *left_x);
                push_be16(&mut out, *left_y);
                push_be16(&mut out, *right_x);
                push_be16(&mut out, *right_y);
                proof {
                    assert(out@ =~= spec_encode_packet(*self));
                }
                (TransportChannel(CHANNEL_CONTROLLERS), out)
            },
        }
    }

    /// Decode the bytes received on a channel; malformed input yields
    /// nothing.
    pub fn decode(channel: TransportChannel, bytes: &[u8]) -> (r: Option<InboundPacket>)
        ensures
            r == spec_decode_packet(channel.0, bytes@),
    {
        let ch = channel.0;
        let n = bytes.len();
        if ch == CHANNEL_MOUSE_ABSOLUTE {
            if n == 8 {
                Some(
                    InboundPacket::MouseAbsolute {
                        x: read_be16(bytes[0], bytes[1]),
                        y: read_be16(bytes[2], bytes[3]),
                        ref_width: read_be16(bytes[4], bytes[5]),
                        ref_height: read_be16(bytes[6], bytes[7]),
                    },
                )
            } else {
                None
            }
        } else if ch == CHANNEL_TOUCH {
            if n == 9 {
                Some(
                    InboundPacket::Touch {
                        event_kind: bytes[0],
                        pointer_id: read_be32(bytes[1], bytes[2], bytes[3], bytes[4]),
                        x: read_be16(bytes[5], bytes[6]),
                        y: read_be16(bytes[7], bytes[8]),
                    },
                )
            } else {
                None
            }
        } else if ch == CHANNEL_KEYBOARD {
            if n == 4 && bytes[3] <= 1 {
                Some(
                    InboundPacket::Keyboard {
                        key_code: read_be16(bytes[0], bytes[1]),
                        modifiers: bytes[2],
                        down: bytes[3] == 1,
                    },
                )
            } else {
                None
            }
        } else if ch == CHANNEL_CONTROLLERS {
            if n == 15 && bytes[0] < CONTROLLER_CHANNEL_COUNT {
                Some(
                    InboundPacket::Controller {
                        index: bytes[0],
                        buttons: read_be32(bytes[1], bytes[2], bytes[3], bytes[4]),
                        left_trigger: bytes[5],
                        right_trigger: bytes[6],
                        left_x: read_be16(bytes[7], bytes[8]),
                        left_y: read_be16(bytes[9], bytes[10]),
                        right_x: read_be16(bytes[11], bytes[12]),
                        right_y: read_be16(bytes[13], bytes[14]),
                    },
                )
            } else {
                None
            }
        } else if CHANNEL_CONTROLLER_BASE <= ch && ch < CHANNEL_CONTROLLER_BASE
            + CONTROLLER_CHANNEL_COUNT {
            if n == 14 {
                Some(
                    InboundPacket::Controller {
                        index: ch - CHANNEL_CONTROLLER_BASE,
                        buttons: read_be32(bytes[0], bytes[1], bytes[2], bytes[3]),
                        left_trigger: bytes[4],
                        right_trigger: bytes[5],
                        left_x: read_be16(bytes[6], bytes[7]),
                        left_y: read_be16(bytes[8], bytes[9]),
                        right_x: read_be16(bytes[10], bytes[11]),
                        right_y: read_be16(bytes[12], bytes[13]),
                    },
                )
            } else {
                None
            }
        } else {
            None
        }
    }
}

impl OutboundPacket {
    /// Write the packet's body into the caller's buffer and name the channel
    /// and the byte range to transmit.
    pub fn serialize(&self, buffer: &mut Vec<u8>) -> (r: (TransportChannel, usize, usize))
        requires
            old(buffer)@.len() + self.body_len() <= usize::MAX,
        ensures
            final(buffer)@ == old(buffer)@ + self.spec_body(),
            r.1 == old(buffer)@.len(),
            r.2 == final(buffer)@.len(),
            r.0.0 == self.spec_channel(),
    {
        let start = buffer.len();
        let (channel, body): (TransportChannel, &Vec<u8>) = match self {
            OutboundPacket::General(body) => (TransportChannel(CHANNEL_GENERAL), body),
            OutboundPacket::Stats(body) => (TransportChannel(CHANNEL_STATS), body),
        };
        let mut i: usize = 0;
        let n = body.len();
        while i < n
            invariant
                n == body@.len(),
                i <= n,
                buffer@ =~= old(buffer)@ + body@.take(i as int),
                old(buffer)@.len() + n <= usize::MAX,
            decreases n - i,
        {
            buffer.push(body[i]);
            proof {
                assert(buffer@ =~= old(buffer)@ + body@.take(i as int + 1));
            }
            i = i + 1;
        }
        proof {
            assert(body@.take(n as int) =~= body@);
        }
        let end = buffer.len();
        (channel, start, end)
    }

    /// The channel the packet travels on.
    pub open spec fn spec_channel(&self) -> u8 {
        match self {
            OutboundPacket::General(_) => CHANNEL_GENERAL,
            OutboundPacket::Stats(_) => CHANNEL_STATS,
        }
    }

    /// The packet's body bytes.
    pub open spec fn spec_body(&self) -> Seq<u8> {
        match self {
            OutboundPacket::General(body) => body@,
            OutboundPacket::Stats(body) => body@,
        }
    }

    /// The body length.
    pub open spec fn body_len(&self) -> nat {
        self.spec_body().len()
    }
}

/// The channel named by the first byte of an incoming bidirectional stream.
pub fn stream_channel(first_byte: u8) -> (r: Option<TransportChannel>)
    ensures
        match r {
            Some(ch) => ch.0 == first_byte && is_known_channel(first_byte),
            None => !is_known_channel(first_byte),
        },
{
    if first_byte < CHANNEL_CONTROLLER_BASE + CONTROLLER_CHANNEL_COUNT {
        Some(TransportChannel(first_byte))
    } else {
        None
    }
}

/// Law: decoding what was encoded gives the packet back — the codec round
/// trips on every well-formed packet and its own channel.
pub proof fn lemma_packet_round_trip(p: InboundPacket)
    requires
        wf_inbound_packet(p),
    ensures
        spec_decode_packet(spec_packet_channel(p), spec_encode_packet(p)) == Some(p),
{
    let b = spec_encode_packet(p);
    match p {
        InboundPacket::MouseAbsolute { x, y, ref_width, ref_height } => {
            assert(b.len() == 8);
            lemma_be16_round(x);
            lemma_be16_round(y);
            lemma_be16_round(ref_width);
            lemma_be16_round(ref_height);
            assert(b[0] == (x >> 8) as u8 && b[1] == x as u8);
            assert(b[2] == (y >> 8) as u8 && b[3] == y as u8);
            assert(b[4] == (ref_width >> 8) as u8 && b[5] == ref_width as u8);
            assert(b[6] == (ref_height >> 8) as u8 && b[7] == ref_height as u8);
        },
        InboundPacket::Touch { event_kind, pointer_id, x, y } => {
            assert(b.len() == 9);
            lemma_be32_round(pointer_id);
            lemma_be16_round(x);
            lemma_be16_round(y);
            assert(b[0] == event_kind);
            assert(b[1] == (pointer_id >> 24) as u8 && b[2] == (pointer_id >> 16) as u8 && b[3]
                == (pointer_id >> 8) as u8 && b[4] == pointer_id as u8);
            assert(b[5] == (x >> 8) as u8 && b[6] == x as u8);
            assert(b[7] == (y >> 8) as u8 && b[8] == y as u8);
        },
        InboundPacket::Keyboard { key_code, modifiers, down } => {
            assert(b.len() == 4);
            lemma_be16_round(key_code);
            assert(b[0] == (key_code >> 8) as u8 && b[1] == key_code as u8);
            assert(b[2] == modifiers);
            assert(b[3] == if down { 1u8 } else { 0u8 });
        },
        InboundPacket::Controller {
            index,
            buttons,
            left_trigger,
            right_trigger,
            left_x,
            left_y,
            right_x,
            right_y,
        } => {
            assert(b.len() == 15);
            lemma_be32_round(buttons);
            lemma_be16_round(left_x);
            lemma_be16_round(left_y);
            lemma_be16_round(right_x);
            lemma_be16_round(right_y);
            assert(b[0] == index);
            assert(b[1] == (buttons >> 24) as u8 && b[2] == (buttons >> 16) as u8 && b[3] == (
            buttons >> 8) as u8 && b[4] == buttons as u8);
            assert(b[5] == left_trigger && b[6] == right_trigger);
            assert(b[7] == (left_x >> 8) as u8 && b[8] == left_x as u8);
            assert(b[9] == (left_y >> 8) as u8 && b[10] == left_y as u8);
            assert(b[11] == (right_x >> 8) as u8 && b[12] == right_x as u8);
            assert(b[13] == (right_y >> 8) as u8 && b[14] == right_y as u8);
        },
    }
}

} // verus!
