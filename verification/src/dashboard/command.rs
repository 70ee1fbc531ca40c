//! Control commands from browsers.
use super::json::{number_field, number_in, parse, parsed, text_field, text_in, JsonField};
use crate::number::{decimal, decimal_of};
use crate::service_control::{action_label, ServiceAction};
use crate::text::{opt_view, same};
use vstd::prelude::*;
use vstd::string::*;
use vstd::utf8::encode_utf8;

verus! {

/// A command with more bytes is dropped.
pub const MAX_WS_COMMAND_BYTES: usize = 4096;

/// A short message with more bytes is dropped.
pub const MAX_SDS_BYTES: usize = 140;

/// The highest number of a subscriber.
pub const MAX_TETRA_SSI: u64 = 0x00FF_FFFF;

/// The number under which the station itself sends short messages.
pub const DISPATCHER_SSI: u32 = 9999;

/// A command to the network.
#[derive(Debug)]
pub enum ControlCommand {
    /// Send a station off the network.
    KickMs { issi: u32 },
    /// Send a short message.
    SendSds {
        handle: u32,
        source_ssi: u32,
        dest_ssi: u32,
        dest_is_group: bool,
        len_bits: u16,
        payload: Vec<u8>,
    },
}

/// A command to the network, with its payload as a sequence.
pub ghost enum ControlView {
    KickMs { issi: u32 },
    SendSds {
        handle: u32,
        source_ssi: u32,
        dest_ssi: u32,
        dest_is_group: bool,
        len_bits: u16,
        payload: Seq<u8>,
    },
}

impl View for ControlCommand {
    type V = ControlView;

    open spec fn view(&self) -> ControlView {
        match *self {
            ControlCommand::KickMs { issi } => ControlView::KickMs { issi },
            ControlCommand::SendSds {
                handle,
                source_ssi,
                dest_ssi,
                dest_is_group,
                len_bits,
                payload,
            } => ControlView::SendSds {
                handle,
                source_ssi,
                dest_ssi,
                dest_is_group,
                len_bits,
                payload: payload@,
            },
        }
    }
}

/// What a command of a browser brings about.
#[derive(Debug)]
pub enum Effect {
    /// A command goes to the network.
    Command(ControlCommand),
    /// An action is asked of the system service that the station runs as.
    Service(ServiceAction),
}

/// What a command of a browser brings about, with a command to the network by its view.
pub ghost enum EffectView {
    Command(ControlView),
    Service(ServiceAction),
}

impl View for Effect {
    type V = EffectView;

    open spec fn view(&self) -> EffectView {
        match *self {
            Effect::Command(command) => EffectView::Command(command@),
            Effect::Service(action) => EffectView::Service(action),
        }
    }
}

/// What is done about a command of a browser: its effect, and an entry of the log.
#[derive(Debug)]
pub struct WsAction {
    pub effect: Effect,
    pub log: String,
}

/// An action, taken by its view.
pub open spec fn action_view(action: Option<WsAction>) -> Option<(EffectView, Seq<char>)> {
    match action {
        Some(a) => Some((a.effect@, a.log@)),
        None => None,
    }
}

/// Whether a number can be that of a subscriber.
pub open spec fn is_ssi(n: u64) -> bool {
    0 < n <= MAX_TETRA_SSI
}

/// What is done about a request to send a station off the network.
pub open spec fn kick_action(issi: Option<u64>) -> Option<(EffectView, Seq<char>)> {
    match issi {
        Some(n) => if is_ssi(n) {
            Some(
                (
                    EffectView::Command(ControlView::KickMs { issi: n as u32 }),
                    "Kick requested for ISSI "@ + decimal(n as nat),
                ),
            )
        } else {
            None
        },
        None => None,
    }
}

/// What is done about a request to send a short message.
pub open spec fn sds_action(dest: Option<u64>, message: Option<Seq<char>>) -> Option<
    (EffectView, Seq<char>),
> {
    let text = match message {
        Some(m) => m,
        None => Seq::empty(),
    };
    match dest {
        Some(n) => if is_ssi(n) && text.len() > 0 && encode_utf8(text).len() <= MAX_SDS_BYTES {
            Some(
                (
                    EffectView::Command(
                        ControlView::SendSds {
                            handle: 0,
                            source_ssi: DISPATCHER_SSI,
                            dest_ssi: n as u32,
                            dest_is_group: false,
                            len_bits: (encode_utf8(text).len() * 8) as u16,
                            payload: encode_utf8(text),
                        },
                    ),
                    "SDS sent to "@ + decimal(n as nat) + ": "@ + text,
                ),
            )
        } else {
            None
        },
        None => None,
    }
}

/// What is done about a request for an action of the service.
pub open spec fn service_action(action: ServiceAction) -> (EffectView, Seq<char>) {
    (EffectView::Service(action), "Service "@ + action_label(action) + " requested"@)
}

/// What is done about a command with these fields.
pub open spec fn action_of(
    kind: Option<Seq<char>>,
    issi: Option<u64>,
    dest: Option<u64>,
    message: Option<Seq<char>>,
) -> Option<(EffectView, Seq<char>)> {
    match kind {
        Some(name) => if name == "kick"@ {
            kick_action(issi)
        } else if name == "sds"@ {
            sds_action(dest, message)
        } else if name == "restart"@ {
            Some(service_action(ServiceAction::Restart))
        } else if name == "shutdown"@ {
            Some(service_action(ServiceAction::Stop))
        } else {
            None
        },
        None => None,
    }
}

/// What is done about a command with these fields: nothing where they are missing.
pub open spec fn action_of_fields(fields: Option<Map<Seq<char>, JsonField>>) -> Option<
    (EffectView, Seq<char>),
> {
    match fields {
        Some(f) => action_of(
            text_in(f, "type"@),
            number_in(f, "issi"@),
            number_in(f, "dest_issi"@),
            text_in(f, "message"@),
        ),
        None => None,
    }
}

fn kick(issi: Option<u64>) -> (out: Option<WsAction>)
    ensures
        action_view(out) == kick_action(issi),
{
    match issi {
        Some(n) => {
            if n == 0 || n > MAX_TETRA_SSI {
                return None;
            }
            let mut log = "Kick requested for ISSI ".to_owned();
            log.append(decimal_of(n as u128).as_str());
            let command = ControlCommand::KickMs { issi: n as u32 };
            Some(WsAction { effect: Effect::Command(command), log })
        },
        None => None,
    }
}

fn bytes_of(text: &str) -> (out: Vec<u8>)
    ensures
        out@ == encode_utf8(text@),
{
    let bytes = text.as_bytes();
    let mut out: Vec<u8> = Vec::new();
    let mut i: usize = 0;
    while i < bytes.len()
        invariant
            i <= bytes@.len(),
            out@ == bytes@.take(i as int),
        decreases bytes@.len() - i,
    {
        out.push(bytes[i]);
        i = i + 1;
        assert(out@ =~= bytes@.take(i as int));
    }
    assert(bytes@.take(i as int) =~= bytes@);
    out
}

fn sds(dest: Option<u64>, message: Option<String>) -> (out: Option<WsAction>)
    ensures
        action_view(out) == sds_action(dest, opt_view(message)),
{
    match (dest, message) {
        (Some(n), Some(text)) => {
            if n == 0 || n > MAX_TETRA_SSI || text.as_str().unicode_len() == 0 {
                return None;
            }
            let payload = bytes_of(text.as_str());
            if payload.len() > MAX_SDS_BYTES {
                return None;
            }
            let len_bits: u16 = (payload.len() * 8) as u16;
            let mut log = "SDS sent to ".to_owned();
            log.append(decimal_of(n as u128).as_str());
            log.append(": ");
            log.append(text.as_str());
            Some(
                WsAction {
                    effect: Effect::Command(
                        ControlCommand::SendSds {
                            handle: 0,
                            source_ssi: DISPATCHER_SSI,
                            dest_ssi: n as u32,
                            dest_is_group: false,
                            len_bits,
                            payload,
                        },
                    ),
                    log,
                },
            )
        },
        _ => None,
    }
}

fn service(action: ServiceAction) -> (out: WsAction)
    ensures
        (out.effect@, out.log@) == service_action(action),
{
    let mut log = "Service ".to_owned();
    log.append(action.label());
    log.append(" requested");
    WsAction { effect: Effect::Service(action), log }
}

/// What is done about a command with these fields: its kind, the number of a station to send off,
/// the number of the receiver of a short message, and that message.
pub fn command_action(
    kind: Option<String>,
    issi: Option<u64>,
    dest: Option<u64>,
    message: Option<String>,
) -> (out: Option<WsAction>)
    ensures
        action_view(out) == action_of(opt_view(kind), issi, dest, opt_view(message)),
{
    match kind {
        Some(name) => if same(name.as_str(), "kick") {
            kick(issi)
        } else if same(name.as_str(), "sds") {
            sds(dest, message)
        } else if same(name.as_str(), "restart") {
            Some(service(ServiceAction::Restart))
        } else if same(name.as_str(), "shutdown") {
            Some(service(ServiceAction::Stop))
        } else {
            None
        },
        None => None,
    }
}

/// What is done about a command of a browser. One that is too long, no JSON object, or not
/// understood is dropped.
pub fn handle_ws_command(text: &str) -> (out: Option<WsAction>)
    ensures
        action_view(out) == if encode_utf8(text@).len() > MAX_WS_COMMAND_BYTES {
            None
        } else {
            action_of_fields(parsed(text@))
        },
{
    if text.as_bytes().len() > MAX_WS_COMMAND_BYTES {
        return None;
    }
    match parse(text) {
        Some(object) => command_action(
            text_field(&object, "type"),
            number_field(&object, "issi"),
            number_field(&object, "dest_issi"),
            text_field(&object, "message"),
        ),
        None => None,
    }
}

// ---------------------------------------------------------------------------------------------
// Laws
// ---------------------------------------------------------------------------------------------
/// A command that goes to the network concerns a subscriber whose number is in range, and a short
/// message in it is not empty, not too long, and as long as it says.
pub proof fn commands_are_in_range(fields: Map<Seq<char>, JsonField>)
    ensures
        match action_of_fields(Some(fields)) {
            Some((EffectView::Command(ControlView::KickMs { issi }), _)) => is_ssi(issi as u64),
            Some(
                (
                    EffectView::Command(
                        ControlView::SendSds { dest_ssi, len_bits, payload, .. },
                    ),
                    _,
                ),
            ) => {
                &&& is_ssi(dest_ssi as u64)
                &&& 0 < payload.len() <= MAX_SDS_BYTES
                &&& len_bits == 8 * payload.len()
            },
            _ => true,
        },
{
    if let Some(text) = text_in(fields, "message"@) {
        if text.len() > 0 {
            vstd::utf8::encode_utf8_first_scalar(text);
        }
    }
}

/// A command to restart asks for a restart of the service and one to shut down for its stop,
/// whatever else they say, and no other command asks anything of the service.
pub proof fn service_commands_take_effect(
    kind: Seq<char>,
    issi: Option<u64>,
    dest: Option<u64>,
    message: Option<Seq<char>>,
    action: ServiceAction,
)
    ensures
        (action_of(Some(kind), issi, dest, message) matches Some((effect, _)) && effect
            == EffectView::Service(action)) <==> kind == action_label(action),
        kind == action_label(action) ==> action_of(Some(kind), issi, dest, message) == Some(
            service_action(action),
        ),
{
    reveal_strlit("restart");
    reveal_strlit("shutdown");
    reveal_strlit("kick");
    reveal_strlit("sds");
    assert("restart"@.len() == 7 && "shutdown"@.len() == 8);
    assert("kick"@.len() == 4 && "sds"@.len() == 3);
}

/// Whether an action sends a station with this number off, and says so in the log.
pub open spec fn kicks(action: WsAction, n: u64) -> bool {
    &&& action.effect matches Effect::Command(command) && (command matches ControlCommand::KickMs {
        issi,
    } && issi == n)
    &&& action.log@ == "Kick requested for ISSI "@ + decimal(n as nat)
}

/// Whether an action sends this text as a short message to this number, from the station itself,
/// and says so in the log.
pub open spec fn sends(action: WsAction, n: u64, text: Seq<char>) -> bool {
    &&& action.effect matches Effect::Command(command) && (command matches ControlCommand::SendSds {
        handle,
        source_ssi,
        dest_ssi,
        dest_is_group,
        len_bits,
        payload,
    } && handle == 0 && source_ssi == 9999 && dest_ssi == n && !dest_is_group && payload@
        == encode_utf8(text) && len_bits == 8 * payload@.len())
    &&& action.log@ == "SDS sent to "@ + decimal(n as nat) + ": "@ + text
}

/// A command takes effect by its kind: one to send a station off for a number from 1 to 16777215,
/// one to send a short message for such a number and a text of one to 140 bytes, one to restart or
/// to shut down in any case. Each does just what it says and has its entry of the log. Every other
/// command is dropped.
pub proof fn commands_do_what_they_say(
    kind: Option<String>,
    issi: Option<u64>,
    dest: Option<u64>,
    message: Option<String>,
    out: Option<WsAction>,
)
    requires
        call_ensures(command_action, (kind, issi, dest, message), out),
    ensures
        kind is None ==> out is None,
        kind matches Some(name) ==> {
            &&& name@ == "kick"@ ==> (out is Some <==> (issi matches Some(n) && 1 <= n
                <= 16_777_215))
            &&& name@ == "kick"@ && out is Some ==> kicks(out->0, issi->0)
            &&& name@ == "sds"@ ==> (out is Some <==> (dest matches Some(n) && 1 <= n <= 16_777_215)
                && (message matches Some(text) && text@.len() > 0 && encode_utf8(text@).len()
                <= 140))
            &&& name@ == "sds"@ && out is Some ==> sends(out->0, dest->0, message->0@)
            &&& name@ == "restart"@ ==> (out matches Some(a) && a.effect == Effect::Service(
                ServiceAction::Restart,
            ) && a.log@ == "Service "@ + "restart"@ + " requested"@)
            &&& name@ == "shutdown"@ ==> (out matches Some(a) && a.effect == Effect::Service(
                ServiceAction::Stop,
            ) && a.log@ == "Service "@ + "shutdown"@ + " requested"@)
            &&& name@ != "kick"@ && name@ != "sds"@ && name@ != "restart"@ && name@ != "shutdown"@
                ==> out is None
        },
{
    reveal_strlit("restart");
    reveal_strlit("shutdown");
    reveal_strlit("kick");
    reveal_strlit("sds");
    assert("restart"@.len() == 7 && "shutdown"@.len() == 8);
    assert("kick"@.len() == 4 && "sds"@.len() == 3);
    if let Some(a) = out {
        match a.effect {
            Effect::Command(command) => {
                assert(a.effect@ == EffectView::Command(command@));
            },
            Effect::Service(action) => {
                assert(a.effect@ == EffectView::Service(action));
            },
        }
    }
}

/// A command of a browser is dropped where it has more than 4096 bytes, or is no object. Else its
/// fields decide: its type, the number of a station, the number of a receiver and the message,
/// each by its name.
pub proof fn commands_are_read_by_their_fields(
    text: &str,
    out: Option<WsAction>,
    kind: Option<String>,
    issi: Option<u64>,
    dest: Option<u64>,
    message: Option<String>,
    done: Option<WsAction>,
)
    requires
        call_ensures(handle_ws_command, (text,), out),
        parsed(text@) matches Some(f) ==> {
            &&& opt_view(kind) == text_in(f, "type"@)
            &&& issi == number_in(f, "issi"@)
            &&& dest == number_in(f, "dest_issi"@)
            &&& opt_view(message) == text_in(f, "message"@)
        },
        call_ensures(command_action, (kind, issi, dest, message), done),
    ensures
        encode_utf8(text@).len() > 4096 ==> out is None,
        parsed(text@) is None ==> out is None,
        encode_utf8(text@).len() <= 4096 && parsed(text@) is Some ==> action_view(out)
            == action_view(done),
{
}

/// Actions that look the same have the same entry of the log, ask the same of the service, and send
/// the same command to the network.
pub proof fn action_is_known_by_its_view(a: Option<WsAction>, b: Option<WsAction>)
    requires
        action_view(a) == action_view(b),
    ensures
        a is None <==> b is None,
        a is Some ==> a->0.log@ == b->0.log@,
        a is Some ==> match (a->0.effect, b->0.effect) {
            (Effect::Service(x), Effect::Service(y)) => x == y,
            (Effect::Command(x), Effect::Command(y)) => match (x, y) {
                (ControlCommand::KickMs { issi: i }, ControlCommand::KickMs { issi: j }) => i == j,
                (
                    ControlCommand::SendSds {
                        handle,
                        source_ssi,
                        dest_ssi,
                        dest_is_group,
                        len_bits,
                        payload,
                    },
                    ControlCommand::SendSds {
                        handle: h,
                        source_ssi: s,
                        dest_ssi: d,
                        dest_is_group: g,
                        len_bits: l,
                        payload: p,
                    },
                ) => h == handle && s == source_ssi && d == dest_ssi && g == dest_is_group && l
                    == len_bits && p@ == payload@,
                _ => false,
            },
            _ => false,
        },
{
    if a is Some {
        assert(a->0.effect@ == b->0.effect@);
        match a->0.effect {
            Effect::Command(x) => {
                assert(a->0.effect@ == EffectView::Command(x@));
            },
            Effect::Service(x) => {
                assert(a->0.effect@ == EffectView::Service(x));
            },
        }
        match b->0.effect {
            Effect::Command(y) => {
                assert(b->0.effect@ == EffectView::Command(y@));
            },
            Effect::Service(y) => {
                assert(b->0.effect@ == EffectView::Service(y));
            },
        }
    }
}

} // verus!
