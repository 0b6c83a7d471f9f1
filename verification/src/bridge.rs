//! The bridge to the player's line-delimited JSON control protocol.
//!
//! Host role: subscribe to exactly the synchronized property set, then
//! read the player's event stream one line at a time; a well-formed
//! `property-change` event for an observed property is written to the
//! store and offered to the broadcaster, and every other line is
//! discarded. Peer role: turn an inbound property update into a single
//! `set_property_string` command line; the caller must await the
//! player's one response line before applying the next update.

use vstd::prelude::*;
use vstd::string::*;

use crate::broadcast::Clients;
use crate::coalesce::{coalesced_property, fixed_of, next_last, should_forward};
use crate::frame::{frame_bytes, UpdatePropertyMessage};
use crate::store::State;
use crate::text::{contains_nul, dec_str_of, str_eq, u64_to_string};

verus! {

/// One line of the player's event stream, as far as the bridge reads
/// it: the event kind, the observe-request id, the reported value and
/// the property name.
#[derive(Clone, Debug)]
pub struct IpcEvent {
    pub event: String,
    pub id: i64,
    pub data: String,
    pub name: String,
}

/// Names what a well-formed event line holds: the `event`, `id`,
/// `data` and `name` fields of the single JSON object spelled by the
/// line, when the line is such an object with those fields; nothing
/// otherwise.
pub uninterp spec fn ipc_fields_of(line: Seq<char>) -> Option<(Seq<char>, int, Seq<char>, Seq<char>)>;

/// Relies on `serde_json::from_str` (and the `Value` accessors `get`,
/// `as_str` and `as_i64`): parse one event line, a function of the
/// line's characters alone. A line that is not a JSON object carrying
/// a string `event`, an integer `id`, a string `data` and a string
/// `name` is discarded as malformed.
#[verifier::external_body]
fn parse_ipc_line(line: &str) -> (r: Option<IpcEvent>)
    ensures
        match r {
            Some(ev) => ipc_fields_of(line@) == Some((ev.event@, ev.id as int, ev.data@, ev.name@)),
            None => ipc_fields_of(line@) is None,
        },
{
    let v: serde_json::Value = serde_json::from_str(line).ok()?;
    let event = v.get("event")?.as_str()?.to_string();
    let id = v.get("id")?.as_i64()?;
    let data = v.get("data")?.as_str()?.to_string();
    let name = v.get("name")?.as_str()?.to_string();
    Some(IpcEvent { event, id, data, name })
}

/// The synchronized property set: the pause flag and the playback
/// position.
pub open spec fn observed_property(name: Seq<char>) -> bool {
    name == "pause"@ || name == coalesced_property()
}

/// Whether a property belongs to the synchronized set.
pub fn is_observed(name: &str) -> (r: bool)
    ensures
        r == observed_property(name@),
{
    str_eq(name, "pause") || str_eq(name, "playback-time")
}

/// Names the JSON string literal for a piece of text.
pub uninterp spec fn json_string_of(s: Seq<char>) -> Seq<char>;

/// Relies on `serde_json::to_string`: a `&str` serializes to its JSON
/// string literal, a function of the characters alone; serializing a
/// string cannot fail, and every control character is escaped, so the
/// literal holds no raw newline.
#[verifier::external_body]
fn json_quote(s: &str) -> (r: String)
    ensures
        r@ == json_string_of(s@),
        forall|i: int| 0 <= i < r@.len() ==> r@[i] != '\n',
{
    serde_json::to_string(s).unwrap()
}

/// Wrap serialized command arguments in the player's one-line command
/// envelope.
pub fn make_command(args: &str) -> (r: String)
    ensures
        r@ == "{\"command\":"@ + args@ + "}"@,
{
    let mut r = ("{\"command\":").to_owned();
    r.append(args);
    r.append("}");
    proof {
        assert(r@ =~= "{\"command\":"@ + args@ + "}"@);
    }
    r
}

/// Text that stands in a JSON string literal unescaped: no quote, no
/// backslash, no control character.
pub open spec fn json_plain(s: Seq<char>) -> bool {
    forall|i: int| 0 <= i < s.len() ==> (#[trigger] s[i]) != '"' && s[i] != '\\' && s[i]
        as u32 >= 32
}

/// The command line subscribing to string-valued changes of one
/// property, as the host issues at startup. The observed names are
/// protocol constants, so they stand in the line verbatim.
pub fn observe_command(id: u64, name: &str) -> (r: String)
    requires
        json_plain(name@),
    ensures
        r@ == "{\"command\":[\"observe_property_string\","@ + dec_str_of(id as nat) + ",\""@
            + name@ + "\"]}"@,
{
    let mut args = ("[\"observe_property_string\",").to_owned();
    let ids = u64_to_string(id);
    args.append(ids.as_str());
    args.append(",\"");
    args.append(name);
    args.append("\"]");
    let r = make_command(args.as_str());
    proof {
        assert(r@ =~= "{\"command\":"@ + ("[\"observe_property_string\","@ + dec_str_of(
            id as nat,
        ) + ",\""@ + name@ + "\"]"@) + "}"@);
        assert("{\"command\":"@ + ("[\"observe_property_string\","@ + dec_str_of(id as nat)
            + ",\""@ + name@ + "\"]"@) + "}"@ =~= "{\"command\":[\"observe_property_string\","@
            + dec_str_of(id as nat) + ",\""@ + name@ + "\"]}"@) by {
            reveal_strlit("{\"command\":");
            reveal_strlit("[\"observe_property_string\",");
            reveal_strlit("{\"command\":[\"observe_property_string\",");
            reveal_strlit(",\"");
            reveal_strlit("\"]");
            reveal_strlit("}");
            reveal_strlit("\"]}");
        }
    }
    r
}

/// The two subscriptions the host issues at startup: exactly the
/// synchronized property set, ids 1 and 2.
pub fn host_init_commands() -> (r: Vec<String>)
    ensures
        r@.len() == 2,
        r@[0]@ == "{\"command\":[\"observe_property_string\",1,\"pause\"]}"@,
        r@[1]@ == "{\"command\":[\"observe_property_string\",2,\"playback-time\"]}"@,
{
    proof {
        reveal_strlit("pause");
        reveal_strlit("playback-time");
    }
    let c1 = observe_command(1, "pause");
    let c2 = observe_command(2, "playback-time");
    proof {
        reveal_strlit("{\"command\":[\"observe_property_string\",");
        reveal_strlit(",\"");
        reveal_strlit("\"]}");
        reveal_strlit("{\"command\":[\"observe_property_string\",1,\"pause\"]}");
        reveal_strlit("{\"command\":[\"observe_property_string\",2,\"playback-time\"]}");
        reveal_with_fuel(dec_str_of, 2);
        assert(c1@ =~= "{\"command\":[\"observe_property_string\",1,\"pause\"]}"@);
        assert(c2@ =~= "{\"command\":[\"observe_property_string\",2,\"playback-time\"]}"@);
    }
    let mut r: Vec<String> = Vec::new();
    r.push(c1);
    r.push(c2);
    r
}

/// The command line applying one property update to the local player,
/// as the peer issues for each inbound update. The caller must await
/// the player's single response line before issuing the next one.
pub fn set_property_command(property: &str, value: &str) -> (r: String)
    ensures
        r@ == "{\"command\":[\"set_property_string\","@ + json_string_of(property@) + ","@
            + json_string_of(value@) + "]}"@,
{
    let mut args = ("[\"set_property_string\",").to_owned();
    let p = json_quote(property);
    args.append(p.as_str());
    args.append(",");
    let v = json_quote(value);
    args.append(v.as_str());
    args.append("]");
    let r = make_command(args.as_str());
    proof {
        assert(r@ =~= "{\"command\":"@ + ("[\"set_property_string\","@ + json_string_of(
            property@,
        ) + ","@ + json_string_of(value@) + "]"@) + "}"@);
        assert("{\"command\":"@ + ("[\"set_property_string\","@ + json_string_of(property@)
            + ","@ + json_string_of(value@) + "]"@) + "}"@
            =~= "{\"command\":[\"set_property_string\","@ + json_string_of(property@) + ","@
            + json_string_of(value@) + "]}"@) by {
            reveal_strlit("{\"command\":");
            reveal_strlit("[\"set_property_string\",");
            reveal_strlit("{\"command\":[\"set_property_string\",");
            reveal_strlit(",");
            reveal_strlit("]");
            reveal_strlit("}");
            reveal_strlit("]}");
        }
    }
    r
}

/// The command line disabling the player's unsolicited events on the
/// peer side, so the control pipe never fills with noise.
pub fn disable_events_command() -> (r: String)
    ensures
        r@ == "{\"command\":[\"disable_event\",\"all\"]}"@,
{
    let r = make_command("[\"disable_event\",\"all\"]");
    proof {
        reveal_strlit("{\"command\":");
        reveal_strlit("[\"disable_event\",\"all\"]");
        reveal_strlit("}");
        reveal_strlit("{\"command\":[\"disable_event\",\"all\"]}");
        assert(r@ =~= "{\"command\":[\"disable_event\",\"all\"]}"@);
    }
    r
}

/// Apply one player event on the host: a `property-change` for an
/// observed property is written to the store and offered to the
/// broadcaster, which hands back the frame to write to every session
/// unless the coalescer suppresses it. Every other event — and any
/// name or value carrying NUL, which the wire format cannot hold — is
/// discarded without touching anything.
pub fn host_apply_event(state: &mut State, clients: &mut Clients, ev: &IpcEvent) -> (r: Option<
    Vec<u8>,
>)
    requires
        old(state).wf(),
        old(clients).wf(),
    ensures
        final(state).wf(),
        final(clients).wf(),
        final(clients).sessions() == old(clients).sessions(),
        ({
            let act = ev.event@ == "property-change"@ && observed_property(ev.name@)
                && !ev.name@.contains('\0') && !ev.data@.contains('\0');
            if act {
                &&& final(state)@ == old(state)@.insert(ev.name@, ev.data@)
                &&& (match r {
                    Some(f) => f@ == frame_bytes(ev.name@, ev.data@),
                    None => true,
                })
                &&& (r is Some) == (ev.name@ != coalesced_property() || should_forward(
                    old(clients).last_forwarded(),
                    fixed_of(ev.data@),
                ))
                &&& ev.name@ == coalesced_property() ==> final(clients).last_forwarded()
                    == next_last(old(clients).last_forwarded(), fixed_of(ev.data@))
                &&& ev.name@ != coalesced_property() ==> final(clients).last_forwarded()
                    == old(clients).last_forwarded()
            } else {
                &&& final(state)@ == old(state)@
                &&& final(clients).last_forwarded() == old(clients).last_forwarded()
                &&& r is None
            }
        }),
{
    if !str_eq(ev.event.as_str(), "property-change") {
        return None;
    }
    if !is_observed(ev.name.as_str()) {
        return None;
    }
    if contains_nul(ev.name.as_str()) || contains_nul(ev.data.as_str()) {
        return None;
    }
    state.update(ev.name.clone(), ev.data.clone());
    let m = UpdatePropertyMessage::new(ev.name.clone(), ev.data.clone());
    clients.plan_update(&m)
}


/// Host side of the event stream, one line at a time: a line spelling
/// a `property-change` for an observed property is written to the
/// store and offered to the broadcaster; a malformed line, any other
/// event, and any text carrying NUL are discarded, non-fatally.
pub fn host_handle_line(state: &mut State, clients: &mut Clients, line: &str) -> (r: Option<
    Vec<u8>,
>)
    requires
        old(state).wf(),
        old(clients).wf(),
    ensures
        final(state).wf(),
        final(clients).wf(),
        final(clients).sessions() == old(clients).sessions(),
        ({
            match ipc_fields_of(line@) {
                None => final(state)@ == old(state)@ && final(clients).last_forwarded()
                    == old(clients).last_forwarded() && r is None,
                Some(fields) => {
                    let (event, id, data, name) = fields;
                    let act = event == "property-change"@ && observed_property(name)
                        && !name.contains('\0') && !data.contains('\0');
                    if act {
                        &&& final(state)@ == old(state)@.insert(name, data)
                        &&& (match r {
                            Some(f) => f@ == frame_bytes(name, data),
                            None => true,
                        })
                        &&& (r is Some) == (name != coalesced_property() || should_forward(
                            old(clients).last_forwarded(),
                            fixed_of(data),
                        ))
                        &&& name == coalesced_property() ==> final(clients).last_forwarded()
                            == next_last(old(clients).last_forwarded(), fixed_of(data))
                        &&& name != coalesced_property() ==> final(clients).last_forwarded()
                            == old(clients).last_forwarded()
                    } else {
                        &&& final(state)@ == old(state)@
                        &&& final(clients).last_forwarded() == old(clients).last_forwarded()
                        &&& r is None
                    }
                },
            }
        }),
{
    match parse_ipc_line(line) {
        None => None,
        Some(ev) => host_apply_event(state, clients, &ev),
    }
}

} // verus!
