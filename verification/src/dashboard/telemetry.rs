//! What the dashboard knows of the station, and how it learns it.
use super::json::{
    new_object, no_fields, object_fields, render, rendered, set_flag, set_number, set_numbers,
    set_object, set_text, set_value, value_field, JsonField,
};
use crate::number::{decimal, decimal_of};
use crate::text::opt_view;
use std::collections::HashMap;
use std::time::Instant;
use vstd::prelude::*;
use vstd::string::*;

verus! {

broadcast use vstd::std_specs::hash::group_hash_axioms;

/// Something that happened in the network. `R` is the type of signal strengths.
pub enum TelemetryEvent<R> {
    MsRegistration { issi: u32 },
    MsDeregistration { issi: u32 },
    MsGroupAttach { issi: u32, gssis: Vec<u32> },
    MsGroupDetach { issi: u32, gssis: Vec<u32> },
    /// All groups that a station is attached to.
    MsGroupsSnapshot { issi: u32, gssis: Vec<u32> },
    /// The signal strength of a station, also as it stands in messages.
    MsRssi { issi: u32, rssi_dbfs: R, rssi_json: serde_json::Value },
    MsEnergySaving { issi: u32, mode: u8 },
    GroupCallStarted { call_id: u16, gssi: u32, caller_issi: u32 },
    GroupCallEnded { call_id: u16, gssi: u32 },
    GroupCallSpeakerChanged { call_id: u16, gssi: u32, speaker_issi: u32 },
    IndividualCallStarted { call_id: u16, calling_issi: u32, called_issi: u32, simplex: bool },
    IndividualCallEnded { call_id: u16 },
    BrewConnected { connected: bool },
    SdsActivity { source_issi: u32, dest_issi: u32 },
}

/// What a station was last heard doing.
#[derive(Debug, Clone, Copy, PartialEq, Eq, Structural)]
pub enum Activity {
    CallGroup,
    CallIndividual,
    Sds,
}

/// The name of an activity.
pub open spec fn activity_name(activity: Activity) -> Seq<char> {
    match activity {
        Activity::CallGroup => "call_group"@,
        Activity::CallIndividual => "call_individual"@,
        Activity::Sds => "sds"@,
    }
}

impl Activity {
    /// The name of an activity.
    pub fn name(self) -> (out: &'static str)
        ensures
            out@ == activity_name(self),
    {
        match self {
            Activity::CallGroup => "call_group",
            Activity::CallIndividual => "call_individual",
            Activity::Sds => "sds",
        }
    }
}

/// A station that was heard.
#[derive(Debug, Clone, Copy, PartialEq, Eq, Structural)]
pub struct LastHeard {
    pub issi: u32,
    pub activity: Activity,
    pub dest: u32,
}

// ---------------------------------------------------------------------------------------------
// State
// ---------------------------------------------------------------------------------------------
/// A registered station.
pub struct MsEntry<R> {
    pub issi: u32,
    pub groups: Vec<u32>,
    pub rssi_dbfs: Option<R>,
    pub registered_at: Instant,
    pub last_seen: Instant,
    pub energy_saving_mode: u8,
}

/// A registered station, with its groups as a sequence.
#[verifier::ext_equal]
pub ghost struct Ms<R> {
    pub issi: u32,
    pub groups: Seq<u32>,
    pub rssi_dbfs: Option<R>,
    pub registered_at: Instant,
    pub last_seen: Instant,
    pub energy_saving_mode: u8,
}

impl<R> View for MsEntry<R> {
    type V = Ms<R>;

    open spec fn view(&self) -> Ms<R> {
        Ms {
            issi: self.issi,
            groups: self.groups@,
            rssi_dbfs: self.rssi_dbfs,
            registered_at: self.registered_at,
            last_seen: self.last_seen,
            energy_saving_mode: self.energy_saving_mode,
        }
    }
}

/// A call.
pub struct CallEntry {
    pub call_id: u16,
    pub is_group: bool,
    pub gssi: u32,
    pub caller_issi: u32,
    pub called_issi: u32,
    pub speaker_issi: Option<u32>,
    pub started_at: Instant,
    pub simplex: bool,
}

/// The stations, the calls, and whether the network link stands.
#[verifier::ext_equal]
pub ghost struct Dashboard<R> {
    pub ms: Map<u32, Ms<R>>,
    pub calls: Map<u16, CallEntry>,
    pub brew_online: bool,
}

pub struct DashboardState<R> {
    pub ms_map: HashMap<u32, MsEntry<R>>,
    pub calls: HashMap<u16, CallEntry>,
    pub brew_online: bool,
}

impl<R> View for DashboardState<R> {
    type V = Dashboard<R>;

    open spec fn view(&self) -> Dashboard<R> {
        Dashboard {
            ms: self.ms_map@.map_values(|e: MsEntry<R>| e@),
            calls: self.calls@,
            brew_online: self.brew_online,
        }
    }
}

/// The groups of a station after it attached to further ones: those that are new follow the
/// others.
pub open spec fn attached(groups: Seq<u32>, gssis: Seq<u32>) -> Seq<u32>
    decreases gssis.len(),
{
    if gssis.len() == 0 {
        groups
    } else {
        let before = attached(groups, gssis.drop_last());
        if before.contains(gssis.last()) {
            before
        } else {
            before.push(gssis.last())
        }
    }
}

/// The groups of a station after it detached from some.
pub open spec fn detached(groups: Seq<u32>, gssis: Seq<u32>) -> Seq<u32>
    decreases groups.len(),
{
    if groups.len() == 0 {
        Seq::empty()
    } else {
        let before = detached(groups.drop_last(), gssis);
        if gssis.contains(groups.last()) {
            before
        } else {
            before.push(groups.last())
        }
    }
}

/// A station after an event that concerns it.
pub open spec fn ms_after<R>(ms: Ms<R>, event: TelemetryEvent<R>, now: Instant) -> Ms<R> {
    match event {
        TelemetryEvent::MsGroupAttach { gssis, .. } => Ms {
            groups: attached(ms.groups, gssis@),
            ..ms
        },
        TelemetryEvent::MsGroupDetach { gssis, .. } => Ms {
            groups: detached(ms.groups, gssis@),
            ..ms
        },
        TelemetryEvent::MsGroupsSnapshot { gssis, .. } => Ms { groups: gssis@, ..ms },
        TelemetryEvent::MsRssi { rssi_dbfs, .. } => Ms {
            rssi_dbfs: Some(rssi_dbfs),
            last_seen: now,
            ..ms
        },
        TelemetryEvent::MsEnergySaving { mode, .. } => Ms { energy_saving_mode: mode, ..ms },
        _ => ms,
    }
}

/// A station that has just registered.
pub open spec fn new_ms<R>(issi: u32, now: Instant) -> Ms<R> {
    Ms {
        issi,
        groups: Seq::empty(),
        rssi_dbfs: None,
        registered_at: now,
        last_seen: now,
        energy_saving_mode: 0,
    }
}

impl<R> Dashboard<R> {
    /// The state with an event noted for one station, where it is registered.
    pub open spec fn with_ms(self, issi: u32, event: TelemetryEvent<R>, now: Instant) -> Dashboard<
        R,
    > {
        if self.ms.contains_key(issi) {
            Dashboard { ms: self.ms.insert(issi, ms_after(self.ms[issi], event, now)), ..self }
        } else {
            self
        }
    }

    /// The state after an event.
    pub open spec fn after(self, event: TelemetryEvent<R>, now: Instant) -> Dashboard<R> {
        match event {
            TelemetryEvent::MsRegistration { issi } => Dashboard {
                ms: self.ms.insert(issi, new_ms(issi, now)),
                ..self
            },
            TelemetryEvent::MsDeregistration { issi } => Dashboard {
                ms: self.ms.remove(issi),
                ..self
            },
            TelemetryEvent::MsGroupAttach { issi, .. } => self.with_ms(issi, event, now),
            TelemetryEvent::MsGroupDetach { issi, .. } => self.with_ms(issi, event, now),
            TelemetryEvent::MsGroupsSnapshot { issi, .. } => self.with_ms(issi, event, now),
            TelemetryEvent::MsRssi { issi, .. } => self.with_ms(issi, event, now),
            TelemetryEvent::MsEnergySaving { issi, .. } => self.with_ms(issi, event, now),
            TelemetryEvent::GroupCallStarted { call_id, gssi, caller_issi } => Dashboard {
                calls: self.calls.insert(
                    call_id,
                    CallEntry {
                        call_id,
                        is_group: true,
                        gssi,
                        caller_issi,
                        called_issi: 0,
                        speaker_issi: Some(caller_issi),
                        started_at: now,
                        simplex: false,
                    },
                ),
                ..self
            },
            TelemetryEvent::GroupCallSpeakerChanged { call_id, speaker_issi, .. } => {
                if self.calls.contains_key(call_id) {
                    Dashboard {
                        calls: self.calls.insert(
                            call_id,
                            CallEntry {
                                speaker_issi: Some(speaker_issi),
                                ..self.calls[call_id]
                            },
                        ),
                        ..self
                    }
                } else {
                    self
                }
            },
            TelemetryEvent::IndividualCallStarted { call_id, calling_issi, called_issi, simplex } => {
                Dashboard {
                    calls: self.calls.insert(
                        call_id,
                        CallEntry {
                            call_id,
                            is_group: false,
                            gssi: 0,
                            caller_issi: calling_issi,
                            called_issi,
                            speaker_issi: None,
                            started_at: now,
                            simplex,
                        },
                    ),
                    ..self
                }
            },
            TelemetryEvent::GroupCallEnded { call_id, .. } => Dashboard {
                calls: self.calls.remove(call_id),
                ..self
            },
            TelemetryEvent::IndividualCallEnded { call_id } => Dashboard {
                calls: self.calls.remove(call_id),
                ..self
            },
            TelemetryEvent::BrewConnected { connected } => Dashboard {
                brew_online: connected,
                ..self
            },
            TelemetryEvent::SdsActivity { .. } => self,
        }
    }
}

/// The entry of the log that an event brings.
pub open spec fn log_text<R>(event: TelemetryEvent<R>) -> Option<Seq<char>> {
    match event {
        TelemetryEvent::MsRegistration { issi } => Some(
            "MS "@ + decimal(issi as nat) + " registered"@,
        ),
        TelemetryEvent::MsDeregistration { issi } => Some(
            "MS "@ + decimal(issi as nat) + " deregistered"@,
        ),
        TelemetryEvent::GroupCallStarted { call_id, gssi, caller_issi } => Some(
            "Group call "@ + decimal(call_id as nat) + " started: "@ + decimal(caller_issi as nat)
                + " -> GSSI "@ + decimal(gssi as nat),
        ),
        TelemetryEvent::GroupCallEnded { call_id, .. } => Some(
            "Group call "@ + decimal(call_id as nat) + " ended"@,
        ),
        TelemetryEvent::IndividualCallStarted { call_id, calling_issi, called_issi, .. } => Some(
            "P2P call "@ + decimal(call_id as nat) + " started: "@ + decimal(calling_issi as nat)
                + " -> "@ + decimal(called_issi as nat),
        ),
        TelemetryEvent::IndividualCallEnded { call_id } => Some(
            "P2P call "@ + decimal(call_id as nat) + " ended"@,
        ),
        _ => None,
    }
}

/// The station that is heard by an event.
pub open spec fn heard_by<R>(event: TelemetryEvent<R>) -> Option<LastHeard> {
    match event {
        TelemetryEvent::GroupCallStarted { gssi, caller_issi, .. } => Some(
            LastHeard { issi: caller_issi, activity: Activity::CallGroup, dest: gssi },
        ),
        TelemetryEvent::GroupCallSpeakerChanged { gssi, speaker_issi, .. } => Some(
            LastHeard { issi: speaker_issi, activity: Activity::CallGroup, dest: gssi },
        ),
        TelemetryEvent::IndividualCallStarted { calling_issi, called_issi, .. } => Some(
            LastHeard { issi: calling_issi, activity: Activity::CallIndividual, dest: called_issi },
        ),
        TelemetryEvent::SdsActivity { source_issi, dest_issi } => Some(
            LastHeard { issi: source_issi, activity: Activity::Sds, dest: dest_issi },
        ),
        _ => None,
    }
}

fn holds(list: &Vec<u32>, n: u32) -> (r: bool)
    ensures
        r == list@.contains(n),
{
    let mut i: usize = 0;
    while i < list.len()
        invariant
            i <= list@.len(),
            forall|k: int| 0 <= k < i ==> list@[k] != n,
        decreases list@.len() - i,
    {
        if list[i] == n {
            assert(list@[i as int] == n);
            return true;
        }
        i = i + 1;
    }
    false
}

fn attach(groups: &mut Vec<u32>, gssis: &Vec<u32>)
    ensures
        final(groups)@ == attached(old(groups)@, gssis@),
{
    let mut i: usize = 0;
    assert(gssis@.take(0) =~= Seq::<u32>::empty());
    while i < gssis.len()
        invariant
            i <= gssis@.len(),
            groups@ == attached(old(groups)@, gssis@.take(i as int)),
        decreases gssis@.len() - i,
    {
        proof {
            assert(gssis@.take(i + 1).drop_last() =~= gssis@.take(i as int));
            assert(gssis@.take(i + 1).last() == gssis@[i as int]);
        }
        if !holds(groups, gssis[i]) {
            groups.push(gssis[i]);
        }
        i = i + 1;
    }
    assert(gssis@.take(i as int) =~= gssis@);
}

fn detach(groups: &Vec<u32>, gssis: &Vec<u32>) -> (out: Vec<u32>)
    ensures
        out@ == detached(groups@, gssis@),
{
    let mut out: Vec<u32> = Vec::new();
    let mut i: usize = 0;
    assert(groups@.take(0) =~= Seq::<u32>::empty());
    while i < groups.len()
        invariant
            i <= groups@.len(),
            out@ == detached(groups@.take(i as int), gssis@),
        decreases groups@.len() - i,
    {
        proof {
            assert(groups@.take(i + 1).drop_last() =~= groups@.take(i as int));
            assert(groups@.take(i + 1).last() == groups@[i as int]);
        }
        if !holds(gssis, groups[i]) {
            out.push(groups[i]);
        }
        i = i + 1;
    }
    assert(groups@.take(i as int) =~= groups@);
    out
}

fn copied(list: &Vec<u32>) -> (out: Vec<u32>)
    ensures
        out@ == list@,
{
    let mut out: Vec<u32> = Vec::new();
    let mut i: usize = 0;
    while i < list.len()
        invariant
            i <= list@.len(),
            out@ == list@.take(i as int),
        decreases list@.len() - i,
    {
        out.push(list[i]);
        i = i + 1;
        assert(out@ =~= list@.take(i as int));
    }
    assert(list@.take(i as int) =~= list@);
    out
}

impl<R: Copy> DashboardState<R> {
    pub fn new() -> (out: DashboardState<R>)
        ensures
            out@ == (Dashboard {
                ms: Map::<u32, Ms<R>>::empty(),
                calls: Map::empty(),
                brew_online: false,
            }),
    {
        let out = DashboardState { ms_map: HashMap::new(), calls: HashMap::new(), brew_online: false };
        assert(out@.ms =~= Map::<u32, Ms<R>>::empty());
        out
    }

    fn put_ms(&mut self, issi: u32, entry: MsEntry<R>)
        ensures
            final(self)@ == (Dashboard { ms: old(self)@.ms.insert(issi, entry@), ..old(self)@ }),
    {
        let _ = self.ms_map.insert(issi, entry);
        assert(self@.ms =~= old(self)@.ms.insert(issi, entry@));
    }

    fn take_ms(&mut self, issi: u32) -> (out: Option<MsEntry<R>>)
        ensures
            final(self)@ == (Dashboard { ms: old(self)@.ms.remove(issi), ..old(self)@ }),
            match out {
                Some(entry) => old(self)@.ms.contains_key(issi) && old(self)@.ms[issi] == entry@,
                None => !old(self)@.ms.contains_key(issi),
            },
    {
        let out = self.ms_map.remove(&issi);
        assert(self@.ms =~= old(self)@.ms.remove(issi));
        out
    }

    /// Notes an event for one station, where it is registered.
    fn note(&mut self, issi: u32, event: &TelemetryEvent<R>, now: Instant)
        ensures
            final(self)@ == old(self)@.with_ms(issi, *event, now),
    {
        let ghost before = self@;
        match self.take_ms(issi) {
            None => {
                assert(self@.ms =~= before.ms);
            },
            Some(entry) => {
                let mut entry = entry;
                match event {
                    TelemetryEvent::MsGroupAttach { gssis, .. } => {
                        attach(&mut entry.groups, gssis);
                    },
                    TelemetryEvent::MsGroupDetach { gssis, .. } => {
                        entry.groups = detach(&entry.groups, gssis);
                    },
                    TelemetryEvent::MsGroupsSnapshot { gssis, .. } => {
                        entry.groups = copied(gssis);
                    },
                    TelemetryEvent::MsRssi { rssi_dbfs, .. } => {
                        entry.rssi_dbfs = Some(*rssi_dbfs);
                        entry.last_seen = now;
                    },
                    TelemetryEvent::MsEnergySaving { mode, .. } => {
                        entry.energy_saving_mode = *mode;
                    },
                    _ => {},
                }
                self.put_ms(issi, entry);
                assert(self@.ms =~= before.ms.insert(issi, entry@));
            },
        }
    }

    /// Takes an event. `now` is the current time.
    pub fn take(&mut self, event: &TelemetryEvent<R>, now: Instant)
        ensures
            final(self)@ == old(self)@.after(*event, now),
    {
        let ghost before = self@;
        match event {
            TelemetryEvent::MsRegistration { issi } => {
                self.put_ms(
                    *issi,
                    MsEntry {
                        issi: *issi,
                        groups: Vec::new(),
                        rssi_dbfs: None,
                        registered_at: now,
                        last_seen: now,
                        energy_saving_mode: 0,
                    },
                );
            },
            TelemetryEvent::MsDeregistration { issi } => {
                let _ = self.take_ms(*issi);
            },
            TelemetryEvent::MsGroupAttach { issi, .. } => self.note(*issi, event, now),
            TelemetryEvent::MsGroupDetach { issi, .. } => self.note(*issi, event, now),
            TelemetryEvent::MsGroupsSnapshot { issi, .. } => self.note(*issi, event, now),
            TelemetryEvent::MsRssi { issi, .. } => self.note(*issi, event, now),
            TelemetryEvent::MsEnergySaving { issi, .. } => self.note(*issi, event, now),
            TelemetryEvent::GroupCallStarted { call_id, gssi, caller_issi } => {
                let _ = self.calls.insert(
                    *call_id,
                    CallEntry {
                        call_id: *call_id,
                        is_group: true,
                        gssi: *gssi,
                        caller_issi: *caller_issi,
                        called_issi: 0,
                        speaker_issi: Some(*caller_issi),
                        started_at: now,
                        simplex: false,
                    },
                );
            },
            TelemetryEvent::GroupCallSpeakerChanged { call_id, speaker_issi, .. } => {
                match self.calls.remove(call_id) {
                    None => {
                        assert(self@.calls =~= before.calls);
                    },
                    Some(call) => {
                        let mut call = call;
                        call.speaker_issi = Some(*speaker_issi);
                        let _ = self.calls.insert(*call_id, call);
                        assert(self@.calls =~= before.calls.insert(*call_id, call));
                    },
                }
            },
            TelemetryEvent::IndividualCallStarted { call_id, calling_issi, called_issi, simplex } => {
                let _ = self.calls.insert(
                    *call_id,
                    CallEntry {
                        call_id: *call_id,
                        is_group: false,
                        gssi: 0,
                        caller_issi: *calling_issi,
                        called_issi: *called_issi,
                        speaker_issi: None,
                        started_at: now,
                        simplex: *simplex,
                    },
                );
            },
            TelemetryEvent::GroupCallEnded { call_id, .. } => {
                let _ = self.calls.remove(call_id);
            },
            TelemetryEvent::IndividualCallEnded { call_id } => {
                let _ = self.calls.remove(call_id);
            },
            TelemetryEvent::BrewConnected { connected } => {
                self.brew_online = *connected;
            },
            TelemetryEvent::SdsActivity { .. } => {},
        }
    }
}

// ---------------------------------------------------------------------------------------------
// Reports
// ---------------------------------------------------------------------------------------------
/// A text with a number in the middle.
fn with_number(before: &str, n: u32, after: &str) -> (out: String)
    ensures
        out@ == before@ + decimal(n as nat) + after@,
{
    let mut out = before.to_owned();
    out.append(decimal_of(n as u128).as_str());
    out.append(after);
    out
}

/// The entry of the log that an event brings.
pub fn event_log<R>(event: &TelemetryEvent<R>) -> (out: Option<String>)
    ensures
        opt_view(out) == log_text(*event),
{
    match event {
        TelemetryEvent::MsRegistration { issi } => Some(with_number("MS ", *issi, " registered")),
        TelemetryEvent::MsDeregistration { issi } => Some(
            with_number("MS ", *issi, " deregistered"),
        ),
        TelemetryEvent::GroupCallStarted { call_id, gssi, caller_issi } => {
            let mut text = with_number("Group call ", *call_id as u32, " started: ");
            text.append(decimal_of(*caller_issi as u128).as_str());
            text.append(" -> GSSI ");
            text.append(decimal_of(*gssi as u128).as_str());
            Some(text)
        },
        TelemetryEvent::GroupCallEnded { call_id, .. } => Some(
            with_number("Group call ", *call_id as u32, " ended"),
        ),
        TelemetryEvent::IndividualCallStarted { call_id, calling_issi, called_issi, .. } => {
            let mut text = with_number("P2P call ", *call_id as u32, " started: ");
            text.append(decimal_of(*calling_issi as u128).as_str());
            text.append(" -> ");
            text.append(decimal_of(*called_issi as u128).as_str());
            Some(text)
        },
        TelemetryEvent::IndividualCallEnded { call_id } => Some(
            with_number("P2P call ", *call_id as u32, " ended"),
        ),
        _ => None,
    }
}

/// The station that is heard by an event.
pub fn event_heard<R>(event: &TelemetryEvent<R>) -> (out: Option<LastHeard>)
    ensures
        out == heard_by(*event),
{
    match event {
        TelemetryEvent::GroupCallStarted { gssi, caller_issi, .. } => Some(
            LastHeard { issi: *caller_issi, activity: Activity::CallGroup, dest: *gssi },
        ),
        TelemetryEvent::GroupCallSpeakerChanged { gssi, speaker_issi, .. } => Some(
            LastHeard { issi: *speaker_issi, activity: Activity::CallGroup, dest: *gssi },
        ),
        TelemetryEvent::IndividualCallStarted { calling_issi, called_issi, .. } => Some(
            LastHeard {
                issi: *calling_issi,
                activity: Activity::CallIndividual,
                dest: *called_issi,
            },
        ),
        TelemetryEvent::SdsActivity { source_issi, dest_issi } => Some(
            LastHeard { issi: *source_issi, activity: Activity::Sds, dest: *dest_issi },
        ),
        _ => None,
    }
}

/// The fields of a message about a station that was heard, added to others.
pub open spec fn heard_fields(
    fields: Map<Seq<char>, JsonField>,
    heard: LastHeard,
) -> Map<Seq<char>, JsonField> {
    fields.insert("issi"@, JsonField::Number(heard.issi as u64)).insert(
        "activity"@,
        JsonField::Text(activity_name(heard.activity)),
    ).insert("dest"@, JsonField::Number(heard.dest as u64))
}

/// The fields of a message of the given type.
pub open spec fn typed(name: Seq<char>) -> Map<Seq<char>, JsonField> {
    no_fields().insert("type"@, JsonField::Text(name))
}

/// The fields of a message about the groups of a station.
pub open spec fn group_fields(name: Seq<char>, issi: u32, gssis: Seq<u32>) -> Map<
    Seq<char>,
    JsonField,
> {
    typed(name).insert("issi"@, JsonField::Number(issi as u64)).insert(
        "groups"@,
        JsonField::Numbers(gssis),
    )
}

/// Fields with a number among them.
pub open spec fn number_added(
    fields: Map<Seq<char>, JsonField>,
    key: Seq<char>,
    n: u64,
) -> Map<Seq<char>, JsonField> {
    fields.insert(key, JsonField::Number(n))
}

/// Fields with a station that was heard among them.
pub open spec fn heard_added(fields: Map<Seq<char>, JsonField>, heard: LastHeard) -> Map<
    Seq<char>,
    JsonField,
> {
    fields.insert("last_heard"@, JsonField::Object(heard_fields(no_fields(), heard)))
}

/// The fields of the message that browsers get about an event.
pub open spec fn event_fields<R>(event: TelemetryEvent<R>) -> Map<Seq<char>, JsonField> {
    match event {
        TelemetryEvent::MsRegistration { issi } => {
            number_added(typed("ms_registered"@), "issi"@, issi as u64)
        },
        TelemetryEvent::MsDeregistration { issi } => {
            number_added(typed("ms_deregistered"@), "issi"@, issi as u64)
        },
        TelemetryEvent::MsGroupAttach { issi, gssis } => {
            group_fields("ms_groups"@, issi, gssis@)
        },
        TelemetryEvent::MsGroupDetach { issi, gssis } => {
            group_fields("ms_groups_detach"@, issi, gssis@)
        },
        TelemetryEvent::MsGroupsSnapshot { issi, gssis } => {
            group_fields("ms_groups_all"@, issi, gssis@)
        },
        TelemetryEvent::MsRssi { issi, rssi_json, .. } => {
            number_added(typed("ms_rssi"@), "issi"@, issi as u64).insert(
                "rssi_dbfs"@,
                value_field(rssi_json),
            )
        },
        TelemetryEvent::MsEnergySaving { issi, mode } => {
            let fields = number_added(typed("ms_energy_saving"@), "issi"@, issi as u64);
            number_added(fields, "mode"@, mode as u64)
        },
        TelemetryEvent::GroupCallStarted { call_id, gssi, caller_issi } => {
            let fields = number_added(typed("call_started"@), "call_id"@, call_id as u64).insert(
                "call_type"@,
                JsonField::Text("group"@),
            );
            let parties = number_added(
                number_added(fields, "gssi"@, gssi as u64),
                "caller_issi"@,
                caller_issi as u64,
            );
            heard_added(parties, heard_by(event)->0)
        },
        TelemetryEvent::GroupCallSpeakerChanged { call_id, gssi, speaker_issi } => {
            let fields = number_added(typed("speaker_changed"@), "call_id"@, call_id as u64);
            heard_added(
                number_added(fields, "speaker_issi"@, speaker_issi as u64),
                heard_by(event)->0,
            )
        },
        TelemetryEvent::IndividualCallStarted { call_id, calling_issi, called_issi, simplex } => {
            let fields = number_added(typed("call_started"@), "call_id"@, call_id as u64).insert(
                "call_type"@,
                JsonField::Text("individual"@),
            );
            let parties = number_added(
                number_added(fields, "caller_issi"@, calling_issi as u64),
                "called_issi"@,
                called_issi as u64,
            );
            heard_added(parties.insert("simplex"@, JsonField::Flag(simplex)), heard_by(event)->0)
        },
        TelemetryEvent::GroupCallEnded { call_id, .. } => {
            number_added(typed("call_ended"@), "call_id"@, call_id as u64)
        },
        TelemetryEvent::IndividualCallEnded { call_id } => {
            number_added(typed("call_ended"@), "call_id"@, call_id as u64)
        },
        TelemetryEvent::BrewConnected { connected } => {
            typed("brew_status"@).insert("connected"@, JsonField::Flag(connected))
        },
        TelemetryEvent::SdsActivity { .. } => {
            heard_fields(typed("last_heard"@), heard_by(event)->0)
        },
    }
}

fn typed_object(name: &str) -> (out: serde_json::Map<String, serde_json::Value>)
    ensures
        object_fields(out) == typed(name@),
{
    let mut object = new_object();
    set_text(&mut object, "type", name);
    object
}

fn add_heard(object: &mut serde_json::Map<String, serde_json::Value>, heard: LastHeard)
    ensures
        object_fields(*final(object)) == heard_fields(object_fields(*old(object)), heard),
{
    set_number(object, "issi", heard.issi as u64);
    set_text(object, "activity", heard.activity.name());
    set_number(object, "dest", heard.dest as u64);
}

fn set_heard(object: &mut serde_json::Map<String, serde_json::Value>, heard: LastHeard)
    ensures
        object_fields(*final(object)) == heard_added(object_fields(*old(object)), heard),
{
    let mut inner = new_object();
    add_heard(&mut inner, heard);
    set_object(object, "last_heard", inner);
}

fn group_object(name: &str, issi: u32, gssis: &Vec<u32>) -> (out: serde_json::Map<
    String,
    serde_json::Value,
>)
    ensures
        object_fields(out) == group_fields(name@, issi, gssis@),
{
    let mut object = typed_object(name);
    set_number(&mut object, "issi", issi as u64);
    set_numbers(&mut object, "groups", gssis.as_slice());
    object
}

/// The message that browsers get about an event, as an object.
fn event_object<R>(event: &TelemetryEvent<R>) -> (out: serde_json::Map<
    String,
    serde_json::Value,
>)
    ensures
        object_fields(out) == event_fields(*event),
{
    match event {
        TelemetryEvent::MsRegistration { issi } => {
            let mut object = typed_object("ms_registered");
            set_number(&mut object, "issi", *issi as u64);
            object
        },
        TelemetryEvent::MsDeregistration { issi } => {
            let mut object = typed_object("ms_deregistered");
            set_number(&mut object, "issi", *issi as u64);
            object
        },
        TelemetryEvent::MsGroupAttach { issi, gssis } => group_object("ms_groups", *issi, gssis),
        TelemetryEvent::MsGroupDetach { issi, gssis } => group_object("ms_groups_detach", *issi, gssis),
        TelemetryEvent::MsGroupsSnapshot { issi, gssis } => group_object("ms_groups_all", *issi, gssis),
        TelemetryEvent::MsRssi { issi, rssi_json, .. } => {
            let mut object = typed_object("ms_rssi");
            set_number(&mut object, "issi", *issi as u64);
            set_value(&mut object, "rssi_dbfs", rssi_json);
            object
        },
        TelemetryEvent::MsEnergySaving { issi, mode } => {
            let mut object = typed_object("ms_energy_saving");
            set_number(&mut object, "issi", *issi as u64);
            set_number(&mut object, "mode", *mode as u64);
            object
        },
        TelemetryEvent::GroupCallStarted { call_id, gssi, caller_issi } => {
            let mut object = typed_object("call_started");
            set_number(&mut object, "call_id", *call_id as u64);
            set_text(&mut object, "call_type", "group");
            set_number(&mut object, "gssi", *gssi as u64);
            set_number(&mut object, "caller_issi", *caller_issi as u64);
            set_heard(
                &mut object,
                LastHeard { issi: *caller_issi, activity: Activity::CallGroup, dest: *gssi },
            );
            object
        },
        TelemetryEvent::GroupCallSpeakerChanged { call_id, gssi, speaker_issi } => {
            let mut object = typed_object("speaker_changed");
            set_number(&mut object, "call_id", *call_id as u64);
            set_number(&mut object, "speaker_issi", *speaker_issi as u64);
            set_heard(
                &mut object,
                LastHeard { issi: *speaker_issi, activity: Activity::CallGroup, dest: *gssi },
            );
            object
        },
        TelemetryEvent::IndividualCallStarted { call_id, calling_issi, called_issi, simplex } => {
            let mut object = typed_object("call_started");
            set_number(&mut object, "call_id", *call_id as u64);
            set_text(&mut object, "call_type", "individual");
            set_number(&mut object, "caller_issi", *calling_issi as u64);
            set_number(&mut object, "called_issi", *called_issi as u64);
            set_flag(&mut object, "simplex", *simplex);
            set_heard(
                &mut object,
                LastHeard {
                    issi: *calling_issi,
                    activity: Activity::CallIndividual,
                    dest: *called_issi,
                },
            );
            object
        },
        TelemetryEvent::GroupCallEnded { call_id, .. } => {
            let mut object = typed_object("call_ended");
            set_number(&mut object, "call_id", *call_id as u64);
            object
        },
        TelemetryEvent::IndividualCallEnded { call_id } => {
            let mut object = typed_object("call_ended");
            set_number(&mut object, "call_id", *call_id as u64);
            object
        },
        TelemetryEvent::BrewConnected { connected } => {
            let mut object = typed_object("brew_status");
            set_flag(&mut object, "connected", *connected);
            object
        },
        TelemetryEvent::SdsActivity { source_issi, dest_issi } => {
            let mut object = typed_object("last_heard");
            add_heard(
                &mut object,
                LastHeard { issi: *source_issi, activity: Activity::Sds, dest: *dest_issi },
            );
            object
        },
    }
}

/// The message that browsers get about an event.
pub fn event_to_ws_msg<R>(event: &TelemetryEvent<R>) -> (out: Option<String>)
    ensures
        opt_view(out) == Some(rendered(event_fields(*event))),
{
    render(event_object(event))
}

/// The fields of the message that browsers get about an entry of the log.
pub open spec fn log_fields(ts: Seq<char>, level: Seq<char>, msg: Seq<char>) -> Map<
    Seq<char>,
    JsonField,
> {
    typed("log"@).insert("ts"@, JsonField::Text(ts)).insert("level"@, JsonField::Text(level)).insert(
        "msg"@,
        JsonField::Text(msg),
    )
}

/// The message that browsers get about an entry of the log.
pub fn log_to_ws_msg(ts: &str, level: &str, msg: &str) -> (out: Option<String>)
    ensures
        opt_view(out) == Some(rendered(log_fields(ts@, level@, msg@))),
{
    let mut object = typed_object("log");
    set_text(&mut object, "ts", ts);
    set_text(&mut object, "level", level);
    set_text(&mut object, "msg", msg);
    render(object)
}

/// The fields of the first message that a browser gets, with the stations, the calls, the log and
/// the stations that were last heard.
pub open spec fn snapshot_fields(
    ms: JsonField,
    calls: JsonField,
    log: JsonField,
    brew_online: bool,
    last_heard: JsonField,
) -> Map<Seq<char>, JsonField> {
    typed("snapshot"@).insert("ms"@, ms).insert("calls"@, calls).insert("log"@, log).insert(
        "brew_online"@,
        JsonField::Flag(brew_online),
    ).insert("last_heard"@, last_heard)
}

/// The first message that a browser gets.
pub fn snapshot_to_ws_msg(
    ms: &serde_json::Value,
    calls: &serde_json::Value,
    log: &serde_json::Value,
    brew_online: bool,
    last_heard: &serde_json::Value,
) -> (out: Option<String>)
    ensures
        opt_view(out) == Some(
            rendered(
                snapshot_fields(
                    value_field(*ms),
                    value_field(*calls),
                    value_field(*log),
                    brew_online,
                    value_field(*last_heard),
                ),
            ),
        ),
{
    let mut object = typed_object("snapshot");
    set_value(&mut object, "ms", ms);
    set_value(&mut object, "calls", calls);
    set_value(&mut object, "log", log);
    set_flag(&mut object, "brew_online", brew_online);
    set_value(&mut object, "last_heard", last_heard);
    render(object)
}

// ---------------------------------------------------------------------------------------------
// Laws
// ---------------------------------------------------------------------------------------------
/// After a station attaches to groups, it is in those groups and in those it was in, and in no
/// others; no group is listed twice.
pub proof fn attached_groups_are_both(groups: Seq<u32>, gssis: Seq<u32>)
    ensures
        forall|g: u32| #[trigger]
            attached(groups, gssis).contains(g) <==> groups.contains(g) || gssis.contains(g),
        groups.no_duplicates() ==> attached(groups, gssis).no_duplicates(),
    decreases gssis.len(),
{
    if gssis.len() > 0 {
        let rest = gssis.drop_last();
        let last = gssis.last();
        let before = attached(groups, rest);
        attached_groups_are_both(groups, rest);
        assert forall|g: u32| gssis.contains(g) <==> rest.contains(g) || g == last by {
            if gssis.contains(g) && g != last {
                let i = choose|i: int| 0 <= i < gssis.len() && gssis[i] == g;
                assert(rest[i] == g);
            }
            if rest.contains(g) {
                let i = choose|i: int| 0 <= i < rest.len() && rest[i] == g;
                assert(gssis[i] == g);
            }
            assert(gssis[gssis.len() - 1] == last);
        }
        if !before.contains(last) {
            let after = before.push(last);
            assert forall|g: u32| #[trigger] after.contains(g) <==> before.contains(g) || g
                == last by {
                if before.contains(g) {
                    let i = choose|i: int| 0 <= i < before.len() && before[i] == g;
                    assert(after[i] == g);
                }
                assert(after[after.len() - 1] == last);
            }
        }
    }
}

/// After a station detaches from groups, it is in those it was in but for these; no group is
/// listed twice.
pub proof fn detached_groups_are_gone(groups: Seq<u32>, gssis: Seq<u32>)
    ensures
        forall|g: u32| #[trigger]
            detached(groups, gssis).contains(g) <==> groups.contains(g) && !gssis.contains(g),
        groups.no_duplicates() ==> detached(groups, gssis).no_duplicates(),
    decreases groups.len(),
{
    if groups.len() > 0 {
        let rest = groups.drop_last();
        let last = groups.last();
        let before = detached(rest, gssis);
        detached_groups_are_gone(rest, gssis);
        assert forall|g: u32| groups.contains(g) <==> rest.contains(g) || g == last by {
            if groups.contains(g) && g != last {
                let i = choose|i: int| 0 <= i < groups.len() && groups[i] == g;
                assert(rest[i] == g);
            }
            if rest.contains(g) {
                let i = choose|i: int| 0 <= i < rest.len() && rest[i] == g;
                assert(groups[i] == g);
            }
            assert(groups[groups.len() - 1] == last);
        }
        if !gssis.contains(last) {
            let after = before.push(last);
            assert forall|g: u32| #[trigger] after.contains(g) <==> before.contains(g) || g
                == last by {
                if before.contains(g) {
                    let i = choose|i: int| 0 <= i < before.len() && before[i] == g;
                    assert(after[i] == g);
                }
                assert(after[after.len() - 1] == last);
            }
            if groups.no_duplicates() {
                assert(!rest.contains(last)) by {
                    if rest.contains(last) {
                        let i = choose|i: int| 0 <= i < rest.len() && rest[i] == last;
                        assert(groups[i] == groups[groups.len() - 1]);
                    }
                }
                assert(!before.contains(last));
            }
        }
    }
}

impl<R> Dashboard<R> {
    /// Whether every station and every call is listed under its own number.
    pub open spec fn under_own_numbers(self) -> bool {
        &&& forall|issi: u32| #[trigger]
            self.ms.contains_key(issi) ==> self.ms[issi].issi == issi
        &&& forall|call_id: u16| #[trigger]
            self.calls.contains_key(call_id) ==> self.calls[call_id].call_id == call_id
    }
}

/// Every station and every call stays listed under its own number, whatever happens.
pub proof fn entries_stay_under_own_numbers<R>(
    state: Dashboard<R>,
    event: TelemetryEvent<R>,
    now: Instant,
)
    requires
        state.under_own_numbers(),
    ensures
        state.after(event, now).under_own_numbers(),
{
}

/// The station that an event concerns.
pub open spec fn concerned<R>(event: TelemetryEvent<R>) -> Option<u32> {
    match event {
        TelemetryEvent::MsRegistration { issi } => Some(issi),
        TelemetryEvent::MsDeregistration { issi } => Some(issi),
        TelemetryEvent::MsGroupAttach { issi, .. } => Some(issi),
        TelemetryEvent::MsGroupDetach { issi, .. } => Some(issi),
        TelemetryEvent::MsGroupsSnapshot { issi, .. } => Some(issi),
        TelemetryEvent::MsRssi { issi, .. } => Some(issi),
        TelemetryEvent::MsEnergySaving { issi, .. } => Some(issi),
        _ => None,
    }
}

/// An event changes no station but the one it concerns. A station is listed from its
/// registration to its deregistration: no other event adds or removes one.
pub proof fn stations_are_independent<R>(
    state: Dashboard<R>,
    event: TelemetryEvent<R>,
    now: Instant,
    issi: u32,
)
    ensures
        concerned(event) != Some(issi) ==> {
            &&& state.after(event, now).ms.contains_key(issi) == state.ms.contains_key(issi)
            &&& state.ms.contains_key(issi) ==> state.after(event, now).ms[issi] == state.ms[issi]
        },
        state.after(event, now).ms.contains_key(issi) != state.ms.contains_key(issi)
            ==> event is MsRegistration || event is MsDeregistration,
{
}

/// A deregistration undoes a registration.
pub proof fn deregistration_undoes_registration<R>(
    state: Dashboard<R>,
    issi: u32,
    then: Instant,
    now: Instant,
)
    requires
        !state.ms.contains_key(issi),
    ensures
        state.after(TelemetryEvent::MsRegistration { issi }, then).after(
            TelemetryEvent::MsDeregistration { issi },
            now,
        ) == state,
{
    assert(state.ms.insert(issi, new_ms(issi, then)).remove(issi) =~= state.ms);
}

/// The end of a group call undoes its start.
pub proof fn call_end_undoes_start<R>(
    state: Dashboard<R>,
    call_id: u16,
    gssi: u32,
    caller_issi: u32,
    then: Instant,
    now: Instant,
)
    requires
        !state.calls.contains_key(call_id),
    ensures
        state.after(TelemetryEvent::GroupCallStarted { call_id, gssi, caller_issi }, then).after(
            TelemetryEvent::GroupCallEnded { call_id, gssi },
            now,
        ) == state,
{
    let started = state.after(
        TelemetryEvent::GroupCallStarted { call_id, gssi, caller_issi },
        then,
    );
    assert(started.calls.remove(call_id) =~= state.calls);
}

/// The end of a call between two stations undoes its start.
pub proof fn individual_call_end_undoes_start<R>(
    state: Dashboard<R>,
    call_id: u16,
    calling_issi: u32,
    called_issi: u32,
    simplex: bool,
    then: Instant,
    now: Instant,
)
    requires
        !state.calls.contains_key(call_id),
    ensures
        state.after(
            TelemetryEvent::IndividualCallStarted { call_id, calling_issi, called_issi, simplex },
            then,
        ).after(TelemetryEvent::IndividualCallEnded { call_id }, now) == state,
{
    let started = state.after(
        TelemetryEvent::IndividualCallStarted { call_id, calling_issi, called_issi, simplex },
        then,
    );
    assert(started.calls.remove(call_id) =~= state.calls);
}

// ---------------------------------------------------------------------------------------------
// Laws of the operations
// ---------------------------------------------------------------------------------------------
proof fn lemma_stations_viewed<R>(state: DashboardState<R>)
    ensures
        forall|issi: u32| #[trigger]
            state.ms_map@.contains_key(issi) <==> state@.ms.contains_key(issi),
        forall|issi: u32| #[trigger]
            state.ms_map@.contains_key(issi) ==> state@.ms[issi] == state.ms_map@[issi]@,
{
}

/// Whether the station under a number is listed as it was, or as before not at all.
pub open spec fn same_station<R>(a: DashboardState<R>, b: DashboardState<R>, issi: u32) -> bool {
    &&& b.ms_map@.contains_key(issi) <==> a.ms_map@.contains_key(issi)
    &&& a.ms_map@.contains_key(issi) ==> {
        let was = a.ms_map@[issi];
        let is = b.ms_map@[issi];
        &&& is.issi == was.issi
        &&& is.groups@ == was.groups@
        &&& is.rssi_dbfs == was.rssi_dbfs
        &&& is.registered_at == was.registered_at
        &&& is.last_seen == was.last_seen
        &&& is.energy_saving_mode == was.energy_saving_mode
    }
}

/// After the start of a call between two stations it is listed as an individual call, with the
/// calling station as caller and the called station as called party, and the station that the same
/// event reports as heard is that caller, heard towards that called party. Stations, other calls
/// and the network link stay as they are.
pub proof fn individual_call_is_listed_with_its_parties<R: Copy>(
    state: &mut DashboardState<R>,
    call_id: u16,
    calling_issi: u32,
    called_issi: u32,
    simplex: bool,
    event: &TelemetryEvent<R>,
    now: Instant,
    out: (),
    heard: Option<LastHeard>,
)
    requires
        *event == (TelemetryEvent::<R>::IndividualCallStarted {
            call_id,
            calling_issi,
            called_issi,
            simplex,
        }),
        call_ensures(DashboardState::<R>::take, (state, event, now), out),
        call_ensures(event_heard::<R>, (event,), heard),
    ensures
        final(state).calls@.contains_key(call_id),
        ({
            let call = final(state).calls@[call_id];
            &&& call.call_id == call_id
            &&& !call.is_group
            &&& call.gssi == 0
            &&& call.caller_issi == calling_issi
            &&& call.called_issi == called_issi
            &&& call.speaker_issi is None
            &&& call.started_at == now
            &&& call.simplex == simplex
            &&& heard matches Some(station) && station.issi == call.caller_issi && station.dest
                == call.called_issi && station.activity == Activity::CallIndividual
        }),
        forall|other: u16|
            other != call_id ==> (#[trigger] final(state).calls@.contains_key(other)) == old(
                state,
            ).calls@.contains_key(other) && final(state).calls@[other] == old(state).calls@[other],
        forall|issi: u32| #[trigger] same_station(*old(state), *final(state), issi),
        final(state).brew_online == old(state).brew_online,
{
    lemma_stations_viewed(*old(state));
    lemma_stations_viewed(*final(state));
    assert(final(state)@.calls == final(state).calls@);
    assert(final(state)@.ms == old(state)@.ms);
}

/// After the start of a group call it is listed as a group call of that group, with its caller, who
/// also speaks, and the station that the same event reports as heard is that caller, heard towards
/// that group. Stations, other calls and the network link stay as they are.
pub proof fn group_call_is_listed_with_its_caller<R: Copy>(
    state: &mut DashboardState<R>,
    call_id: u16,
    gssi: u32,
    caller_issi: u32,
    event: &TelemetryEvent<R>,
    now: Instant,
    out: (),
    heard: Option<LastHeard>,
)
    requires
        *event == (TelemetryEvent::<R>::GroupCallStarted { call_id, gssi, caller_issi }),
        call_ensures(DashboardState::<R>::take, (state, event, now), out),
        call_ensures(event_heard::<R>, (event,), heard),
    ensures
        final(state).calls@.contains_key(call_id),
        ({
            let call = final(state).calls@[call_id];
            &&& call.call_id == call_id
            &&& call.is_group
            &&& call.gssi == gssi
            &&& call.caller_issi == caller_issi
            &&& call.called_issi == 0
            &&& call.speaker_issi == Some(caller_issi)
            &&& call.started_at == now
            &&& !call.simplex
            &&& heard matches Some(station) && station.issi == call.caller_issi && station.dest
                == call.gssi && station.activity == Activity::CallGroup
        }),
        forall|other: u16|
            other != call_id ==> (#[trigger] final(state).calls@.contains_key(other)) == old(
                state,
            ).calls@.contains_key(other) && final(state).calls@[other] == old(state).calls@[other],
        forall|issi: u32| #[trigger] same_station(*old(state), *final(state), issi),
        final(state).brew_online == old(state).brew_online,
{
    lemma_stations_viewed(*old(state));
    lemma_stations_viewed(*final(state));
    assert(final(state)@.calls == final(state).calls@);
    assert(final(state)@.ms == old(state)@.ms);
}

/// A change of the speaker changes the speaker of that call and nothing else; the new speaker is
/// the station that the event reports as heard, towards the group. Of a call that is not listed
/// nothing is noted.
pub proof fn new_speaker_is_noted<R: Copy>(
    state: &mut DashboardState<R>,
    call_id: u16,
    gssi: u32,
    speaker_issi: u32,
    event: &TelemetryEvent<R>,
    now: Instant,
    out: (),
    heard: Option<LastHeard>,
)
    requires
        *event == (TelemetryEvent::<R>::GroupCallSpeakerChanged { call_id, gssi, speaker_issi }),
        call_ensures(DashboardState::<R>::take, (state, event, now), out),
        call_ensures(event_heard::<R>, (event,), heard),
    ensures
        final(state).calls@.contains_key(call_id) <==> old(state).calls@.contains_key(call_id),
        old(state).calls@.contains_key(call_id) ==> {
            let was = old(state).calls@[call_id];
            let call = final(state).calls@[call_id];
            &&& call.speaker_issi == Some(speaker_issi)
            &&& call.call_id == was.call_id && call.is_group == was.is_group && call.gssi == was.gssi
            &&& call.caller_issi == was.caller_issi && call.called_issi == was.called_issi
            &&& call.started_at == was.started_at && call.simplex == was.simplex
        },
        heard == Some(
            LastHeard { issi: speaker_issi, activity: Activity::CallGroup, dest: gssi },
        ),
        forall|other: u16|
            other != call_id ==> (#[trigger] final(state).calls@.contains_key(other)) == old(
                state,
            ).calls@.contains_key(other) && final(state).calls@[other] == old(state).calls@[other],
        forall|issi: u32| #[trigger] same_station(*old(state), *final(state), issi),
        final(state).brew_online == old(state).brew_online,
{
    lemma_stations_viewed(*old(state));
    lemma_stations_viewed(*final(state));
    assert(final(state)@.calls == final(state).calls@);
    assert(old(state)@.calls == old(state).calls@);
    assert(final(state)@.ms == old(state)@.ms);
}

/// A call that ended is no longer listed, of whichever kind it is, and nothing else changes.
pub proof fn ended_call_is_not_listed<R: Copy>(
    state: &mut DashboardState<R>,
    call_id: u16,
    event: &TelemetryEvent<R>,
    now: Instant,
    out: (),
    heard: Option<LastHeard>,
)
    requires
        (*event matches TelemetryEvent::GroupCallEnded { call_id: id, .. } && id == call_id)
            || *event == (TelemetryEvent::<R>::IndividualCallEnded { call_id }),
        call_ensures(DashboardState::<R>::take, (state, event, now), out),
        call_ensures(event_heard::<R>, (event,), heard),
    ensures
        !final(state).calls@.contains_key(call_id),
        heard is None,
        forall|other: u16|
            other != call_id ==> (#[trigger] final(state).calls@.contains_key(other)) == old(
                state,
            ).calls@.contains_key(other) && final(state).calls@[other] == old(state).calls@[other],
        forall|issi: u32| #[trigger] same_station(*old(state), *final(state), issi),
        final(state).brew_online == old(state).brew_online,
{
    lemma_stations_viewed(*old(state));
    lemma_stations_viewed(*final(state));
    assert(final(state)@.calls == final(state).calls@);
    assert(old(state)@.calls == old(state).calls@);
    assert(final(state)@.ms == old(state)@.ms);
}

/// A station that registers is listed under its number, without groups, signal strength and energy
/// saving, as registered and last seen now. A station that deregisters is not listed. Nothing else
/// changes.
pub proof fn registrations_are_listed<R: Copy>(
    state: &mut DashboardState<R>,
    issi: u32,
    event: &TelemetryEvent<R>,
    now: Instant,
    out: (),
)
    requires
        *event == (TelemetryEvent::<R>::MsRegistration { issi }) || *event == (TelemetryEvent::<
            R,
        >::MsDeregistration { issi }),
        call_ensures(DashboardState::<R>::take, (state, event, now), out),
    ensures
        event is MsDeregistration ==> !final(state).ms_map@.contains_key(issi),
        event is MsRegistration ==> {
            let ms = final(state).ms_map@[issi];
            &&& final(state).ms_map@.contains_key(issi)
            &&& ms.issi == issi
            &&& ms.groups@.len() == 0
            &&& ms.rssi_dbfs is None
            &&& ms.registered_at == now
            &&& ms.last_seen == now
            &&& ms.energy_saving_mode == 0
        },
        forall|other: u32|
            other != issi ==> #[trigger] same_station(*old(state), *final(state), other),
        final(state).calls@ == old(state).calls@,
        final(state).brew_online == old(state).brew_online,
{
    lemma_stations_viewed(*old(state));
    lemma_stations_viewed(*final(state));
    assert forall|other: u32| other != issi implies #[trigger] same_station(
        *old(state),
        *final(state),
        other,
    ) by {
        assert(final(state)@.ms.contains_key(other) == old(state)@.ms.contains_key(other));
        assert(old(state).ms_map@.contains_key(other) == old(state)@.ms.contains_key(other));
        assert(final(state).ms_map@.contains_key(other) == final(state)@.ms.contains_key(other));
    }
    assert(final(state).ms_map@.contains_key(issi) == final(state)@.ms.contains_key(issi));
}

/// What is told of a registered station is noted of it: its groups are as the snapshot says, and
/// the signal strength, with the time it was seen, and the mode of energy saving are the latest.
/// Everything else of it stays, and so do all others. Of a station that is not registered nothing
/// is noted.
pub proof fn station_reports_are_noted<R: Copy>(
    state: &mut DashboardState<R>,
    issi: u32,
    event: &TelemetryEvent<R>,
    now: Instant,
    out: (),
)
    requires
        (*event matches TelemetryEvent::MsRssi { issi: id, .. } && id == issi) || (
        *event matches TelemetryEvent::MsEnergySaving { issi: id, .. } && id == issi) || (
        *event matches TelemetryEvent::MsGroupsSnapshot { issi: id, .. } && id == issi),
        call_ensures(DashboardState::<R>::take, (state, event, now), out),
    ensures
        final(state).ms_map@.contains_key(issi) <==> old(state).ms_map@.contains_key(issi),
        old(state).ms_map@.contains_key(issi) ==> {
            let was = old(state).ms_map@[issi];
            let ms = final(state).ms_map@[issi];
            &&& ms.issi == was.issi && ms.registered_at == was.registered_at
            &&& ms.rssi_dbfs == match *event {
                TelemetryEvent::MsRssi { rssi_dbfs, .. } => Some(rssi_dbfs),
                _ => was.rssi_dbfs,
            }
            &&& ms.last_seen == if event is MsRssi {
                now
            } else {
                was.last_seen
            }
            &&& ms.energy_saving_mode == match *event {
                TelemetryEvent::MsEnergySaving { mode, .. } => mode,
                _ => was.energy_saving_mode,
            }
            &&& ms.groups@ == match *event {
                TelemetryEvent::MsGroupsSnapshot { gssis, .. } => gssis@,
                _ => was.groups@,
            }
        },
        forall|other: u32|
            other != issi ==> #[trigger] same_station(*old(state), *final(state), other),
        final(state).calls@ == old(state).calls@,
        final(state).brew_online == old(state).brew_online,
{
    lemma_stations_viewed(*old(state));
    lemma_stations_viewed(*final(state));
    assert forall|other: u32| other != issi implies #[trigger] same_station(
        *old(state),
        *final(state),
        other,
    ) by {
        assert(final(state)@.ms.contains_key(other) == old(state)@.ms.contains_key(other));
        assert(old(state).ms_map@.contains_key(other) == old(state)@.ms.contains_key(other));
        assert(final(state).ms_map@.contains_key(other) == final(state)@.ms.contains_key(other));
    }
    assert(final(state).ms_map@.contains_key(issi) == final(state)@.ms.contains_key(issi));
    assert(old(state).ms_map@.contains_key(issi) == old(state)@.ms.contains_key(issi));
}

proof fn lemma_detached_is_filter(groups: Seq<u32>, gssis: Seq<u32>)
    ensures
        detached(groups, gssis) == groups.filter(|g: u32| !gssis.contains(g)),
    decreases groups.len(),
{
    reveal(Seq::filter);
    if groups.len() > 0 {
        lemma_detached_is_filter(groups.drop_last(), gssis);
    }
}

proof fn lemma_attached_in_order(groups: Seq<u32>, gssis: Seq<u32>)
    ensures
        groups.len() <= attached(groups, gssis).len(),
        forall|i: int|
            0 <= i < groups.len() ==> (#[trigger] attached(groups, gssis)[i]) == groups[i],
        forall|i: int, j: int, q: int|
            #![trigger attached(groups, gssis)[i], attached(groups, gssis)[j], gssis[q]]
            groups.len() <= i < j < attached(groups, gssis).len() && 0 <= q < gssis.len()
                && gssis[q] == attached(groups, gssis)[j] ==> gssis.take(q).contains(
                attached(groups, gssis)[i],
            ),
        forall|i: int, j: int|
            0 <= i < j < attached(groups, gssis).len() && groups.len() <= j ==> (
            #[trigger] attached(groups, gssis)[i]) != (#[trigger] attached(groups, gssis)[j]),
    decreases gssis.len(),
{
    if gssis.len() > 0 {
        let rest = gssis.drop_last();
        let last = gssis.last();
        let before = attached(groups, rest);
        let after = attached(groups, gssis);
        lemma_attached_in_order(groups, rest);
        attached_groups_are_both(groups, rest);
        attached_groups_are_both(groups, gssis);
        assert forall|i: int, j: int, q: int|
            #![trigger after[i], after[j], gssis[q]]
            groups.len() <= i < j < after.len() && 0 <= q < gssis.len() && gssis[q]
                == after[j] implies gssis.take(q).contains(after[i]) by {
            assert(after[i] == before[i]);
            assert(before.contains(before[i]));
            if j < before.len() {
                assert(after[j] == before[j]);
                if q < rest.len() {
                    assert(rest[q] == gssis[q]);
                    assert(gssis.take(q) =~= rest.take(q));
                } else {
                    assert(before.contains(before[j]));
                    // A group that was there before is not new, so it stands in the others.
                    assert(rest.contains(before[j]) || groups.contains(before[j]));
                    if !rest.contains(before[j]) {
                        let k = choose|k: int| 0 <= k < groups.len() && groups[k] == before[j];
                        assert(before[k] == before[j]);
                    }
                    let r = choose|r: int| 0 <= r < rest.len() && rest[r] == before[j];
                    assert(rest.take(r).contains(before[i]));
                    let p = choose|p: int| 0 <= p < r && rest.take(r)[p] == before[i];
                    assert(gssis.take(q)[p] == before[i]);
                }
            } else {
                assert(q == rest.len()) by {
                    if q < rest.len() {
                        assert(rest[q] == last);
                        assert(rest.contains(last));
                    }
                }
                assert(gssis.take(q) =~= rest);
                if !rest.contains(before[i]) {
                    let k = choose|k: int| 0 <= k < groups.len() && groups[k] == before[i];
                    assert(before[k] == before[i]);
                }
            }
        }
        assert forall|i: int, j: int|
            0 <= i < j < after.len() && groups.len() <= j implies (#[trigger] after[i]) != (
        #[trigger] after[j]) by {
            assert(after[i] == before[i]);
            if j == before.len() {
                assert(before.contains(before[i]));
            }
        }
    }
}

/// A station that attaches to groups has those it had, in their places, and behind them those of
/// the new ones that it had not, each once, in the order in which they are first named. Nothing
/// else of it changes, nor anything else; of a station that is not registered nothing is noted.
pub proof fn attached_groups_follow_in_order<R: Copy>(
    state: &mut DashboardState<R>,
    issi: u32,
    gssis: Vec<u32>,
    event: &TelemetryEvent<R>,
    now: Instant,
    out: (),
)
    requires
        *event == (TelemetryEvent::<R>::MsGroupAttach { issi, gssis }),
        call_ensures(DashboardState::<R>::take, (state, event, now), out),
    ensures
        final(state).ms_map@.contains_key(issi) <==> old(state).ms_map@.contains_key(issi),
        old(state).ms_map@.contains_key(issi) ==> {
            let was = old(state).ms_map@[issi];
            let ms = final(state).ms_map@[issi];
            let groups = was.groups@;
            let after = ms.groups@;
            &&& ms.issi == was.issi && ms.registered_at == was.registered_at
            &&& ms.rssi_dbfs == was.rssi_dbfs
            &&& ms.last_seen == was.last_seen
            &&& ms.energy_saving_mode == was.energy_saving_mode
            &&& groups.len() <= after.len()
            &&& after.take(groups.len() as int) == groups
            &&& forall|g: u32| #[trigger]
                after.contains(g) <==> groups.contains(g) || gssis@.contains(g)
            &&& forall|i: int, j: int|
                0 <= i < j < after.len() && groups.len() <= j ==> (#[trigger] after[i]) != (
                #[trigger] after[j])
            &&& forall|i: int, j: int, q: int|
                #![trigger after[i], after[j], gssis@[q]]
                groups.len() <= i < j < after.len() && 0 <= q < gssis@.len() && gssis@[q]
                    == after[j] ==> gssis@.take(q).contains(after[i])
        },
        forall|other: u32|
            other != issi ==> #[trigger] same_station(*old(state), *final(state), other),
        final(state).calls@ == old(state).calls@,
        final(state).brew_online == old(state).brew_online,
{
    lemma_stations_viewed(*old(state));
    lemma_stations_viewed(*final(state));
    assert forall|other: u32| other != issi implies #[trigger] same_station(
        *old(state),
        *final(state),
        other,
    ) by {
        assert(final(state)@.ms.contains_key(other) == old(state)@.ms.contains_key(other));
        assert(old(state).ms_map@.contains_key(other) == old(state)@.ms.contains_key(other));
        assert(final(state).ms_map@.contains_key(other) == final(state)@.ms.contains_key(other));
    }
    assert(final(state).ms_map@.contains_key(issi) == final(state)@.ms.contains_key(issi));
    assert(old(state).ms_map@.contains_key(issi) == old(state)@.ms.contains_key(issi));
    if old(state).ms_map@.contains_key(issi) {
        let groups = old(state).ms_map@[issi].groups@;
        lemma_attached_in_order(groups, gssis@);
        attached_groups_are_both(groups, gssis@);
        assert(attached(groups, gssis@).take(groups.len() as int) =~= groups);
    }
}

/// A station that detaches from groups has those it had but for these, in their order. Nothing else
/// of it changes, nor anything else; of a station that is not registered nothing is noted.
pub proof fn detached_groups_leave_the_others<R: Copy>(
    state: &mut DashboardState<R>,
    issi: u32,
    gssis: Vec<u32>,
    event: &TelemetryEvent<R>,
    now: Instant,
    out: (),
)
    requires
        *event == (TelemetryEvent::<R>::MsGroupDetach { issi, gssis }),
        call_ensures(DashboardState::<R>::take, (state, event, now), out),
    ensures
        final(state).ms_map@.contains_key(issi) <==> old(state).ms_map@.contains_key(issi),
        old(state).ms_map@.contains_key(issi) ==> {
            let was = old(state).ms_map@[issi];
            let ms = final(state).ms_map@[issi];
            &&& ms.issi == was.issi && ms.registered_at == was.registered_at
            &&& ms.rssi_dbfs == was.rssi_dbfs
            &&& ms.last_seen == was.last_seen
            &&& ms.energy_saving_mode == was.energy_saving_mode
            &&& ms.groups@ == was.groups@.filter(|g: u32| !gssis@.contains(g))
        },
        forall|other: u32|
            other != issi ==> #[trigger] same_station(*old(state), *final(state), other),
        final(state).calls@ == old(state).calls@,
        final(state).brew_online == old(state).brew_online,
{
    lemma_stations_viewed(*old(state));
    lemma_stations_viewed(*final(state));
    assert forall|other: u32| other != issi implies #[trigger] same_station(
        *old(state),
        *final(state),
        other,
    ) by {
        assert(final(state)@.ms.contains_key(other) == old(state)@.ms.contains_key(other));
        assert(old(state).ms_map@.contains_key(other) == old(state)@.ms.contains_key(other));
        assert(final(state).ms_map@.contains_key(other) == final(state)@.ms.contains_key(other));
    }
    assert(final(state).ms_map@.contains_key(issi) == final(state)@.ms.contains_key(issi));
    assert(old(state).ms_map@.contains_key(issi) == old(state)@.ms.contains_key(issi));
    if old(state).ms_map@.contains_key(issi) {
        lemma_detached_is_filter(old(state).ms_map@[issi].groups@, gssis@);
    }
}

/// The network link stands as it was last told, and a message between stations is noted as heard
/// alone. Neither changes anything else.
pub proof fn link_and_messages_are_noted<R: Copy>(
    state: &mut DashboardState<R>,
    event: &TelemetryEvent<R>,
    now: Instant,
    out: (),
    heard: Option<LastHeard>,
)
    requires
        event is BrewConnected || event is SdsActivity,
        call_ensures(DashboardState::<R>::take, (state, event, now), out),
        call_ensures(event_heard::<R>, (event,), heard),
    ensures
        final(state).brew_online == match *event {
            TelemetryEvent::BrewConnected { connected } => connected,
            _ => old(state).brew_online,
        },
        heard == match *event {
            TelemetryEvent::SdsActivity { source_issi, dest_issi } => Some(
                LastHeard { issi: source_issi, activity: Activity::Sds, dest: dest_issi },
            ),
            _ => None,
        },
        forall|issi: u32| #[trigger] same_station(*old(state), *final(state), issi),
        final(state).calls@ == old(state).calls@,
{
    lemma_stations_viewed(*old(state));
    lemma_stations_viewed(*final(state));
    assert(final(state)@.ms == old(state)@.ms);
}

/// Stations are heard by calls that start, by speakers and by messages, and by nothing else.
pub proof fn nothing_else_is_heard<R>(event: &TelemetryEvent<R>, heard: Option<LastHeard>)
    requires
        call_ensures(event_heard::<R>, (event,), heard),
    ensures
        heard is Some <==> event is GroupCallStarted || event is GroupCallSpeakerChanged
            || event is IndividualCallStarted || event is SdsActivity,
{
}

/// A new dashboard knows of no station and no call, and of no network link.
pub proof fn new_state_is_empty<R: Copy>(out: DashboardState<R>)
    requires
        call_ensures(DashboardState::<R>::new, (), out),
    ensures
        forall|issi: u32| !#[trigger] out.ms_map@.contains_key(issi),
        forall|call_id: u16| !#[trigger] out.calls@.contains_key(call_id),
        !out.brew_online,
{
    lemma_stations_viewed(out);
    assert(out@.calls == out.calls@);
}

/// The log tells of registrations and of calls that start and end, with their numbers, of a call
/// that starts from whom it comes and whom it is for, and of nothing else.
pub proof fn log_tells_of_registrations_and_calls<R>(
    event: &TelemetryEvent<R>,
    out: Option<String>,
)
    requires
        call_ensures(event_log::<R>, (event,), out),
    ensures
        match *event {
            TelemetryEvent::MsRegistration { issi } => out is Some && out->0@ == "MS "@ + decimal(
                issi as nat,
            ) + " registered"@,
            TelemetryEvent::MsDeregistration { issi } => out is Some && out->0@ == "MS "@ + decimal(
                issi as nat,
            ) + " deregistered"@,
            TelemetryEvent::GroupCallStarted { call_id, gssi, caller_issi } => out is Some
                && out->0@ == "Group call "@ + decimal(call_id as nat) + " started: "@ + decimal(
                caller_issi as nat,
            ) + " -> GSSI "@ + decimal(gssi as nat),
            TelemetryEvent::GroupCallEnded { call_id, .. } => out is Some && out->0@
                == "Group call "@ + decimal(call_id as nat) + " ended"@,
            TelemetryEvent::IndividualCallStarted { call_id, calling_issi, called_issi, .. } =>
            out is Some && out->0@ == "P2P call "@ + decimal(call_id as nat) + " started: "@
                + decimal(calling_issi as nat) + " -> "@ + decimal(called_issi as nat),
            TelemetryEvent::IndividualCallEnded { call_id } => out is Some && out->0@
                == "P2P call "@ + decimal(call_id as nat) + " ended"@,
            _ => out is None,
        },
{
}

/// What a message about a station that was heard says of it.
pub open spec fn told_heard(issi: u32, activity: Seq<char>, dest: u32) -> JsonField {
    JsonField::Object(
        map![
            "issi"@ => JsonField::Number(issi as u64),
            "activity"@ => JsonField::Text(activity),
            "dest"@ => JsonField::Number(dest as u64)
        ],
    )
}

/// Browsers are told of every event: what it is, and all that it says.
pub proof fn browsers_are_told_all_of_an_event<R>(
    event: &TelemetryEvent<R>,
    out: Option<String>,
    fields: Map<Seq<char>, JsonField>,
)
    requires
        call_ensures(event_to_ws_msg::<R>, (event,), out),
        fields == match *event {
            TelemetryEvent::MsRegistration { issi } => map![
                "type"@ => JsonField::Text("ms_registered"@),
                "issi"@ => JsonField::Number(issi as u64)
            ],
            TelemetryEvent::MsDeregistration { issi } => map![
                "type"@ => JsonField::Text("ms_deregistered"@),
                "issi"@ => JsonField::Number(issi as u64)
            ],
            TelemetryEvent::MsGroupAttach { issi, gssis } => map![
                "type"@ => JsonField::Text("ms_groups"@),
                "issi"@ => JsonField::Number(issi as u64),
                "groups"@ => JsonField::Numbers(gssis@)
            ],
            TelemetryEvent::MsGroupDetach { issi, gssis } => map![
                "type"@ => JsonField::Text("ms_groups_detach"@),
                "issi"@ => JsonField::Number(issi as u64),
                "groups"@ => JsonField::Numbers(gssis@)
            ],
            TelemetryEvent::MsGroupsSnapshot { issi, gssis } => map![
                "type"@ => JsonField::Text("ms_groups_all"@),
                "issi"@ => JsonField::Number(issi as u64),
                "groups"@ => JsonField::Numbers(gssis@)
            ],
            TelemetryEvent::MsRssi { issi, rssi_json, .. } => map![
                "type"@ => JsonField::Text("ms_rssi"@),
                "issi"@ => JsonField::Number(issi as u64),
                "rssi_dbfs"@ => value_field(rssi_json)
            ],
            TelemetryEvent::MsEnergySaving { issi, mode } => map![
                "type"@ => JsonField::Text("ms_energy_saving"@),
                "issi"@ => JsonField::Number(issi as u64),
                "mode"@ => JsonField::Number(mode as u64)
            ],
            TelemetryEvent::GroupCallStarted { call_id, gssi, caller_issi } => map![
                "type"@ => JsonField::Text("call_started"@),
                "call_id"@ => JsonField::Number(call_id as u64),
                "call_type"@ => JsonField::Text("group"@),
                "gssi"@ => JsonField::Number(gssi as u64),
                "caller_issi"@ => JsonField::Number(caller_issi as u64),
                "last_heard"@ => told_heard(caller_issi, "call_group"@, gssi)
            ],
            TelemetryEvent::GroupCallSpeakerChanged { call_id, gssi, speaker_issi } => map![
                "type"@ => JsonField::Text("speaker_changed"@),
                "call_id"@ => JsonField::Number(call_id as u64),
                "speaker_issi"@ => JsonField::Number(speaker_issi as u64),
                "last_heard"@ => told_heard(speaker_issi, "call_group"@, gssi)
            ],
            TelemetryEvent::IndividualCallStarted {
                call_id,
                calling_issi,
                called_issi,
                simplex,
            } => map![
                "type"@ => JsonField::Text("call_started"@),
                "call_id"@ => JsonField::Number(call_id as u64),
                "call_type"@ => JsonField::Text("individual"@),
                "caller_issi"@ => JsonField::Number(calling_issi as u64),
                "called_issi"@ => JsonField::Number(called_issi as u64),
                "simplex"@ => JsonField::Flag(simplex),
                "last_heard"@ => told_heard(calling_issi, "call_individual"@, called_issi)
            ],
            TelemetryEvent::GroupCallEnded { call_id, .. } => map![
                "type"@ => JsonField::Text("call_ended"@),
                "call_id"@ => JsonField::Number(call_id as u64)
            ],
            TelemetryEvent::IndividualCallEnded { call_id } => map![
                "type"@ => JsonField::Text("call_ended"@),
                "call_id"@ => JsonField::Number(call_id as u64)
            ],
            TelemetryEvent::BrewConnected { connected } => map![
                "type"@ => JsonField::Text("brew_status"@),
                "connected"@ => JsonField::Flag(connected)
            ],
            TelemetryEvent::SdsActivity { source_issi, dest_issi } => map![
                "type"@ => JsonField::Text("last_heard"@),
                "issi"@ => JsonField::Number(source_issi as u64),
                "activity"@ => JsonField::Text("sds"@),
                "dest"@ => JsonField::Number(dest_issi as u64)
            ],
        },
    ensures
        out matches Some(text) && text@ == rendered(fields),
{
}

/// The message about an entry of the log holds its time, level and text, each in its place; the
/// first message that a browser gets holds the lists and the network link, each in its place.
pub proof fn messages_hold_what_they_are_given(
    ts: &str,
    level: &str,
    msg: &str,
    log_out: Option<String>,
    ms: &serde_json::Value,
    calls: &serde_json::Value,
    log: &serde_json::Value,
    brew_online: bool,
    last_heard: &serde_json::Value,
    out: Option<String>,
)
    requires
        call_ensures(log_to_ws_msg, (ts, level, msg), log_out),
        call_ensures(snapshot_to_ws_msg, (ms, calls, log, brew_online, last_heard), out),
    ensures
        log_out is Some && log_out->0@ == rendered(
            map![
                "type"@ => JsonField::Text("log"@),
                "ts"@ => JsonField::Text(ts@),
                "level"@ => JsonField::Text(level@),
                "msg"@ => JsonField::Text(msg@)
            ],
        ),
        out is Some && out->0@ == rendered(
            map![
                "type"@ => JsonField::Text("snapshot"@),
                "ms"@ => value_field(*ms),
                "calls"@ => value_field(*calls),
                "log"@ => value_field(*log),
                "brew_online"@ => JsonField::Flag(brew_online),
                "last_heard"@ => value_field(*last_heard)
            ],
        ),
{
}

/// Activities have their names.
pub proof fn activities_have_names(activity: Activity, out: &'static str)
    requires
        call_ensures(Activity::name, (activity,), out),
    ensures
        activity == Activity::CallGroup ==> out@ == "call_group"@,
        activity == Activity::CallIndividual ==> out@ == "call_individual"@,
        activity == Activity::Sds ==> out@ == "sds"@,
{
}

/// States that look the same list the same stations and the same calls, and agree on the network
/// link.
pub proof fn state_is_known_by_its_view<R>(a: DashboardState<R>, b: DashboardState<R>)
    requires
        a@ == b@,
    ensures
        forall|issi: u32| #[trigger] same_station(a, b, issi),
        a.calls@ == b.calls@,
        a.brew_online == b.brew_online,
{
    lemma_stations_viewed(a);
    lemma_stations_viewed(b);
    assert forall|issi: u32| #[trigger] same_station(a, b, issi) by {
        assert(a.ms_map@.contains_key(issi) == a@.ms.contains_key(issi));
        assert(b.ms_map@.contains_key(issi) == b@.ms.contains_key(issi));
    }
    assert(a@.calls == a.calls@ && b@.calls == b.calls@);
}

} // verus!
