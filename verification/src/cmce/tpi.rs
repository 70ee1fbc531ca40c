//! Talking party identification: what the receiving terminals of a call are told of the party
//! that talks.
use crate::number::{parse_unsigned, unsigned_number};
use crate::text::{lowered, opt_str, same, to_lower, trim, trimmed};
use std::collections::HashMap;
use vstd::prelude::*;

verus! {

broadcast use vstd::std_specs::hash::group_hash_axioms;

// ---------------------------------------------------------------------------------------------
// Trial modes
// ---------------------------------------------------------------------------------------------
/// How the identity of the talking party is presented in trials with a group of terminals.
#[derive(Debug, Clone, Copy, PartialEq, Eq, Structural)]
pub enum MotorolaTpiTestMode {
    Off,
    /// The grant of transmission carries the identity.
    TxGranted,
    /// The setup carries the mnemonic only.
    SetupMnemonicOnly,
    /// The setup carries the mnemonic only, and the grant of transmission the identity.
    SetupPulse,
}

/// The mode that a setting names.
pub open spec fn named_mode(name: Seq<char>) -> MotorolaTpiTestMode {
    if name == "a"@ || name == "tx-granted"@ || name == "d-tx-granted"@ {
        MotorolaTpiTestMode::TxGranted
    } else if name == "b"@ || name == "setup-mnemonic-only"@ || name == "mnemonic-only"@ {
        MotorolaTpiTestMode::SetupMnemonicOnly
    } else if name == "c"@ || name == "setup-pulse"@ || name == "pulse"@ {
        MotorolaTpiTestMode::SetupPulse
    } else {
        MotorolaTpiTestMode::Off
    }
}

/// The mode for a group: off, unless the first setting holds the number of that group.
pub open spec fn test_mode(
    target: Option<Seq<char>>,
    mode: Option<Seq<char>>,
    dest_gssi: u32,
) -> MotorolaTpiTestMode {
    match target {
        Some(t) => if unsigned_number(trimmed(t)) == Some(dest_gssi as nat) {
            match mode {
                Some(m) => named_mode(lowered(trimmed(m))),
                None => MotorolaTpiTestMode::Off,
            }
        } else {
            MotorolaTpiTestMode::Off
        },
        None => MotorolaTpiTestMode::Off,
    }
}

/// The mode for a group, by two settings: the number of the group in trial, and the name of the
/// mode.
pub fn motorola_tpi_test_mode(target: Option<&str>, mode: Option<&str>, dest_gssi: u32) -> (out:
    MotorolaTpiTestMode)
    ensures
        out == test_mode(opt_str(target), opt_str(mode), dest_gssi),
{
    let on_target = match target {
        Some(t) => match parse_unsigned(trim(t).as_str(), u32::MAX as u64) {
            Some(n) => n == dest_gssi as u64,
            None => false,
        },
        None => false,
    };
    if !on_target {
        return MotorolaTpiTestMode::Off;
    }
    match mode {
        None => MotorolaTpiTestMode::Off,
        Some(m) => {
            let name = to_lower(trim(m).as_str());
            let name = name.as_str();
            if same(name, "a") || same(name, "tx-granted") || same(name, "d-tx-granted") {
                MotorolaTpiTestMode::TxGranted
            } else if same(name, "b") || same(name, "setup-mnemonic-only") || same(
                name,
                "mnemonic-only",
            ) {
                MotorolaTpiTestMode::SetupMnemonicOnly
            } else if same(name, "c") || same(name, "setup-pulse") || same(name, "pulse") {
                MotorolaTpiTestMode::SetupPulse
            } else {
                MotorolaTpiTestMode::Off
            }
        },
    }
}

/// Whether the setup leaves out the number of the caller.
pub open spec fn suppresses_caller(mode: MotorolaTpiTestMode) -> bool {
    mode == MotorolaTpiTestMode::SetupMnemonicOnly || mode == MotorolaTpiTestMode::SetupPulse
}

/// Whether a grant of transmission that carries the identity follows the setup.
pub open spec fn grants_with_identity(mode: MotorolaTpiTestMode) -> bool {
    mode == MotorolaTpiTestMode::TxGranted || mode == MotorolaTpiTestMode::SetupPulse
}

/// Whether the setup leaves out the number of the caller.
pub fn motorola_tpi_setup_suppresses_caller(mode: MotorolaTpiTestMode) -> (r: bool)
    ensures
        r == suppresses_caller(mode),
{
    mode == MotorolaTpiTestMode::SetupMnemonicOnly || mode == MotorolaTpiTestMode::SetupPulse
}

/// Whether a grant of transmission follows the setup at once.
pub fn motorola_tpi_emits_initial_tx_granted(mode: MotorolaTpiTestMode) -> (r: bool)
    ensures
        r == grants_with_identity(mode),
{
    mode == MotorolaTpiTestMode::TxGranted || mode == MotorolaTpiTestMode::SetupPulse
}

// ---------------------------------------------------------------------------------------------
// Identities
// ---------------------------------------------------------------------------------------------
/// What is known of a subscriber.
#[derive(Debug)]
pub struct IdentityRecord {
    pub mnemonic: Option<String>,
    /// The label in the form of a mnemonic, where there is a label that has such a form.
    pub label: Option<String>,
}

/// The name under which a subscriber is shown: the mnemonic, or else the label.
pub open spec fn record_mnemonic(record: IdentityRecord) -> Option<String> {
    match record.mnemonic {
        Some(mnemonic) => Some(mnemonic),
        None => record.label,
    }
}

/// The name under which a subscriber is shown: the mnemonic, or else the label.
pub fn tpi_mnemonic_from_record(record: IdentityRecord) -> (out: Option<String>)
    ensures
        out == record_mnemonic(record),
{
    match record.mnemonic {
        Some(mnemonic) => Some(mnemonic),
        None => record.label,
    }
}

/// The name that a lookup brings.
pub open spec fn found_mnemonic(found: Option<IdentityRecord>) -> Option<String> {
    match found {
        Some(record) => record_mnemonic(record),
        None => None,
    }
}

/// The name that a lookup brings.
pub fn tpi_resolve_mnemonic(found: Option<IdentityRecord>) -> (out: Option<String>)
    ensures
        out == found_mnemonic(found),
{
    match found {
        Some(record) => tpi_mnemonic_from_record(record),
        None => None,
    }
}

// ---------------------------------------------------------------------------------------------
// Calls
// ---------------------------------------------------------------------------------------------
#[derive(Debug, Clone, Copy, PartialEq, Eq, Structural)]
pub enum TpiCallType {
    Group,
    IndividualHalfDuplex,
    IndividualFullDuplex,
}

/// What is known of the talking party of a call.
#[derive(Debug)]
pub struct TpiCallContext {
    pub call_type: TpiCallType,
    pub origin_issi: u32,
    pub current_talker_issi: u32,
    pub talker_mnemonic: Option<String>,
    /// Whether the calling party has withheld its identity.
    pub clir_invoked: bool,
}

/// What the receiving terminals are told of the talking party.
#[derive(Debug)]
pub enum SsTpiInform {
    /// The identity is withheld.
    Clir,
    /// The name alone.
    MnemonicOnly(String),
    /// The number, with the name where there is one.
    ForSsi(u32, Option<String>),
}

/// What the network tells of talking parties.
#[derive(Debug, Clone, Copy, PartialEq, Eq, Structural)]
pub struct TpiPolicy {
    pub enabled: bool,
    pub emit_mnemonic_name: bool,
    pub subscription_allows_mnemonic: bool,
}

impl TpiPolicy {
    pub open spec fn names_allowed(self) -> bool {
        self.emit_mnemonic_name && self.subscription_allows_mnemonic
    }
}

/// The context at the beginning of a call.
pub open spec fn first_context(
    call_type: TpiCallType,
    origin_issi: u32,
    clir_invoked: bool,
    found: Option<IdentityRecord>,
) -> TpiCallContext {
    TpiCallContext {
        call_type,
        origin_issi,
        current_talker_issi: origin_issi,
        talker_mnemonic: if clir_invoked {
            None
        } else {
            found_mnemonic(found)
        },
        clir_invoked,
    }
}

impl TpiCallContext {
    /// The context when `talker_issi` talks.
    pub open spec fn with_talker(self, talker_issi: u32, found: Option<IdentityRecord>) -> TpiCallContext {
        if self.current_talker_issi == talker_issi {
            self
        } else {
            TpiCallContext {
                current_talker_issi: talker_issi,
                talker_mnemonic: if self.clir_invoked {
                    None
                } else {
                    found_mnemonic(found)
                },
                ..self
            }
        }
    }

    /// What the receiving terminals are told. In a group call the number of the talking party is
    /// part of the setup, so only its name is told.
    pub open spec fn inform(self, policy: TpiPolicy) -> Option<SsTpiInform> {
        let mnemonic = if policy.names_allowed() {
            self.talker_mnemonic
        } else {
            None
        };
        if self.clir_invoked {
            Some(SsTpiInform::Clir)
        } else if self.call_type == TpiCallType::Group {
            match mnemonic {
                Some(name) => Some(SsTpiInform::MnemonicOnly(name)),
                None => None,
            }
        } else {
            Some(SsTpiInform::ForSsi(self.current_talker_issi, mnemonic))
        }
    }
}

/// The contexts when `talker_issi` talks in a call.
pub open spec fn talker_updated(
    policy: TpiPolicy,
    contexts: Map<u16, TpiCallContext>,
    call_id: u16,
    talker_issi: u32,
    found: Option<IdentityRecord>,
) -> Map<u16, TpiCallContext> {
    if policy.enabled && contexts.contains_key(call_id) {
        contexts.insert(call_id, contexts[call_id].with_talker(talker_issi, found))
    } else {
        contexts
    }
}

/// What the receiving terminals of a call are told.
pub open spec fn inform_for_call(
    policy: TpiPolicy,
    contexts: Map<u16, TpiCallContext>,
    call_id: u16,
) -> Option<SsTpiInform> {
    if policy.enabled && contexts.contains_key(call_id) {
        contexts[call_id].inform(policy)
    } else {
        None
    }
}

/// Whether the identity of a talking party is to be looked up: it is when another party begins to
/// talk, unless identities are withheld.
pub open spec fn wants_lookup(
    policy: TpiPolicy,
    contexts: Map<u16, TpiCallContext>,
    call_id: u16,
    talker_issi: u32,
) -> bool {
    policy.enabled && contexts.contains_key(call_id) && !contexts[call_id].clir_invoked
        && contexts[call_id].current_talker_issi != talker_issi
}

/// The talking parties of all calls.
pub struct TpiContexts {
    pub policy: TpiPolicy,
    pub contexts: HashMap<u16, TpiCallContext>,
}

impl View for TpiContexts {
    type V = Map<u16, TpiCallContext>;

    open spec fn view(&self) -> Map<u16, TpiCallContext> {
        self.contexts@
    }
}

impl TpiContexts {
    pub fn new(policy: TpiPolicy) -> (out: TpiContexts)
        ensures
            out@ == Map::<u16, TpiCallContext>::empty(),
            out.policy == policy,
    {
        TpiContexts { policy, contexts: HashMap::new() }
    }

    /// Whether the identity of the calling party is to be looked up at the beginning of a call.
    pub fn wants_origin(&self, clir_invoked: bool) -> (r: bool)
        ensures
            r == (self.policy.enabled && !clir_invoked),
    {
        self.policy.enabled && !clir_invoked
    }

    /// Whether the identity of a talking party is to be looked up.
    pub fn wants_talker(&self, call_id: u16, talker_issi: u32) -> (r: bool)
        ensures
            r == wants_lookup(self.policy, self@, call_id, talker_issi),
    {
        self.policy.enabled && match self.contexts.get(&call_id) {
            Some(ctx) => !ctx.clir_invoked && ctx.current_talker_issi != talker_issi,
            None => false,
        }
    }

    /// Begins a call. `found` is what a lookup of the calling party brought.
    pub fn tpi_start_context(
        &mut self,
        call_id: u16,
        call_type: TpiCallType,
        origin_issi: u32,
        clir_invoked: bool,
        found: Option<IdentityRecord>,
    )
        ensures
            final(self).policy == old(self).policy,
            final(self)@ == if old(self).policy.enabled {
                old(self)@.insert(
                    call_id,
                    first_context(call_type, origin_issi, clir_invoked, found),
                )
            } else {
                old(self)@
            },
    {
        if !self.policy.enabled {
            return;
        }
        let talker_mnemonic = if clir_invoked {
            None
        } else {
            tpi_resolve_mnemonic(found)
        };
        let _ = self.contexts.insert(
            call_id,
            TpiCallContext {
                call_type,
                origin_issi,
                current_talker_issi: origin_issi,
                talker_mnemonic,
                clir_invoked,
            },
        );
    }

    /// Notes who talks in a call. `found` is what a lookup of that party brought.
    pub fn tpi_update_talker(
        &mut self,
        call_id: u16,
        talker_issi: u32,
        found: Option<IdentityRecord>,
    )
        ensures
            final(self).policy == old(self).policy,
            final(self)@ == talker_updated(
                old(self).policy,
                old(self)@,
                call_id,
                talker_issi,
                found,
            ),
    {
        if !self.policy.enabled {
            return;
        }
        let ghost before = self@;
        match self.contexts.remove(&call_id) {
            None => {
                assert(self@ =~= before);
            },
            Some(ctx) => {
                let mut ctx = ctx;
                if ctx.current_talker_issi != talker_issi {
                    ctx.current_talker_issi = talker_issi;
                    ctx.talker_mnemonic = if ctx.clir_invoked {
                        None
                    } else {
                        tpi_resolve_mnemonic(found)
                    };
                }
                let _ = self.contexts.insert(call_id, ctx);
                assert(self@ =~= before.insert(call_id, ctx));
            },
        }
    }

    /// What the receiving terminals of a call are told.
    pub fn tpi_inform_for_call(&self, call_id: u16) -> (out: Option<SsTpiInform>)
        ensures
            out == inform_for_call(self.policy, self@, call_id),
    {
        if !self.policy.enabled {
            return None;
        }
        match self.contexts.get(&call_id) {
            None => None,
            Some(ctx) => {
                if ctx.clir_invoked {
                    return Some(SsTpiInform::Clir);
                }
                let mnemonic = if self.policy.emit_mnemonic_name
                    && self.policy.subscription_allows_mnemonic {
                    match &ctx.talker_mnemonic {
                        Some(name) => Some(name.clone()),
                        None => None,
                    }
                } else {
                    None
                };
                match (ctx.call_type, mnemonic) {
                    (TpiCallType::Group, Some(name)) => Some(SsTpiInform::MnemonicOnly(name)),
                    (TpiCallType::Group, None) => None,
                    (_, mnemonic) => Some(SsTpiInform::ForSsi(ctx.current_talker_issi, mnemonic)),
                }
            },
        }
    }

    /// Notes who talks in a call, and says what the receiving terminals are told of it.
    pub fn tpi_for_speaker(
        &mut self,
        call_id: u16,
        talker_issi: u32,
        found: Option<IdentityRecord>,
    ) -> (out: Option<SsTpiInform>)
        ensures
            final(self).policy == old(self).policy,
            final(self)@ == talker_updated(
                old(self).policy,
                old(self)@,
                call_id,
                talker_issi,
                found,
            ),
            out == inform_for_call(final(self).policy, final(self)@, call_id),
    {
        self.tpi_update_talker(call_id, talker_issi, found);
        self.tpi_inform_for_call(call_id)
    }

    /// Ends a call.
    pub fn tpi_end_context(&mut self, call_id: u16)
        ensures
            final(self).policy == old(self).policy,
            final(self)@ == old(self)@.remove(call_id),
    {
        let _ = self.contexts.remove(&call_id);
    }

    /// What a grant of transmission carries in a trial mode.
    pub fn motorola_tpi_tx_granted_facility(
        &self,
        call_id: u16,
        mode: MotorolaTpiTestMode,
    ) -> (out: Option<SsTpiInform>)
        ensures
            out == if grants_with_identity(mode) {
                inform_for_call(self.policy, self@, call_id)
            } else {
                None
            },
    {
        if motorola_tpi_emits_initial_tx_granted(mode) {
            self.tpi_inform_for_call(call_id)
        } else {
            None
        }
    }
}

// ---------------------------------------------------------------------------------------------
// Laws
// ---------------------------------------------------------------------------------------------
/// The name that is told, where one is.
pub open spec fn told_name(inform: Option<SsTpiInform>) -> Option<String> {
    match inform {
        Some(SsTpiInform::MnemonicOnly(name)) => Some(name),
        Some(SsTpiInform::ForSsi(_, name)) => name,
        _ => None,
    }
}

/// In a call whose calling party has withheld its identity, neither name nor number of a talking
/// party is ever told, whoever talks and whatever lookups bring.
pub proof fn withheld_identity_stays_withheld(
    policy: TpiPolicy,
    call_type: TpiCallType,
    origin_issi: u32,
    found: Option<IdentityRecord>,
    talkers: Seq<(u32, Option<IdentityRecord>)>,
)
    ensures
        after_talkers(first_context(call_type, origin_issi, true, found), talkers).inform(policy)
            == Some(SsTpiInform::Clir),
        after_talkers(
            first_context(call_type, origin_issi, true, found),
            talkers,
        ).talker_mnemonic is None,
    decreases talkers.len(),
{
    if talkers.len() > 0 {
        withheld_identity_stays_withheld(
            policy,
            call_type,
            origin_issi,
            found,
            talkers.drop_last(),
        );
    }
}

/// The context after a number of talking parties, the last one given last.
pub open spec fn after_talkers(
    context: TpiCallContext,
    talkers: Seq<(u32, Option<IdentityRecord>)>,
) -> TpiCallContext
    decreases talkers.len(),
{
    if talkers.len() == 0 {
        context
    } else {
        after_talkers(context, talkers.drop_last()).with_talker(
            talkers.last().0,
            talkers.last().1,
        )
    }
}

/// No name is told unless names are to be told and the subscription allows it.
pub proof fn names_need_permission(policy: TpiPolicy, context: TpiCallContext)
    requires
        !policy.names_allowed(),
    ensures
        told_name(context.inform(policy)) is None,
{
}

/// A name that is told is the one that is known of the party that talks.
pub proof fn told_name_is_known(policy: TpiPolicy, context: TpiCallContext)
    ensures
        told_name(context.inform(policy)) matches Some(name) ==> context.talker_mnemonic == Some(
            name,
        ) && !context.clir_invoked,
{
}

/// Identities are looked up when the talking party changes, not while it talks: once a party is
/// noted, no lookup of it is wanted.
pub proof fn lookups_follow_changes(
    policy: TpiPolicy,
    contexts: Map<u16, TpiCallContext>,
    call_id: u16,
    talker_issi: u32,
    found: Option<IdentityRecord>,
)
    ensures
        !wants_lookup(
            policy,
            talker_updated(policy, contexts, call_id, talker_issi, found),
            call_id,
            talker_issi,
        ),
{
}

/// What a lookup brings does not matter where none is wanted.
pub proof fn unwanted_lookups_change_nothing(
    policy: TpiPolicy,
    contexts: Map<u16, TpiCallContext>,
    call_id: u16,
    talker_issi: u32,
    found: Option<IdentityRecord>,
)
    requires
        !wants_lookup(policy, contexts, call_id, talker_issi),
    ensures
        talker_updated(policy, contexts, call_id, talker_issi, found) == talker_updated(
            policy,
            contexts,
            call_id,
            talker_issi,
            None,
        ),
{
}

/// Trials are off unless both settings are there, and concern no group but the one that the first
/// setting names.
pub proof fn trials_concern_their_group_only(
    target: Option<Seq<char>>,
    mode: Option<Seq<char>>,
    dest_gssi: u32,
)
    ensures
        test_mode(target, mode, dest_gssi) != MotorolaTpiTestMode::Off ==> mode is Some && (
        target matches Some(t) && unsigned_number(trimmed(t)) == Some(dest_gssi as nat)),
{
}

/// The number that is told is that of the party that talks.
pub proof fn told_number_is_of_talker(
    policy: TpiPolicy,
    context: TpiCallContext,
    talker_issi: u32,
    found: Option<IdentityRecord>,
)
    ensures
        match context.with_talker(talker_issi, found).inform(policy) {
            Some(SsTpiInform::ForSsi(ssi, _)) => ssi == talker_issi,
            _ => true,
        },
{
}

/// Noting the same talking party again changes nothing.
pub proof fn same_talker_changes_nothing(
    context: TpiCallContext,
    talker_issi: u32,
    first: Option<IdentityRecord>,
    second: Option<IdentityRecord>,
)
    ensures
        context.with_talker(talker_issi, first).with_talker(talker_issi, second)
            == context.with_talker(talker_issi, first),
{
}

/// Calls do not affect one another: who talks in one changes nothing for another.
pub proof fn calls_are_independent(
    policy: TpiPolicy,
    contexts: Map<u16, TpiCallContext>,
    call_id: u16,
    talker_issi: u32,
    found: Option<IdentityRecord>,
    other: u16,
)
    requires
        other != call_id,
    ensures
        inform_for_call(
            policy,
            talker_updated(policy, contexts, call_id, talker_issi, found),
            other,
        ) == inform_for_call(policy, contexts, other),
        inform_for_call(policy, contexts.remove(call_id), other) == inform_for_call(
            policy,
            contexts,
            other,
        ),
{
}

/// The end of a call undoes its beginning, and after it nothing is told of the call.
pub proof fn end_undoes_start(
    policy: TpiPolicy,
    contexts: Map<u16, TpiCallContext>,
    call_id: u16,
    context: TpiCallContext,
)
    requires
        !contexts.contains_key(call_id),
    ensures
        contexts.insert(call_id, context).remove(call_id) == contexts,
        inform_for_call(policy, contexts, call_id) is None,
{
    assert(contexts.insert(call_id, context).remove(call_id) =~= contexts);
}

// ---------------------------------------------------------------------------------------------
// Laws of the operations
// ---------------------------------------------------------------------------------------------
/// A call that begins is known by its kind and its calling party, who talks first. The name that is
/// kept is the mnemonic that the lookup brought, or else the label; it is not kept where the
/// identity is withheld. Other calls stay as they are, and without talking party identification
/// nothing is kept at all.
pub proof fn call_begins_with_its_calling_party(
    calls: &mut TpiContexts,
    call_id: u16,
    call_type: TpiCallType,
    origin_issi: u32,
    clir_invoked: bool,
    found: Option<IdentityRecord>,
    out: (),
)
    requires
        call_ensures(
            TpiContexts::tpi_start_context,
            (calls, call_id, call_type, origin_issi, clir_invoked, found),
            out,
        ),
    ensures
        final(calls).policy == old(calls).policy,
        !old(calls).policy.enabled ==> final(calls).contexts@ == old(calls).contexts@,
        old(calls).policy.enabled ==> {
            let ctx = final(calls).contexts@[call_id];
            &&& final(calls).contexts@.contains_key(call_id)
            &&& ctx.call_type == call_type
            &&& ctx.origin_issi == origin_issi
            &&& ctx.current_talker_issi == origin_issi
            &&& ctx.clir_invoked == clir_invoked
            &&& clir_invoked ==> ctx.talker_mnemonic is None
            &&& !clir_invoked && found is None ==> ctx.talker_mnemonic is None
            &&& !clir_invoked && found is Some && found->0.mnemonic is Some ==> ctx.talker_mnemonic
                == found->0.mnemonic
            &&& !clir_invoked && found is Some && found->0.mnemonic is None ==> ctx.talker_mnemonic
                == found->0.label
        },
        forall|other: u16|
            other != call_id ==> (#[trigger] final(calls).contexts@.contains_key(other)) == old(
                calls,
            ).contexts@.contains_key(other) && final(calls).contexts@[other] == old(
                calls,
            ).contexts@[other],
{
}

/// When another party than the last one begins to talk in a call whose identity is not withheld,
/// the name that is kept is the one that the lookup of that party brought, whoever it is: the
/// calling party of the call as well as any other. Kind, calling party and withholding of the call
/// stay, and so do all other calls. Where the same party goes on talking, all stays.
pub proof fn talker_is_kept_with_the_name_found(
    calls: &mut TpiContexts,
    call_id: u16,
    talker_issi: u32,
    found: Option<IdentityRecord>,
    out: (),
)
    requires
        call_ensures(TpiContexts::tpi_update_talker, (calls, call_id, talker_issi, found), out),
    ensures
        final(calls).policy == old(calls).policy,
        forall|other: u16| #[trigger]
            final(calls).contexts@.contains_key(other) <==> old(calls).contexts@.contains_key(other),
        forall|other: u16|
            other != call_id ==> (#[trigger] final(calls).contexts@[other]) == old(
                calls,
            ).contexts@[other],
        old(calls).policy.enabled && old(calls).contexts@.contains_key(call_id) ==> {
            let was = old(calls).contexts@[call_id];
            let ctx = final(calls).contexts@[call_id];
            &&& ctx.call_type == was.call_type
            &&& ctx.origin_issi == was.origin_issi
            &&& ctx.clir_invoked == was.clir_invoked
            &&& ctx.current_talker_issi == talker_issi
            &&& talker_issi == was.current_talker_issi ==> ctx.talker_mnemonic
                == was.talker_mnemonic
            &&& talker_issi != was.current_talker_issi && was.clir_invoked
                ==> ctx.talker_mnemonic is None
            &&& talker_issi != was.current_talker_issi && !was.clir_invoked ==> ctx.talker_mnemonic
                == match found {
                Some(record) => if record.mnemonic is Some {
                    record.mnemonic
                } else {
                    record.label
                },
                None => None,
            }
        },
        !old(calls).policy.enabled ==> final(calls).contexts@ == old(calls).contexts@,
{
}

/// What is told of a call: nothing where there is no talking party identification or no such call;
/// that the identity is withheld, where it is; in a group call the name alone, where names are
/// allowed and there is one; in another call the number of who talks, with the name on the same
/// conditions.
pub proof fn talker_is_told_by_kind_of_call(
    calls: &TpiContexts,
    call_id: u16,
    out: Option<SsTpiInform>,
)
    requires
        call_ensures(TpiContexts::tpi_inform_for_call, (calls, call_id), out),
    ensures
        !calls.policy.enabled || !calls.contexts@.contains_key(call_id) ==> out is None,
        calls.policy.enabled && calls.contexts@.contains_key(call_id) ==> {
            let ctx = calls.contexts@[call_id];
            let named = calls.policy.emit_mnemonic_name && calls.policy.subscription_allows_mnemonic
                && ctx.talker_mnemonic is Some;
            &&& ctx.clir_invoked ==> out == Some(SsTpiInform::Clir)
            &&& !ctx.clir_invoked && ctx.call_type == TpiCallType::Group && named ==> out == Some(
                SsTpiInform::MnemonicOnly(ctx.talker_mnemonic->0),
            )
            &&& !ctx.clir_invoked && ctx.call_type == TpiCallType::Group && !named ==> out is None
            &&& !ctx.clir_invoked && ctx.call_type != TpiCallType::Group && named ==> out == Some(
                SsTpiInform::ForSsi(ctx.current_talker_issi, ctx.talker_mnemonic),
            )
            &&& !ctx.clir_invoked && ctx.call_type != TpiCallType::Group && !named ==> out == Some(
                SsTpiInform::ForSsi(ctx.current_talker_issi, None),
            )
        },
{
}

/// When another party than the last one begins to talk in a call whose identity is not withheld,
/// what is told is the name that the lookup of that party brought, whoever it is, where names are
/// allowed: in a group call that name alone, in another call with the number of that party.
pub proof fn new_talker_is_told(
    calls: &mut TpiContexts,
    call_id: u16,
    talker_issi: u32,
    found: Option<IdentityRecord>,
    out: Option<SsTpiInform>,
)
    requires
        call_ensures(TpiContexts::tpi_for_speaker, (calls, call_id, talker_issi, found), out),
        calls.policy.enabled,
        calls.contexts@.contains_key(call_id),
    ensures
        ({
            let was = old(calls).contexts@[call_id];
            let ctx = final(calls).contexts@[call_id];
            let allowed = old(calls).policy.emit_mnemonic_name && old(
                calls,
            ).policy.subscription_allows_mnemonic;
            let name = match found {
                Some(record) => if record.mnemonic is Some {
                    record.mnemonic
                } else {
                    record.label
                },
                None => None,
            };
            let told = if talker_issi == was.current_talker_issi {
                was.talker_mnemonic
            } else {
                name
            };
            &&& final(calls).contexts@.contains_key(call_id)
            &&& ctx.current_talker_issi == talker_issi
            &&& ctx.call_type == was.call_type && ctx.origin_issi == was.origin_issi
                && ctx.clir_invoked == was.clir_invoked
            &&& was.clir_invoked ==> out == Some(SsTpiInform::Clir)
            &&& !was.clir_invoked ==> ctx.talker_mnemonic == told
            &&& !was.clir_invoked && was.call_type == TpiCallType::Group ==> out == if allowed
                && told is Some {
                Some(SsTpiInform::MnemonicOnly(told->0))
            } else {
                None
            }
            &&& !was.clir_invoked && was.call_type != TpiCallType::Group ==> out == Some(
                SsTpiInform::ForSsi(
                    talker_issi,
                    if allowed {
                        told
                    } else {
                        None
                    },
                ),
            )
        }),
        final(calls).policy == old(calls).policy,
        forall|other: u16|
            other != call_id ==> (#[trigger] final(calls).contexts@.contains_key(other)) == old(
                calls,
            ).contexts@.contains_key(other) && final(calls).contexts@[other] == old(
                calls,
            ).contexts@[other],
{
}

/// A call that ends is forgotten, and no other.
pub proof fn ended_call_is_forgotten(calls: &mut TpiContexts, call_id: u16, out: ())
    requires
        call_ensures(TpiContexts::tpi_end_context, (calls, call_id), out),
    ensures
        !final(calls).contexts@.contains_key(call_id),
        final(calls).policy == old(calls).policy,
        forall|other: u16|
            other != call_id ==> (#[trigger] final(calls).contexts@.contains_key(other)) == old(
                calls,
            ).contexts@.contains_key(other) && final(calls).contexts@[other] == old(
                calls,
            ).contexts@[other],
{
}

/// A talking party is looked up where it is another one than before, in a known call whose identity
/// is not withheld; a calling party where its identity is not withheld; and none without talking
/// party identification.
pub proof fn lookup_is_asked_for_where_it_matters(
    calls: &TpiContexts,
    call_id: u16,
    talker_issi: u32,
    clir_invoked: bool,
    talker: bool,
    origin: bool,
)
    requires
        call_ensures(TpiContexts::wants_talker, (calls, call_id, talker_issi), talker),
        call_ensures(TpiContexts::wants_origin, (calls, clir_invoked), origin),
    ensures
        talker <==> calls.policy.enabled && calls.contexts@.contains_key(call_id)
            && !calls.contexts@[call_id].clir_invoked
            && calls.contexts@[call_id].current_talker_issi != talker_issi,
        origin <==> calls.policy.enabled && !clir_invoked,
{
}

/// The name of a subscriber is the mnemonic, and the label only where there is no mnemonic.
pub proof fn mnemonic_goes_before_label(
    record: IdentityRecord,
    out: Option<String>,
    resolved: Option<String>,
    nothing: Option<String>,
)
    requires
        call_ensures(tpi_mnemonic_from_record, (record,), out),
        call_ensures(tpi_resolve_mnemonic, (Some(record),), resolved),
        call_ensures(tpi_resolve_mnemonic, (None::<IdentityRecord>,), nothing),
    ensures
        record.mnemonic is Some ==> out == record.mnemonic,
        record.mnemonic is None ==> out == record.label,
        resolved == out,
        nothing is None,
{
}

/// In a trial mode, the setup leaves out the number of the caller, a grant follows it at once, or
/// both; without one, neither. The grant carries what the terminals are told of the talking party.
pub proof fn trial_modes_differ(
    calls: &TpiContexts,
    call_id: u16,
    mode: MotorolaTpiTestMode,
    suppresses: bool,
    emits: bool,
    facility: Option<SsTpiInform>,
    told: Option<SsTpiInform>,
)
    requires
        call_ensures(motorola_tpi_setup_suppresses_caller, (mode,), suppresses),
        call_ensures(motorola_tpi_emits_initial_tx_granted, (mode,), emits),
        call_ensures(TpiContexts::motorola_tpi_tx_granted_facility, (calls, call_id, mode), facility),
        call_ensures(TpiContexts::tpi_inform_for_call, (calls, call_id), told),
    ensures
        mode == MotorolaTpiTestMode::Off ==> !suppresses && !emits,
        mode == MotorolaTpiTestMode::TxGranted ==> !suppresses && emits,
        mode == MotorolaTpiTestMode::SetupMnemonicOnly ==> suppresses && !emits,
        mode == MotorolaTpiTestMode::SetupPulse ==> suppresses && emits,
        emits ==> facility == told,
        !emits ==> facility is None,
{
}

/// A trial mode is off for every group but the one whose number the first setting holds, and where
/// either setting is missing. For that group it is the one that the second setting names, whatever
/// its letters and the space around it.
pub proof fn trial_mode_is_for_one_group(
    target: &str,
    mode: &str,
    dest_gssi: u32,
    out: MotorolaTpiTestMode,
    without_target: MotorolaTpiTestMode,
    without_mode: MotorolaTpiTestMode,
    number: String,
    value: Option<u64>,
    word: String,
    name: String,
)
    requires
        call_ensures(motorola_tpi_test_mode, (Some(target), Some(mode), dest_gssi), out),
        call_ensures(motorola_tpi_test_mode, (None::<&str>, Some(mode), dest_gssi), without_target),
        call_ensures(motorola_tpi_test_mode, (Some(target), None::<&str>, dest_gssi), without_mode),
        call_ensures(trim, (target,), number),
        call_ensures(trim, (mode,), word),
        name@ == lowered(word@),
        value == match unsigned_number(number@) {
            Some(n) if n <= u64::MAX => Some(n as u64),
            _ => None,
        },
    ensures
        without_target == MotorolaTpiTestMode::Off,
        without_mode == MotorolaTpiTestMode::Off,
        value != Some(dest_gssi as u64) ==> out == MotorolaTpiTestMode::Off,
        value == Some(dest_gssi as u64) ==> {
            &&& out == MotorolaTpiTestMode::TxGranted <==> name@ == "a"@ || name@ == "tx-granted"@
                || name@ == "d-tx-granted"@
            &&& (name@ == "b"@ || name@ == "setup-mnemonic-only"@ || name@ == "mnemonic-only"@)
                ==> out == MotorolaTpiTestMode::SetupMnemonicOnly
            &&& (name@ == "c"@ || name@ == "setup-pulse"@ || name@ == "pulse"@) ==> out
                == MotorolaTpiTestMode::SetupPulse
            &&& out == MotorolaTpiTestMode::SetupMnemonicOnly ==> name@ == "b"@ || name@
                == "setup-mnemonic-only"@ || name@ == "mnemonic-only"@
            &&& out == MotorolaTpiTestMode::SetupPulse ==> name@ == "c"@ || name@
                == "setup-pulse"@ || name@ == "pulse"@
        },
{
    reveal_strlit("a");
    reveal_strlit("tx-granted");
    reveal_strlit("d-tx-granted");
    reveal_strlit("b");
    reveal_strlit("setup-mnemonic-only");
    reveal_strlit("mnemonic-only");
    reveal_strlit("c");
    reveal_strlit("setup-pulse");
    reveal_strlit("pulse");
    assert("a"@[0] == 'a' && "b"@[0] == 'b' && "c"@[0] == 'c');
    assert("tx-granted"@.len() == 10 && "d-tx-granted"@.len() == 12);
    assert("setup-mnemonic-only"@.len() == 19 && "mnemonic-only"@.len() == 13);
    assert("setup-pulse"@.len() == 11 && "pulse"@.len() == 5);
}

} // verus!
