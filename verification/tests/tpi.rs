use flowstation::cmce::tpi::{
    motorola_tpi_emits_initial_tx_granted, motorola_tpi_setup_suppresses_caller,
    motorola_tpi_test_mode, tpi_mnemonic_from_record, IdentityRecord, MotorolaTpiTestMode,
    SsTpiInform, TpiCallType, TpiContexts, TpiPolicy,
};

fn policy() -> TpiPolicy {
    TpiPolicy { enabled: true, emit_mnemonic_name: true, subscription_allows_mnemonic: true }
}

fn named(name: &str) -> Option<IdentityRecord> {
    Some(IdentityRecord { mnemonic: Some(name.to_string()), label: Some("label".to_string()) })
}

fn told(inform: Option<SsTpiInform>) -> String {
    match inform {
        None => "nothing".to_string(),
        Some(SsTpiInform::Clir) => "withheld".to_string(),
        Some(SsTpiInform::MnemonicOnly(name)) => format!("name {}", name),
        Some(SsTpiInform::ForSsi(ssi, name)) => format!("{} {:?}", ssi, name),
    }
}

#[test]
fn mnemonic_goes_before_label() {
    let both = IdentityRecord { mnemonic: Some("M".into()), label: Some("L".into()) };
    assert_eq!(tpi_mnemonic_from_record(both).as_deref(), Some("M"));
    let label = IdentityRecord { mnemonic: None, label: Some("L".into()) };
    assert_eq!(tpi_mnemonic_from_record(label).as_deref(), Some("L"));
    assert_eq!(tpi_mnemonic_from_record(IdentityRecord { mnemonic: None, label: None }), None);
}

#[test]
fn group_calls_tell_the_name_only() {
    let mut tpi = TpiContexts::new(policy());
    assert!(tpi.wants_origin(false) && !tpi.wants_origin(true));
    tpi.tpi_start_context(1, TpiCallType::Group, 100, false, named("A"));
    assert_eq!(told(tpi.tpi_inform_for_call(1)), "name A");
    assert_eq!(told(tpi.tpi_for_speaker(1, 200, None)), "nothing");
    assert_eq!(told(tpi.tpi_for_speaker(1, 300, named("C"))), "name C");
    assert_eq!(told(tpi.tpi_inform_for_call(2)), "nothing");
}

#[test]
fn individual_calls_tell_number_and_name() {
    let mut tpi = TpiContexts::new(policy());
    tpi.tpi_start_context(7, TpiCallType::IndividualHalfDuplex, 100, false, None);
    assert_eq!(told(tpi.tpi_inform_for_call(7)), "100 None");
    assert_eq!(told(tpi.tpi_for_speaker(7, 200, named("B"))), "200 Some(\"B\")");
    tpi.tpi_start_context(8, TpiCallType::IndividualFullDuplex, 300, false, named("D"));
    assert_eq!(told(tpi.tpi_inform_for_call(8)), "300 Some(\"D\")");
    assert_eq!(told(tpi.tpi_inform_for_call(7)), "200 Some(\"B\")");
}

#[test]
fn withheld_identities_stay_withheld() {
    let mut tpi = TpiContexts::new(policy());
    tpi.tpi_start_context(1, TpiCallType::IndividualHalfDuplex, 100, true, named("A"));
    assert_eq!(told(tpi.tpi_inform_for_call(1)), "withheld");
    assert!(!tpi.wants_talker(1, 200));
    assert_eq!(told(tpi.tpi_for_speaker(1, 200, named("B"))), "withheld");
    assert_eq!(tpi.contexts[&1].talker_mnemonic, None);
    assert_eq!(tpi.contexts[&1].current_talker_issi, 200);
    assert_eq!(tpi.contexts[&1].origin_issi, 100);
}

#[test]
fn lookups_follow_changes_of_the_talker() {
    let mut tpi = TpiContexts::new(policy());
    assert!(!tpi.wants_talker(1, 100));
    tpi.tpi_start_context(1, TpiCallType::Group, 100, false, named("A"));
    assert!(!tpi.wants_talker(1, 100));
    assert!(tpi.wants_talker(1, 200));
    tpi.tpi_update_talker(1, 200, named("B"));
    assert!(!tpi.wants_talker(1, 200));
    tpi.tpi_update_talker(1, 200, named("X"));
    assert_eq!(told(tpi.tpi_inform_for_call(1)), "name B");
}

#[test]
fn names_need_permission() {
    for (emit, allowed) in [(false, true), (true, false), (false, false)] {
        let mut tpi = TpiContexts::new(TpiPolicy {
            enabled: true,
            emit_mnemonic_name: emit,
            subscription_allows_mnemonic: allowed,
        });
        tpi.tpi_start_context(1, TpiCallType::Group, 100, false, named("A"));
        tpi.tpi_start_context(2, TpiCallType::IndividualFullDuplex, 100, false, named("A"));
        assert_eq!(told(tpi.tpi_inform_for_call(1)), "nothing");
        assert_eq!(told(tpi.tpi_inform_for_call(2)), "100 None");
    }
}

#[test]
fn disabled_identification_does_nothing() {
    let mut tpi = TpiContexts::new(TpiPolicy { enabled: false, ..policy() });
    tpi.tpi_start_context(1, TpiCallType::Group, 100, false, named("A"));
    assert!(tpi.contexts.is_empty());
    assert!(!tpi.wants_origin(false) && !tpi.wants_talker(1, 2));
    assert_eq!(told(tpi.tpi_for_speaker(1, 200, named("B"))), "nothing");
}

#[test]
fn ended_calls_are_forgotten() {
    let mut tpi = TpiContexts::new(policy());
    tpi.tpi_start_context(1, TpiCallType::Group, 100, false, named("A"));
    tpi.tpi_end_context(1);
    tpi.tpi_end_context(2);
    assert!(tpi.contexts.is_empty());
    assert_eq!(told(tpi.tpi_inform_for_call(1)), "nothing");
}

#[test]
fn trial_modes_have_names() {
    let mode = |name: &str| motorola_tpi_test_mode(Some(" 91 "), Some(name), 91);
    for name in ["a", "tx-granted", " D-TX-Granted\n"] {
        assert_eq!(mode(name), MotorolaTpiTestMode::TxGranted);
    }
    for name in ["B", "setup-mnemonic-only", "mnemonic-only"] {
        assert_eq!(mode(name), MotorolaTpiTestMode::SetupMnemonicOnly);
    }
    for name in ["c", "setup-pulse", "pulse"] {
        assert_eq!(mode(name), MotorolaTpiTestMode::SetupPulse);
    }
    assert_eq!(mode("d"), MotorolaTpiTestMode::Off);
    assert_eq!(mode(""), MotorolaTpiTestMode::Off);
}

#[test]
fn trials_concern_one_group() {
    assert_eq!(motorola_tpi_test_mode(None, Some("a"), 91), MotorolaTpiTestMode::Off);
    assert_eq!(motorola_tpi_test_mode(Some("91"), None, 91), MotorolaTpiTestMode::Off);
    assert_eq!(motorola_tpi_test_mode(Some("91"), Some("a"), 92), MotorolaTpiTestMode::Off);
    assert_eq!(motorola_tpi_test_mode(Some("x"), Some("a"), 91), MotorolaTpiTestMode::Off);
    assert_eq!(
        motorola_tpi_test_mode(Some("4294967387"), Some("a"), 91),
        MotorolaTpiTestMode::Off
    );
}

#[test]
fn trial_modes_have_effects() {
    let mut tpi = TpiContexts::new(policy());
    tpi.tpi_start_context(1, TpiCallType::Group, 100, false, named("A"));
    let effects = |mode| {
        (
            motorola_tpi_setup_suppresses_caller(mode),
            motorola_tpi_emits_initial_tx_granted(mode),
            told(tpi.motorola_tpi_tx_granted_facility(1, mode)),
        )
    };
    assert_eq!(effects(MotorolaTpiTestMode::Off), (false, false, "nothing".to_string()));
    assert_eq!(effects(MotorolaTpiTestMode::TxGranted), (false, true, "name A".to_string()));
    assert_eq!(
        effects(MotorolaTpiTestMode::SetupMnemonicOnly),
        (true, false, "nothing".to_string())
    );
    assert_eq!(effects(MotorolaTpiTestMode::SetupPulse), (true, true, "name A".to_string()));
}
