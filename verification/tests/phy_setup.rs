use flowstation::phy::rxtx_dev::SoapyStreamErrorCode;
use flowstation::phy::setup::{
    ad936x_runtime_active, ad936x_standby, check_reopened, find_ad936x_phy, find_supported_device,
    is_remote, open_device, open_given_device, setup_steps, shutdown_steps, tuning, Carrier,
    DeviceUse, SearchStep, SetupParts, SetupStep, ShutdownStep, StackMode, Tuning,
};

#[test]
fn carriers_depend_on_the_mode() {
    assert_eq!(
        tuning(StackMode::Bs, false),
        Some(Tuning { rx: Carrier::Uplink, tx: Carrier::Downlink, rx_offset_hz: 20_000 })
    );
    assert_eq!(
        tuning(StackMode::Ms, true),
        Some(Tuning { rx: Carrier::Downlink, tx: Carrier::Uplink, rx_offset_hz: 0 })
    );
    assert_eq!(tuning(StackMode::Mon, false), None);
}

#[test]
fn first_supported_device_is_taken() {
    assert!(matches!(find_supported_device(0, 2), SearchStep::Open(0)));
    assert!(matches!(find_supported_device(1, 2), SearchStep::Open(1)));
    match find_supported_device(2, 2) {
        SearchStep::NotFound(err) => {
            assert_eq!(err.code, SoapyStreamErrorCode::NotSupported);
            assert_eq!(err.message, "No supported devices found");
        }
        SearchStep::Open(_) => panic!("nothing left to open"),
    }
    assert_eq!(open_given_device(Some(5)).unwrap(), 5);
    let refused = open_given_device::<u8>(None).unwrap_err();
    assert_eq!(refused.code, SoapyStreamErrorCode::NotSupported);
    assert_eq!(refused.message, "Unsupported device");
}

#[test]
fn device_is_used_by_its_settings() {
    assert!(is_remote(Some("remote")));
    assert!(!is_remote(Some("lime")) && !is_remote(None));
    assert_eq!(
        open_device(Some((true, 0)), false).unwrap(),
        DeviceUse { use_get_hardware_time: true, reopen: false }
    );
    assert_eq!(
        open_device(Some((true, 2)), true).unwrap(),
        DeviceUse { use_get_hardware_time: false, reopen: true }
    );
    let invalid = open_device(None, false).unwrap_err();
    assert_eq!(invalid.code, SoapyStreamErrorCode::Other);
    assert_eq!(invalid.message, "Invalid SDR device configuration");
    assert!(check_reopened("a", "b", "a", "b").is_ok());
    let other = check_reopened("a", "b", "a", "c").unwrap_err();
    assert_eq!(other.code, SoapyStreamErrorCode::Other);
    assert_eq!(other.message, "Reopened a different device");
}

#[test]
fn setup_goes_step_by_step() {
    let parts = SetupParts {
        rx: true,
        tx: true,
        rx_antenna: true,
        tx_antenna: false,
        rx_gains: 2,
        tx_gains: 1,
        reapply: true,
    };
    let steps = setup_steps(&parts);
    assert_eq!(
        steps,
        vec![
            SetupStep::SetRxSampleRate,
            SetupStep::GetRxSampleRate,
            SetupStep::SetTxSampleRate,
            SetupStep::GetTxSampleRate,
            SetupStep::SetRxFrequency,
            SetupStep::SetRxAntenna,
            SetupStep::SetRxGain(0),
            SetupStep::SetRxGain(1),
            SetupStep::SetTxFrequency,
            SetupStep::SetTxGain(0),
            SetupStep::Calibrate,
            SetupStep::SetupRxStream,
            SetupStep::SetupTxStream,
            SetupStep::ActivateRxStream,
            SetupStep::ActivateTxStream,
            SetupStep::ActivateFrontend,
            SetupStep::ReapplyRxFrequency,
            SetupStep::ReapplyTxFrequency,
            SetupStep::ReapplyRxAntenna,
            SetupStep::ReapplyRxGain(0),
            SetupStep::ReapplyRxGain(1),
            SetupStep::ReapplyTxGain(0),
        ]
    );
    assert_eq!(SetupStep::SetRxGain(1).text(), "set RX gain");
    assert_eq!(SetupStep::ReapplyTxGain(0).text(), "reapply LibreStation TX gain");
}

#[test]
fn setup_without_a_side_leaves_it_out() {
    let parts = SetupParts {
        rx: true,
        tx: false,
        rx_antenna: false,
        tx_antenna: true,
        rx_gains: 0,
        tx_gains: 3,
        reapply: false,
    };
    assert_eq!(
        setup_steps(&parts),
        vec![
            SetupStep::SetRxSampleRate,
            SetupStep::GetRxSampleRate,
            SetupStep::SetRxFrequency,
            SetupStep::Calibrate,
            SetupStep::SetupRxStream,
            SetupStep::ActivateRxStream,
            SetupStep::ActivateFrontend,
        ]
    );
}

#[test]
fn frontend_is_found_by_name() {
    let name = |s: &str| Some(s.to_string());
    assert_eq!(find_ad936x_phy(&vec![name("adc"), name(" ad9361-phy\n")]), Some(1));
    assert_eq!(find_ad936x_phy(&vec![None, name("ad9361-phy")]), None);
    assert_eq!(find_ad936x_phy(&vec![name("adc")]), None);
    assert_eq!(find_ad936x_phy(&vec![]), None);
}

#[test]
fn frontend_attributes_are_set_in_order() {
    assert_eq!(
        ad936x_runtime_active(),
        vec![
            ("out_altvoltage0_RX_LO_powerdown", "0"),
            ("out_altvoltage1_TX_LO_powerdown", "0"),
            ("ensm_mode", "fdd"),
        ]
    );
    assert_eq!(
        ad936x_standby(),
        vec![
            ("out_altvoltage1_TX_LO_powerdown", "1"),
            ("out_altvoltage0_RX_LO_powerdown", "1"),
            ("ensm_mode", "sleep"),
        ]
    );
}

#[test]
fn shutdown_deactivates_what_is_active() {
    assert_eq!(
        shutdown_steps(true, true),
        vec![
            ShutdownStep::DeactivateTxStream,
            ShutdownStep::DeactivateRxStream,
            ShutdownStep::StandbyFrontend,
        ]
    );
    assert_eq!(shutdown_steps(false, false), vec![ShutdownStep::StandbyFrontend]);
}
