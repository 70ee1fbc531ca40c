//! Choice and setup of the radio device.
use super::rxtx_dev::SoapyStreamErrorCode;
use crate::text::{same, trim, trimmed};
use vstd::prelude::*;
use vstd::string::*;

verus! {

/// How far the receive center frequency lies below the carrier, in hertz, unless the frontend
/// is already channelized.
pub const SOAPY_FREQ_OFFSET_HZ: u32 = 20_000;

/// How long a read waits for samples, in microseconds.
pub const SOAPY_RX_STREAM_TIMEOUT_US: i64 = 20_000;

/// How long a write waits for room, in microseconds.
pub const SOAPY_TX_STREAM_TIMEOUT_US: i64 = 50_000;

/// Why a device cannot be used.
#[derive(Debug)]
pub struct DeviceError {
    pub code: SoapyStreamErrorCode,
    pub message: String,
}

/// Whether an error has this code and this message.
pub open spec fn error_is(err: DeviceError, code: SoapyStreamErrorCode, message: Seq<char>) -> bool {
    err.code == code && err.message@ == message
}

// ---------------------------------------------------------------------------------------------
// Tuning
// ---------------------------------------------------------------------------------------------
#[derive(Debug, Clone, Copy, PartialEq, Eq, Structural)]
pub enum StackMode {
    /// Base station.
    Bs,
    /// Mobile station.
    Ms,
    /// Monitor.
    Mon,
}

#[derive(Debug, Clone, Copy, PartialEq, Eq, Structural)]
pub enum Carrier {
    Downlink,
    Uplink,
}

/// Which carriers are received and sent.
#[derive(Debug, Clone, Copy, PartialEq, Eq, Structural)]
pub struct Tuning {
    pub rx: Carrier,
    pub tx: Carrier,
    /// How far the receive center frequency lies below the carrier.
    pub rx_offset_hz: u32,
}

/// Which carriers are received and sent. A monitor has no tuning yet.
pub fn tuning(mode: StackMode, channelized: bool) -> (out: Option<Tuning>)
    ensures
        out == match mode {
            StackMode::Bs => Some(
                Tuning {
                    rx: Carrier::Uplink,
                    tx: Carrier::Downlink,
                    rx_offset_hz: if channelized {
                        0
                    } else {
                        SOAPY_FREQ_OFFSET_HZ
                    },
                },
            ),
            StackMode::Ms => Some(
                Tuning {
                    rx: Carrier::Downlink,
                    tx: Carrier::Uplink,
                    rx_offset_hz: if channelized {
                        0
                    } else {
                        SOAPY_FREQ_OFFSET_HZ
                    },
                },
            ),
            StackMode::Mon => None,
        },
{
    let rx_offset_hz: u32 = if channelized {
        0
    } else {
        SOAPY_FREQ_OFFSET_HZ
    };
    match mode {
        StackMode::Bs => Some(Tuning { rx: Carrier::Uplink, tx: Carrier::Downlink, rx_offset_hz }),
        StackMode::Ms => Some(Tuning { rx: Carrier::Downlink, tx: Carrier::Uplink, rx_offset_hz }),
        StackMode::Mon => None,
    }
}

// ---------------------------------------------------------------------------------------------
// Opening
// ---------------------------------------------------------------------------------------------
/// What the search for a device does next.
pub enum SearchStep {
    /// Try to open the device with this place in the list.
    Open(usize),
    /// Give up.
    NotFound(DeviceError),
}

/// What the search for a device does after `tried` of `count` listed devices could not be used.
/// Devices are tried in the order of the list.
pub fn find_supported_device(tried: usize, count: usize) -> (out: SearchStep)
    ensures
        tried < count ==> out == SearchStep::Open(tried),
        tried >= count ==> (out matches SearchStep::NotFound(err) && error_is(
            err,
            SoapyStreamErrorCode::NotSupported,
            "No supported devices found"@,
        )),
{
    if tried < count {
        SearchStep::Open(tried)
    } else {
        SearchStep::NotFound(
            DeviceError {
                code: SoapyStreamErrorCode::NotSupported,
                message: "No supported devices found".to_owned(),
            },
        )
    }
}

/// An opened device can be used where its model is known.
pub fn open_given_device<D>(detected: Option<D>) -> (out: Result<D, DeviceError>)
    ensures
        match detected {
            Some(device) => out == Ok::<D, DeviceError>(device),
            None => out matches Err(err) && error_is(
                err,
                SoapyStreamErrorCode::NotSupported,
                "Unsupported device"@,
            ),
        },
{
    match detected {
        Some(device) => Ok(device),
        None => Err(
            DeviceError {
                code: SoapyStreamErrorCode::NotSupported,
                message: "Unsupported device".to_owned(),
            },
        ),
    }
}

/// Whether a device is reached over the network, by the driver that its arguments name.
pub fn is_remote(driver: Option<&str>) -> (r: bool)
    ensures
        r == (driver matches Some(name) && name@ == "remote"@),
{
    match driver {
        Some(name) => same(name, "remote"),
        None => false,
    }
}

/// How a device is used further, by its settings.
#[derive(Debug, Clone, Copy, PartialEq, Eq, Structural)]
pub struct DeviceUse {
    pub use_get_hardware_time: bool,
    /// Whether the device has to be opened again with additional arguments.
    pub reopen: bool,
}

/// How a device is used further. `settings` holds whether the hardware time is read and how many
/// additional arguments there are; there are none where the configuration is invalid. Over the
/// network the hardware time is not read, which may be too slow.
pub fn open_device(settings: Option<(bool, usize)>, remote: bool) -> (out: Result<
    DeviceUse,
    DeviceError,
>)
    ensures
        match settings {
            Some((hardware_time, arguments)) => out == Ok::<DeviceUse, DeviceError>(
                DeviceUse {
                    use_get_hardware_time: hardware_time && !remote,
                    reopen: arguments > 0,
                },
            ),
            None => out matches Err(err) && error_is(
                err,
                SoapyStreamErrorCode::Other,
                "Invalid SDR device configuration"@,
            ),
        },
{
    match settings {
        Some((hardware_time, arguments)) => Ok(
            DeviceUse { use_get_hardware_time: hardware_time && !remote, reopen: arguments > 0 },
        ),
        None => Err(
            DeviceError {
                code: SoapyStreamErrorCode::Other,
                message: "Invalid SDR device configuration".to_owned(),
            },
        ),
    }
}

/// A device that was opened again has to be the same as before, by the keys of its driver and of
/// its hardware.
pub fn check_reopened(
    driver_key: &str,
    hardware_key: &str,
    new_driver_key: &str,
    new_hardware_key: &str,
) -> (out: Result<(), DeviceError>)
    ensures
        out is Ok <==> driver_key@ == new_driver_key@ && hardware_key@ == new_hardware_key@,
        out matches Err(err) ==> error_is(
            err,
            SoapyStreamErrorCode::Other,
            "Reopened a different device"@,
        ),
{
    if same(driver_key, new_driver_key) && same(hardware_key, new_hardware_key) {
        Ok(())
    } else {
        Err(
            DeviceError {
                code: SoapyStreamErrorCode::Other,
                message: "Reopened a different device".to_owned(),
            },
        )
    }
}

// ---------------------------------------------------------------------------------------------
// Setup
// ---------------------------------------------------------------------------------------------
/// The parts of the setup that depend on the device and its settings.
#[derive(Debug, Clone, Copy, PartialEq, Eq, Structural)]
pub struct SetupParts {
    pub rx: bool,
    pub tx: bool,
    /// Whether an antenna is chosen.
    pub rx_antenna: bool,
    pub tx_antenna: bool,
    /// How many gain elements are set.
    pub rx_gains: usize,
    pub tx_gains: usize,
    /// Whether the device loses its tuning when its streams are activated, so that it is tuned
    /// again.
    pub reapply: bool,
}

/// A step of the setup. Gain elements are numbered in the order of the settings.
#[derive(Debug, Clone, Copy, PartialEq, Eq, Structural)]
pub enum SetupStep {
    SetRxSampleRate,
    GetRxSampleRate,
    SetTxSampleRate,
    GetTxSampleRate,
    SetRxFrequency,
    SetRxAntenna,
    SetRxGain(usize),
    SetTxFrequency,
    SetTxAntenna,
    SetTxGain(usize),
    Calibrate,
    SetupRxStream,
    SetupTxStream,
    ActivateRxStream,
    ActivateTxStream,
    ActivateFrontend,
    ReapplyRxFrequency,
    ReapplyTxFrequency,
    ReapplyRxAntenna,
    ReapplyTxAntenna,
    ReapplyRxGain(usize),
    ReapplyTxGain(usize),
}

/// A step where a condition holds, and nothing where it does not.
pub open spec fn step_if(condition: bool, step: SetupStep) -> Seq<SetupStep> {
    if condition {
        seq![step]
    } else {
        Seq::empty()
    }
}

/// The steps that set the gain elements of one direction.
pub open spec fn gain_steps(rx: bool, again: bool, n: nat) -> Seq<SetupStep> {
    Seq::new(n, |i: int| gain_step(rx, again, i as usize))
}

/// The step that sets a gain element.
pub open spec fn gain_step(rx: bool, again: bool, i: usize) -> SetupStep {
    match (rx, again) {
        (true, false) => SetupStep::SetRxGain(i),
        (false, false) => SetupStep::SetTxGain(i),
        (true, true) => SetupStep::ReapplyRxGain(i),
        (false, true) => SetupStep::ReapplyTxGain(i),
    }
}

/// The steps that fix the sample rates.
pub open spec fn rate_steps(p: SetupParts) -> Seq<SetupStep> {
    step_if(p.rx, SetupStep::SetRxSampleRate) + step_if(p.rx, SetupStep::GetRxSampleRate) + step_if(
        p.tx,
        SetupStep::SetTxSampleRate,
    ) + step_if(p.tx, SetupStep::GetTxSampleRate)
}

/// The steps that tune the receive side.
pub open spec fn rx_tuning_steps(p: SetupParts) -> Seq<SetupStep> {
    if p.rx {
        seq![SetupStep::SetRxFrequency] + step_if(p.rx_antenna, SetupStep::SetRxAntenna)
            + gain_steps(true, false, p.rx_gains as nat)
    } else {
        Seq::empty()
    }
}

/// The steps that tune the transmit side.
pub open spec fn tx_tuning_steps(p: SetupParts) -> Seq<SetupStep> {
    if p.tx {
        seq![SetupStep::SetTxFrequency] + step_if(p.tx_antenna, SetupStep::SetTxAntenna)
            + gain_steps(false, false, p.tx_gains as nat)
    } else {
        Seq::empty()
    }
}

/// The steps that bring the streams up.
pub open spec fn stream_steps(p: SetupParts) -> Seq<SetupStep> {
    seq![SetupStep::Calibrate] + step_if(p.rx, SetupStep::SetupRxStream) + step_if(
        p.tx,
        SetupStep::SetupTxStream,
    ) + step_if(p.rx, SetupStep::ActivateRxStream) + step_if(p.tx, SetupStep::ActivateTxStream)
        + seq![SetupStep::ActivateFrontend]
}

/// The steps that tune the device again. Antennas and gains are set whether their side is in use
/// or not.
pub open spec fn reapply_steps(p: SetupParts) -> Seq<SetupStep> {
    step_if(p.rx, SetupStep::ReapplyRxFrequency) + step_if(p.tx, SetupStep::ReapplyTxFrequency)
        + step_if(p.rx_antenna, SetupStep::ReapplyRxAntenna) + step_if(
        p.tx_antenna,
        SetupStep::ReapplyTxAntenna,
    ) + gain_steps(true, true, p.rx_gains as nat) + gain_steps(false, true, p.tx_gains as nat)
}

/// All steps of the setup, in order.
pub open spec fn setup_order(p: SetupParts) -> Seq<SetupStep> {
    rate_steps(p) + rx_tuning_steps(p) + tx_tuning_steps(p) + stream_steps(p) + if p.reapply {
        reapply_steps(p)
    } else {
        Seq::empty()
    }
}

fn push_if(out: &mut Vec<SetupStep>, condition: bool, step: SetupStep)
    ensures
        final(out)@ == old(out)@ + step_if(condition, step),
{
    if condition {
        out.push(step);
    }
    assert(out@ =~= old(out)@ + step_if(condition, step));
}

fn push_gains(out: &mut Vec<SetupStep>, rx: bool, again: bool, n: usize)
    ensures
        final(out)@ == old(out)@ + gain_steps(rx, again, n as nat),
{
    let mut i: usize = 0;
    assert(out@ =~= old(out)@ + gain_steps(rx, again, 0));
    while i < n
        invariant
            i <= n,
            out@ == old(out)@ + gain_steps(rx, again, i as nat),
        decreases n - i,
    {
        let step = match (rx, again) {
            (true, false) => SetupStep::SetRxGain(i),
            (false, false) => SetupStep::SetTxGain(i),
            (true, true) => SetupStep::ReapplyRxGain(i),
            (false, true) => SetupStep::ReapplyTxGain(i),
        };
        out.push(step);
        assert(out@ =~= old(out)@ + gain_steps(rx, again, (i + 1) as nat));
        i = i + 1;
    }
}

fn push_rates(out: &mut Vec<SetupStep>, p: &SetupParts)
    ensures
        final(out)@ == old(out)@ + rate_steps(*p),
{
    push_if(out, p.rx, SetupStep::SetRxSampleRate);
    push_if(out, p.rx, SetupStep::GetRxSampleRate);
    push_if(out, p.tx, SetupStep::SetTxSampleRate);
    push_if(out, p.tx, SetupStep::GetTxSampleRate);
    assert(out@ =~= old(out)@ + rate_steps(*p));
}

fn push_rx_tuning(out: &mut Vec<SetupStep>, p: &SetupParts)
    ensures
        final(out)@ == old(out)@ + rx_tuning_steps(*p),
{
    if p.rx {
        push_if(out, true, SetupStep::SetRxFrequency);
        push_if(out, p.rx_antenna, SetupStep::SetRxAntenna);
        push_gains(out, true, false, p.rx_gains);
    }
    assert(out@ =~= old(out)@ + rx_tuning_steps(*p));
}

fn push_tx_tuning(out: &mut Vec<SetupStep>, p: &SetupParts)
    ensures
        final(out)@ == old(out)@ + tx_tuning_steps(*p),
{
    if p.tx {
        push_if(out, true, SetupStep::SetTxFrequency);
        push_if(out, p.tx_antenna, SetupStep::SetTxAntenna);
        push_gains(out, false, false, p.tx_gains);
    }
    assert(out@ =~= old(out)@ + tx_tuning_steps(*p));
}

fn push_streams(out: &mut Vec<SetupStep>, p: &SetupParts)
    ensures
        final(out)@ == old(out)@ + stream_steps(*p),
{
    push_if(out, true, SetupStep::Calibrate);
    push_if(out, p.rx, SetupStep::SetupRxStream);
    push_if(out, p.tx, SetupStep::SetupTxStream);
    push_if(out, p.rx, SetupStep::ActivateRxStream);
    push_if(out, p.tx, SetupStep::ActivateTxStream);
    push_if(out, true, SetupStep::ActivateFrontend);
    assert(out@ =~= old(out)@ + stream_steps(*p));
}

/// The steps that tune the device again.
fn reapply_librestation_runtime_settings(out: &mut Vec<SetupStep>, p: &SetupParts)
    ensures
        final(out)@ == old(out)@ + reapply_steps(*p),
{
    push_if(out, p.rx, SetupStep::ReapplyRxFrequency);
    push_if(out, p.tx, SetupStep::ReapplyTxFrequency);
    push_if(out, p.rx_antenna, SetupStep::ReapplyRxAntenna);
    push_if(out, p.tx_antenna, SetupStep::ReapplyTxAntenna);
    push_gains(out, true, true, p.rx_gains);
    push_gains(out, false, true, p.tx_gains);
    assert(out@ =~= old(out)@ + reapply_steps(*p));
}

/// All steps of the setup, in order. The setup ends with an error at the first step that fails.
pub fn setup_steps(p: &SetupParts) -> (out: Vec<SetupStep>)
    ensures
        out@ == setup_order(*p),
{
    let mut out: Vec<SetupStep> = Vec::new();
    push_rates(&mut out, p);
    push_rx_tuning(&mut out, p);
    push_tx_tuning(&mut out, p);
    push_streams(&mut out, p);
    if p.reapply {
        reapply_librestation_runtime_settings(&mut out, p);
    }
    assert(out@ =~= setup_order(*p));
    out
}

/// What a step does, as it is reported when it fails.
pub open spec fn step_text(step: SetupStep) -> Seq<char> {
    match step {
        SetupStep::SetRxSampleRate => "set RX sample rate"@,
        SetupStep::GetRxSampleRate => "get RX sample rate"@,
        SetupStep::SetTxSampleRate => "set TX sample rate"@,
        SetupStep::GetTxSampleRate => "get TX sample rate"@,
        SetupStep::SetRxFrequency => "set RX center frequency"@,
        SetupStep::SetRxAntenna => "set RX antenna"@,
        SetupStep::SetRxGain(_) => "set RX gain"@,
        SetupStep::SetTxFrequency => "set TX center frequency"@,
        SetupStep::SetTxAntenna => "set TX antenna"@,
        SetupStep::SetTxGain(_) => "set TX gain"@,
        SetupStep::Calibrate => "calibrate"@,
        SetupStep::SetupRxStream => "setup RX stream"@,
        SetupStep::SetupTxStream => "setup TX stream"@,
        SetupStep::ActivateRxStream => "activate RX stream"@,
        SetupStep::ActivateTxStream => "activate TX stream"@,
        SetupStep::ActivateFrontend => "activate frontend"@,
        SetupStep::ReapplyRxFrequency => "reapply LibreStation RX center frequency"@,
        SetupStep::ReapplyTxFrequency => "reapply LibreStation TX center frequency"@,
        SetupStep::ReapplyRxAntenna => "reapply LibreStation RX antenna"@,
        SetupStep::ReapplyTxAntenna => "reapply LibreStation TX antenna"@,
        SetupStep::ReapplyRxGain(_) => "reapply LibreStation RX gain"@,
        SetupStep::ReapplyTxGain(_) => "reapply LibreStation TX gain"@,
    }
}

impl SetupStep {
    /// What a step does, as it is reported when it fails.
    pub fn text(self) -> (out: &'static str)
        ensures
            out@ == step_text(self),
    {
        match self {
            SetupStep::SetRxSampleRate => "set RX sample rate",
            SetupStep::GetRxSampleRate => "get RX sample rate",
            SetupStep::SetTxSampleRate => "set TX sample rate",
            SetupStep::GetTxSampleRate => "get TX sample rate",
            SetupStep::SetRxFrequency => "set RX center frequency",
            SetupStep::SetRxAntenna => "set RX antenna",
            SetupStep::SetRxGain(_) => "set RX gain",
            SetupStep::SetTxFrequency => "set TX center frequency",
            SetupStep::SetTxAntenna => "set TX antenna",
            SetupStep::SetTxGain(_) => "set TX gain",
            SetupStep::Calibrate => "calibrate",
            SetupStep::SetupRxStream => "setup RX stream",
            SetupStep::SetupTxStream => "setup TX stream",
            SetupStep::ActivateRxStream => "activate RX stream",
            SetupStep::ActivateTxStream => "activate TX stream",
            SetupStep::ActivateFrontend => "activate frontend",
            SetupStep::ReapplyRxFrequency => "reapply LibreStation RX center frequency",
            SetupStep::ReapplyTxFrequency => "reapply LibreStation TX center frequency",
            SetupStep::ReapplyRxAntenna => "reapply LibreStation RX antenna",
            SetupStep::ReapplyTxAntenna => "reapply LibreStation TX antenna",
            SetupStep::ReapplyRxGain(_) => "reapply LibreStation RX gain",
            SetupStep::ReapplyTxGain(_) => "reapply LibreStation TX gain",
        }
    }
}

// ---------------------------------------------------------------------------------------------
// Frontend
// ---------------------------------------------------------------------------------------------
/// Whether the name of an industrial I/O device is that of the frontend.
pub open spec fn is_frontend_name(name: Seq<char>) -> bool {
    trimmed(name) == "ad9361-phy"@
}

/// The place of the frontend among devices with these names. The search ends at a device whose
/// name cannot be read.
pub open spec fn frontend_place(names: Seq<Option<String>>) -> Option<nat>
    decreases names.len(),
{
    if names.len() == 0 {
        None
    } else {
        match names[0] {
            None => None,
            Some(name) => if is_frontend_name(name@) {
                Some(0)
            } else {
                match frontend_place(names.drop_first()) {
                    Some(n) => Some(n + 1),
                    None => None,
                }
            },
        }
    }
}

/// The place of the frontend among devices with these names. The search ends at a device whose
/// name cannot be read.
pub fn find_ad936x_phy(names: &Vec<Option<String>>) -> (out: Option<usize>)
    ensures
        match out {
            Some(i) => frontend_place(names@) == Some(i as nat),
            None => frontend_place(names@) is None,
        },
{
    let mut i: usize = 0;
    assert(names@.skip(0) =~= names@);
    while i < names.len()
        invariant
            i <= names@.len(),
            frontend_place(names@) == (match frontend_place(names@.skip(i as int)) {
                Some(n) => Some(n + i as nat),
                None => None,
            }),
        decreases names@.len() - i,
    {
        proof {
            let rest = names@.skip(i as int);
            assert(rest[0] == names@[i as int]);
            assert(rest.drop_first() =~= names@.skip(i + 1));
        }
        match &names[i] {
            None => {
                return None;
            },
            Some(name) => {
                if same(trim(name.as_str()).as_str(), "ad9361-phy") {
                    return Some(i);
                }
            },
        }
        i = i + 1;
    }
    assert(names@.skip(i as int).len() == 0);
    None
}

/// Attribute names with the values that they are set to.
pub open spec fn text_pairs(pairs: Seq<(&'static str, &'static str)>) -> Seq<(Seq<char>, Seq<char>)> {
    pairs.map_values(|p: (&'static str, &'static str)| (p.0@, p.1@))
}

/// The attributes that bring the frontend into service, in the order in which they are set.
pub fn ad936x_runtime_active() -> (out: Vec<(&'static str, &'static str)>)
    ensures
        text_pairs(out@) == seq![
            ("out_altvoltage0_RX_LO_powerdown"@, "0"@),
            ("out_altvoltage1_TX_LO_powerdown"@, "0"@),
            ("ensm_mode"@, "fdd"@),
        ],
{
    let mut out: Vec<(&'static str, &'static str)> = Vec::new();
    out.push(("out_altvoltage0_RX_LO_powerdown", "0"));
    out.push(("out_altvoltage1_TX_LO_powerdown", "0"));
    out.push(("ensm_mode", "fdd"));
    assert(text_pairs(out@) =~= seq![
        ("out_altvoltage0_RX_LO_powerdown"@, "0"@),
        ("out_altvoltage1_TX_LO_powerdown"@, "0"@),
        ("ensm_mode"@, "fdd"@),
    ]);
    out
}

/// The attributes that put the frontend in standby, in the order in which they are set.
pub fn ad936x_standby() -> (out: Vec<(&'static str, &'static str)>)
    ensures
        text_pairs(out@) == seq![
            ("out_altvoltage1_TX_LO_powerdown"@, "1"@),
            ("out_altvoltage0_RX_LO_powerdown"@, "1"@),
            ("ensm_mode"@, "sleep"@),
        ],
{
    let mut out: Vec<(&'static str, &'static str)> = Vec::new();
    out.push(("out_altvoltage1_TX_LO_powerdown", "1"));
    out.push(("out_altvoltage0_RX_LO_powerdown", "1"));
    out.push(("ensm_mode", "sleep"));
    assert(text_pairs(out@) =~= seq![
        ("out_altvoltage1_TX_LO_powerdown"@, "1"@),
        ("out_altvoltage0_RX_LO_powerdown"@, "1"@),
        ("ensm_mode"@, "sleep"@),
    ]);
    out
}

/// A step of the shutdown.
#[derive(Debug, Clone, Copy, PartialEq, Eq, Structural)]
pub enum ShutdownStep {
    DeactivateTxStream,
    DeactivateRxStream,
    StandbyFrontend,
}

/// The steps of the shutdown, in order: streams that are active are deactivated, transmission
/// first. A step that fails does not stop the others.
pub fn shutdown_steps(tx_active: bool, rx_active: bool) -> (out: Vec<ShutdownStep>)
    ensures
        out@ == (if tx_active {
            seq![ShutdownStep::DeactivateTxStream]
        } else {
            Seq::empty()
        }) + (if rx_active {
            seq![ShutdownStep::DeactivateRxStream]
        } else {
            Seq::empty()
        }) + seq![ShutdownStep::StandbyFrontend],
{
    let mut out: Vec<ShutdownStep> = Vec::new();
    if tx_active {
        out.push(ShutdownStep::DeactivateTxStream);
    }
    if rx_active {
        out.push(ShutdownStep::DeactivateRxStream);
    }
    out.push(ShutdownStep::StandbyFrontend);
    out
}

// ---------------------------------------------------------------------------------------------
// Laws
// ---------------------------------------------------------------------------------------------
/// The stage of the setup to which a step belongs.
pub open spec fn stage(step: SetupStep) -> int {
    match step {
        SetupStep::SetRxSampleRate => 0,
        SetupStep::GetRxSampleRate => 1,
        SetupStep::SetTxSampleRate => 2,
        SetupStep::GetTxSampleRate => 3,
        SetupStep::SetRxFrequency => 4,
        SetupStep::SetRxAntenna => 5,
        SetupStep::SetRxGain(_) => 6,
        SetupStep::SetTxFrequency => 7,
        SetupStep::SetTxAntenna => 8,
        SetupStep::SetTxGain(_) => 9,
        SetupStep::Calibrate => 10,
        SetupStep::SetupRxStream => 11,
        SetupStep::SetupTxStream => 12,
        SetupStep::ActivateRxStream => 13,
        SetupStep::ActivateTxStream => 14,
        SetupStep::ActivateFrontend => 15,
        SetupStep::ReapplyRxFrequency => 16,
        SetupStep::ReapplyTxFrequency => 17,
        SetupStep::ReapplyRxAntenna => 18,
        SetupStep::ReapplyTxAntenna => 19,
        SetupStep::ReapplyRxGain(_) => 20,
        SetupStep::ReapplyTxGain(_) => 21,
    }
}

/// The number of the gain element that a step sets.
pub open spec fn element(step: SetupStep) -> int {
    match step {
        SetupStep::SetRxGain(i) => i as int,
        SetupStep::SetTxGain(i) => i as int,
        SetupStep::ReapplyRxGain(i) => i as int,
        SetupStep::ReapplyTxGain(i) => i as int,
        _ => 0,
    }
}

/// Whether one step goes before another: by its stage, and among gain elements by their numbers.
pub open spec fn goes_before(a: SetupStep, b: SetupStep) -> bool {
    stage(a) < stage(b) || (stage(a) == stage(b) && element(a) < element(b))
}

/// Whether steps belong to these stages and each goes before all that follow it.
pub open spec fn in_stages(steps: Seq<SetupStep>, from: int, to: int) -> bool {
    &&& forall|i: int| 0 <= i < steps.len() ==> from <= stage(#[trigger] steps[i]) <= to
    &&& forall|i: int, j: int|
        0 <= i < j < steps.len() ==> goes_before(#[trigger] steps[i], #[trigger] steps[j])
}

proof fn lemma_stages_join(a: Seq<SetupStep>, b: Seq<SetupStep>, from: int, mid: int, to: int)
    requires
        in_stages(a, from, mid),
        in_stages(b, mid + 1, to),
        from <= mid <= to,
    ensures
        in_stages(a + b, from, to),
{
    let all = a + b;
    assert forall|i: int, j: int| 0 <= i < j < all.len() implies goes_before(
        #[trigger] all[i],
        #[trigger] all[j],
    ) by {
        if j < a.len() {
            assert(all[i] == a[i] && all[j] == a[j]);
        } else if i < a.len() {
            assert(all[i] == a[i] && all[j] == b[j - a.len()]);
        } else {
            assert(all[i] == b[i - a.len()] && all[j] == b[j - a.len()]);
        }
    }
    assert forall|i: int| 0 <= i < all.len() implies from <= stage(#[trigger] all[i]) <= to by {
        if i < a.len() {
            assert(all[i] == a[i]);
        } else {
            assert(all[i] == b[i - a.len()]);
        }
    }
}

proof fn lemma_rate_stages(p: SetupParts)
    ensures
        in_stages(rate_steps(p), 0, 3),
{
    let a = step_if(p.rx, SetupStep::SetRxSampleRate);
    let b = step_if(p.rx, SetupStep::GetRxSampleRate);
    let c = step_if(p.tx, SetupStep::SetTxSampleRate);
    let d = step_if(p.tx, SetupStep::GetTxSampleRate);
    lemma_stages_join(a, b, 0, 0, 1);
    lemma_stages_join(a + b, c, 0, 1, 2);
    lemma_stages_join(a + b + c, d, 0, 2, 3);
}

proof fn lemma_tuning_stages(p: SetupParts)
    ensures
        in_stages(rx_tuning_steps(p), 4, 6),
        in_stages(tx_tuning_steps(p), 7, 9),
{
    let a = seq![SetupStep::SetRxFrequency];
    let b = step_if(p.rx_antenna, SetupStep::SetRxAntenna);
    lemma_stages_join(a, b, 4, 4, 5);
    lemma_stages_join(a + b, gain_steps(true, false, p.rx_gains as nat), 4, 5, 6);
    let c = seq![SetupStep::SetTxFrequency];
    let d = step_if(p.tx_antenna, SetupStep::SetTxAntenna);
    lemma_stages_join(c, d, 7, 7, 8);
    lemma_stages_join(c + d, gain_steps(false, false, p.tx_gains as nat), 7, 8, 9);
}

proof fn lemma_stream_stages(p: SetupParts)
    ensures
        in_stages(stream_steps(p), 10, 15),
{
    let a = seq![SetupStep::Calibrate];
    let b = step_if(p.rx, SetupStep::SetupRxStream);
    let c = step_if(p.tx, SetupStep::SetupTxStream);
    let d = step_if(p.rx, SetupStep::ActivateRxStream);
    let e = step_if(p.tx, SetupStep::ActivateTxStream);
    let f = seq![SetupStep::ActivateFrontend];
    lemma_stages_join(a, b, 10, 10, 11);
    lemma_stages_join(a + b, c, 10, 11, 12);
    lemma_stages_join(a + b + c, d, 10, 12, 13);
    lemma_stages_join(a + b + c + d, e, 10, 13, 14);
    lemma_stages_join(a + b + c + d + e, f, 10, 14, 15);
}

proof fn lemma_reapply_stages(p: SetupParts)
    ensures
        in_stages(reapply_steps(p), 16, 21),
{
    let a = step_if(p.rx, SetupStep::ReapplyRxFrequency);
    let b = step_if(p.tx, SetupStep::ReapplyTxFrequency);
    let c = step_if(p.rx_antenna, SetupStep::ReapplyRxAntenna);
    let d = step_if(p.tx_antenna, SetupStep::ReapplyTxAntenna);
    let e = gain_steps(true, true, p.rx_gains as nat);
    let f = gain_steps(false, true, p.tx_gains as nat);
    lemma_stages_join(a, b, 16, 16, 17);
    lemma_stages_join(a + b, c, 16, 17, 18);
    lemma_stages_join(a + b + c, d, 16, 18, 19);
    lemma_stages_join(a + b + c + d, e, 16, 19, 20);
    lemma_stages_join(a + b + c + d + e, f, 16, 20, 21);
}

/// The setup goes through its stages in one fixed order, whatever parts it has, and takes no step
/// twice: in particular, a stream is activated only after everything is tuned and both streams are
/// set up.
pub proof fn setup_goes_through_stages(p: SetupParts)
    ensures
        in_stages(setup_order(p), 0, 21),
{
    let rates = rate_steps(p);
    let rx = rx_tuning_steps(p);
    let tx = tx_tuning_steps(p);
    let streams = stream_steps(p);
    let again = if p.reapply {
        reapply_steps(p)
    } else {
        Seq::empty()
    };
    lemma_rate_stages(p);
    lemma_tuning_stages(p);
    lemma_stream_stages(p);
    lemma_reapply_stages(p);
    lemma_stages_join(rates, rx, 0, 3, 6);
    lemma_stages_join(rates + rx, tx, 0, 6, 9);
    lemma_stages_join(rates + rx + tx, streams, 0, 9, 15);
    lemma_stages_join(rates + rx + tx + streams, again, 0, 15, 21);
}

proof fn lemma_held_by_either(a: Seq<SetupStep>, b: Seq<SetupStep>, step: SetupStep)
    ensures
        (a + b).contains(step) <==> a.contains(step) || b.contains(step),
{
    let all = a + b;
    if a.contains(step) {
        let i = choose|i: int| 0 <= i < a.len() && a[i] == step;
        assert(all[i] == step);
    }
    if b.contains(step) {
        let i = choose|i: int| 0 <= i < b.len() && b[i] == step;
        assert(all[a.len() + i] == step);
    }
    if all.contains(step) {
        let i = choose|i: int| 0 <= i < all.len() && all[i] == step;
        if i < a.len() {
            assert(a[i] == step);
        } else {
            assert(b[i - a.len()] == step);
        }
    }
}

proof fn lemma_held_by_one(condition: bool, only: SetupStep, step: SetupStep)
    ensures
        step_if(condition, only).contains(step) <==> condition && step == only,
        seq![only].contains(step) <==> step == only,
{
    assert(seq![only][0] == only);
}

proof fn lemma_held_by_gains(rx: bool, again: bool, n: usize, step: SetupStep)
    ensures
        gain_steps(rx, again, n as nat).contains(step) <==> exists|i: usize|
            i < n && step == #[trigger] gain_step(rx, again, i),
{
    let steps = gain_steps(rx, again, n as nat);
    if exists|i: usize| i < n && step == #[trigger] gain_step(rx, again, i) {
        let i = choose|i: usize| i < n && step == #[trigger] gain_step(rx, again, i);
        assert(steps[i as int] == step);
    }
    if steps.contains(step) {
        let i = choose|i: int| 0 <= i < steps.len() && steps[i] == step;
        assert(step == gain_step(rx, again, i as usize));
    }
}

proof fn lemma_held_by_rates(p: SetupParts, step: SetupStep)
    ensures
        rate_steps(p).contains(step) <==> (p.rx && (step == SetupStep::SetRxSampleRate || step
            == SetupStep::GetRxSampleRate)) || (p.tx && (step == SetupStep::SetTxSampleRate || step
            == SetupStep::GetTxSampleRate)),
{
    let a = step_if(p.rx, SetupStep::SetRxSampleRate);
    let b = step_if(p.rx, SetupStep::GetRxSampleRate);
    let c = step_if(p.tx, SetupStep::SetTxSampleRate);
    let d = step_if(p.tx, SetupStep::GetTxSampleRate);
    lemma_held_by_either(a, b, step);
    lemma_held_by_either(a + b, c, step);
    lemma_held_by_either(a + b + c, d, step);
    lemma_held_by_one(p.rx, SetupStep::SetRxSampleRate, step);
    lemma_held_by_one(p.rx, SetupStep::GetRxSampleRate, step);
    lemma_held_by_one(p.tx, SetupStep::SetTxSampleRate, step);
    lemma_held_by_one(p.tx, SetupStep::GetTxSampleRate, step);
}

proof fn lemma_held_by_tuning(p: SetupParts, step: SetupStep)
    ensures
        rx_tuning_steps(p).contains(step) <==> p.rx && (step == SetupStep::SetRxFrequency || (
        p.rx_antenna && step == SetupStep::SetRxAntenna) || (step matches SetupStep::SetRxGain(i)
            && i < p.rx_gains)),
        tx_tuning_steps(p).contains(step) <==> p.tx && (step == SetupStep::SetTxFrequency || (
        p.tx_antenna && step == SetupStep::SetTxAntenna) || (step matches SetupStep::SetTxGain(i)
            && i < p.tx_gains)),
{
    let a = seq![SetupStep::SetRxFrequency];
    let b = step_if(p.rx_antenna, SetupStep::SetRxAntenna);
    let c = gain_steps(true, false, p.rx_gains as nat);
    lemma_held_by_either(a, b, step);
    lemma_held_by_either(a + b, c, step);
    lemma_held_by_one(true, SetupStep::SetRxFrequency, step);
    lemma_held_by_one(p.rx_antenna, SetupStep::SetRxAntenna, step);
    lemma_held_by_gains(true, false, p.rx_gains, step);
    if let SetupStep::SetRxGain(i) = step {
        assert(gain_step(true, false, i) == step);
    }
    let d = seq![SetupStep::SetTxFrequency];
    let e = step_if(p.tx_antenna, SetupStep::SetTxAntenna);
    let f = gain_steps(false, false, p.tx_gains as nat);
    lemma_held_by_either(d, e, step);
    lemma_held_by_either(d + e, f, step);
    lemma_held_by_one(true, SetupStep::SetTxFrequency, step);
    lemma_held_by_one(p.tx_antenna, SetupStep::SetTxAntenna, step);
    lemma_held_by_gains(false, false, p.tx_gains, step);
    if let SetupStep::SetTxGain(i) = step {
        assert(gain_step(false, false, i) == step);
    }
}

proof fn lemma_held_by_streams(p: SetupParts, step: SetupStep)
    ensures
        stream_steps(p).contains(step) <==> step == SetupStep::Calibrate || step
            == SetupStep::ActivateFrontend || (p.rx && (step == SetupStep::SetupRxStream || step
            == SetupStep::ActivateRxStream)) || (p.tx && (step == SetupStep::SetupTxStream || step
            == SetupStep::ActivateTxStream)),
{
    let a = seq![SetupStep::Calibrate];
    let b = step_if(p.rx, SetupStep::SetupRxStream);
    let c = step_if(p.tx, SetupStep::SetupTxStream);
    let d = step_if(p.rx, SetupStep::ActivateRxStream);
    let e = step_if(p.tx, SetupStep::ActivateTxStream);
    let f = seq![SetupStep::ActivateFrontend];
    lemma_held_by_either(a, b, step);
    lemma_held_by_either(a + b, c, step);
    lemma_held_by_either(a + b + c, d, step);
    lemma_held_by_either(a + b + c + d, e, step);
    lemma_held_by_either(a + b + c + d + e, f, step);
    lemma_held_by_one(true, SetupStep::Calibrate, step);
    lemma_held_by_one(p.rx, SetupStep::SetupRxStream, step);
    lemma_held_by_one(p.tx, SetupStep::SetupTxStream, step);
    lemma_held_by_one(p.rx, SetupStep::ActivateRxStream, step);
    lemma_held_by_one(p.tx, SetupStep::ActivateTxStream, step);
    lemma_held_by_one(true, SetupStep::ActivateFrontend, step);
}

proof fn lemma_held_by_reapply(p: SetupParts, step: SetupStep)
    ensures
        reapply_steps(p).contains(step) <==> (p.rx && step == SetupStep::ReapplyRxFrequency) || (
        p.tx && step == SetupStep::ReapplyTxFrequency) || (p.rx_antenna && step
            == SetupStep::ReapplyRxAntenna) || (p.tx_antenna && step == SetupStep::ReapplyTxAntenna)
            || (step matches SetupStep::ReapplyRxGain(i) && i < p.rx_gains) || (
        step matches SetupStep::ReapplyTxGain(i) && i < p.tx_gains),
{
    let a = step_if(p.rx, SetupStep::ReapplyRxFrequency);
    let b = step_if(p.tx, SetupStep::ReapplyTxFrequency);
    let c = step_if(p.rx_antenna, SetupStep::ReapplyRxAntenna);
    let d = step_if(p.tx_antenna, SetupStep::ReapplyTxAntenna);
    let e = gain_steps(true, true, p.rx_gains as nat);
    let f = gain_steps(false, true, p.tx_gains as nat);
    lemma_held_by_either(a, b, step);
    lemma_held_by_either(a + b, c, step);
    lemma_held_by_either(a + b + c, d, step);
    lemma_held_by_either(a + b + c + d, e, step);
    lemma_held_by_either(a + b + c + d + e, f, step);
    lemma_held_by_one(p.rx, SetupStep::ReapplyRxFrequency, step);
    lemma_held_by_one(p.tx, SetupStep::ReapplyTxFrequency, step);
    lemma_held_by_one(p.rx_antenna, SetupStep::ReapplyRxAntenna, step);
    lemma_held_by_one(p.tx_antenna, SetupStep::ReapplyTxAntenna, step);
    lemma_held_by_gains(true, true, p.rx_gains, step);
    lemma_held_by_gains(false, true, p.tx_gains, step);
    if let SetupStep::ReapplyRxGain(i) = step {
        assert(gain_step(true, true, i) == step);
    }
    if let SetupStep::ReapplyTxGain(i) = step {
        assert(gain_step(false, true, i) == step);
    }
}

/// The setup has just the steps that its parts call for: rates, tuning and streams of the sides
/// that are in use, antennas and gain elements as far as they are set, calibration and frontend in
/// any case, and tuning once more where the device loses it, which sets antennas and gains whether
/// their side is in use or not.
pub proof fn setup_has_just_the_steps_called_for(
    p: &SetupParts,
    out: Vec<SetupStep>,
    step: SetupStep,
)
    requires
        call_ensures(setup_steps, (p,), out),
    ensures
        out@.contains(step) <==> match step {
            SetupStep::SetRxSampleRate => p.rx,
            SetupStep::GetRxSampleRate => p.rx,
            SetupStep::SetTxSampleRate => p.tx,
            SetupStep::GetTxSampleRate => p.tx,
            SetupStep::SetRxFrequency => p.rx,
            SetupStep::SetRxAntenna => p.rx && p.rx_antenna,
            SetupStep::SetRxGain(i) => p.rx && i < p.rx_gains,
            SetupStep::SetTxFrequency => p.tx,
            SetupStep::SetTxAntenna => p.tx && p.tx_antenna,
            SetupStep::SetTxGain(i) => p.tx && i < p.tx_gains,
            SetupStep::Calibrate => true,
            SetupStep::SetupRxStream => p.rx,
            SetupStep::SetupTxStream => p.tx,
            SetupStep::ActivateRxStream => p.rx,
            SetupStep::ActivateTxStream => p.tx,
            SetupStep::ActivateFrontend => true,
            SetupStep::ReapplyRxFrequency => p.reapply && p.rx,
            SetupStep::ReapplyTxFrequency => p.reapply && p.tx,
            SetupStep::ReapplyRxAntenna => p.reapply && p.rx_antenna,
            SetupStep::ReapplyTxAntenna => p.reapply && p.tx_antenna,
            SetupStep::ReapplyRxGain(i) => p.reapply && i < p.rx_gains,
            SetupStep::ReapplyTxGain(i) => p.reapply && i < p.tx_gains,
        },
{
    let parts = *p;
    let rates = rate_steps(parts);
    let rx = rx_tuning_steps(parts);
    let tx = tx_tuning_steps(parts);
    let streams = stream_steps(parts);
    let again = if parts.reapply {
        reapply_steps(parts)
    } else {
        Seq::empty()
    };
    lemma_held_by_rates(parts, step);
    lemma_held_by_tuning(parts, step);
    lemma_held_by_streams(parts, step);
    lemma_held_by_reapply(parts, step);
    lemma_held_by_either(rates, rx, step);
    lemma_held_by_either(rates + rx, tx, step);
    lemma_held_by_either(rates + rx + tx, streams, step);
    lemma_held_by_either(rates + rx + tx + streams, again, step);
}

/// The place of a kind of step in the setup, and the number of the gain element that it sets.
pub open spec fn place_in_setup(step: SetupStep) -> (int, int) {
    match step {
        SetupStep::SetRxSampleRate => (0, 0),
        SetupStep::GetRxSampleRate => (1, 0),
        SetupStep::SetTxSampleRate => (2, 0),
        SetupStep::GetTxSampleRate => (3, 0),
        SetupStep::SetRxFrequency => (4, 0),
        SetupStep::SetRxAntenna => (5, 0),
        SetupStep::SetRxGain(n) => (6, n as int),
        SetupStep::SetTxFrequency => (7, 0),
        SetupStep::SetTxAntenna => (8, 0),
        SetupStep::SetTxGain(n) => (9, n as int),
        SetupStep::Calibrate => (10, 0),
        SetupStep::SetupRxStream => (11, 0),
        SetupStep::SetupTxStream => (12, 0),
        SetupStep::ActivateRxStream => (13, 0),
        SetupStep::ActivateTxStream => (14, 0),
        SetupStep::ActivateFrontend => (15, 0),
        SetupStep::ReapplyRxFrequency => (16, 0),
        SetupStep::ReapplyTxFrequency => (17, 0),
        SetupStep::ReapplyRxAntenna => (18, 0),
        SetupStep::ReapplyTxAntenna => (19, 0),
        SetupStep::ReapplyRxGain(n) => (20, n as int),
        SetupStep::ReapplyTxGain(n) => (21, n as int),
    }
}

proof fn lemma_place_in_setup(step: SetupStep)
    ensures
        place_in_setup(step) == (stage(step), element(step)),
{
}

/// The steps of the setup are in order, with places that go up from each step to the next: rates
/// first, then the tuning of the receive side and of the transmit side, calibration, the streams,
/// the frontend, and tuning once more. Gain elements come in the order of their numbers, and no
/// step comes twice.
pub proof fn setup_steps_are_in_order(p: &SetupParts, out: Vec<SetupStep>, i: int, j: int)
    requires
        call_ensures(setup_steps, (p,), out),
        0 <= i < j < out@.len(),
    ensures
        place_in_setup(out@[i]).0 < place_in_setup(out@[j]).0 || (place_in_setup(out@[i]).0
            == place_in_setup(out@[j]).0 && place_in_setup(out@[i]).1 < place_in_setup(
            out@[j],
        ).1),
{
    setup_goes_through_stages(*p);
    lemma_place_in_setup(out@[i]);
    lemma_place_in_setup(out@[j]);
    assert(goes_before(out@[i], out@[j]));
}

/// A base station receives the uplink and sends the downlink, a mobile station the other way round.
/// The receive center lies 20 kHz below the carrier, or in it where the frontend is channelized.
pub proof fn stations_are_tuned_to_each_other(
    channelized: bool,
    bs: Option<Tuning>,
    ms: Option<Tuning>,
    mon: Option<Tuning>,
)
    requires
        call_ensures(tuning, (StackMode::Bs, channelized), bs),
        call_ensures(tuning, (StackMode::Ms, channelized), ms),
        call_ensures(tuning, (StackMode::Mon, channelized), mon),
    ensures
        bs is Some && ms is Some && mon is None,
        bs->0.rx == Carrier::Uplink && bs->0.tx == Carrier::Downlink,
        ms->0.rx == bs->0.tx && ms->0.tx == bs->0.rx,
        channelized ==> bs->0.rx_offset_hz == 0 && ms->0.rx_offset_hz == 0,
        !channelized ==> bs->0.rx_offset_hz == 20_000 && ms->0.rx_offset_hz == 20_000,
{
}

/// Devices are tried one after the other; the search is given up when all were, and not before.
pub proof fn all_devices_are_tried(tried: usize, count: usize, out: SearchStep)
    requires
        call_ensures(find_supported_device, (tried, count), out),
    ensures
        tried < count ==> out == SearchStep::Open(tried),
        tried >= count ==> (out matches SearchStep::NotFound(e) && e.code
            == SoapyStreamErrorCode::NotSupported && e.message@ == "No supported devices found"@),
{
}

/// An opened device is used as it was detected, and refused where its model is not known. One that
/// is opened again is refused where its driver or its hardware is another.
pub proof fn devices_are_refused_with_reasons<D>(
    device: D,
    out: Result<D, DeviceError>,
    unknown: Result<D, DeviceError>,
    driver: &str,
    hardware: &str,
    new_driver: &str,
    new_hardware: &str,
    reopened: Result<(), DeviceError>,
)
    requires
        call_ensures(open_given_device::<D>, (Some(device),), out),
        call_ensures(open_given_device::<D>, (None::<D>,), unknown),
        call_ensures(check_reopened, (driver, hardware, new_driver, new_hardware), reopened),
    ensures
        out == Ok::<D, DeviceError>(device),
        unknown matches Err(e) && e.code == SoapyStreamErrorCode::NotSupported && e.message@
            == "Unsupported device"@,
        driver@ == new_driver@ && hardware@ == new_hardware@ ==> reopened is Ok,
        driver@ != new_driver@ || hardware@ != new_hardware@ ==> (reopened matches Err(e) && e.code
            == SoapyStreamErrorCode::Other && e.message@ == "Reopened a different device"@),
{
}

/// Over the network the hardware time is never read; else it is where the settings say so. A device
/// is opened again just where there are additional arguments. An invalid configuration is refused.
pub proof fn network_devices_have_no_hardware_time(
    hardware_time: bool,
    arguments: usize,
    driver: &str,
    remote: bool,
    nothing: bool,
    out: Result<DeviceUse, DeviceError>,
    invalid: Result<DeviceUse, DeviceError>,
)
    requires
        call_ensures(is_remote, (Some(driver),), remote),
        call_ensures(is_remote, (None::<&str>,), nothing),
        call_ensures(open_device, (Some((hardware_time, arguments)), remote), out),
        call_ensures(open_device, (None::<(bool, usize)>, remote), invalid),
    ensures
        remote <==> driver@ == "remote"@,
        !nothing,
        out is Ok,
        out->Ok_0.use_get_hardware_time <==> hardware_time && driver@ != "remote"@,
        out->Ok_0.reopen <==> arguments > 0,
        invalid matches Err(e) && e.code == SoapyStreamErrorCode::Other && e.message@
            == "Invalid SDR device configuration"@,
{
}

proof fn lemma_frontend_place(names: Seq<Option<String>>)
    ensures
        match frontend_place(names) {
            Some(n) => {
                &&& n < names.len()
                &&& names[n as int] is Some && trimmed(names[n as int]->0@) == "ad9361-phy"@
                &&& forall|k: int|
                    0 <= k < n ==> (#[trigger] names[k]) is Some && trimmed(names[k]->0@)
                        != "ad9361-phy"@
            },
            None => forall|k: int|
                0 <= k < names.len() && (#[trigger] names[k]) is Some && trimmed(names[k]->0@)
                    == "ad9361-phy"@ ==> exists|j: int|
                    0 <= j < k && (#[trigger] names[j]) is None,
        },
    decreases names.len(),
{
    if names.len() > 0 && names[0] is Some && !is_frontend_name(names[0]->0@) {
        let rest = names.drop_first();
        lemma_frontend_place(rest);
        match frontend_place(rest) {
            Some(n) => {
                assert(rest[n as int] == names[n as int + 1]);
                assert forall|k: int| 0 <= k < n + 1 implies (#[trigger] names[k]) is Some
                    && trimmed(names[k]->0@) != "ad9361-phy"@ by {
                    if k > 0 {
                        assert(rest[k - 1] == names[k]);
                    }
                }
            },
            None => {
                assert forall|k: int|
                    0 <= k < names.len() && (#[trigger] names[k]) is Some && trimmed(names[k]->0@)
                        == "ad9361-phy"@ implies exists|j: int|
                    0 <= j < k && (#[trigger] names[j]) is None by {
                    assert(rest[k - 1] == names[k]);
                    let j = choose|j: int| 0 <= j < k - 1 && (#[trigger] rest[j]) is None;
                    assert(names[j + 1] is None);
                }
            },
        }
    }
}

/// The frontend is the first device with its name, whatever the space around it, and it is found
/// just where the names of all devices before it can be read.
pub proof fn frontend_is_the_first_of_its_name(names: &Vec<Option<String>>, out: Option<usize>)
    requires
        call_ensures(find_ad936x_phy, (names,), out),
    ensures
        out matches Some(i) ==> {
            &&& i < names@.len()
            &&& names@[i as int] is Some && trimmed(names@[i as int]->0@) == "ad9361-phy"@
            &&& forall|k: int|
                0 <= k < i ==> (#[trigger] names@[k]) is Some && trimmed(names@[k]->0@)
                    != "ad9361-phy"@
        },
        out is None ==> forall|k: int|
            0 <= k < names@.len() && (#[trigger] names@[k]) is Some && trimmed(names@[k]->0@)
                == "ad9361-phy"@ ==> exists|j: int| 0 <= j < k && (#[trigger] names@[j]) is None,
{
    lemma_frontend_place(names@);
}

/// In service both oscillators of the frontend are on and it works in both directions; in standby
/// both are off, that of transmission first, and it sleeps. The attributes are the same.
pub proof fn frontend_is_switched_on_and_off(
    on: Vec<(&'static str, &'static str)>,
    off: Vec<(&'static str, &'static str)>,
)
    requires
        call_ensures(ad936x_runtime_active, (), on),
        call_ensures(ad936x_standby, (), off),
    ensures
        on@.len() == 3 && off@.len() == 3,
        on@[0].0@ == "out_altvoltage0_RX_LO_powerdown"@ && on@[0].1@ == "0"@,
        on@[1].0@ == "out_altvoltage1_TX_LO_powerdown"@ && on@[1].1@ == "0"@,
        on@[2].0@ == "ensm_mode"@ && on@[2].1@ == "fdd"@,
        off@[0].0@ == on@[1].0@ && off@[0].1@ == "1"@,
        off@[1].0@ == on@[0].0@ && off@[1].1@ == "1"@,
        off@[2].0@ == on@[2].0@ && off@[2].1@ == "sleep"@,
{
    assert(text_pairs(on@).len() == 3 && text_pairs(off@).len() == 3);
    assert forall|i: int| 0 <= i < 3 implies #[trigger] text_pairs(on@)[i] == (
        on@[i].0@,
        on@[i].1@,
    ) by {}
    assert forall|i: int| 0 <= i < 3 implies #[trigger] text_pairs(off@)[i] == (
        off@[i].0@,
        off@[i].1@,
    ) by {}
    assert(text_pairs(on@)[0] == (on@[0].0@, on@[0].1@));
    assert(text_pairs(on@)[1] == (on@[1].0@, on@[1].1@));
    assert(text_pairs(on@)[2] == (on@[2].0@, on@[2].1@));
    assert(text_pairs(off@)[0] == (off@[0].0@, off@[0].1@));
    assert(text_pairs(off@)[1] == (off@[1].0@, off@[1].1@));
    assert(text_pairs(off@)[2] == (off@[2].0@, off@[2].1@));
}

/// The shutdown ends with the standby of the frontend in any case. Before that the active streams
/// are deactivated, and no others, transmission first.
pub proof fn shutdown_deactivates_what_is_active(
    tx_active: bool,
    rx_active: bool,
    out: Vec<ShutdownStep>,
)
    requires
        call_ensures(shutdown_steps, (tx_active, rx_active), out),
    ensures
        out@.len() > 0 && out@[out@.len() - 1] == ShutdownStep::StandbyFrontend,
        tx_active && rx_active ==> out@.len() == 3 && out@[0] == ShutdownStep::DeactivateTxStream
            && out@[1] == ShutdownStep::DeactivateRxStream,
        tx_active && !rx_active ==> out@.len() == 2 && out@[0] == ShutdownStep::DeactivateTxStream,
        !tx_active && rx_active ==> out@.len() == 2 && out@[0] == ShutdownStep::DeactivateRxStream,
        !tx_active && !rx_active ==> out@.len() == 1,
{
}

/// Every step is reported by what it does and on which side.
pub proof fn steps_are_reported_by_what_they_do(step: SetupStep, out: &'static str)
    requires
        call_ensures(SetupStep::text, (step,), out),
    ensures
        out@ == match step {
            SetupStep::SetRxSampleRate => "set RX sample rate"@,
            SetupStep::GetRxSampleRate => "get RX sample rate"@,
            SetupStep::SetTxSampleRate => "set TX sample rate"@,
            SetupStep::GetTxSampleRate => "get TX sample rate"@,
            SetupStep::SetRxFrequency => "set RX center frequency"@,
            SetupStep::SetRxAntenna => "set RX antenna"@,
            SetupStep::SetRxGain(_) => "set RX gain"@,
            SetupStep::SetTxFrequency => "set TX center frequency"@,
            SetupStep::SetTxAntenna => "set TX antenna"@,
            SetupStep::SetTxGain(_) => "set TX gain"@,
            SetupStep::Calibrate => "calibrate"@,
            SetupStep::SetupRxStream => "setup RX stream"@,
            SetupStep::SetupTxStream => "setup TX stream"@,
            SetupStep::ActivateRxStream => "activate RX stream"@,
            SetupStep::ActivateTxStream => "activate TX stream"@,
            SetupStep::ActivateFrontend => "activate frontend"@,
            SetupStep::ReapplyRxFrequency => "reapply LibreStation RX center frequency"@,
            SetupStep::ReapplyTxFrequency => "reapply LibreStation TX center frequency"@,
            SetupStep::ReapplyRxAntenna => "reapply LibreStation RX antenna"@,
            SetupStep::ReapplyTxAntenna => "reapply LibreStation TX antenna"@,
            SetupStep::ReapplyRxGain(_) => "reapply LibreStation RX gain"@,
            SetupStep::ReapplyTxGain(_) => "reapply LibreStation TX gain"@,
        },
{
}

} // verus!
