use scd30::command::Command;

#[test]
fn command_identifiers() {
    assert_eq!(Command::StartContinuous().command(), 0x0010);
    assert_eq!(Command::StopContinuous().command(), 0x0104);
    assert_eq!(Command::SetContinuousInterval(2).command(), 0x4600);
    assert_eq!(Command::GetDataReady().command(), 0x0202);
    assert_eq!(Command::ReadMeasurement().command(), 0x0300);
    assert_eq!(Command::SetAutomaticSelfCalibration(true).command(), 0x5306);
    assert_eq!(Command::SetForcedRecalibration(400).command(), 0x5204);
    assert_eq!(Command::SetTemperatureOffset(150).command(), 0x5403);
    assert_eq!(Command::SetAltitude(120).command(), 0x5102);
    assert_eq!(Command::SoftReset().command(), 0xD304);
}

#[test]
fn command_payloads() {
    assert_eq!(Command::StartContinuous().data(), Some(0x0000));
    assert_eq!(Command::StopContinuous().data(), None);
    assert_eq!(Command::SetContinuousInterval(1800).data(), Some(1800));
    assert_eq!(Command::GetDataReady().data(), None);
    assert_eq!(Command::ReadMeasurement().data(), None);
    assert_eq!(Command::SetAutomaticSelfCalibration(false).data(), Some(0));
    assert_eq!(Command::SetAutomaticSelfCalibration(true).data(), Some(1));
    assert_eq!(Command::SetForcedRecalibration(400).data(), Some(400));
    assert_eq!(Command::SetTemperatureOffset(150).data(), Some(150));
    assert_eq!(Command::SetAltitude(0xFFFF).data(), Some(0xFFFF));
    assert_eq!(Command::SoftReset().data(), None);
}

#[test]
fn command_reply_lengths() {
    assert_eq!(Command::GetDataReady().data_bytes(), 2);
    assert_eq!(Command::ReadMeasurement().data_bytes(), 12);
    assert_eq!(Command::StartContinuous().data_bytes(), 0);
    assert_eq!(Command::StopContinuous().data_bytes(), 0);
    assert_eq!(Command::SetContinuousInterval(10).data_bytes(), 0);
    assert_eq!(Command::SetAutomaticSelfCalibration(true).data_bytes(), 0);
    assert_eq!(Command::SetForcedRecalibration(1).data_bytes(), 0);
    assert_eq!(Command::SetTemperatureOffset(1).data_bytes(), 0);
    assert_eq!(Command::SetAltitude(1).data_bytes(), 0);
    assert_eq!(Command::SoftReset().data_bytes(), 0);
}
