use krakenctl::status::{decode_status, Status};

#[test]
fn liquid_temperature_is_whole_plus_tenths() {
    let mut resp = vec![0u8; 64];
    resp[15] = 24;
    resp[16] = 5;
    let fw = vec![0u8; 64];
    let status = decode_status(&resp, &fw);
    assert_eq!(status.liquid_temp_tenths, 245);
}

#[test]
fn speeds_are_little_endian_pairs() {
    let mut resp = vec![0u8; 64];
    resp[17] = 0x34;
    resp[18] = 0x12;
    resp[19] = 77;
    resp[23] = 0xcd;
    resp[24] = 0x0a;
    resp[25] = 33;
    let fw = vec![0u8; 64];
    let status = decode_status(&resp, &fw);
    assert_eq!(status.pump_speed, 0x1234);
    assert_eq!(status.pump_rate, 77);
    assert_eq!(status.fan_speed, 0x0acd);
    assert_eq!(status.fan_rate, 33);
}

#[test]
fn firmware_comes_from_second_frame() {
    let resp = vec![0u8; 64];
    let mut fw = vec![0u8; 64];
    fw[17] = 1;
    fw[18] = 2;
    fw[19] = 3;
    let status = decode_status(&resp, &fw);
    assert_eq!(status.firmware_major, 1);
    assert_eq!(status.firmware_minor, 2);
    assert_eq!(status.firmware_patch, 3);
}

#[test]
fn short_response_degrades_to_unavailable() {
    let short = vec![9u8; 63];
    let fw = vec![9u8; 64];
    assert_eq!(decode_status(&short, &fw), Status::unavailable());
    assert_eq!(decode_status(&fw, &short), Status::unavailable());
    let unavailable = decode_status(&short, &short);
    assert_eq!(unavailable.liquid_temp_tenths, 0);
    assert_eq!(unavailable.pump_speed, 0);
    assert_eq!(unavailable.fan_speed, 0);
}
