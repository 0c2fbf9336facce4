use hardware_profile::cpu::ParseError;
use hardware_profile::profile::SystemInfo;

#[test]
fn a_blank_profile_holds_nothing() {
    let p = SystemInfo::blank();
    assert_eq!(p.os, "");
    assert_eq!(p.cpu_vendor, "");
    assert_eq!(p.cpu_generation, "");
    assert_eq!(p.cpu_model, "");
    assert!(p.gpus.is_empty());
    assert_eq!(p.ram, 0);
    assert!(p.storage_devices.is_empty());
    assert_eq!(p.oem_model, "");
    assert_eq!(p.ethernet_chipset, "");
    assert_eq!(p.wlan_chipset, "");
    assert_eq!(p.bluetooth_chipset, "");
}

#[test]
fn detection_fills_every_field() {
    let built = SystemInfo::detected(
        String::from("windows"),
        "Intel(R) Xeon(R) CPU E5-2670 0 @ 2.60GHz",
        34308382720,
    );
    let p = match built {
        Ok(p) => p,
        Err(e) => panic!("{:?}", e),
    };
    assert_eq!(p.os, "windows");
    assert_eq!(p.cpu_vendor, "Intel");
    assert_eq!(p.cpu_generation, "2");
    assert_eq!(p.cpu_model, "E5-2670");
    assert_eq!(p.gpus, vec![String::new()]);
    assert_eq!(p.ram, 32);
    assert_eq!(p.storage_devices, vec![String::from("To be implemented")]);
    let missing = "Unable to do, ask the user for additional information";
    assert_eq!(p.oem_model, missing);
    assert_eq!(p.ethernet_chipset, missing);
    assert_eq!(p.wlan_chipset, missing);
    assert_eq!(p.bluetooth_chipset, missing);
}

#[test]
fn detection_of_a_core_brand_string() {
    let built = SystemInfo::detected(
        String::from("windows"),
        "Intel(R) Core(TM) i7-8700 CPU @ 3.20GHz",
        34308382720,
    );
    let p = match built {
        Ok(p) => p,
        Err(e) => panic!("{:?}", e),
    };
    assert_eq!(p.cpu_vendor, "Intel");
    assert_eq!(p.cpu_model, "CPU");
    assert_eq!(p.cpu_generation, "Unknown");
    assert_eq!(p.ram, 32);
}

#[test]
fn detection_of_a_model_without_generation() {
    let built = SystemInfo::detected(String::from("macos"), "Apple M2 Pro M2", 0);
    let p = match built {
        Ok(p) => p,
        Err(e) => panic!("{:?}", e),
    };
    assert_eq!(p.cpu_vendor, "Apple");
    assert_eq!(p.cpu_model, "M2");
    assert_eq!(p.cpu_generation, "Unknown");
    assert_eq!(p.ram, 2);
}

#[test]
fn detection_fails_on_a_short_brand_string() {
    let built = SystemInfo::detected(String::from("linux"), "AMD Ryzen", 1 << 34);
    assert!(matches!(built, Err(ParseError::MalformedBrandString)));
}
