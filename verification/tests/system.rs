use rustproc::system::{
    active_dpm_clock, bytes_to_mb, core_clock, first_card, DrmEntry, cpu_temp_row, gpu_sensor_row,
    lspci_model_from_output, parse_nvidia_smi_output, gpu_model_fallback, gpu_vendor_name, is_gpu_card,
    lspci_model_from, max_frequency, merge_gpu_info, non_empty, parse_nvidia_smi,
    parse_optional_u64, parse_uevent_name, parse_uevent_slot, pick_label, process_name,
    sysfs_source, u64_reading, without_nvidia_smi, GpuInfo,
};

#[test]
fn sizes_in_mebibytes() {
    assert_eq!(bytes_to_mb(0), 0);
    assert_eq!(bytes_to_mb(1048575), 0);
    assert_eq!(bytes_to_mb(1048576), 1);
    assert_eq!(bytes_to_mb(8 * 1024 * 1024 * 1024), 8192);
}

#[test]
fn labels_and_names() {
    assert_eq!(non_empty("  x y "), Some("x y".to_string()));
    assert_eq!(non_empty(" \t"), None);
    assert_eq!(process_name("  "), "[unknown]");
    assert_eq!(process_name(" bash"), " bash");
    let labels = vec!["".to_string(), "  AMD Ryzen  ".to_string(), "Intel".to_string()];
    assert_eq!(pick_label(&labels, "global", "Unknown CPU"), "AMD Ryzen");
    assert_eq!(pick_label(&vec![" ".to_string()], " g ", "Unknown CPU"), "g");
    assert_eq!(pick_label(&vec![], "", "Unknown CPU"), "Unknown CPU");
    assert_eq!(max_frequency(&vec![1200, 3400, 2000], 99), 3400);
    assert_eq!(max_frequency(&vec![], 99), 99);
}

#[test]
fn gpu_identification() {
    assert!(is_gpu_card("card0"));
    assert!(!is_gpu_card("card0-HDMI-A-1"));
    assert!(!is_gpu_card("renderD128"));
    assert_eq!(gpu_vendor_name(" 0x10DE\n"), "NVIDIA");
    assert_eq!(gpu_vendor_name("0x1002"), "AMD");
    assert_eq!(gpu_vendor_name("0x8086"), "Intel");
    assert_eq!(gpu_vendor_name("0x1234"), "Unknown");
    assert_eq!(gpu_model_fallback("AMD", ""), "AMD");
    assert_eq!(gpu_model_fallback("AMD", "0x73bf"), "AMD GPU 0x73bf");
    assert_eq!(sysfs_source("card1"), "linux sysfs card1");
    assert_eq!(without_nvidia_smi("linux sysfs card1"), "linux sysfs card1; nvidia-smi unavailable");
}

#[test]
fn uevent_and_lspci() {
    let uevent = "DRIVER=amdgpu\nPCI_ID=1002:73BF\nPCI_SLOT_NAME=0000:03:00.0\n";
    assert_eq!(parse_uevent_name(uevent), Some("PCI 1002:73BF".to_string()));
    assert_eq!(parse_uevent_slot(uevent), Some("0000:03:00.0".to_string()));
    assert_eq!(parse_uevent_slot("DRIVER=x"), None);
    assert_eq!(
        lspci_model_from("03:00.0 VGA compatible controller [0300]: AMD Navi 21 [1002:73bf]\nnext: line\n"),
        Some("AMD Navi 21 [1002:73bf]".to_string())
    );
    assert_eq!(lspci_model_from("a: b: c "), Some("c".to_string()));
    assert_eq!(lspci_model_from("no separator"), None);
    assert_eq!(lspci_model_from("ends with: "), None);
    assert_eq!(lspci_model_from(""), None);
}

#[test]
fn numeric_readings() {
    assert_eq!(parse_optional_u64(" 8192 "), Some(8192));
    assert_eq!(parse_optional_u64("[N/A]"), None);
    assert_eq!(parse_optional_u64("N/A"), None);
    assert_eq!(parse_optional_u64("n/A"), None);
    assert_eq!(parse_optional_u64(""), None);
    assert_eq!(parse_optional_u64("+7"), Some(7));
    assert_eq!(parse_optional_u64("-7"), None);
    assert_eq!(parse_optional_u64("18446744073709551615"), Some(u64::MAX));
    assert_eq!(parse_optional_u64("18446744073709551616"), None);
    assert_eq!(u64_reading(" 1500\n"), Some(1500));
    assert_eq!(u64_reading("  "), None);
    assert_eq!(u64_reading("12 MHz"), None);
}

#[test]
fn dpm_tables() {
    assert_eq!(active_dpm_clock("0: 500Mhz\n1: 1800Mhz *\n"), None);
    assert_eq!(active_dpm_clock("0 500\n1 1800 *\n"), Some(1));
    assert_eq!(active_dpm_clock("0: 500Mhz\n*: 96 Mhz\n"), Some(96));
    assert_eq!(active_dpm_clock("0: 500\n"), None);
    assert_eq!(active_dpm_clock(""), None);
}

#[test]
fn nvidia_smi_output() {
    let r = parse_nvidia_smi("\n NVIDIA GeForce RTX 3080 , 10240, 1234, 55, 1905, 9501\n").unwrap();
    assert_eq!(r.gpu.model, "NVIDIA GeForce RTX 3080");
    assert_eq!(r.gpu.vendor, "NVIDIA");
    assert_eq!(r.gpu.vram_total_mb, Some(10240));
    assert_eq!(r.gpu.vram_used_mb, Some(1234));
    assert_eq!(r.temperature, "55");
    assert_eq!(r.gpu.core_clock_mhz, Some(1905));
    assert_eq!(r.gpu.memory_clock_mhz, Some(9501));
    assert_eq!(r.gpu.source, "nvidia-smi");
    assert!(parse_nvidia_smi("a, b, c").is_none());
    assert!(parse_nvidia_smi("  \n").is_none());
    let na = parse_nvidia_smi("T4, [N/A], 0, [N/A], N/A, 5000").unwrap();
    assert_eq!(na.gpu.vram_total_mb, None);
    assert_eq!(na.gpu.core_clock_mhz, None);
}

#[test]
fn merging_prefers_driver_readings() {
    let base = GpuInfo {
        model: "NVIDIA GPU 0x2206".to_string(),
        vendor: "NVIDIA".to_string(),
        vram_total_mb: Some(1),
        vram_used_mb: None,
        core_clock_mhz: Some(300),
        memory_clock_mhz: Some(400),
        source: "linux sysfs card0".to_string(),
    };
    let driver = GpuInfo {
        model: "  ".to_string(),
        vendor: "other".to_string(),
        vram_total_mb: Some(10240),
        vram_used_mb: Some(5),
        core_clock_mhz: None,
        memory_clock_mhz: Some(9501),
        source: "nvidia-smi".to_string(),
    };
    let m = merge_gpu_info(base, driver);
    assert_eq!(m.model, "NVIDIA GPU 0x2206");
    assert_eq!(m.vendor, "NVIDIA");
    assert_eq!(m.vram_total_mb, Some(10240));
    assert_eq!(m.vram_used_mb, Some(5));
    assert_eq!(m.core_clock_mhz, Some(300));
    assert_eq!(m.memory_clock_mhz, Some(9501));
    assert_eq!(m.source, "nvidia-smi");
    let d = GpuInfo::default();
    assert_eq!((d.model.as_str(), d.vendor.as_str(), d.source.as_str()), ("Not detected", "Unknown", "sysinfo/sysfs"));
}

#[test]
fn card_identity_needs_an_id() {
    assert!(rustproc::system::card_identity(None, None).is_none());
    assert_eq!(
        rustproc::system::card_identity(Some("0x10de".to_string()), None),
        Some(("NVIDIA".to_string(), "".to_string()))
    );
    assert_eq!(
        rustproc::system::card_identity(None, Some("0x73bf".to_string())),
        Some(("Unknown".to_string(), "0x73bf".to_string()))
    );
    assert!(rustproc::system::uses_nvidia_smi("NVIDIA"));
    assert!(!rustproc::system::uses_nvidia_smi("nvidia"));
}

fn labels(xs: &[&str]) -> Vec<String> {
    xs.iter().map(|x| x.to_string()).collect()
}

#[test]
fn cpu_temperature_row_prefers_package() {
    assert_eq!(cpu_temp_row(&labels(&["acpitz", "coretemp Package id 0", "Core 1"])), Some(1));
    assert_eq!(cpu_temp_row(&labels(&["PACKAGE", "package"])), Some(0));
    assert_eq!(cpu_temp_row(&labels(&["acpitz", "nvme"])), Some(0));
    assert_eq!(cpu_temp_row(&labels(&["pack age"])), Some(0));
    assert_eq!(cpu_temp_row(&labels(&[])), None);
}

#[test]
fn gpu_sensor_is_first_gpu_label() {
    assert_eq!(gpu_sensor_row(&labels(&["coretemp", "amdgpu edge", "NVIDIA"])), Some(1));
    assert_eq!(gpu_sensor_row(&labels(&["cpu", "Nvidia GeForce"])), Some(1));
    assert_eq!(gpu_sensor_row(&labels(&["GPU"])), Some(0));
    assert_eq!(gpu_sensor_row(&labels(&["coretemp", "nvme"])), None);
    assert_eq!(gpu_sensor_row(&labels(&[])), None);
}

#[test]
fn core_clock_falls_back_in_order() {
    assert_eq!(core_clock(Some(1), Some(2), Some(3)), Some(1));
    assert_eq!(core_clock(None, Some(2), Some(3)), Some(2));
    assert_eq!(core_clock(None, None, Some(3)), Some(3));
    assert_eq!(core_clock(None, None, None), None);
}

#[test]
fn raw_tool_output_must_be_utf8() {
    let line = "03:00.0 VGA compatible controller [0300]: Some Vendor Device X [1002:73bf]\n";
    assert_eq!(
        lspci_model_from_output(line.as_bytes().to_vec()),
        Some("Some Vendor Device X [1002:73bf]".to_string())
    );
    assert_eq!(lspci_model_from_output(vec![0xff, 0xfe, b'a']), None);
    let csv = "NVIDIA GeForce RTX 3080, 10240, 512, 45, 1710, 9501\n";
    let r = parse_nvidia_smi_output(csv.as_bytes().to_vec()).unwrap();
    assert_eq!(r.gpu.model, "NVIDIA GeForce RTX 3080");
    assert_eq!(r.gpu.vram_used_mb, Some(512));
    assert_eq!(r.temperature, "45");
    assert!(parse_nvidia_smi_output(vec![0xc0, 0x80]).is_none());
}

fn drm(name: &str, vendor: Option<&str>, device: Option<&str>) -> DrmEntry {
    DrmEntry {
        name: name.to_string(),
        vendor_id: vendor.map(|v| v.to_string()),
        device_id: device.map(|d| d.to_string()),
    }
}

#[test]
fn first_usable_card_is_reported() {
    let entries = vec![
        drm("version", None, None),
        drm("card0-HDMI-A-1", Some("0x1002"), Some("0x73bf")),
        drm("card0", None, None),
        drm("card1", None, Some("0x1234")),
        drm("card2", Some("0x10de"), Some("0x2206")),
    ];
    assert_eq!(first_card(&entries), Some(3));
    assert_eq!(first_card(&entries[..3].to_vec()), None);
    assert_eq!(first_card(&vec![]), None);
}
