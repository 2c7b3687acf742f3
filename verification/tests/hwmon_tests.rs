use predator_sense_gui::dashboard::{
    bios_detail, card_cell, cpu_detail, gpu_detail, net_detail, os_detail, ram_detail,
    resource_candidates, resource_search, short_summary, storage_detail, DriveLine,
};
use predator_sense_gui::places::{ExeLocation, PlaceProbe};
use predator_sense_gui::hwmon::{
    first_temp_path, label_temp, nth_temp_path, sort_paths, HwmonEntry, HwmonIndex, TempProbe,
};

fn index() -> HwmonIndex {
    let paths = sort_paths(vec![
        "/sys/class/hwmon/hwmon10".to_string(),
        "/sys/class/hwmon/hwmon2".to_string(),
        "/sys/class/hwmon/hwmon1".to_string(),
        "/sys/class/hwmon/hwmon0".to_string(),
    ]);
    assert_eq!(
        paths,
        vec![
            "/sys/class/hwmon/hwmon0",
            "/sys/class/hwmon/hwmon1",
            "/sys/class/hwmon/hwmon10",
            "/sys/class/hwmon/hwmon2"
        ]
    );
    let names = [Some("acpitz\n"), Some("coretemp\n"), None, Some("acpitz\n")];
    let entries = paths
        .into_iter()
        .zip(names)
        .map(|(path, name)| HwmonEntry { path, name: name.map(|n| n.to_string()) })
        .collect();
    HwmonIndex::build(entries)
}

#[test]
fn index_groups_by_trimmed_name_in_path_order() {
    let idx = index();
    assert_eq!(
        idx.get("acpitz"),
        Some(vec!["/sys/class/hwmon/hwmon0".to_string(), "/sys/class/hwmon/hwmon2".to_string()])
    );
    assert_eq!(idx.get("coretemp"), Some(vec!["/sys/class/hwmon/hwmon1".to_string()]));
    assert_eq!(idx.get("nvme"), None);
    assert_eq!(
        first_temp_path(&idx, "acpitz", "temp1_input"),
        Some("/sys/class/hwmon/hwmon0/temp1_input".to_string())
    );
    assert_eq!(
        nth_temp_path(&idx, "acpitz", "temp1_input", 1),
        Some("/sys/class/hwmon/hwmon2/temp1_input".to_string())
    );
    assert_eq!(nth_temp_path(&idx, "acpitz", "temp1_input", 2), None);
    assert_eq!(first_temp_path(&idx, "nvme", "temp1_input"), None);
    assert_eq!(first_temp_path(&idx, "acpitz", "/abs/temp"), Some("/abs/temp".to_string()));
}

#[test]
fn label_search_finds_first_match() {
    let idx = index();
    let mut s = label_temp(&idx, "acpitz", "Package id 0");
    match s.step() {
        TempProbe::ReadLabel(p) => assert_eq!(p, "/sys/class/hwmon/hwmon0/temp1_label"),
        _ => panic!("expected a label read"),
    }
    s.record(None);
    match s.step() {
        TempProbe::ReadLabel(p) => assert_eq!(p, "/sys/class/hwmon/hwmon0/temp2_label"),
        _ => panic!("expected a label read"),
    }
    for _ in 2..=20 {
        s.record(Some("Core 0\n".to_string()));
    }
    match s.step() {
        TempProbe::ReadLabel(p) => assert_eq!(p, "/sys/class/hwmon/hwmon2/temp1_label"),
        _ => panic!("expected a label read"),
    }
    s.record(Some(" Package id 0\n".to_string()));
    match s.step() {
        TempProbe::ReadInput(p) => assert_eq!(p, "/sys/class/hwmon/hwmon2/temp1_input"),
        _ => panic!("expected an input read"),
    }
}

#[test]
fn label_search_gives_up() {
    let idx = index();
    let mut s = label_temp(&idx, "coretemp", "x");
    for _ in 0..20 {
        assert!(matches!(s.step(), TempProbe::ReadLabel(_)));
        s.record(None);
    }
    assert!(matches!(s.step(), TempProbe::NotFound));
    let s = label_temp(&idx, "nvme", "x");
    assert!(matches!(s.step(), TempProbe::NotFound));
}

#[test]
fn dashboard_texts() {
    assert_eq!(
        short_summary(6, 12, Some("16 GB RAM".to_string()), "RTX 3060"),
        "6 núcleos / 12 threads · 16 GB RAM · RTX 3060"
    );
    assert_eq!(short_summary(0, 0, None, "Desconhecida"), "");
    assert_eq!(short_summary(0, 0, None, "GPU"), "GPU");
    assert_eq!(cpu_detail("i7", 6, 12, "4.50"), "i7\n6 núcleos / 12 threads · 4.50 GHz");
    assert_eq!(cpu_detail("i7", 0, 12, "4.50"), "i7");
    assert_eq!(gpu_detail("RTX", 6144, "6", ""), "RTX\n6 GB VRAM · Driver —");
    assert_eq!(gpu_detail("RTX", 6144, "6", "550.1"), "RTX\n6 GB VRAM · Driver 550.1");
    assert_eq!(gpu_detail("RTX", 0, "0", "550.1"), "RTX");
    assert_eq!(ram_detail(Some("16".to_string()), ""), "16 GB total");
    assert_eq!(ram_detail(Some("16".to_string()), "DDR4"), "16 GB · DDR4");
    assert_eq!(ram_detail(None, "DDR4"), "—");
    assert_eq!(storage_detail(&vec![]), "—");
    let drives = vec![
        DriveLine { model: " WD SN \n".to_string(), size_gb: "512".to_string(), kind: "NVMe".to_string() },
        DriveLine { model: "X".to_string(), size_gb: "1".to_string(), kind: "HDD".to_string() },
    ];
    assert_eq!(storage_detail(&drives), "WD SN · 512 GB · NVMe\nX · 1 GB · HDD");
    assert_eq!(net_detail("", "Wi-Fi", "aa"), "Sem conexão ativa");
    assert_eq!(net_detail("wlan0", "Wi-Fi", "aa:bb"), "Wi-Fi · wlan0\naa:bb");
    assert_eq!(os_detail("Ubuntu", "6.8"), "Ubuntu\nKernel 6.8");
    assert_eq!(bios_detail(""), "—");
    assert_eq!(bios_detail("V1.2"), "BIOS V1.2");
    assert_eq!(card_cell(0), (0, 0));
    assert_eq!(card_cell(5), (1, 2));
}

#[test]
fn resource_search_order() {
    assert_eq!(
        resource_candidates(Some("/opt/app/bin"), "logo.png"),
        vec![
            "/opt/app/bin/../../resources/logo.png",
            "/opt/app/bin/resources/logo.png",
            "/opt/predator-sense/resources/logo.png"
        ]
    );
    assert_eq!(resource_candidates(None, "x.png"), vec!["/opt/predator-sense/resources/x.png"]);
}

#[test]
fn resource_search_takes_first_existing() {
    let mut s = resource_search(&ExeLocation::Dir("/opt/app/bin".to_string()), "logo.png");
    assert!(matches!(s.step(), PlaceProbe::Check(ref p) if p == "/opt/app/bin/../../resources/logo.png"));
    s.record(false);
    assert!(matches!(s.step(), PlaceProbe::Check(ref p) if p == "/opt/app/bin/resources/logo.png"));
    s.record(true);
    match s.step() {
        PlaceProbe::Found(p) => assert_eq!(p.path, "/opt/app/bin/resources/logo.png"),
        _ => panic!("expected a find"),
    }
    let s = resource_search(&ExeLocation::NoParent, "logo.png");
    assert!(matches!(s.step(), PlaceProbe::NotFound));
    let mut s = resource_search(&ExeLocation::Unknown, "logo.png");
    assert!(matches!(s.step(), PlaceProbe::Check(ref p) if p == "/opt/predator-sense/resources/logo.png"));
    s.record(false);
    assert!(matches!(s.step(), PlaceProbe::NotFound));
}
