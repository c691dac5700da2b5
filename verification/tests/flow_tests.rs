use unicom::flow::{
    bucket_aggregate, bucket_base, bucket_display_name, bucket_key, determine_package_type,
    find_current_card, format_interval, mobile_can_be_sliced, own_resources_key, get_package_type_label, is_current_mobile,
    is_flow_resource, vice_card_label,
};

#[test]
fn test_format_interval() {
    assert_eq!(format_interval(0), "");
    assert_eq!(format_interval(65), "1分钟5秒");
    assert_eq!(format_interval(3661), "1小时1分钟");
    assert_eq!(format_interval(300), "5分钟");
    assert_eq!(format_interval(45), "45秒");
}

#[test]
fn test_determine_package_type() {
    assert_eq!(determine_package_type("1", "01", false), "common");
    assert_eq!(determine_package_type("2", "01", false), "regional");
    assert_eq!(determine_package_type("3", "01", false), "regional");
    assert_eq!(determine_package_type("2", "13", false), "targeted");
    assert_eq!(determine_package_type("3", "I3", false), "targeted");
    assert_eq!(determine_package_type("1", "13", true), "targeted");
    // 默认归类
    assert_eq!(determine_package_type("1", "99", false), "common");
}

#[test]
fn test_is_current_mobile() {
    assert!(is_current_mobile("138****5678", "13812345678"));
    assert!(!is_current_mobile("139****5678", "13812345678"));
    assert!(is_current_mobile("13812345678", "13812345678"));
    assert!(!is_current_mobile("", "13812345678"));
}

#[test]
fn format_interval_edges() {
    assert_eq!(format_interval(-5), "");
    assert_eq!(format_interval(1), "1秒");
    assert_eq!(format_interval(60), "1分钟");
    assert_eq!(format_interval(3600), "1小时");
    assert_eq!(format_interval(3601), "1小时");
    assert_eq!(format_interval(7325), "2小时2分钟");
    assert_eq!(format_interval(86400), "24小时");
}

#[test]
fn interval_text_empty_only_when_not_positive() {
    for s in [-100i64, -1, 0] {
        assert!(format_interval(s).is_empty());
    }
    for s in [1i64, 59, 60, 61, 3599, 3600, 90061] {
        assert!(!format_interval(s).is_empty());
    }
}

#[test]
fn package_type_more_cases() {
    assert_eq!(determine_package_type("1", "1", false), "common");
    assert_eq!(determine_package_type("2", "1", false), "regional");
    assert_eq!(determine_package_type("9", "13", false), "targeted");
    assert_eq!(determine_package_type("9", "01", true), "targeted");
    assert_eq!(determine_package_type("9", "01", false), "common");
    assert_eq!(determine_package_type("", "", false), "common");
}

#[test]
fn package_labels() {
    assert_eq!(get_package_type_label("1", "01", true), "公免");
    assert_eq!(get_package_type_label("1", "01", false), "通用");
    assert_eq!(get_package_type_label("2", "01", false), "区域");
    assert_eq!(get_package_type_label("2", "13", false), "定向");
    assert_eq!(get_package_type_label("1", "99", false), "通用");
}

#[test]
fn every_package_lands_in_a_named_base_bucket() {
    let names = ["通用有限", "通用不限", "区域有限", "区域不限", "免流有限", "免流不限"];
    let base = bucket_base();
    for (ft, rt, pf) in [("1", "01", false), ("2", "13", false), ("3", "I3", true), ("7", "x", false)] {
        for limited in [true, false] {
            let key = bucket_key(determine_package_type(ft, rt, pf), limited);
            let pos = base.iter().position(|k| *k == key).expect("base bucket");
            assert_eq!(bucket_display_name(&key), names[pos]);
        }
    }
}

#[test]
fn bucket_names_and_keys() {
    assert_eq!(bucket_base().len(), 6);
    assert_eq!(bucket_aggregate(), vec!["所有通用", "所有免流", "所有流量"]);
    assert_eq!(bucket_display_name("common_limited"), "通用有限");
    assert_eq!(bucket_display_name("targeted_unlimited"), "免流不限");
    assert_eq!(bucket_display_name("所有流量"), "所有流量");
    assert_eq!(bucket_key("regional", false), "regional_unlimited");
    assert_eq!(bucket_key("common", true), "common_limited");
}

#[test]
fn flow_resources() {
    assert!(is_flow_resource("1", "01"));
    assert!(is_flow_resource("3", "13"));
    assert!(!is_flow_resource("1", "02"));
    assert!(!is_flow_resource("2", "03"));
    assert!(!is_flow_resource("4", "01"));
}

#[test]
fn masked_numbers() {
    assert!(is_current_mobile("1381234****", "13812345678") == false);
    assert!(is_current_mobile("138****5678", "1385678"));
    assert!(!is_current_mobile("13812345678", "13812345679"));
    assert!(!is_current_mobile("138****5678", ""));
    assert!(is_current_mobile("138****5678", "138****5678"));
}

#[test]
fn current_card_is_found_first() {
    let cards = vec!["139****0000".to_string(), "138****5678".to_string(), "13812345678".to_string()];
    assert_eq!(find_current_card(&cards, "13812345678"), Some(1));
    assert_eq!(find_current_card(&cards, "13700000000"), None);
}

#[test]
fn card_labels() {
    assert_eq!(vice_card_label("138****5678", "1", "1"), "138****5678 (当前)");
    assert_eq!(vice_card_label("139****0000", "0", "1"), "139****0000 (主卡)");
    assert_eq!(vice_card_label("137****1111", "0", "0"), "137****1111 (副卡)");
}

#[test]
fn masked_numbers_that_can_be_sliced() {
    assert!(mobile_can_be_sliced("138****5678"));
    assert!(mobile_can_be_sliced("13812345678"));
    assert!(mobile_can_be_sliced("短号"));
    // eleven bytes with `****`, byte 3 inside a two-byte character
    assert_eq!("12é****567".len(), 11);
    assert!(!mobile_can_be_sliced("12é****567"));
    // eleven bytes with `****`, bytes 3 and 7 on character boundaries
    assert_eq!("é1****5678".len(), 11);
    assert!(mobile_can_be_sliced("é1****5678"));
}

#[test]
fn own_resources_are_listed_by_share() {
    assert_eq!(own_resources_key(true), "unshared");
    assert_eq!(own_resources_key(false), "resources");
}
