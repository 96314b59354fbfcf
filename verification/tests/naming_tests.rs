use bagimages::common::naming::to_res_name;

#[test]
fn camel_case_becomes_snake_case() {
    let source_name = "ImgAndroidBanner".to_string();
    assert_eq!(to_res_name(&source_name), "img_android_banner".to_string());
}

#[test]
fn separators_become_underscores() {
    let source_name = "ic_36/fingerprint".to_string();
    assert_eq!(to_res_name(&source_name), "ic_36_fingerprint".to_string());
}

#[test]
fn mixed_name_with_space_and_percent() {
    let source_name = "ic_24/paper_ID_leftAndroid 100%".to_string();
    assert_eq!(to_res_name(&source_name), "ic_24_paper_id_left_android_100_".to_string());
}

#[test]
fn leading_separator_is_dropped() {
    let source_name = "/cam/image".to_string();
    assert_eq!(to_res_name(&source_name), "cam_image".to_string());
}

#[test]
fn empty_name_stays_empty() {
    let source_name = String::new();
    assert_eq!(to_res_name(&source_name), String::new());
}

#[test]
fn non_ascii_characters_become_underscores() {
    let source_name = "caméra".to_string();
    assert_eq!(to_res_name(&source_name), "cam_ra".to_string());
}
