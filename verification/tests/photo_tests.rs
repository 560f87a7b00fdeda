use photoweb::lens::choose_lens;
use photoweb::photo::{describe_photo, read_fields, ExifField};

fn field(d: &str, v: &str) -> ExifField {
    ExifField { description: Some(d.to_string()), value: v.to_string() }
}

#[test]
fn lens_named_by_photo_when_command_line_is_silent() {
    assert_eq!(choose_lens("XF35mmF1.4 R", "35 mm", ""), Some("XF35mmF1.4 R".to_string()));
    assert_eq!(choose_lens("", "35 mm", ""), Some("".to_string()));
    assert_eq!(choose_lens("", "", ""), Some("".to_string()));
}

#[test]
fn single_command_line_lens_takes_precedence() {
    assert_eq!(choose_lens("XF35", "35 mm", "Summicron 50"), Some("Summicron 50".to_string()));
    assert_eq!(choose_lens("", "", "Summicron 50"), Some("Summicron 50".to_string()));
}

#[test]
fn several_lenses_are_picked_by_focal_range() {
    let option = "XF18-55mm,XF55-200mm";
    assert_eq!(choose_lens("", "35 mm", option), Some("XF18-55mm".to_string()));
    assert_eq!(choose_lens("", "55 mm", option), Some("XF18-55mm".to_string()));
    assert_eq!(choose_lens("", "100 mm", option), Some("XF55-200mm".to_string()));
    assert_eq!(choose_lens("", "10 mm", option), Some("".to_string()));
    assert_eq!(choose_lens("Other", "10 mm", option), Some("Other".to_string()));
    assert_eq!(choose_lens("Other", "100 mm", option), Some("XF55-200mm".to_string()));
    assert_eq!(choose_lens("Other", "", option), Some("Other".to_string()));
}

#[test]
fn focal_ranges_allow_spaces_around_the_dash() {
    let option = "Zoom 70 - 200,Zoom 10-20";
    assert_eq!(choose_lens("", "150mm", option), Some("Zoom 70 - 200".to_string()));
    assert_eq!(choose_lens("", "15mm", option), Some("Zoom 10-20".to_string()));
}

#[test]
fn unreadable_focal_length_fails_without_lens() {
    assert_eq!(choose_lens("", "unknown", ""), None);
    assert_eq!(choose_lens("", "unknown", "A,B"), None);
    assert_eq!(choose_lens("Named", "unknown", "A,B"), Some("Named".to_string()));
}

#[test]
fn unreadable_range_before_fit_fails_without_lens() {
    assert_eq!(choose_lens("", "50 mm", "XF-10,18-55"), None);
    assert_eq!(choose_lens("", "50 mm", "18-55,XF-10"), Some("18-55".to_string()));
    assert_eq!(choose_lens("Named", "50 mm", "XF-10,18-55"), Some("18-55".to_string()));
    assert_eq!(choose_lens("", "50 mm", "prime,18-55"), Some("18-55".to_string()));
}

fn sample_fields() -> Vec<ExifField> {
    vec![
        field("Model of image input equipment", "\"X-T3\""),
        field("Exposure time", "1/250 s"),
        field("F number", "f/2.8000"),
        field("Date and time of original data generation", "2023:05:01 12:34:56"),
        field("Lens focal length", "35 mm"),
        field("Focal length in 35 mm film", "53"),
        field("Lens model", "\"XF35mmF1.4 R\""),
        field("Lens Model", "\"Other\""),
        field("Photographic sensitivity", "400"),
        field("Latitude", "1 deg 21 min 29 sec N"),
        field("Longitude", "103 deg 59 min 14 sec E"),
        ExifField { description: None, value: "ignored".to_string() },
    ]
}

#[test]
fn fields_are_read() {
    let f = read_fields(&sample_fields()).unwrap();
    assert_eq!(f.camera, "X-T3");
    assert_eq!(f.exposure, "1/250 s");
    assert_eq!(f.fnumber, "f/2.80");
    assert_eq!(f.date, "2023:05:01 12:34:56");
    assert_eq!(f.focal, "35 mm");
    assert_eq!(f.focal35, "53");
    assert_eq!(f.lens, "XF35mmF1.4 R");
    assert_eq!(f.iso, "400");
    assert_eq!(
        f.link,
        "https://www.google.com/maps/place/1%C2%B021'29%22N+103%C2%B059'14%22E"
    );
    assert!(f.link.starts_with("https://www.google.com/maps/place/"));
    let lat = f.latitude.unwrap();
    assert_eq!(
        (lat.degrees.as_str(), lat.minutes.as_str(), lat.seconds.as_str(), lat.hemisphere.as_str()),
        ("1", "21", "29", "N")
    );
    let lon = f.longitude.unwrap();
    assert_eq!(lon.hemisphere, "E");
}

#[test]
fn no_fields_give_empty_facts() {
    let f = read_fields(&vec![]).unwrap();
    assert_eq!(f.link, "https://www.google.com/maps/place/");
    assert_eq!(f.camera, "");
    assert!(f.latitude.is_none());
}

#[test]
fn short_coordinate_is_not_readable() {
    assert!(read_fields(&vec![field("Latitude", "1 deg 21")]).is_none());
}

#[test]
fn empty_lens_model_lets_a_later_one_in() {
    let f = read_fields(&vec![field("Lens model", ""), field("Lens Model", "\"B\"")]).unwrap();
    assert_eq!(f.lens, "B");
}

#[test]
fn command_line_camera_takes_precedence() {
    let f = describe_photo(&sample_fields(), "Leica M6", "").unwrap();
    assert_eq!(f.camera, "Leica M6");
    let f = describe_photo(&sample_fields(), "", "").unwrap();
    assert_eq!(f.camera, "X-T3");
}

#[test]
fn command_line_lens_takes_precedence() {
    let f = describe_photo(&sample_fields(), "", "Summicron").unwrap();
    assert_eq!(f.lens, "Summicron");
    let f = describe_photo(&sample_fields(), "", "18-55,55-200").unwrap();
    assert_eq!(f.lens, "18-55");
    let f = describe_photo(&sample_fields(), "", "").unwrap();
    assert_eq!(f.lens, "XF35mmF1.4 R");
}
