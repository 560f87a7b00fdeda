use photoweb::page::{footer_html, header_html, is_wanted_file, photo_html};
use photoweb::photo::PhotoFacts;
use photoweb::places::{
    caption, country_name, first_minimum, location_text, select_places, CountryRow, Place,
    PlaceRow,
};

fn country(iso: &str, name: &str) -> CountryRow {
    CountryRow { iso: iso.to_string(), country: name.to_string() }
}

fn row(name: &str, code: &str, population: Option<i64>, position: usize) -> PlaceRow {
    PlaceRow {
        name: name.to_string(),
        country_code: code.to_string(),
        timezone: "Europe/Paris".to_string(),
        population,
        position,
    }
}

fn place(location: &str, country: &str) -> Place {
    Place {
        location: location.to_string(),
        country: country.to_string(),
        timezone: String::new(),
        position: 0,
    }
}

#[test]
fn country_lookup_last_row_wins() {
    let cs = vec![country("FR", "France"), country("SG", "Singapore"), country("FR", "French Republic")];
    assert_eq!(country_name(&cs, "FR"), "French Republic");
    assert_eq!(country_name(&cs, "SG"), "Singapore");
    assert_eq!(country_name(&cs, "XX"), "");
}

#[test]
fn places_are_kept_by_population() {
    let cs = vec![country("FR", "France")];
    let rows = vec![
        row("Paris", "FR", Some(2000000), 0),
        row("Hamlet", "FR", Some(10), 1),
        row("Nowhere", "ZZ", None, 2),
        row("Toulouse", "FR", Some(1000), 3),
    ];
    let kept = select_places(&cs, &rows, 1000);
    let names: Vec<(&str, &str, usize)> =
        kept.iter().map(|p| (p.location.as_str(), p.country.as_str(), p.position)).collect();
    assert_eq!(names, vec![("Paris", "France", 0), ("Toulouse", "France", 3)]);
    let all = select_places(&cs, &rows, 0);
    assert_eq!(all.len(), 4);
    assert_eq!(all[2].country, "");
    assert_eq!(all[2].timezone, "Europe/Paris");
}

#[test]
fn first_minimum_picks_first_smallest() {
    assert_eq!(first_minimum(&vec![5, 3, 3, 7]), 1);
    assert_eq!(first_minimum(&vec![9]), 0);
    assert_eq!(first_minimum(&vec![-1, 4, -2]), 2);
}

#[test]
fn location_given_on_command_line_takes_precedence() {
    let places = vec![place("Paris", "France"), place("Lyon", "France")];
    assert_eq!(location_text("Mars", true, &places, &vec![3, 1]), "Mars");
    assert_eq!(location_text("", true, &places, &vec![3, 1]), "Lyon, France");
    assert_eq!(location_text("", true, &places, &vec![1, 1]), "Paris, France");
    assert_eq!(location_text("", false, &places, &vec![]), "");
}

#[test]
fn caption_joins_date_and_place() {
    assert_eq!(
        caption("2023:05:01 12:34:56", "Paris, France"),
        Some("2023:05:01, 12:34:56, Paris, France".to_string())
    );
    assert_eq!(caption("2023:05:01", "Paris"), None);
    assert_eq!(caption("", ""), None);
}

#[test]
fn header_and_footer() {
    let h = header_html("Singapour");
    assert!(h.starts_with("<!DOCTYPE html>\n<html lang=\"fr\">\n"));
    assert!(h.contains("<h1>\nSingapour\n</h1>\n"));
    assert!(h.ends_with("steganographie.\n</p>\n"));
    assert!(footer_html().ends_with("</html>\n\n"));
}

#[test]
fn photograph_files() {
    assert!(is_wanted_file(Some("JPG"), "jpg"));
    assert!(is_wanted_file(Some("jpg"), "jpg"));
    assert!(!is_wanted_file(Some("png"), "jpg"));
    assert!(!is_wanted_file(None, "jpg"));
}

fn facts() -> PhotoFacts {
    PhotoFacts {
        date: "2023:05:01 12:34:56".to_string(),
        link: "https://www.google.com/maps/place/1%C2%B021'29%22N".to_string(),
        camera: "X-T3".to_string(),
        exposure: "1/250 s".to_string(),
        fnumber: "f/2.8".to_string(),
        focal: "35 mm".to_string(),
        focal35: "53".to_string(),
        lens: "XF35".to_string(),
        iso: "400".to_string(),
        latitude: None,
        longitude: None,
    }
}

#[test]
fn photo_block_with_position() {
    let html = photo_html("a.jpg", "cap", &facts(), Some(("1.358056", "103.987222")), 6000, 4000);
    assert_eq!(
        html,
        "<p class=\"center\">\n<a href=\"medium/a.jpg\" target=\"_blank\">\n<img src=\"small/a.jpg\" alt=\"\" />\n</a>\n<br/>\ncap\n<a href=\"https://www.google.com/maps/place/1%C2%B021'29%22N\" target=\"_blank\">\nlat=1.358056, lon=103.987222\n</a>\n<br/>\nX-T3, XF35, f/2.8, 1/250 s, 35 mm (35mm equ: 53), 400 ISO, 6000x4000\n</p>\n"
    );
}

#[test]
fn photo_block_without_position() {
    let mut f = facts();
    f.focal35 = String::new();
    let html = photo_html("b.jpg", "", &f, None, 10, 0);
    assert_eq!(
        html,
        "<p class=\"center\">\n<a href=\"medium/b.jpg\" target=\"_blank\">\n<img src=\"small/b.jpg\" alt=\"\" />\n</a>\n<br/>\n\nX-T3, XF35, f/2.8, 1/250 s, 35 mm, 400 ISO, 10x0\n</p>\n"
    );
}
