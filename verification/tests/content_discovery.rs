use dcl2d::content_discovery::{parse_i16, scenes_table, ParcelLinkError, SceneDiscoveryData};
use dcl2d::text::{i16_to_string, usize_to_string};
use dcl2d::parcel::Parcel;

fn scene(title: &str, link: &str, pub_date: &str) -> SceneDiscoveryData {
    SceneDiscoveryData { title: title.to_string(), link: link.to_string(), pub_date: pub_date.to_string() }
}

#[test]
fn parcel_text_takes_the_last_two_pieces_of_the_link() {
    assert_eq!(scene("", "https://2dcl.org/scene/-3/5", "").get_parcel_str(), "-3 , 5");
    assert_eq!(scene("", "a/b", "").get_parcel_str(), "a , b");
    assert_eq!(scene("", "/x", "").get_parcel_str(), " , x");
}

#[test]
fn parcel_text_is_empty_without_a_slash() {
    assert_eq!(scene("", "no-slash", "").get_parcel_str(), "");
    assert_eq!(scene("", "", "").get_parcel_str(), "");
}

#[test]
fn parcel_reads_the_last_two_pieces_as_numbers() {
    let p = scene("", "https://2dcl.org/scene/-3/5", "").get_parcel();
    assert!(matches!(p, Ok(Parcel(-3, 5))));
    let p = scene("", "a/+12/-0007", "").get_parcel();
    assert!(matches!(p, Ok(Parcel(12, -7))));
}

#[test]
fn parcel_of_a_link_without_slash_is_the_origin() {
    assert!(matches!(scene("", "abc", "").get_parcel(), Ok(Parcel(0, 0))));
}

#[test]
fn parcel_error_names_the_first_bad_piece() {
    match scene("", "a/x/y", "").get_parcel() {
        Err(ParcelLinkError::InvalidCoordinate(t)) => assert_eq!(t, "x"),
        _ => panic!("expected an error"),
    }
    match scene("", "a/1/40000", "").get_parcel() {
        Err(ParcelLinkError::InvalidCoordinate(t)) => assert_eq!(t, "40000"),
        _ => panic!("expected an error"),
    }
    match scene("", "a/-/1", "").get_parcel() {
        Err(ParcelLinkError::InvalidCoordinate(t)) => assert_eq!(t, "-"),
        _ => panic!("expected an error"),
    }
}

#[test]
fn scene_row_joins_title_parcel_and_date() {
    let s = scene("Plaza", "https://2dcl.org/scene/-3/5", "Mon, 1 May 2023");
    assert_eq!(s.to_string(), "Plaza\t|\t-3 , 5\t|\tMon, 1 May 2023\n");
}

#[test]
fn scene_table_has_a_header_and_one_row_per_scene() {
    let scenes = vec![scene("A", "x/1/2", "d1"), scene("B", "nolink", "d2")];
    assert_eq!(
        scenes_table(&scenes),
        "Scene\t|\tParcel\t|\tLast Update\n\nA\t|\t1 , 2\t|\td1\nB\t|\t\t|\td2\n"
    );
    assert_eq!(scenes_table(&Vec::new()), "Scene\t|\tParcel\t|\tLast Update\n\n");
}

#[test]
fn default_scene_data_is_empty() {
    let d = SceneDiscoveryData::default();
    assert_eq!(d.title, "");
    assert_eq!(d.link, "");
    assert_eq!(d.pub_date, "");
}

#[test]
fn printed_parcels_read_back_from_a_link() {
    for (x, y) in [(0i16, 0i16), (-32768, 32767), (32767, -32768), (-1, 10), (125, -150)] {
        let link = format!("https://2dcl.org/scene/{}/{}", x, y);
        let s = scene("", &link, "");
        assert!(matches!(s.get_parcel(), Ok(Parcel(a, b)) if a == x && b == y));
        assert_eq!(s.get_parcel_str(), format!("{} , {}", x, y));
    }
    let s = scene("", "/7/-8", "");
    assert!(matches!(s.get_parcel(), Ok(Parcel(7, -8))));
    assert_eq!(s.get_parcel_str(), "7 , -8");
}

#[test]
fn numbers_read_as_std_reads_them() {
    assert_eq!(parse_i16("12"), Some(12));
    assert_eq!(parse_i16("+7"), Some(7));
    assert_eq!(parse_i16("007"), Some(7));
    assert_eq!(parse_i16("-32768"), Some(-32768));
    assert_eq!(parse_i16("32767"), Some(32767));
    assert_eq!(parse_i16("32768"), None);
    assert_eq!(parse_i16("-32769"), None);
    assert_eq!(parse_i16("99999999999999999999"), None);
    assert_eq!(parse_i16(""), None);
    assert_eq!(parse_i16("-"), None);
    assert_eq!(parse_i16("+"), None);
    assert_eq!(parse_i16("1a"), None);
    assert_eq!(parse_i16(" 1"), None);
    assert_eq!(parse_i16("--1"), None);
    for x in i16::MIN..=i16::MAX {
        assert_eq!(i16_to_string(x), x.to_string());
        assert_eq!(parse_i16(&x.to_string()), Some(x));
    }
}

#[test]
fn natural_numbers_print_as_std_prints_them() {
    for n in [0usize, 7, 10, 99, 100, 1234567890, usize::MAX] {
        assert_eq!(usize_to_string(n), n.to_string());
    }
}
