use sky_watch::stations::select_station;

fn names(list: &[Option<&str>]) -> Vec<Option<String>> {
    list.iter().map(|n| n.map(|s| s.to_string())).collect()
}

#[test]
fn finds_the_station() {
    let feed = names(&[Some("Meetstation Arcen"), Some("Meetstation Eindhoven"), None]);
    assert_eq!(select_station(&feed, &String::from("Meetstation Eindhoven")), Some(1));
}

#[test]
fn later_record_wins() {
    let feed = names(&[
        Some("Meetstation Eindhoven"),
        Some("Meetstation Arcen"),
        Some("Meetstation Eindhoven"),
    ]);
    assert_eq!(select_station(&feed, &String::from("Meetstation Eindhoven")), Some(2));
}

#[test]
fn missing_station_gives_none() {
    let feed = names(&[Some("Meetstation Arcen"), None, Some("meetstation eindhoven")]);
    assert_eq!(select_station(&feed, &String::from("Meetstation Eindhoven")), None);
    assert_eq!(select_station(&Vec::new(), &String::from("Meetstation Eindhoven")), None);
}
