use sky_watch::clock::LocalTime;
use sky_watch::naming::{
    clock_line, copy_command, day_folder, get_clock_line, get_photo_timestamp, get_session_name,
    photo_path, photo_timestamp, session_csv_dir, session_csv_path, session_image_path,
    session_images_dir, session_name, single_photo_path, tile_csv_path, tile_image_dir,
    tile_image_path,
};

fn at(year: i32, month: u32, day: u32, hour: u32, minute: u32, second: u32) -> LocalTime {
    LocalTime { year, month, day, hour, minute, second }
}

#[test]
fn session_name_lists_day_month_hour_minute_year() {
    assert_eq!(session_name(&at(2024, 11, 5, 14, 3, 59)), "5_11_14_3_2024");
    assert_eq!(session_name(&at(-44, 3, 15, 0, 0, 0)), "15_3_0_0_-44");
}

#[test]
fn session_names_differ_for_different_minutes() {
    let a = session_name(&at(2024, 1, 11, 1, 5, 0));
    let b = session_name(&at(2024, 11, 1, 1, 5, 0));
    let c = session_name(&at(2024, 1, 11, 1, 5, 30));
    assert_ne!(a, b);
    assert_eq!(a, c);
}

#[test]
fn photo_timestamp_format() {
    assert_eq!(
        photo_timestamp(&at(2023, 7, 9, 6, 45, 2)),
        "y:2023-m:7-d:9-h:6-mn:45-s:2-t:+01:00"
    );
}

#[test]
fn clock_line_counts_month_and_day_from_zero() {
    assert_eq!(clock_line(&at(2023, 7, 9, 6, 45, 2)), "2023-6-8-6:45:2-+01:00");
    assert_eq!(clock_line(&at(2023, 1, 1, 0, 0, 0)), "2023-0-0-0:0:0-+01:00");
}

#[test]
fn day_folder_pads_and_keeps_two_year_digits() {
    assert_eq!(day_folder(&at(2024, 3, 7, 0, 0, 0)), "images/07_03_24");
    assert_eq!(day_folder(&at(2000, 12, 31, 0, 0, 0)), "images/31_12_00");
    assert_eq!(day_folder(&at(-1, 1, 1, 0, 0, 0)), "images/01_01_99");
}

#[test]
fn photo_path_in_day_folder() {
    let t = at(2024, 3, 7, 9, 5, 0);
    let folder = day_folder(&t);
    assert_eq!(photo_path(&folder, &t), "images/07_03_24/09_05_00.jpg");
}

#[test]
fn photos_at_different_seconds_get_different_files() {
    let t1 = at(2024, 3, 7, 9, 5, 0);
    let t2 = at(2024, 3, 7, 9, 5, 1);
    assert_ne!(photo_path(&day_folder(&t1), &t1), photo_path(&day_folder(&t2), &t2));
}

#[test]
fn single_photo_path_format() {
    assert_eq!(single_photo_path(&at(2024, 3, 7, 21, 5, 9)), "images/21_05_09_03_07.jpg");
}

#[test]
fn copy_command_format() {
    let path = String::from("images/21_05_09_03_07.jpg");
    assert_eq!(
        copy_command(&path),
        "scp m@192.168.1.77:~/Documents/rust/sky_watch/one_photo/images/21_05_09_03_07.jpg ~/Desktop"
    );
}

#[test]
fn session_paths() {
    let s = String::from("5_11_14_3_2024");
    assert_eq!(session_images_dir(&s), "./output/sessions/5_11_14_3_2024/images");
    assert_eq!(session_csv_dir(&s), "./output/sessions/5_11_14_3_2024/csv");
    assert_eq!(session_csv_path(&s), "./output/sessions/5_11_14_3_2024/csv/data.csv");
    assert_eq!(
        session_image_path(&s, &String::from("IMG_0001.JPG")),
        "./output/sessions/5_11_14_3_2024/images/IMG_0001.JPG"
    );
}

#[test]
fn tile_paths() {
    assert_eq!(tile_csv_path(12), "./data/tile_data/csv//tile12.csv");
    let dir = tile_image_dir(3);
    assert_eq!(dir, "./data/tile_data/image/3");
    assert_eq!(tile_image_path(&dir, 107), "./data/tile_data/image/3/107.jpg");
}

#[test]
fn names_from_the_clock_have_their_shape() {
    let name = get_session_name();
    assert_eq!(name.matches('_').count(), 4);
    let stamp = get_photo_timestamp();
    assert!(stamp.starts_with("y:"));
    assert!(stamp.ends_with("-t:+01:00"));
    let line = get_clock_line();
    assert!(line.ends_with("-+01:00"));
}
