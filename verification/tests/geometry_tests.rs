use sky_watch::geometry::get_arr_size;

#[test]
fn arr_size_of_crop() {
    assert_eq!(get_arr_size(&10, &10), 100);
}

#[test]
fn arr_size_of_empty_region() {
    assert_eq!(get_arr_size(&0, &4000), 0);
    assert_eq!(get_arr_size(&65536, &65535), 65536usize * 65535);
}
