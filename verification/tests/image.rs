use digit_net::image::Image;

#[test]
fn new_keeps_the_intensities_in_order() {
    let img = Image::new(vec![0, 7, 255]);
    assert_eq!(img.len(), 3);
    assert_eq!(img.pixel(0), 0);
    assert_eq!(img.pixel(1), 7);
    assert_eq!(img.pixel(2), 255);
    assert_eq!(img.pixels(), &[0u8, 7, 255][..]);
}

#[test]
fn render_marks_each_intensity_and_breaks_rows() {
    let mut data = vec![0u8; 30];
    data[1] = 9;
    data[28] = 1;
    let img = Image::new(data);
    let mut expected = String::from("(28\n \n.#");
    expected.push_str(&".".repeat(26));
    expected.push_str("\n#.)");
    assert_eq!(img.render(), expected);
}

#[test]
fn render_of_nothing_is_the_frame_alone() {
    assert_eq!(Image::new(Vec::new()).render(), "(28\n )");
}
