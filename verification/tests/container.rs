use digit_net::container::{decode_images, decode_labels, read_field, IMAGE_TAG};
use digit_net::error::Error;

fn image_container(tag: u32, count: u32, rows: u32, cols: u32, payload: &[u8]) -> Vec<u8> {
    let mut bytes = Vec::new();
    bytes.extend_from_slice(&tag.to_be_bytes());
    bytes.extend_from_slice(&count.to_be_bytes());
    bytes.extend_from_slice(&rows.to_be_bytes());
    bytes.extend_from_slice(&cols.to_be_bytes());
    bytes.extend_from_slice(payload);
    bytes
}

fn ramp(samples: usize) -> Vec<u8> {
    (0..samples * 784).map(|k| (k % 251) as u8).collect()
}

#[test]
fn read_field_takes_the_most_significant_byte_first() {
    let bytes = [0xAAu8, 0x01, 0x02, 0x03, 0x04, 0xBB];
    assert_eq!(read_field(&bytes, 1), 0x0102_0304);
    assert_eq!(read_field(&bytes, 0), 0xAA01_0203);
    assert_eq!(read_field(&[0xFF, 0xFF, 0xFF, 0xFF], 0), u32::MAX);
    assert_eq!(read_field(&[0, 0, 0x08, 0x03], 0), 2051);
}

#[test]
fn decodes_the_declared_number_of_full_rasters() {
    let payload = ramp(3);
    let bytes = image_container(IMAGE_TAG, 3, 28, 28, &payload);
    let samples = decode_images(&bytes).unwrap();
    assert_eq!(samples.len(), 3);
    for (i, sample) in samples.iter().enumerate() {
        assert_eq!(sample.len(), 784);
        assert_eq!(sample.pixels(), &payload[i * 784..(i + 1) * 784]);
    }
    assert_eq!(samples[1].pixel(0), (784 % 251) as u8);
}

#[test]
fn count_is_read_big_endian() {
    let payload = ramp(256);
    let mut bytes = image_container(IMAGE_TAG, 256, 28, 28, &payload);
    assert_eq!(&bytes[4..8], &[0u8, 0, 1, 0]);
    assert_eq!(decode_images(&bytes).unwrap().len(), 256);
    bytes[4..8].copy_from_slice(&[0, 1, 0, 0]);
    assert_eq!(decode_images(&bytes), Err(Error::TruncatedSample));
}

#[test]
fn an_empty_container_decodes_to_no_samples() {
    let bytes = image_container(IMAGE_TAG, 0, 28, 28, &[]);
    assert_eq!(decode_images(&bytes), Ok(Vec::new()));
}

#[test]
fn bytes_after_the_last_declared_sample_are_left_unread() {
    let mut payload = ramp(2);
    payload.extend_from_slice(&[9u8; 100]);
    let bytes = image_container(IMAGE_TAG, 2, 28, 28, &payload);
    let samples = decode_images(&bytes).unwrap();
    assert_eq!(samples.len(), 2);
    assert_eq!(samples[1].pixels(), &payload[784..1568]);
}

#[test]
fn a_stream_shorter_than_the_header_is_malformed() {
    assert_eq!(decode_images(&[]), Err(Error::MalformedContainer));
    let full = image_container(IMAGE_TAG, 0, 28, 28, &[]);
    assert_eq!(decode_images(&full[..15]), Err(Error::MalformedContainer));
}

#[test]
fn an_unknown_tag_is_malformed() {
    let bytes = image_container(2049, 1, 28, 28, &ramp(1));
    assert_eq!(decode_images(&bytes), Err(Error::MalformedContainer));
    let swapped = image_container(IMAGE_TAG.swap_bytes(), 1, 28, 28, &ramp(1));
    assert_eq!(decode_images(&swapped), Err(Error::MalformedContainer));
}

#[test]
fn rows_28_cols_29_is_unsupported() {
    let bytes = image_container(IMAGE_TAG, 1, 28, 29, &vec![0u8; 28 * 29]);
    assert_eq!(decode_images(&bytes), Err(Error::UnsupportedDimensions));
}

#[test]
fn a_raster_of_the_same_area_but_another_shape_is_unsupported() {
    let bytes = image_container(IMAGE_TAG, 1, 14, 56, &ramp(1));
    assert_eq!(decode_images(&bytes), Err(Error::UnsupportedDimensions));
    let bytes = image_container(IMAGE_TAG, 1, 29, 28, &vec![0u8; 28 * 29]);
    assert_eq!(decode_images(&bytes), Err(Error::UnsupportedDimensions));
}

#[test]
fn the_raster_size_is_checked_before_the_payload() {
    let bytes = image_container(IMAGE_TAG, 10, 28, 29, &[]);
    assert_eq!(decode_images(&bytes), Err(Error::UnsupportedDimensions));
}

#[test]
fn count_10_with_5_samples_is_truncated() {
    let bytes = image_container(IMAGE_TAG, 10, 28, 28, &ramp(5));
    assert_eq!(decode_images(&bytes), Err(Error::TruncatedSample));
}

#[test]
fn one_missing_byte_is_truncated() {
    let payload = ramp(2);
    let bytes = image_container(IMAGE_TAG, 2, 28, 28, &payload[..payload.len() - 1]);
    assert_eq!(decode_images(&bytes), Err(Error::TruncatedSample));
}

#[test]
fn the_largest_count_is_truncated_not_wrapped() {
    let bytes = image_container(IMAGE_TAG, u32::MAX, 28, 28, &ramp(1));
    assert_eq!(decode_images(&bytes), Err(Error::TruncatedSample));
}

#[test]
fn labels_are_the_bytes_after_the_header() {
    let bytes = [0u8, 0, 8, 1, 0, 0, 0, 3, 5, 0, 4];
    assert_eq!(decode_labels(&bytes), Ok(vec![5u8, 0, 4]));
}

#[test]
fn a_label_header_alone_holds_no_labels() {
    let bytes = [0u8, 0, 8, 1, 0, 0, 0, 0];
    assert_eq!(decode_labels(&bytes), Ok(Vec::new()));
}

#[test]
fn a_label_stream_shorter_than_its_header_is_malformed() {
    assert_eq!(decode_labels(&[]), Err(Error::MalformedContainer));
    assert_eq!(decode_labels(&[0u8, 0, 8, 1, 0, 0, 0]), Err(Error::MalformedContainer));
}

#[test]
fn a_matched_pair_has_as_many_labels_as_samples() {
    let images = image_container(IMAGE_TAG, 4, 28, 28, &ramp(4));
    let mut labels = vec![0u8, 0, 8, 1, 0, 0, 0, 4];
    labels.extend_from_slice(&[7, 2, 1, 0]);
    let samples = decode_images(&images).unwrap();
    let labels = decode_labels(&labels).unwrap();
    assert_eq!(labels.len(), samples.len());
    assert_eq!(labels, vec![7u8, 2, 1, 0]);
}
