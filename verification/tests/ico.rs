use cleankakao::ico::{decode_ico_dimension, read_u16, read_u32, select_ico_image};

struct Entry<'a> {
    width: u32,
    height: u32,
    data: &'a [u8],
}

fn make_ico(entries: &[Entry<'_>]) -> Vec<u8> {
    let mut bytes = Vec::new();
    bytes.extend_from_slice(&0u16.to_le_bytes());
    bytes.extend_from_slice(&1u16.to_le_bytes());
    bytes.extend_from_slice(&(entries.len() as u16).to_le_bytes());

    let mut image_offset = 6 + entries.len() * 16;
    let mut image_data = Vec::new();
    for entry in entries {
        bytes.push(encode_dimension(entry.width));
        bytes.push(encode_dimension(entry.height));
        bytes.push(0);
        bytes.push(0);
        bytes.extend_from_slice(&1u16.to_le_bytes());
        bytes.extend_from_slice(&32u16.to_le_bytes());
        bytes.extend_from_slice(&(entry.data.len() as u32).to_le_bytes());
        bytes.extend_from_slice(&(image_offset as u32).to_le_bytes());

        image_data.extend_from_slice(entry.data);
        image_offset += entry.data.len();
    }

    bytes.extend_from_slice(&image_data);
    bytes
}

fn encode_dimension(value: u32) -> u8 {
    if value == 256 { 0 } else { value as u8 }
}

#[test]
fn selects_best_image_at_or_above_desired_size() {
    let ico = make_ico(&[
        Entry {
            width: 16,
            height: 16,
            data: b"small",
        },
        Entry {
            width: 32,
            height: 32,
            data: b"desired",
        },
        Entry {
            width: 64,
            height: 64,
            data: b"large",
        },
    ]);

    assert_eq!(select_ico_image(&ico, 32).unwrap(), b"desired");
}

#[test]
fn treats_zero_dimension_as_256() {
    let ico = make_ico(&[
        Entry {
            width: 64,
            height: 64,
            data: b"sixty-four",
        },
        Entry {
            width: 256,
            height: 256,
            data: b"two-fifty-six",
        },
    ]);

    assert_eq!(select_ico_image(&ico, 256).unwrap(), b"two-fifty-six");
}

#[test]
fn rejects_truncated_header_and_table() {
    assert_eq!(
        select_ico_image(&[0, 0, 1], 32).unwrap_err(),
        "ICO data is too short"
    );

    let mut ico = vec![0, 0, 1, 0, 1, 0];
    ico.extend_from_slice(&[32, 32]);
    assert_eq!(
        select_ico_image(&ico, 32).unwrap_err(),
        "ICO entry table is truncated"
    );
}

#[test]
fn skips_unusable_image_ranges() {
    let mut ico = vec![0, 0, 1, 0, 1, 0];
    ico.extend_from_slice(&[32, 32, 0, 0, 1, 0, 32, 0, 10, 0, 0, 0, 100, 0, 0, 0]);

    assert_eq!(
        select_ico_image(&ico, 32).unwrap_err(),
        "ICO contains no usable image"
    );
}

#[test]
fn prefers_the_smallest_image_above_the_desired_size() {
    let ico = make_ico(&[
        Entry { width: 128, height: 128, data: b"huge" },
        Entry { width: 48, height: 48, data: b"medium" },
        Entry { width: 16, height: 16, data: b"tiny" },
    ]);
    assert_eq!(select_ico_image(&ico, 32).unwrap(), b"medium");
}

#[test]
fn falls_back_to_the_largest_image_below_the_desired_size() {
    let ico = make_ico(&[
        Entry { width: 16, height: 16, data: b"tiny" },
        Entry { width: 24, height: 24, data: b"small" },
    ]);
    assert_eq!(select_ico_image(&ico, 32).unwrap(), b"small");
}

#[test]
fn prefers_square_images_of_equal_size() {
    let ico = make_ico(&[
        Entry { width: 32, height: 40, data: b"tall" },
        Entry { width: 32, height: 32, data: b"square" },
    ]);
    assert_eq!(select_ico_image(&ico, 32).unwrap(), b"square");
}

#[test]
fn keeps_the_first_of_two_equal_images() {
    let ico = make_ico(&[
        Entry { width: 32, height: 32, data: b"first" },
        Entry { width: 32, height: 32, data: b"second" },
    ]);
    assert_eq!(select_ico_image(&ico, 32).unwrap(), b"first");
}

#[test]
fn rejects_a_header_that_is_not_an_icon() {
    let mut ico = make_ico(&[Entry { width: 32, height: 32, data: b"x" }]);
    ico[2] = 2;
    assert_eq!(select_ico_image(&ico, 32).unwrap_err(), "ICO header is invalid");
}

#[test]
fn rejects_an_icon_without_images() {
    assert_eq!(
        select_ico_image(&[0, 0, 1, 0, 0, 0], 32).unwrap_err(),
        "ICO contains no usable image"
    );
}

#[test]
fn decodes_zero_dimension_as_256() {
    assert_eq!(decode_ico_dimension(0), 256);
    assert_eq!(decode_ico_dimension(48), 48);
}

#[test]
fn reads_little_endian_fields() {
    let bytes = [0x34, 0x12, 0x78, 0x56, 0x34, 0x12];
    assert_eq!(read_u16(&bytes, 0).unwrap(), 0x1234);
    assert_eq!(read_u32(&bytes, 2).unwrap(), 0x1234_5678);
    assert!(read_u16(&bytes, 5).is_err());
    assert!(read_u32(&bytes, 3).is_err());
}
