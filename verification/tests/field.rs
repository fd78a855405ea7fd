use same70_hal::field::{extract_field, field_mask, insert_field};

#[test]
fn masks_have_the_low_bits_set() {
    assert_eq!(field_mask(1), 0x1);
    assert_eq!(field_mask(5), 0x1f);
    assert_eq!(field_mask(8), 0xff);
    assert_eq!(field_mask(31), 0x7fff_ffff);
    assert_eq!(field_mask(32), 0xffff_ffff);
}

#[test]
fn extract_reads_the_field() {
    assert_eq!(extract_field(0x130f_0013, 0, 1), 1);
    assert_eq!(extract_field(0x130f_0013, 1, 5), 9);
    assert_eq!(extract_field(0x130f_0013, 8, 8), 0);
    assert_eq!(extract_field(0x130f_0013, 16, 6), 0x0f);
    assert_eq!(extract_field(0x130f_0013, 24, 3), 3);
    assert_eq!(extract_field(0x130f_0013, 28, 1), 1);
    assert_eq!(extract_field(0xdead_beef, 0, 32), 0xdead_beef);
    assert_eq!(extract_field(0xdead_beef, 31, 1), 1);
    assert_eq!(extract_field(0xdead_beef, 4, 28), 0x0dea_dbee);
}

#[test]
fn insert_replaces_the_field_only() {
    assert_eq!(insert_field(0, 16, 6, 0x0f), 0x000f_0000);
    assert_eq!(insert_field(0xffff_ffff, 16, 6, 0), 0xffc0_ffff);
    assert_eq!(insert_field(0xffff_ffff, 0, 3, 0x3), 0xffff_fffb);
    assert_eq!(insert_field(0x1234_5678, 8, 8, 0xab), 0x1234_ab78);
    assert_eq!(insert_field(0x1234_5678, 0, 32, 0x9abc_def0), 0x9abc_def0);
    assert_eq!(insert_field(0x1234_5678, 31, 1, 1), 0x9234_5678);
}

#[test]
fn insert_then_extract_gives_the_value_back() {
    let word = 0xa5a5_5a5au32;
    let mut offset = 0u32;
    while offset < 32 {
        let mut width = 1u32;
        while offset + width <= 32 {
            let value = 0x5555_5555u32 & field_mask(width);
            let updated = insert_field(word, offset, width, value);
            assert_eq!(extract_field(updated, offset, width), value);
            if offset > 0 {
                assert_eq!(extract_field(updated, 0, offset), extract_field(word, 0, offset));
            }
            if offset + width < 32 {
                let above = 32 - offset - width;
                assert_eq!(
                    extract_field(updated, offset + width, above),
                    extract_field(word, offset + width, above)
                );
            }
            width += 1;
        }
        offset += 1;
    }
}
