use same70_hal::mpu::{
    count_enabled, ctrl_is_enabled, disable_ops, enable_ops, first_free, region_is_enabled,
    set_region_ops, supported_regions_of, InvalidReservedAttribute, MemoryRegionDisabled,
    MemoryRegionsFull, Mpu,
    MpuAccessPolicy, MpuCachePolicy, MpuMemoryAttributes, MpuOp, MpuRegionSize, MpuRegionWords,
    MpuRegisters, MpuSubregions, ProtectedMemoryRegion, RegionDecodeError,
};

fn all_attributes() -> Vec<MpuMemoryAttributes> {
    let mut all = vec![
        MpuMemoryAttributes::StronglyOrdered,
        MpuMemoryAttributes::Device { shareable: false },
        MpuMemoryAttributes::Device { shareable: true },
    ];
    for shareable in [false, true] {
        for cache_policy in [
            MpuCachePolicy::NonCacheable,
            MpuCachePolicy::WriteThrough,
            MpuCachePolicy::WriteBack { write_allocate: false },
            MpuCachePolicy::WriteBack { write_allocate: true },
        ] {
            all.push(MpuMemoryAttributes::Normal { shareable, cache_policy });
        }
    }
    all
}

fn sample_region() -> ProtectedMemoryRegion {
    ProtectedMemoryRegion {
        base_address: 0x2000_0000,
        size: MpuRegionSize::from_raw_bits(9),
        subregions: MpuSubregions::default(),
        executable: false,
        permissions: MpuAccessPolicy::ReadWrite,
        attributes: MpuMemoryAttributes::Normal {
            shareable: true,
            cache_policy: MpuCachePolicy::WriteBack { write_allocate: true },
        },
    }
}

#[test]
fn attribute_patterns_are_the_canonical_ones() {
    assert_eq!(MpuMemoryAttributes::StronglyOrdered.to_bits(), 0b000_0_0_0);
    assert_eq!(MpuMemoryAttributes::Device { shareable: false }.to_bits(), 0b010_0_0_0);
    assert_eq!(MpuMemoryAttributes::Device { shareable: true }.to_bits(), 0b000_0_0_1);
    let normal = |shareable, cache_policy| MpuMemoryAttributes::Normal { shareable, cache_policy };
    assert_eq!(normal(false, MpuCachePolicy::NonCacheable).to_bits(), 0b001_0_0_0);
    assert_eq!(normal(true, MpuCachePolicy::NonCacheable).to_bits(), 0b001_1_0_0);
    assert_eq!(normal(false, MpuCachePolicy::WriteThrough).to_bits(), 0b000_0_1_0);
    assert_eq!(normal(true, MpuCachePolicy::WriteThrough).to_bits(), 0b000_1_1_0);
    assert_eq!(
        normal(false, MpuCachePolicy::WriteBack { write_allocate: false }).to_bits(),
        0b000_0_1_1
    );
    assert_eq!(
        normal(true, MpuCachePolicy::WriteBack { write_allocate: false }).to_bits(),
        0b000_1_1_1
    );
    assert_eq!(
        normal(false, MpuCachePolicy::WriteBack { write_allocate: true }).to_bits(),
        0b001_0_1_1
    );
    assert_eq!(
        normal(true, MpuCachePolicy::WriteBack { write_allocate: true }).to_bits(),
        0b001_1_1_1
    );
}

#[test]
fn every_attribute_variant_round_trips() {
    let all = all_attributes();
    assert_eq!(all.len(), 11);
    for attributes in all {
        let bits = attributes.to_bits();
        assert!(bits < 64);
        assert_eq!(MpuMemoryAttributes::from_bits(bits as u8), Ok(attributes));
    }
}

#[test]
fn reserved_attribute_patterns_are_refused() {
    let canonical: [u8; 7] = [0b000_000, 0b000_001, 0b010_000, 0b000_010, 0b000_011, 0b001_011, 0b001_000];
    let mut refused = 0;
    for bits in 0u8..64 {
        let without_s = bits & 0b111_011;
        let decoded = MpuMemoryAttributes::from_bits(bits);
        if canonical.contains(&without_s) {
            assert!(decoded.is_ok());
        } else {
            assert_eq!(decoded, Err(InvalidReservedAttribute));
            refused += 1;
        }
    }
    assert_eq!(refused, 50);
}

#[test]
fn attribute_decoding_reads_six_bits() {
    assert_eq!(
        MpuMemoryAttributes::from_bits(0b11_000_0_0_0),
        Ok(MpuMemoryAttributes::StronglyOrdered)
    );
    assert_eq!(
        MpuMemoryAttributes::from_bits(0b000_1_0_0),
        Ok(MpuMemoryAttributes::StronglyOrdered)
    );
    assert_eq!(
        MpuMemoryAttributes::from_bits(0b000_1_0_1),
        Ok(MpuMemoryAttributes::Device { shareable: true })
    );
    assert_eq!(MpuMemoryAttributes::from_bits(0b100_0_0_0), Err(InvalidReservedAttribute));
    assert_eq!(MpuMemoryAttributes::from_bits(0b111_1_1_1), Err(InvalidReservedAttribute));
}

#[test]
fn access_policy_codes() {
    assert_eq!(MpuAccessPolicy::NoAccess.bits(), 0b01);
    assert_eq!(MpuAccessPolicy::ReadOnly.bits(), 0b10);
    assert_eq!(MpuAccessPolicy::ReadWrite.bits(), 0b11);
    assert_eq!(MpuAccessPolicy::from_bits(0b00), MpuAccessPolicy::NoAccess);
    assert_eq!(MpuAccessPolicy::from_bits(0b01), MpuAccessPolicy::NoAccess);
    assert_eq!(MpuAccessPolicy::from_bits(0b10), MpuAccessPolicy::ReadOnly);
    assert_eq!(MpuAccessPolicy::from_bits(0b11), MpuAccessPolicy::ReadWrite);
    assert_eq!(MpuAccessPolicy::from_bits(0b110), MpuAccessPolicy::ReadOnly);
    for policy in [MpuAccessPolicy::NoAccess, MpuAccessPolicy::ReadOnly, MpuAccessPolicy::ReadWrite] {
        assert_eq!(MpuAccessPolicy::from_bits(policy.bits()), policy);
    }
}

#[test]
fn region_size_and_subregions_keep_their_bits() {
    assert_eq!(MpuRegionSize::from_raw_bits(9).bits(), 9);
    assert_eq!(MpuRegionSize::from_raw_bits(31).bits(), 31);
    assert_eq!(MpuSubregions::from_disable_bits(0xa5).bits(), 0xa5);
    assert_eq!(MpuSubregions::default().bits(), 0);
    assert!(MpuRegionSize::from_raw_bits(4) < MpuRegionSize::from_raw_bits(5));
}

#[test]
fn region_encodes_to_the_documented_layout() {
    let (control, base) = sample_region().encode();
    assert_eq!(control, 0x130f_0013);
    assert_eq!(base, 0x2000_0000);

    let region = ProtectedMemoryRegion {
        base_address: 0x0800_0000,
        size: MpuRegionSize::from_raw_bits(20),
        subregions: MpuSubregions::from_disable_bits(0x81),
        executable: true,
        permissions: MpuAccessPolicy::ReadOnly,
        attributes: MpuMemoryAttributes::Device { shareable: false },
    };
    let (control, base) = region.encode();
    assert_eq!(control, 0x0210_8129);
    assert_eq!(base, 0x0800_0000);
}

#[test]
fn encoding_keeps_the_fields_apart() {
    let region = ProtectedMemoryRegion {
        base_address: 0xffff_ffff,
        size: MpuRegionSize::from_raw_bits(0xff),
        subregions: MpuSubregions::from_disable_bits(0xff),
        executable: false,
        permissions: MpuAccessPolicy::ReadWrite,
        attributes: MpuMemoryAttributes::Normal {
            shareable: true,
            cache_policy: MpuCachePolicy::WriteBack { write_allocate: true },
        },
    };
    let (control, base) = region.encode();
    assert_eq!(control, 0x130f_ff3f);
    assert_eq!(base, 0xffff_fff0);
}

#[test]
fn region_round_trips_through_its_words() {
    for attributes in all_attributes() {
        for permissions in [MpuAccessPolicy::NoAccess, MpuAccessPolicy::ReadOnly, MpuAccessPolicy::ReadWrite] {
            for executable in [false, true] {
                for size in 4u8..=31 {
                    let region = ProtectedMemoryRegion {
                        base_address: if size == 31 { 0 } else { 1u32 << (size + 1) },
                        size: MpuRegionSize::from_raw_bits(size),
                        subregions: MpuSubregions::from_disable_bits(size.wrapping_mul(37)),
                        executable,
                        permissions,
                        attributes,
                    };
                    let (control, base) = region.encode();
                    assert_eq!(ProtectedMemoryRegion::decode(control, base), Ok(region));
                }
            }
        }
    }
}

#[test]
fn decode_of_a_disabled_region_fails() {
    assert_eq!(
        ProtectedMemoryRegion::decode(0, 0),
        Err(RegionDecodeError::Disabled(MemoryRegionDisabled))
    );
    assert_eq!(
        ProtectedMemoryRegion::decode(0x130f_0012, 0x2000_0000),
        Err(RegionDecodeError::Disabled(MemoryRegionDisabled))
    );
    // a disabled region is reported as such whatever its attribute pattern is
    assert_eq!(
        ProtectedMemoryRegion::decode(0x1320_0012, 0x2000_0000),
        Err(RegionDecodeError::Disabled(MemoryRegionDisabled))
    );
}

#[test]
fn decode_of_a_reserved_pattern_fails() {
    assert_eq!(
        ProtectedMemoryRegion::decode(0x1320_0013, 0x2000_0000),
        Err(RegionDecodeError::Reserved(InvalidReservedAttribute))
    );
    assert_eq!(
        ProtectedMemoryRegion::decode(0x0004_0001 | (0b100_0_0_0 << 16), 0),
        Err(RegionDecodeError::Reserved(InvalidReservedAttribute))
    );
}

#[test]
fn decode_reads_each_field_from_its_place() {
    let region = ProtectedMemoryRegion::decode(0x130f_0013, 0x2000_001f).unwrap();
    assert_eq!(region, ProtectedMemoryRegion { base_address: 0x2000_0010, ..sample_region() });
    let region = ProtectedMemoryRegion::decode(0x0210_8129, 0x0800_0000).unwrap();
    assert_eq!(region.size.bits(), 20);
    assert_eq!(region.subregions.bits(), 0x81);
    assert!(region.executable);
    assert_eq!(region.permissions, MpuAccessPolicy::ReadOnly);
    assert_eq!(region.attributes, MpuMemoryAttributes::Device { shareable: false });
    // bits outside the fields are not read
    let region = ProtectedMemoryRegion::decode(0x130f_0013 | 0xe8c0_00c0, 0x2000_0000).unwrap();
    assert_eq!(region, sample_region());
}

#[test]
fn words_of_the_unit_are_read_by_field() {
    assert_eq!(supported_regions_of(0x0000_0800), 8);
    assert_eq!(supported_regions_of(0x0000_1000), 16);
    assert_eq!(supported_regions_of(0xffff_00ff), 0);
    assert_eq!(supported_regions_of(0x00ff_ff00), 255);
    assert!(ctrl_is_enabled(0x1));
    assert!(ctrl_is_enabled(0x7));
    assert!(!ctrl_is_enabled(0x6));
    assert!(region_is_enabled(0x130f_0013));
    assert!(!region_is_enabled(0x130f_0012));
}

#[test]
fn enable_and_disable_are_bracketed_by_barriers() {
    assert_eq!(
        enable_ops(0),
        vec![
            MpuOp::DataSyncBarrier,
            MpuOp::WriteControl(0x3),
            MpuOp::DataSyncBarrier,
            MpuOp::InstrSyncBarrier,
        ]
    );
    assert_eq!(
        enable_ops(0xffff_fffc),
        vec![
            MpuOp::DataSyncBarrier,
            MpuOp::WriteControl(0xffff_fffb),
            MpuOp::DataSyncBarrier,
            MpuOp::InstrSyncBarrier,
        ]
    );
    assert_eq!(
        disable_ops(),
        vec![
            MpuOp::DataSyncBarrier,
            MpuOp::WriteControl(0),
            MpuOp::DataSyncBarrier,
            MpuOp::InstrSyncBarrier,
        ]
    );
}

#[test]
fn region_update_switches_a_running_unit_off_and_on() {
    let region = sample_region();
    assert_eq!(
        set_region_ops(0, &region, 5),
        vec![
            MpuOp::SelectRegion(5),
            MpuOp::WriteRegionBase(0x2000_0000),
            MpuOp::WriteRegionControl(0x130f_0013),
        ]
    );
    assert_eq!(
        set_region_ops(0x5, &region, 2),
        vec![
            MpuOp::DataSyncBarrier,
            MpuOp::WriteControl(0),
            MpuOp::SelectRegion(2),
            MpuOp::WriteRegionBase(0x2000_0000),
            MpuOp::WriteRegionControl(0x130f_0013),
            MpuOp::WriteControl(0x5),
            MpuOp::DataSyncBarrier,
            MpuOp::InstrSyncBarrier,
        ]
    );
}

#[test]
fn scans_of_the_control_words() {
    let none: Vec<u32> = Vec::new();
    assert_eq!(count_enabled(&none), 0);
    assert_eq!(first_free(&none), None);
    let words = vec![0x13u32, 0x12, 0x1, 0x0, 0xffff_ffff];
    assert_eq!(count_enabled(&words), 3);
    assert_eq!(first_free(&words), Some(1));
    let full = vec![0x1u32; 255];
    assert_eq!(count_enabled(&full), 255);
    assert_eq!(first_free(&full), None);
    let mut last_free = full.clone();
    last_free[254] = 0x2;
    assert_eq!(count_enabled(&last_free), 254);
    assert_eq!(first_free(&last_free), Some(254));
}

#[test]
fn a_new_unit_is_off_and_empty() {
    let mut unit = MpuRegisters::new(8);
    assert_eq!(unit.supported_regions(), 8);
    assert!(!unit.is_enabled());
    assert_eq!(unit.ctrl(), 0);
    assert_eq!(unit.count_regions(), 0);
    for rnr in 0..8 {
        assert_eq!(unit.get_region(rnr), Err(RegionDecodeError::Disabled(MemoryRegionDisabled)));
    }
    let mut none = MpuRegisters::new(0);
    assert_eq!(none.supported_regions(), 0);
    assert_eq!(none.count_regions(), 0);
    assert_eq!(none.add_region(sample_region()), Err(MemoryRegionsFull));
}

#[test]
fn enable_sets_two_switches_and_disable_clears_the_register() {
    let mut unit = MpuRegisters::new(8);
    unit.enable();
    assert!(unit.is_enabled());
    assert_eq!(unit.ctrl(), 0x3);
    unit.disable();
    assert!(!unit.is_enabled());
    assert_eq!(unit.ctrl(), 0);
    unit.apply(MpuOp::WriteControl(0xffff_fff4));
    unit.enable();
    assert_eq!(unit.ctrl(), 0xffff_fff3);
}

#[test]
fn set_region_programs_the_slot_and_keeps_the_unit_on() {
    let mut unit = MpuRegisters::new(8);
    unit.enable();
    unit.set_region(sample_region(), 3);
    assert!(unit.is_enabled());
    assert_eq!(unit.ctrl(), 0x3);
    assert_eq!(unit.region_number(), 3);
    assert_eq!(
        unit.selected_words(),
        MpuRegionWords { control: 0x130f_0013, base: 0x2000_0000 }
    );
    assert_eq!(unit.get_region(3), Ok(sample_region()));
    assert_eq!(unit.get_region(2), Err(RegionDecodeError::Disabled(MemoryRegionDisabled)));
    assert_eq!(unit.count_regions(), 1);
    assert_eq!(unit.region_number(), 7);
}

#[test]
fn a_region_number_beyond_the_table_reaches_no_region() {
    let mut unit = MpuRegisters::new(4);
    unit.set_region(sample_region(), 4);
    assert_eq!(unit.region_number(), 4);
    assert_eq!(unit.count_regions(), 0);
    assert_eq!(unit.get_region(4), Err(RegionDecodeError::Disabled(MemoryRegionDisabled)));
    assert_eq!(unit.selected_words(), MpuRegionWords { control: 0, base: 0 });
}

#[test]
fn get_region_reports_a_reserved_pattern() {
    let mut unit = MpuRegisters::new(4);
    unit.run(&vec![MpuOp::SelectRegion(1), MpuOp::WriteRegionControl(0x1320_0013)]);
    assert_eq!(unit.get_region(1), Err(RegionDecodeError::Reserved(InvalidReservedAttribute)));
    assert_eq!(unit.count_regions(), 1);
}

#[test]
fn add_region_takes_the_first_free_slot() {
    let mut unit = MpuRegisters::new(8);
    let other = ProtectedMemoryRegion { base_address: 0x6000_0000, ..sample_region() };
    unit.set_region(other, 0);
    unit.set_region(other, 1);
    unit.set_region(other, 3);
    assert_eq!(unit.add_region(sample_region()), Ok(()));
    assert_eq!(unit.region_number(), 2);
    assert_eq!(unit.get_region(2), Ok(sample_region()));
    assert_eq!(unit.get_region(3), Ok(other));
    assert_eq!(unit.get_region(4), Err(RegionDecodeError::Disabled(MemoryRegionDisabled)));
    assert_eq!(unit.count_regions(), 4);
}

#[test]
fn a_full_table_refuses_and_a_freed_slot_is_reused() {
    for supported in [1u8, 4, 8, 16, 255] {
        let mut unit = MpuRegisters::new(supported);
        let filler = ProtectedMemoryRegion { base_address: 0x6000_0000, ..sample_region() };
        for _ in 0..supported {
            assert_eq!(unit.add_region(filler), Ok(()));
        }
        assert_eq!(unit.count_regions(), supported);
        assert_eq!(unit.add_region(sample_region()), Err(MemoryRegionsFull));
        assert_eq!(unit.count_regions(), supported);

        let freed = supported / 2;
        unit.apply(MpuOp::SelectRegion(freed as u32));
        unit.apply(MpuOp::WriteRegionControl(0x130f_0012));
        assert_eq!(unit.count_regions(), supported - 1);
        assert_eq!(unit.add_region(sample_region()), Ok(()));
        assert_eq!(unit.region_number(), freed as u32);
        assert_eq!(unit.get_region(freed), Ok(sample_region()));
        assert_eq!(unit.count_regions(), supported);
        assert_eq!(unit.add_region(sample_region()), Err(MemoryRegionsFull));
    }
}
