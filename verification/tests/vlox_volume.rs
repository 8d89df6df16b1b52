use vlox::codec::xyz_to_path;
use vlox::octant::SubVlox;
use vlox::volume::VloxData;
use vlox::{VloxError, MAX_DEPTH};

#[test]
fn set_vlox_depth_2() {
    let depth: u8 = 2;
    let blocks: u128 = 2_u128.pow(depth as u32);

    let mut data = VloxData::new(3);

    let mut value: u16 = 0;
    for x in 0..blocks {
        for y in 0..blocks {
            for z in 0..blocks {
                data.set(x, y, z, depth, value).unwrap();
                value += 1;
            }
        }
    }

    value = 0;
    for x in 0..blocks {
        for y in 0..blocks {
            for z in 0..blocks {
                assert_eq!(value, data.get(x, y, z, depth).unwrap());
                assert_eq!(value, data.get(x * 2, y * 2, z * 2, depth + 1).unwrap());
                assert_eq!(value, data.get(x * 2, y * 2, z * 2 + 1, depth + 1).unwrap());
                assert_eq!(value, data.get(x * 2, y * 2 + 1, z * 2, depth + 1).unwrap());
                assert_eq!(value, data.get(x * 2, y * 2 + 1, z * 2 + 1, depth + 1).unwrap());
                assert_eq!(value, data.get(x * 2 + 1, y * 2, z * 2, depth + 1).unwrap());
                assert_eq!(value, data.get(x * 2 + 1, y * 2, z * 2 + 1, depth + 1).unwrap());
                assert_eq!(value, data.get(x * 2 + 1, y * 2 + 1, z * 2, depth + 1).unwrap());
                assert_eq!(
                    value,
                    data.get(x * 2 + 1, y * 2 + 1, z * 2 + 1, depth + 1).unwrap()
                );
                value += 1;
            }
        }
    }
}

#[test]
fn vlox_set_vlox_depth_2() {
    let depth: u8 = 2;
    let blocks: u128 = 2_u128.pow(depth as u32);

    // edge length 8, as 2^3
    let mut data = VloxData::new(3);

    let mut value: u16 = 0;
    for x in 0..blocks {
        for y in 0..blocks {
            for z in 0..blocks {
                data.set(x, y, z, depth, value).unwrap();
                value += 1;
            }
        }
    }

    value = 0;
    for x in 0..blocks {
        for y in 0..blocks {
            for z in 0..blocks {
                assert_eq!(value, data.get(x, y, z, depth).unwrap());
                value += 1;
            }
        }
    }
}

#[test]
fn set_then_get_round_trip() {
    let mut data = VloxData::new(3);
    data.set(5, 3, 2, 3, 7).unwrap();
    assert_eq!(data.get(5, 3, 2, 3).unwrap(), 7);
}

#[test]
fn children_inherit_written_value() {
    let mut data = VloxData::new(3);
    data.set(1, 2, 3, 2, 42).unwrap();
    for dx in 0..2 {
        for dy in 0..2 {
            for dz in 0..2 {
                assert_eq!(data.get(2 + dx, 4 + dy, 6 + dz, 3).unwrap(), 42);
            }
        }
    }
    // an unrelated voxel stays void
    assert_eq!(data.get(0, 0, 0, 2).unwrap(), 0);
}

#[test]
fn deeper_write_overrides_one_child_only() {
    let mut data = VloxData::new(3);
    data.set(0, 0, 0, 1, 5).unwrap();
    data.set(0, 0, 0, 2, 9).unwrap();
    assert_eq!(data.get(0, 0, 0, 2).unwrap(), 9);
    assert_eq!(data.get(1, 0, 0, 2).unwrap(), 5);
    assert_eq!(data.get(1, 1, 1, 2).unwrap(), 5);
    assert_eq!(data.get(0, 0, 0, 1).unwrap(), 5);
}

#[test]
fn fresh_volume_is_all_void() {
    let data = VloxData::new(4);
    assert_eq!(data.get(0, 0, 0, 0).unwrap(), 0);
    assert_eq!(data.get(7, 3, 5, 3).unwrap(), 0);
    assert_eq!(data.get(15, 15, 15, 4).unwrap(), 0);
}

#[test]
fn depth_out_of_range_is_reported() {
    let mut data = VloxData::new(3);
    assert_eq!(
        data.get(0, 0, 0, MAX_DEPTH + 1),
        Err(VloxError::DepthOutOfRange)
    );
    assert_eq!(
        data.set(0, 0, 0, MAX_DEPTH + 1, 1),
        Err(VloxError::DepthOutOfRange)
    );
    // the volume is untouched by the failed write
    assert_eq!(data.get(0, 0, 0, 2).unwrap(), 0);
}

#[test]
fn coordinate_out_of_range_is_reported() {
    let mut data = VloxData::new(3);
    assert_eq!(data.get(4, 0, 0, 2), Err(VloxError::CoordinateOutOfRange));
    assert_eq!(data.get(0, 4, 0, 2), Err(VloxError::CoordinateOutOfRange));
    assert_eq!(data.get(0, 0, 4, 2), Err(VloxError::CoordinateOutOfRange));
    assert_eq!(data.get(1, 0, 0, 0), Err(VloxError::CoordinateOutOfRange));
    assert_eq!(
        data.set(4, 0, 0, 2, 1),
        Err(VloxError::CoordinateOutOfRange)
    );
    assert_eq!(data.get(3, 3, 3, 2).unwrap(), 0);
}

#[test]
fn size_and_voxel_counts() {
    let data = VloxData::new(3);
    assert_eq!(data.size(), 8);
    assert_eq!(data.num_vlox(0), 1);
    assert_eq!(data.num_vlox(5), 32);
    let unit = VloxData::default();
    assert_eq!(unit.size(), 1);
}

#[test]
fn octant_path_of_a_coordinate() {
    let path = xyz_to_path(5, 3, 2, 3);
    assert_eq!(
        path,
        vec![SubVlox::X1Y0Z0, SubVlox::X0Y1Z1, SubVlox::X1Y1Z0]
    );
    assert_eq!(xyz_to_path(0, 0, 0, 0), vec![]);
    assert_eq!(xyz_to_path(1, 1, 1, 1), vec![SubVlox::X1Y1Z1]);
    assert_eq!(xyz_to_path(0, 1, 0, 1), vec![SubVlox::X0Y1Z0]);
}
