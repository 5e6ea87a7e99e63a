use mip_ring::blended::create_blended_mipmap;
use mip_ring::mip::{bilinear_filter, bilinear_filter_channel, generate_mips, MipLevel};
use mip_ring::GenError;

fn gradient_rgba(width: usize, height: usize) -> Vec<u8> {
    let mut data: Vec<u8> = Vec::new();
    for y in 0..height {
        for x in 0..width {
            data.push((x * 16) as u8);
            data.push((y * 16) as u8);
            data.push(((x + y) * 8) as u8);
            data.push(255);
        }
    }
    data
}

#[test]
fn sixteen_square_has_five_levels() {
    let data: Vec<u8> = gradient_rgba(16, 16);
    let mips: Vec<MipLevel> = generate_mips(data, 16).unwrap();
    assert_eq!(mips.len(), 5);
    let expected: [(usize, usize); 5] = [(16, 16), (8, 8), (4, 4), (2, 2), (1, 1)];
    for (level, (w, h)) in mips.iter().zip(expected.iter()) {
        assert_eq!(level.width(), *w);
        assert_eq!(level.height(), *h);
        assert_eq!(level.data().len(), w * h * 4);
    }
}

#[test]
fn level_dims_follow_halving_formula() {
    // a 5 x 3 base: level k must measure max(1, 5 >> k) x max(1, 3 >> k)
    let data: Vec<u8> = gradient_rgba(5, 3);
    let mips: Vec<MipLevel> = generate_mips(data, 5).unwrap();
    assert_eq!(mips.len(), 3);
    let dims: Vec<(usize, usize)> = mips.iter().map(|m| (m.width(), m.height())).collect();
    assert_eq!(dims, vec![(5, 3), (2, 1), (1, 1)]);
    assert_eq!(mips.last().unwrap().width(), 1);
    assert_eq!(mips.last().unwrap().height(), 1);
}

#[test]
fn one_by_one_base_is_its_own_pyramid() {
    let data: Vec<u8> = vec![10, 20, 30, 40];
    let mips: Vec<MipLevel> = generate_mips(data.clone(), 1).unwrap();
    assert_eq!(mips.len(), 1);
    assert_eq!(mips[0].width(), 1);
    assert_eq!(mips[0].height(), 1);
    assert_eq!(mips[0].data(), &data);
}

#[test]
fn identical_inputs_give_identical_pyramids() {
    let data: Vec<u8> = gradient_rgba(7, 5);
    let first: Vec<MipLevel> = generate_mips(data.clone(), 7).unwrap();
    let second: Vec<MipLevel> = generate_mips(data, 7).unwrap();
    assert_eq!(first.len(), second.len());
    for (a, b) in first.iter().zip(second.iter()) {
        assert_eq!(a.width(), b.width());
        assert_eq!(a.height(), b.height());
        assert_eq!(a.data(), b.data());
    }
}

#[test]
fn sample_at_texel_center_returns_texel() {
    // both weights zero: the top-left texel comes back unchanged
    for value in [0u8, 1, 17, 127, 200, 255] {
        let out: u8 = bilinear_filter_channel(value, 90, 91, 92, 0, 2, 0, 6);
        assert_eq!(out, value);
    }
    let out: [u8; 4] = bilinear_filter(
        &[1, 2, 3, 4],
        &[50, 60, 70, 80],
        &[90, 100, 110, 120],
        &[130, 140, 150, 160],
        0,
        8,
        0,
        8,
    );
    assert_eq!(out, [1, 2, 3, 4]);
}

#[test]
fn exact_half_weights_average_four_texels() {
    // a 2 x 2 level reduces to the floored average of its four texels
    let data: Vec<u8> = vec![
        10, 100, 1, 255, // top-left texel
        20, 101, 2, 255, // top-right texel
        30, 102, 2, 255, // bottom-left texel
        40, 103, 3, 255, // bottom-right texel
    ];
    let mips: Vec<MipLevel> = generate_mips(data, 2).unwrap();
    assert_eq!(mips.len(), 2);
    assert_eq!(mips[1].width(), 1);
    assert_eq!(mips[1].height(), 1);
    // floor((10+20+30+40)/4) = 25, floor((100+101+102+103)/4) = 101,
    // floor((1+2+2+3)/4) = 2, alpha stays 255
    assert_eq!(mips[1].data(), &vec![25, 101, 2, 255]);
}

#[test]
fn odd_width_lands_on_middle_texel() {
    // 3 x 1: the destination center maps exactly onto the middle source
    // texel (weights zero), so the 1 x 1 level equals that texel
    let data: Vec<u8> = vec![
        11, 12, 13, 14, // left
        120, 130, 140, 150, // middle
        250, 251, 252, 253, // right
    ];
    let mips: Vec<MipLevel> = generate_mips(data, 3).unwrap();
    assert_eq!(mips.len(), 2);
    assert_eq!(mips[1].data(), &vec![120, 130, 140, 150]);
}

#[test]
fn blended_mipmap_has_expected_levels() {
    let mips: Vec<MipLevel> = create_blended_mipmap();
    assert_eq!(mips.len(), 5);
    let dims: Vec<(usize, usize)> = mips.iter().map(|m| (m.width(), m.height())).collect();
    assert_eq!(dims, vec![(16, 16), (8, 8), (4, 4), (2, 2), (1, 1)]);
}

#[test]
fn blended_base_pixels_match_palette() {
    let mips: Vec<MipLevel> = create_blended_mipmap();
    let base: &MipLevel = &mips[0];
    let texel = |x: usize, y: usize| -> [u8; 4] {
        let off: usize = (y * 16 + x) * 4;
        let d: &Vec<u8> = base.data();
        [d[off], d[off + 1], d[off + 2], d[off + 3]]
    };
    assert_eq!(texel(0, 0), [255, 255, 255, 255]); // white corner
    assert_eq!(texel(1, 0), [255, 0, 0, 255]); // red wedge
    assert_eq!(texel(7, 0), [38, 123, 167, 255]); // steel-blue bar
    assert_eq!(texel(0, 7), [0, 28, 116, 255]); // dark-blue half row
    assert_eq!(texel(9, 7), [255, 231, 0, 255]); // yellow half row
    assert_eq!(texel(7, 8), [58, 181, 75, 255]); // green bar
    assert_eq!(texel(15, 15), [255, 255, 255, 255]); // white corner
    assert_eq!(texel(8, 15), [58, 181, 75, 255]); // green bar, bottom row
}

#[test]
fn zero_width_is_rejected() {
    let r: Result<Vec<MipLevel>, GenError> = generate_mips(vec![0, 0, 0, 0], 0);
    assert_eq!(r.unwrap_err(), GenError::InvalidParameter);
}

#[test]
fn empty_buffer_is_rejected() {
    let r: Result<Vec<MipLevel>, GenError> = generate_mips(Vec::new(), 4);
    assert_eq!(r.unwrap_err(), GenError::InvalidParameter);
}

#[test]
fn partial_row_is_rejected() {
    // ten bytes cannot be whole rows of a 2-texel-wide RGBA8 image
    let r: Result<Vec<MipLevel>, GenError> = generate_mips(vec![0; 10], 2);
    assert_eq!(r.unwrap_err(), GenError::InvalidParameter);
    let m: Result<MipLevel, GenError> = MipLevel::new(2, vec![0; 10]);
    assert_eq!(m.unwrap_err(), GenError::InvalidParameter);
}

#[test]
fn level_accessors_expose_the_base() {
    let data: Vec<u8> = gradient_rgba(4, 2);
    let m: MipLevel = MipLevel::new(4, data.clone()).unwrap();
    assert_eq!(m.width(), 4);
    assert_eq!(m.height(), 2);
    assert_eq!(m.data(), &data);
}
