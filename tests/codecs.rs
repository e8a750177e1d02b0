use ggml_quants::{
    BlockSizeError, BlockType, DeltaMin, Q4K, Q4_1, Q5K, Q5_0, Q5_1, Q8K, Q8_0, IQ3S, IQ3XXS,
    IQ4NL,
};
use half::f16;

/// Deterministic samples in `[0, 1)`.
fn samples<const N: usize>(seed: u64) -> [f32; N] {
    let mut state = seed.wrapping_mul(6364136223846793005).wrapping_add(1442695040888963407);
    let mut out = [0f32; N];
    for x in out.iter_mut() {
        state = state.wrapping_mul(6364136223846793005).wrapping_add(1442695040888963407);
        *x = (state >> 40) as f32 / (1u64 << 24) as f32;
    }
    out
}

fn half_bits(x: f32) -> u16 {
    f16::from_f32(x).to_bits()
}

fn half_value(bits: u16) -> f32 {
    f16::from_bits(bits).to_f32()
}

fn min_max(data: &[f32]) -> (f32, f32) {
    data.iter()
        .fold((f32::INFINITY, f32::NEG_INFINITY), |(lo, hi), &x| (lo.min(x), hi.max(x)))
}

fn max_by_abs(data: &[f32]) -> f32 {
    data.iter().fold(0f32, |m, &x| if x.abs() > m.abs() { x } else { m })
}

fn max_error(a: &[f32], b: &[f32]) -> f32 {
    a.iter().zip(b).map(|(x, y)| (x - y).abs()).fold(0., f32::max)
}

fn q4_1_round_trip(data: &[f32; 32]) -> [f32; 32] {
    let (min, max) = min_max(data);
    let block = if min == max {
        Q4_1::from_codes(DeltaMin::no_delta(half_bits(min)), &[0; 32])
    } else {
        let delta = (max - min) / 15.;
        let recip = delta.recip();
        let codes = data.map(|x| ((x - min) * recip + 0.5) as u8);
        Q4_1::from_codes(DeltaMin::new(half_bits(delta), half_bits(min)), &codes)
    };
    let (delta, min) = (half_value(block.delta_min.delta), half_value(block.delta_min.min));
    block.codes().map(|c| c as f32 * delta + min)
}

fn q5_1_round_trip(data: &[f32; 32]) -> [f32; 32] {
    let (min, max) = min_max(data);
    let block = if min == max {
        Q5_1::from_codes(DeltaMin::no_delta(half_bits(min)), &[0; 32])
    } else {
        let delta = (max - min) / 31.;
        let recip = delta.recip();
        let codes = data.map(|x| ((x - min) * recip + 0.5) as u8);
        Q5_1::from_codes(DeltaMin::new(half_bits(delta), half_bits(min)), &codes)
    };
    let (delta, min) = (half_value(block.delta_min.delta), half_value(block.delta_min.min));
    block.codes().map(|c| c as f32 * delta + min)
}

fn q5_0_round_trip(data: &[f32; 32]) -> [f32; 32] {
    let max = max_by_abs(data);
    let block = if max == 0. {
        Q5_0::zeros()
    } else {
        let delta = max / -16.;
        let recip = delta.recip();
        let codes = data.map(|x| (x * recip + 16.5) as u8);
        Q5_0::from_codes(half_bits(delta), &codes)
    };
    let delta = half_value(block.delta);
    block.values().map(|v| v as f32 * delta)
}

fn q8_0_round_trip(data: &[f32; 32]) -> [f32; 32] {
    let amax = data.iter().fold(0f32, |m, x| m.max(x.abs()));
    let block = if amax == 0. {
        Q8_0::zeros()
    } else {
        let delta = amax / 127.;
        let recip = delta.recip();
        Q8_0 { delta: half_bits(delta), quants: data.map(|x| (x * recip).round() as i8) }
    };
    let delta = half_value(block.delta);
    block.quants.map(|q| q as f32 * delta)
}

fn q8_k_quantize(data: &[f32; 256]) -> Q8K {
    let max = max_by_abs(data);
    if max == 0. {
        return Q8K::zeros();
    }
    let delta = max / -127.;
    let recip = delta.recip();
    Q8K::from_quants(half_bits(delta), data.map(|x| (x * recip).round().min(127.) as i8))
}

#[test]
fn test_q4_1() {
    for seed in 0..32 {
        let data = samples::<32>(seed);
        assert!(max_error(&q4_1_round_trip(&data), &data) <= 4e-2);
    }
}

#[test]
fn test_q5_0() {
    for seed in 0..32 {
        let data = samples::<32>(seed);
        assert!(max_error(&q5_0_round_trip(&data), &data) <= 4e-2);
    }
}

#[test]
fn test_q5_1() {
    for seed in 0..32 {
        let data = samples::<32>(seed);
        assert!(max_error(&q5_1_round_trip(&data), &data) <= 2e-2);
    }
}

#[test]
fn test_q8_0() {
    for seed in 0..32 {
        let data = samples::<32>(seed);
        assert!(max_error(&q8_0_round_trip(&data), &data) <= 4.2e-3);
    }
}

#[test]
fn test_q8_k() {
    for seed in 0..8 {
        let data = samples::<256>(seed);
        let block = q8_k_quantize(&data);
        assert!(block.check_sums());
        let delta = half_value(block.delta);
        let back = block.quants.map(|q| q as f32 * delta);
        assert!(max_error(&back, &data) <= 4.5e-3);
    }
}

#[test]
fn constant_blocks_keep_their_value() {
    let data = [0.75f32; 32];
    assert_eq!(q4_1_round_trip(&data), data);
    assert_eq!(q5_1_round_trip(&data), data);
    let block = Q4_1::from_codes(DeltaMin::no_delta(half_bits(0.75)), &[0; 32]);
    assert_eq!(block.delta_min.delta, 0);
    assert_eq!(block.quants, [0; 16]);
}

#[test]
fn zero_blocks_for_symmetric_codecs() {
    let zero = [0f32; 32];
    assert_eq!(q5_0_round_trip(&zero), zero);
    assert_eq!(q8_0_round_trip(&zero), zero);
    assert_eq!(q8_k_quantize(&[0.; 256]), Q8K::zeros());
    assert_eq!(Q5_0::zeros().to_bytes(), vec![0; 22]);
    assert_eq!(Q8_0::zeros().to_bytes(), vec![0; 34]);
    assert_eq!(Q8K::zeros().to_bytes(), vec![0; 290]);
}

#[test]
fn q8_k_partial_sums() {
    let mut quants = [0i8; 256];
    for (i, q) in quants.iter_mut().enumerate() {
        *q = (i as i32 % 256 - 128) as i8;
    }
    let block = Q8K::from_quants(0x3c00, quants);
    for g in 0..16 {
        let expected: i16 = quants[16 * g..16 * g + 16].iter().map(|&q| q as i16).sum();
        assert_eq!(block.sums[g], expected);
    }
    assert_eq!(block.sums[0], -1928);
    let mut broken = block;
    broken.sums[3] += 1;
    assert!(!broken.check_sums());
    assert!(block.check_sums());
}

#[test]
fn codes_are_clamped() {
    let mut codes = [0u8; 32];
    codes[0] = 200;
    codes[17] = 16;
    codes[5] = 9;
    let q4 = Q4_1::from_codes(DeltaMin::zero(), &codes);
    let out = q4.codes();
    assert_eq!((out[0], out[17], out[5]), (15, 15, 9));
    assert_eq!(q4.quants[0], 0x0f);
    assert_eq!(q4.quants[1], 0xf0);
    let q5 = Q5_1::from_codes(DeltaMin::zero(), &codes);
    let out = q5.codes();
    assert_eq!((out[0], out[17], out[5]), (31, 16, 9));
    assert_eq!(q5.qh, [0x01, 0x00, 0x02, 0x00]);
    let q50 = Q5_0::from_codes(0, &codes);
    assert_eq!(q50.values()[0], 15);
    assert_eq!(q50.values()[1], -16);
    let mut wide = [0i32; 256];
    wide[0] = -3;
    wide[40] = 99;
    wide[255] = 7;
    let k = Q4K::from_parts(DeltaMin::zero(), [0; 12], &wide);
    let out = k.codes();
    assert_eq!((out[0], out[40], out[255]), (0, 15, 7));
    assert_eq!(k.qs[8], 0xf0);
    assert_eq!(k.qs[127], 0x70);
}

#[test]
fn scale_table_round_trip() {
    let ls = [0, 1, 17, 63, 32, 63, 5, 48];
    let lm = [63, 2, 0, 31, 47, 1, 62, 16];
    let table = Q4K::pack_scale_mins(&ls, &lm);
    for j in 0..8 {
        assert_eq!(Q4K::get_scale_min_k4(j, &table), (ls[j] as u8, lm[j] as u8));
    }
    assert_eq!(table[0], 2 << 6);
    assert_eq!(table[4], 63 | (2 << 6));
    assert_eq!(table[8], 0xf0);
    let clamped = Q4K::pack_scale_mins(&[-5, 70, 0, 0, 0, 0, 0, 0], &[0; 8]);
    assert_eq!(Q4K::get_scale_min_k4(0, &clamped), (0, 0));
    assert_eq!(Q4K::get_scale_min_k4(1, &clamped), (63, 0));
}

#[test]
fn block_bytes_round_trip() {
    let block = Q4K::from_bytes(&Q4_K_BLOCK).unwrap();
    assert_eq!(block.to_bytes(), Q4_K_BLOCK.to_vec());
    assert_eq!(block.delta_min.delta, u16::from_le_bytes([92, 8]));
    assert_eq!(
        Q4K::from_bytes(&Q4_K_BLOCK[..143]),
        Err(BlockSizeError { expected: 144, actual: 143 })
    );
    let bytes: Vec<u8> = (0..290).map(|i| (i * 7) as u8).collect();
    assert_eq!(Q8K::from_bytes(&bytes).unwrap().to_bytes(), bytes);
    assert_eq!(Q8_0::from_bytes(&bytes[..34]).unwrap().to_bytes(), bytes[..34].to_vec());
    assert_eq!(Q5_1::from_bytes(&bytes[..24]).unwrap().to_bytes(), bytes[..24].to_vec());
    assert_eq!(Q5_0::from_bytes(&bytes[..22]).unwrap().to_bytes(), bytes[..22].to_vec());
    assert_eq!(Q4_1::from_bytes(&bytes[..20]).unwrap().to_bytes(), bytes[..20].to_vec());
    assert!(Q4_1::from_bytes(&bytes[..21]).is_err());
}

#[test]
fn block_sizes() {
    assert_eq!(BlockType::Q4K.nbytes(1024), Some(4 * 144));
    assert_eq!(BlockType::Q8_0.nbytes(64), Some(68));
    assert_eq!(BlockType::Q8K.size(), 290);
    assert_eq!(BlockType::IQ4NL.count(), 32);
    assert_eq!(BlockType::Q8K.nbytes(usize::MAX), None);
    assert_eq!(Q5K::zeros().scales, [0; 12]);
    assert_eq!(IQ3S::zeros().signs, [0; 32]);
    assert_eq!(IQ3XXS::zeros().qs, [0; 96]);
    assert_eq!(IQ4NL::zeros().qs, [0; 16]);
}

#[test]
fn test_const_data_dequantize() {
    let block = Q4K::from_bytes(&Q4_K_BLOCK).unwrap();
    let d = half_value(block.delta_min.delta);
    let min = half_value(block.delta_min.min);
    let codes = block.codes();
    for (i, &a) in F32_DATA.iter().enumerate() {
        let (sc, m) = Q4K::get_scale_min_k4(i / 32, &block.scales);
        let y = d * sc as f32 * codes[i] as f32 - min * m as f32;
        assert!((y - a).abs() < 1e-2, "mismatch at {}: {} vs {}", i, y, a);
    }
}

const R_MIN: f32 = -1.0;
const R_DELTA: f32 = 0.1;
const N_STEPS: i32 = 20;
const N_MAX: i32 = 15;

fn nearest_int(val: f32) -> i32 {
    val.round() as i32
}

/// The weighted least-squares fit of one sub-block: its codes in `l`, and
/// its scale and negated min, the min forced to at most zero.
fn make_qkx2_quants(x: &[f32], weights: &[f32], l: &mut [u8]) -> (f32, f32) {
    let n = x.len();
    let mut l_aux = [0u8; 32];
    let (mut min, max) = min_max(x);

    let mut sum_w = 0.0;
    let mut sum_x = 0.0;
    for i in 0..n {
        sum_w += weights[i];
        sum_x += weights[i] * x[i];
    }

    if min > 0.0 {
        min = 0.0;
    }
    if max == min {
        l.fill(0);
        return (0.0, -min);
    }

    let mut scale = (max - min) / N_MAX as f32;
    let mut best_mad = f32::MAX;
    for i in 0..n {
        l[i] = nearest_int((x[i] - min) / scale).clamp(0, N_MAX) as u8;
    }

    for is in 0..=N_STEPS {
        let iscale = (R_MIN + R_DELTA * is as f32 + N_MAX as f32) / (max - min);
        let mut sum_l = 0.0;
        let mut sum_l2 = 0.0;
        let mut sum_xl = 0.0;
        for i in 0..n {
            let li = nearest_int(iscale * (x[i] - min)).clamp(0, N_MAX);
            l_aux[i] = li as u8;
            let w = weights[i];
            sum_l += w * li as f32;
            sum_l2 += w * (li * li) as f32;
            sum_xl += w * li as f32 * x[i];
        }

        let d = sum_w * sum_l2 - sum_l * sum_l;
        if d > 0.0 {
            let mut this_scale = (sum_w * sum_xl - sum_x * sum_l) / d;
            let mut this_min = (sum_l2 * sum_x - sum_l * sum_xl) / d;
            if this_min > 0.0 {
                this_min = 0.0;
                this_scale = sum_xl / sum_l2;
            }

            let mut mad = 0.0;
            for i in 0..n {
                let diff = this_scale * l_aux[i] as f32 + this_min - x[i];
                mad += weights[i] * diff * diff;
            }
            if mad < best_mad {
                l[..n].copy_from_slice(&l_aux[..n]);
                best_mad = mad;
                scale = this_scale;
                min = this_min;
            }
        }
    }
    (scale, -min)
}

fn q4k_quantize(data: &[f32; 256]) -> Q4K {
    let mut l = [0u8; 256];
    let mut weights = [0f32; 32];
    let mut scales = [0f32; 8];
    let mut mins = [0f32; 8];
    let mut max_scale = 0f32;
    let mut max_min = 0f32;

    for j in 0..8 {
        let x = &data[32 * j..32 * (j + 1)];
        let sum_x2: f32 = x.iter().map(|v| v * v).sum();
        let av_x = (sum_x2 / 32.).sqrt();
        for (w, v) in weights.iter_mut().zip(x) {
            *w = av_x + v.abs();
        }
        let (scale, the_min) = make_qkx2_quants(x, &weights, &mut l[32 * j..32 * (j + 1)]);
        scales[j] = scale;
        mins[j] = the_min;
        if scale > max_scale {
            max_scale = scale;
        }
        if the_min > max_min {
            max_min = the_min;
        }
    }

    let inv_scale = if max_scale > 0. { 63. / max_scale } else { 0. };
    let inv_min = if max_min > 0. { 63. / max_min } else { 0. };
    let ls = scales.map(|s| nearest_int(inv_scale * s));
    let lm = mins.map(|m| nearest_int(inv_min * m));
    let table = Q4K::pack_scale_mins(&ls, &lm);
    let pair = DeltaMin::new(half_bits(max_scale / 63.), half_bits(max_min / 63.));
    let (delta, min) = (half_value(pair.delta), half_value(pair.min));

    let mut codes = [0i32; 256];
    for j in 0..8 {
        let (sc, m) = Q4K::get_scale_min_k4(j, &table);
        let d = delta * sc as f32;
        if d == 0. {
            continue;
        }
        let dm = min * m as f32;
        for i in 32 * j..32 * (j + 1) {
            codes[i] = nearest_int((data[i] + dm) / d);
        }
    }
    Q4K::from_parts(pair, table, &codes)
}

#[test]
fn test_const_data_quantize() {
    let expected = Q4K::from_bytes(&Q4_K_BLOCK).unwrap();
    let q = q4k_quantize(&F32_DATA);
    let (a, b) = (half_value(q.delta_min.delta), half_value(expected.delta_min.delta));
    assert!((a - b).abs() < 1e-5, "delta_min mismatch, {} vs {}", a, b);
    assert_eq!(q.scales, expected.scales, "scales mismatch");
    assert_eq!(q.qs, expected.qs, "qs mismatch");
}

const F32_DATA: [f32; 256] = [
    -0.007232666,
    -0.012878418,
    -0.018554688,
    -0.026733398,
    0.02722168,
    0.013061523,
    0.0039978027,
    -0.014831543,
    -0.0045776367,
    0.016723633,
    -0.0031585693,
    -0.017944336,
    -0.026611328,
    0.015136719,
    0.00024414063,
    0.00074768066,
    -0.024658203,
    -0.026000977,
    -0.024536133,
    0.0390625,
    0.03112793,
    0.020019531,
    -0.04736328,
    -0.00033187866,
    0.0077819824,
    0.01586914,
    -0.013793945,
    -0.012329102,
    -0.006652832,
    0.035888672,
    0.025146484,
    0.0053710938,
    0.0027770996,
    0.0023498535,
    -0.061523438,
    0.025146484,
    -0.0154418945,
    0.01928711,
    0.002609253,
    -0.021362305,
    -0.012573242,
    -0.032470703,
    0.018310547,
    0.00090408325,
    -0.03100586,
    0.03149414,
    0.025390625,
    0.011474609,
    0.0095825195,
    0.014770508,
    0.030151367,
    -0.013427734,
    0.021972656,
    0.028198242,
    0.011169434,
    0.004699707,
    -0.048828125,
    -0.0073242188,
    0.00021076202,
    0.020507813,
    -0.023925781,
    0.033691406,
    -0.045898438,
    0.0146484375,
    -0.007537842,
    -0.017456055,
    -0.008117676,
    -0.008911133,
    -0.025756836,
    -0.004119873,
    0.008544922,
    0.007751465,
    -0.021728516,
    0.01550293,
    0.004180908,
    -0.01965332,
    0.0050354004,
    0.007537842,
    0.029296875,
    -0.010192871,
    0.032714844,
    -0.009094238,
    0.0063476563,
    0.0023651123,
    -0.017089844,
    0.024047852,
    0.044433594,
    0.009216309,
    0.024536133,
    -0.0056152344,
    -0.0076904297,
    0.030761719,
    0.02709961,
    -0.007873535,
    0.031982422,
    -0.002090454,
    0.014770508,
    0.014099121,
    -0.022460938,
    -0.0056152344,
    -0.021362305,
    -0.023925781,
    -0.025390625,
    -0.05078125,
    0.020751953,
    -0.060302734,
    0.017089844,
    0.03125,
    0.017578125,
    -0.0011825562,
    0.05859375,
    -0.016113281,
    -0.011108398,
    0.03125,
    0.003829956,
    -0.004486084,
    -0.025512695,
    0.0078125,
    0.05078125,
    0.005218506,
    0.007293701,
    0.010131836,
    0.028076172,
    -0.0077819824,
    0.016601563,
    0.026245117,
    0.008422852,
    -0.0057678223,
    -0.005554199,
    0.0087890625,
    0.03100586,
    -0.0011749268,
    0.002243042,
    0.01953125,
    -0.009216309,
    -0.011291504,
    -0.04321289,
    0.0028839111,
    0.010192871,
    0.009643555,
    -0.008178711,
    -0.045166016,
    -0.014038086,
    -0.014160156,
    0.0072631836,
    0.02734375,
    0.01373291,
    -0.018554688,
    0.00030899048,
    0.0138549805,
    0.013366699,
    -0.012634277,
    0.0079956055,
    -0.00047683716,
    -0.041015625,
    -0.045898438,
    0.014343262,
    0.0029144287,
    -0.0053710938,
    -0.019042969,
    -0.019897461,
    -0.0065307617,
    0.018432617,
    0.002319336,
    -0.012939453,
    0.018188477,
    -0.030761719,
    0.0059509277,
    0.0058288574,
    -0.0046691895,
    -0.007232666,
    -0.0044555664,
    -0.037109375,
    -0.00024032593,
    0.04248047,
    0.028442383,
    0.00491333,
    0.0072631836,
    0.021728516,
    -0.0059814453,
    -0.007507324,
    -0.003112793,
    -0.000541687,
    -0.015258789,
    0.022216797,
    0.01928711,
    0.028076172,
    -0.037109375,
    -0.0004234314,
    0.0079956055,
    0.003250122,
    0.010864258,
    -0.03955078,
    0.0010070801,
    0.010864258,
    0.037109375,
    0.01574707,
    0.020996094,
    0.004211426,
    -0.011108398,
    0.025390625,
    0.0063171387,
    0.007873535,
    -0.007171631,
    0.03173828,
    -0.014343262,
    0.0018539429,
    0.00982666,
    0.012573242,
    -0.010131836,
    -0.030029297,
    0.013916016,
    0.011352539,
    0.010559082,
    0.006011963,
    0.00982666,
    -0.0026245117,
    0.012451172,
    0.012390137,
    0.020751953,
    0.0016860962,
    -0.012817383,
    0.0048828125,
    -0.018920898,
    0.0043945313,
    -0.015991211,
    0.018310547,
    0.006072998,
    -0.025390625,
    -0.0074157715,
    0.020996094,
    -0.002319336,
    -0.010192871,
    -0.010620117,
    0.0039978027,
    0.00680542,
    -0.0034332275,
    0.0034484863,
    0.0087890625,
    0.019042969,
    -0.040039063,
    0.008178711,
    0.0073242188,
    -0.01928711,
    0.0017089844,
    0.0029754639,
    0.01361084,
    0.005706787,
    -0.024047852,
    -0.029052734,
    0.012084961,
    0.010253906,
    0.0068359375,
    0.019042969,
    -0.001953125,
    -0.014831543,
];
const Q4_K_BLOCK: [u8; 144] = [
    92, 8, 236, 19, 171, 175, 162, 191, 177, 191, 155, 189, 249, 88, 150, 160, 167, 166, 5,
    228, 125, 219, 169, 102, 135, 91, 216, 165, 84, 251, 232, 200, 180, 196, 244, 143, 222,
    236, 192, 168, 42, 155, 166, 214, 103, 255, 45, 201, 148, 146, 68, 100, 64, 69, 72, 23,
    161, 9, 151, 177, 151, 119, 236, 84, 109, 180, 119, 118, 66, 139, 223, 136, 139, 133, 164,
    109, 156, 164, 141, 101, 55, 90, 174, 120, 73, 172, 23, 134, 128, 105, 90, 106, 7, 112,
    246, 198, 138, 141, 187, 101, 88, 107, 123, 70, 186, 168, 193, 0, 123, 137, 119, 149, 176,
    104, 234, 191, 75, 140, 233, 150, 125, 121, 169, 182, 158, 165, 200, 234, 10, 182, 178, 91,
    170, 170, 217, 186, 71, 58, 202, 204, 184, 229, 153, 100,
];
