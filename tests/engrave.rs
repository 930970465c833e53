use pngraver::{local_differences, pixels_from_bytes, pixels_to_bytes, wrap_channel, Dist, LocalDiff, Matrix, Neighboors, ParseNeighboorsError, Pixel};

fn grid(width: usize, height: usize, f: impl Fn(usize, usize) -> Pixel) -> Matrix<Pixel> {
    let mut data = Vec::new();
    for x in 0..height {
        for y in 0..width {
            data.push(f(x, y));
        }
    }
    Matrix::new(data, width, height)
}

fn dists(n: &Neighboors) -> Vec<Dist> {
    (0..9).map(|k| n.get(k)).collect()
}

// The floating-point stage that follows the exact sums, with weight 1 for
// `One` and √2 for `Sqrt2`.
fn finish(d: &LocalDiff, add: f64, mult: f64, inv: bool) -> Pixel {
    let r2 = std::f64::consts::SQRT_2;
    let ms = d.n_one as f64 + r2 * d.n_sqrt2 as f64;
    let one = [d.one.0, d.one.1, d.one.2];
    let sqrt2 = [d.sqrt2.0, d.sqrt2.1, d.sqrt2.2];
    let center = [d.center.0, d.center.1, d.center.2];
    let mut out = [0u8; 3];
    for c in 0..3 {
        let v = center[c] as i64;
        let mut sum = (one[c] as i64 + d.n_one as i64 * v) as f64
            + r2 * (sqrt2[c] as i64 + d.n_sqrt2 as i64 * v) as f64;
        if ms != 0.0 {
            sum /= ms;
        }
        let diff = sum - center[c] as f64;
        let mut s = -diff * mult + add;
        if inv {
            s = 255.0 - s;
        }
        out[c] = wrap_channel(s.round() as i64);
    }
    (out[0], out[1], out[2])
}

#[test]
fn parse_default_code() {
    let n = Neighboors::parse("121202121").unwrap();
    let (o, r, z) = (Dist::One, Dist::Sqrt2, Dist::Inf);
    assert_eq!(dists(&n), vec![r, o, r, o, z, o, r, o, r]);
}

#[test]
fn parse_through_from_str() {
    let n: Neighboors = "000000002".parse().unwrap();
    assert_eq!(n.get(8), Dist::One);
    assert_eq!(n.get(0), Dist::Inf);
}

#[test]
fn parse_every_ternary_code() {
    for mut v in 0..19683u32 {
        let mut code = ['0'; 9];
        for k in (0..9).rev() {
            code[k] = char::from(b'0' + (v % 3) as u8);
            v /= 3;
        }
        let s: String = code.iter().collect();
        let n = Neighboors::parse(&s).unwrap();
        for k in 0..9 {
            let want = match code[k] {
                '0' => Dist::Inf,
                '1' => Dist::Sqrt2,
                _ => Dist::One,
            };
            assert_eq!(n.get(k), want, "code {} position {}", s, k);
        }
    }
}

#[test]
fn parse_wrong_length() {
    for s in ["", "12120212", "1212021210", "0"] {
        assert_eq!(Neighboors::parse(s).unwrap_err(), ParseNeighboorsError::InvalidLength);
    }
}

#[test]
fn parse_length_counts_characters() {
    assert_eq!(Neighboors::parse("12120212\u{e9}").unwrap_err(), ParseNeighboorsError::InvalidDigit);
    assert_eq!(Neighboors::parse("1212021\u{e9}").unwrap_err(), ParseNeighboorsError::InvalidLength);
}

#[test]
fn parse_bad_digit() {
    for s in ["121232121", "12120212a", "-21202121", " 21202121", "++1202121", "999999999"] {
        assert_eq!(Neighboors::parse(s).unwrap_err(), ParseNeighboorsError::InvalidDigit, "{}", s);
    }
}

#[test]
fn parse_refuses_a_sign() {
    for s in ["+21202121", "+12120212"] {
        assert_eq!(Neighboors::parse(s).unwrap_err(), ParseNeighboorsError::InvalidDigit, "{}", s);
    }
}

#[test]
fn matrix_accessors() {
    let m = grid(3, 2, |x, y| (x as u8, y as u8, 7));
    assert_eq!(m.width(), 3);
    assert_eq!(m.height(), 2);
    assert_eq!(m.as_slice().len(), 6);
    assert_eq!(*m.get(1, 2), (1, 2, 7));
    assert_eq!(m.as_slice()[5], (1, 2, 7));
    assert_eq!(m.into_vec()[3], (1, 0, 7));
}

#[test]
fn matrix_zeroed() {
    let m: Matrix<Pixel> = Matrix::zeroed(4, 3);
    assert_eq!((m.width(), m.height()), (4, 3));
    assert!(m.as_slice().iter().all(|p| *p == (0, 0, 0)));
    assert_eq!(m.as_slice().len(), 12);
}

#[test]
fn wrap_channel_is_modulo_256() {
    assert_eq!(wrap_channel(127), 127);
    assert_eq!(wrap_channel(255), 255);
    assert_eq!(wrap_channel(256), 0);
    assert_eq!(wrap_channel(300), 44);
    assert_eq!(wrap_channel(-1), 255);
    assert_eq!(wrap_channel(-256), 0);
}

#[test]
fn same_size_for_any_shape() {
    let n = Neighboors::parse("121202121").unwrap();
    for (w, h) in [(0, 0), (1, 1), (1, 5), (5, 1), (4, 3)] {
        let img = grid(w, h, |x, y| ((x * 31) as u8, (y * 17) as u8, 3));
        let r = local_differences(&img, &n);
        assert_eq!((r.width(), r.height()), (w, h));
        assert_eq!(r.as_slice().len(), w * h);
    }
}

#[test]
fn single_pixel_has_no_neighbours() {
    let n = Neighboors::parse("222222222").unwrap();
    let img = grid(1, 1, |_, _| (9, 8, 7));
    let d = local_differences(&img, &n).as_slice()[0];
    assert_eq!((d.n_one, d.n_sqrt2), (1, 0));
    assert_eq!(d.one, (0, 0, 0));
    assert_eq!(d.center, (9, 8, 7));
}

#[test]
fn twice_gives_the_same() {
    let n = Neighboors::parse("120201102").unwrap();
    let img = grid(5, 4, |x, y| ((x * 50 + y) as u8, (y * 40) as u8, (x ^ y) as u8));
    let a = local_differences(&img, &n);
    let b = local_differences(&img, &n);
    assert_eq!(a.as_slice(), b.as_slice());
}

#[test]
fn corner_counts_only_inside_neighbours() {
    let n = Neighboors::parse("212121212").unwrap();
    let img = grid(3, 3, |x, y| ((10 * (3 * x + y)) as u8, 0, 200));
    let d = *local_differences(&img, &n).get(0, 0);
    // Inside the grid: (0,0) and (1,1) at One, (0,1) and (1,0) at Sqrt2.
    assert_eq!(d.n_one, 2);
    assert_eq!(d.n_sqrt2, 2);
    assert_eq!(d.one.0, 0 + 40);
    assert_eq!(d.sqrt2.0, 10 + 30);
    assert_eq!(d.one.2, 0);
    assert_eq!(d.center, (0, 0, 200));
}

#[test]
fn middle_counts_the_whole_block() {
    let n = Neighboors::parse("212121212").unwrap();
    let img = grid(3, 3, |x, y| ((10 * (3 * x + y)) as u8, 0, 0));
    let d = *local_differences(&img, &n).get(1, 1);
    assert_eq!((d.n_one, d.n_sqrt2), (5, 4));
    assert_eq!(d.one.0, (0 - 40) + (20 - 40) + 0 + (60 - 40) + (80 - 40));
    assert_eq!(d.sqrt2.0, (10 - 40) + (30 - 40) + (50 - 40) + (70 - 40));
    let e = *local_differences(&img, &n).get(1, 2);
    // Column 3 lies outside: (0,1) (0,2) (1,1) (1,2) (2,1) (2,2) remain.
    assert_eq!((e.n_one, e.n_sqrt2), (3, 3));
    assert_eq!(e.one.0, (10 - 50) + (50 - 50) + (70 - 50));
    assert_eq!(e.sqrt2.0, (20 - 50) + (40 - 50) + (80 - 50));
}

#[test]
fn zero_mask_counts_nothing() {
    let n = Neighboors::parse("000000000").unwrap();
    let img = grid(3, 2, |x, y| ((x * 3 + y) as u8 * 20, 5, 250));
    let r = local_differences(&img, &n);
    for x in 0..2 {
        for y in 0..3 {
            let d = *r.get(x, y);
            assert_eq!((d.n_one, d.n_sqrt2), (0, 0));
            assert_eq!((d.one, d.sqrt2), ((0, 0, 0), (0, 0, 0)));
            assert_eq!(d.center, *img.get(x, y));
        }
    }
    // output = center * mult + add
    let d = *r.get(1, 2);
    assert_eq!(finish(&d, 10.0, 0.5, false), (60, 13, 135));
}

#[test]
fn uniform_image_gives_flat_grey() {
    let n = Neighboors::parse("121202121").unwrap();
    let img = grid(3, 3, |_, _| (100, 100, 100));
    let r = local_differences(&img, &n);
    for d in r.as_slice() {
        assert_eq!((d.one, d.sqrt2), ((0, 0, 0), (0, 0, 0)));
        assert_eq!(finish(d, 127.0, 0.5, false), (127, 127, 127));
    }
}

#[test]
fn uniform_image_inverted() {
    let n = Neighboors::parse("121202121").unwrap();
    let img = grid(3, 3, |_, _| (100, 100, 100));
    let r = local_differences(&img, &n);
    for d in r.as_slice() {
        assert_eq!(finish(d, 127.0, 0.5, true), (128, 128, 128));
    }
}

#[test]
fn bytes_to_pixels_and_back() {
    let bytes = [1u8, 2, 3, 4, 5, 6, 7];
    let p = pixels_from_bytes(&bytes);
    assert_eq!(p, vec![(1, 2, 3), (4, 5, 6)]);
    assert_eq!(pixels_to_bytes(&p), vec![1, 2, 3, 4, 5, 6]);
    assert!(pixels_from_bytes(&[]).is_empty());
}

#[test]
fn matrix_rows() {
    let m = grid(3, 2, |x, y| (x as u8, y as u8, 0));
    assert_eq!(m.row(0), &[(0, 0, 0), (0, 1, 0), (0, 2, 0)]);
    assert_eq!(m.row(1), &[(1, 0, 0), (1, 1, 0), (1, 2, 0)]);
}

#[test]
fn rows_computed_apart_agree() {
    let n = Neighboors::parse("121202121").unwrap();
    let img = grid(4, 5, |x, y| ((x * 37 + y * 11) as u8, (x * y) as u8, 9));
    let whole = local_differences(&img, &n);
    for x in 0..5usize {
        let top = x.saturating_sub(1);
        let bottom = (x + 1).min(4);
        let sub = Matrix::new(img.as_slice()[top * 4..(bottom + 1) * 4].to_vec(), 4, bottom - top + 1);
        let part = local_differences(&sub, &n);
        assert_eq!(part.row(x - top), whole.row(x));
    }
}

#[test]
fn from_str_reports_errors() {
    assert_eq!("12120212".parse::<Neighboors>().unwrap_err(), ParseNeighboorsError::InvalidLength);
    assert_eq!("1234567890".parse::<Neighboors>().unwrap_err(), ParseNeighboorsError::InvalidLength);
    assert_eq!("121202131".parse::<Neighboors>().unwrap_err(), ParseNeighboorsError::InvalidDigit);
}
