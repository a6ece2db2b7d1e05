use botgen::{compose, format_binary8, robot_config, sample, stamp, Canvas, Image, Phase, Rgb, Scheduler};

fn solid_image(w: usize, h: usize, rgba: [u8; 4]) -> Image {
    let mut data: Vec<u8> = Vec::new();
    for _ in 0..w * h {
        data.extend_from_slice(&rgba);
    }
    Image::from_bytes(w, h, data).unwrap()
}

fn set_pixel(c: &mut Canvas, x: usize, y: usize, rgba: [u8; 4]) {
    let off = y * c.pitch + 4 * x;
    c.data[off..off + 4].copy_from_slice(&rgba);
}

fn get_pixel(c: &Canvas, x: usize, y: usize) -> [u8; 4] {
    let off = y * c.pitch + 4 * x;
    [c.data[off], c.data[off + 1], c.data[off + 2], c.data[off + 3]]
}

#[test]
fn sampled_indices_in_range() {
    let config = robot_config();
    for _ in 0..200 {
        let s = sample(&config);
        assert!(s.background < config.palette.len());
        assert_eq!(s.layers.len(), config.layers.len());
        for (k, &i) in s.layers.iter().enumerate() {
            assert!(i < config.layers[k].cardinality);
        }
    }
}

#[test]
fn binary_watermark_strings() {
    assert_eq!(format_binary8(0), "00000000");
    assert_eq!(format_binary8(1), "00000001");
    assert_eq!(format_binary8(3), "00000011");
    assert_eq!(format_binary8(255), "11111111");
}

#[test]
fn complement_values() {
    let black = Rgb { r: 0, g: 0, b: 0 };
    let magenta = Rgb { r: 255, g: 0, b: 255 };
    assert_eq!(black.complement(), Rgb { r: 255, g: 255, b: 255 });
    assert_eq!(magenta.complement(), Rgb { r: 0, g: 255, b: 0 });
    assert_eq!(magenta.complement().complement(), magenta);
}

#[test]
fn recolor_twice_equals_once() {
    let sent = Rgb { r: 255, g: 255, b: 255 };
    let bg = Rgb { r: 255, g: 0, b: 255 };
    let build = || {
        let mut c = Canvas::new(4, 4);
        c.fill(bg);
        set_pixel(&mut c, 1, 1, [255, 255, 255, 9]);
        set_pixel(&mut c, 2, 3, [255, 255, 255, 7]);
        set_pixel(&mut c, 0, 0, [1, 2, 3, 4]);
        c
    };
    let mut once = build();
    once.recolor(sent, bg);
    let mut twice = build();
    twice.recolor(sent, bg);
    twice.recolor(sent, bg);
    assert_eq!(once.data, twice.data);
}

#[test]
fn recolor_twice_equals_once_when_complement_is_sentinel() {
    // With a black background the complement is the sentinel itself, so the
    // second pass recolors the same pixels to the same value again.
    let sent = Rgb { r: 255, g: 255, b: 255 };
    let bg = Rgb { r: 0, g: 0, b: 0 };
    let build = || {
        let mut c = Canvas::new(3, 3);
        c.fill(bg);
        set_pixel(&mut c, 2, 2, [255, 255, 255, 11]);
        c
    };
    let mut once = build();
    once.recolor(sent, bg);
    let mut twice = build();
    twice.recolor(sent, bg);
    twice.recolor(sent, bg);
    assert_eq!(once.data, twice.data);
    assert_eq!(get_pixel(&once, 2, 2), [255, 255, 255, 11]);
}

#[test]
fn recolor_leaves_non_sentinel_pixels_unchanged() {
    let sent = Rgb { r: 255, g: 255, b: 255 };
    let bg = Rgb { r: 0, g: 255, b: 0 };
    let mut c = Canvas::new(5, 4);
    c.fill(bg);
    set_pixel(&mut c, 0, 0, [254, 255, 255, 8]);
    set_pixel(&mut c, 4, 3, [10, 20, 30, 40]);
    set_pixel(&mut c, 2, 2, [255, 255, 255, 1]);
    let before = c.data.clone();
    c.recolor(sent, bg);
    for y in 0..4 {
        for x in 0..5 {
            let off = y * c.pitch + 4 * x;
            let was_sentinel =
                before[off] == 255 && before[off + 1] == 255 && before[off + 2] == 255;
            if !was_sentinel {
                for chan in 0..4 {
                    assert_eq!(c.data[off + chan], before[off + chan]);
                }
            }
        }
    }
    // The one sentinel pixel became the complement of green, alpha kept.
    assert_eq!(get_pixel(&c, 2, 2), [255, 0, 255, 1]);
}

#[test]
fn recolor_complement_values() {
    let sent = Rgb { r: 255, g: 255, b: 255 };
    // Black background: sentinel pixels become white.
    let mut c = Canvas::new(2, 2);
    c.fill(Rgb { r: 0, g: 0, b: 0 });
    set_pixel(&mut c, 0, 1, [255, 255, 255, 3]);
    c.recolor(sent, Rgb { r: 0, g: 0, b: 0 });
    assert_eq!(get_pixel(&c, 0, 1), [255, 255, 255, 3]);
    // Magenta background: sentinel pixels become green.
    let mut d = Canvas::new(2, 2);
    d.fill(Rgb { r: 255, g: 0, b: 255 });
    set_pixel(&mut d, 1, 0, [255, 255, 255, 5]);
    d.recolor(sent, Rgb { r: 255, g: 0, b: 255 });
    assert_eq!(get_pixel(&d, 1, 0), [0, 255, 0, 5]);
}

#[test]
fn recolor_respects_stride_padding() {
    // A canvas whose stride exceeds the pixel bytes of a row: the padding
    // bytes must come through the recolor pass untouched.
    let width = 2;
    let height = 2;
    let pitch = 12;
    let mut data = vec![0u8; pitch * height];
    for (i, b) in data.iter_mut().enumerate() {
        *b = i as u8;
    }
    let mut c = Canvas { width, height, pitch, data: data.clone() };
    c.recolor(Rgb { r: 255, g: 255, b: 255 }, Rgb { r: 0, g: 0, b: 0 });
    for y in 0..height {
        for p in 4 * width..pitch {
            assert_eq!(c.data[y * pitch + p], data[y * pitch + p]);
        }
    }
}

#[test]
fn fill_overwrites_every_pixel() {
    let color = Rgb { r: 9, g: 8, b: 7 };
    let mut c = Canvas::new(3, 2);
    set_pixel(&mut c, 1, 1, [250, 251, 252, 253]);
    c.fill(color);
    for y in 0..2 {
        for x in 0..3 {
            assert_eq!(get_pixel(&c, x, y), [9, 8, 7, 255]);
        }
    }
}

#[test]
fn blit_last_write_wins_in_overlap() {
    let mut c = Canvas::new(4, 4);
    c.fill(Rgb { r: 0, g: 0, b: 0 });
    let a = solid_image(2, 2, [255, 0, 0, 255]);
    let b = solid_image(2, 2, [0, 0, 255, 255]);
    c.blit(&a, 0, 0);
    c.blit(&b, 1, 1);
    // The overlap shows only the later image.
    assert_eq!(get_pixel(&c, 1, 1), [0, 0, 255, 255]);
    assert_eq!(get_pixel(&c, 2, 2), [0, 0, 255, 255]);
    // The part of the first rectangle outside the second still shows it.
    assert_eq!(get_pixel(&c, 0, 0), [255, 0, 0, 255]);
    assert_eq!(get_pixel(&c, 1, 0), [255, 0, 0, 255]);
    // Pixels under neither rectangle keep the background.
    assert_eq!(get_pixel(&c, 3, 0), [0, 0, 0, 255]);
}

#[test]
fn image_from_bytes_checks_size() {
    assert!(Image::from_bytes(2, 2, vec![0u8; 16]).is_some());
    assert!(Image::from_bytes(2, 2, vec![0u8; 15]).is_none());
    assert!(Image::from_bytes(2, 2, vec![0u8; 17]).is_none());
    assert!(Image::from_bytes(0, 5, vec![]).is_some());
}

#[test]
fn locator_is_zero_padded() {
    let config = robot_config();
    assert_eq!(config.layers[0].resolve(7), "img/head/head_07.png");
    assert_eq!(config.layers[1].resolve(0), "img/torso/torso_00.png");
    assert_eq!(config.layers[2].resolve(3), "img/antennas/ants_03.png");
}

#[test]
fn robot_config_is_well_formed() {
    let config = robot_config();
    assert!(config.is_well_formed());
    assert_eq!(config.palette.len(), 7);
    assert_eq!(config.palette[0], Rgb { r: 0, g: 0, b: 0 });
    assert_eq!(config.palette[6], Rgb { r: 255, g: 128, b: 0 });
    assert_eq!(config.layers.len(), 3);
    assert_eq!(config.width, 256);
    assert_eq!(config.height, 256);
    assert_eq!(config.sentinel, Rgb { r: 255, g: 255, b: 255 });
    assert_eq!(config.start, 0);
    assert_eq!(config.bound, 256);
    let mut bad = robot_config();
    bad.palette.clear();
    assert!(!bad.is_well_formed());
}

#[test]
fn compose_layers_in_declared_order() {
    let mut config = robot_config();
    // Shrink to a small canvas with two overlapping layers.
    config.width = 4;
    config.height = 4;
    config.wm_dx = 0;
    config.wm_dy = 0;
    config.wm_w = 2;
    config.wm_h = 1;
    config.layers.truncate(2);
    config.layers[0].dx = 0;
    config.layers[0].dy = 0;
    config.layers[0].w = 2;
    config.layers[0].h = 2;
    config.layers[1].dx = 1;
    config.layers[1].dy = 1;
    config.layers[1].w = 2;
    config.layers[1].h = 2;
    assert!(config.is_well_formed());
    let s = botgen::AttributeSample { background: 1, layers: vec![0, 0] };
    let images = vec![
        solid_image(2, 2, [10, 10, 10, 255]),
        solid_image(2, 2, [20, 20, 20, 255]),
    ];
    let c = compose(&config, &s, &images);
    // Background fill where no layer covers.
    assert_eq!(get_pixel(&c, 3, 3), [255, 0, 0, 255]);
    // First layer where only it covers.
    assert_eq!(get_pixel(&c, 0, 0), [10, 10, 10, 255]);
    // The overlap shows the later layer.
    assert_eq!(get_pixel(&c, 1, 1), [20, 20, 20, 255]);
}

#[test]
fn stamp_overwrites_reserved_rectangle() {
    let mut config = robot_config();
    config.width = 4;
    config.height = 4;
    config.layers.clear();
    config.wm_dx = 1;
    config.wm_dy = 2;
    config.wm_w = 2;
    config.wm_h = 1;
    let mut c = Canvas::new(4, 4);
    c.fill(Rgb { r: 5, g: 5, b: 5 });
    let glyph = solid_image(2, 1, [255, 255, 255, 255]);
    stamp(&mut c, &config, &glyph);
    assert_eq!(get_pixel(&c, 1, 2), [255, 255, 255, 255]);
    assert_eq!(get_pixel(&c, 2, 2), [255, 255, 255, 255]);
    assert_eq!(get_pixel(&c, 0, 2), [5, 5, 5, 255]);
}

#[test]
fn four_item_run_to_exhaustion() {
    let mut config = robot_config();
    config.bound = 4;
    let mut sched = Scheduler::new(config.start, config.bound);
    sched.begin();
    let mut canvases: Vec<Canvas> = Vec::new();
    let mut backgrounds: Vec<Rgb> = Vec::new();
    let mut counters: Vec<u32> = Vec::new();
    let mut watermarks: Vec<String> = Vec::new();
    while sched.phase == Phase::Running {
        match sched.tick(false) {
            Some(index) => {
                let s = sample(&config);
                let images: Vec<Image> = config
                    .layers
                    .iter()
                    .map(|l| solid_image(l.w, l.h, [1, 2, 3, 255]))
                    .collect();
                let mut c = compose(&config, &s, &images);
                let glyph = solid_image(config.wm_w, config.wm_h, [255, 255, 255, 255]);
                stamp(&mut c, &config, &glyph);
                let bg = config.palette[s.background];
                c.recolor(config.sentinel, bg);
                counters.push(index);
                watermarks.push(format_binary8(index));
                backgrounds.push(bg);
                canvases.push(c);
            },
            None => {},
        }
    }
    assert_eq!(sched.phase, Phase::Exhausted);
    assert_eq!(canvases.len(), 4);
    assert_eq!(counters, vec![0, 1, 2, 3]);
    assert_eq!(watermarks, vec!["00000000", "00000001", "00000010", "00000011"]);
    // Every produced canvas is fully recolored: the watermark region shows
    // the complement of that item's background, never the raw sentinel.
    for (c, bg) in canvases.iter().zip(backgrounds.iter()) {
        let p = get_pixel(c, config.wm_dx, config.wm_dy);
        assert_eq!(p, [255 - bg.r, 255 - bg.g, 255 - bg.b, 255]);
    }
}

#[test]
fn cancellation_after_two_items() {
    let config = robot_config();
    let mut sched = Scheduler::new(config.start, config.bound);
    sched.begin();
    let mut presented: u32 = 0;
    while sched.phase == Phase::Running {
        // The cancel signal is observed at the end of the second tick.
        let cancel = presented == 1;
        match sched.tick(cancel) {
            Some(_) => presented += 1,
            None => {},
        }
    }
    assert_eq!(sched.phase, Phase::Cancelled);
    assert_eq!(presented, 2);
    assert_eq!(sched.counter, 2);
}

#[test]
fn scheduler_exhausts_at_bound() {
    let mut sched = Scheduler::new(3, 3);
    sched.begin();
    assert_eq!(sched.tick(false), None);
    assert_eq!(sched.phase, Phase::Exhausted);
}
