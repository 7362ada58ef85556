use butter_video::convert::{
    frame_fits, narrow, plane_covers, push_rgb, select_colorimetry, to_rgb, to_rgb_checked, to_rgb_with,
    yuv_to_rgb_u16, yuv_to_rgb_u8, Colorimetry,
};
use butter_video::frame::{DecodedFrame, Plane, Reading, Samples};
use butter_video::stream::{BitDepth, ChromaLayout, SampleWidth, StreamDescriptor};

fn narrow_plane(width: usize, height: usize, samples: Vec<u8>) -> Plane {
    Plane::packed(width, height, Samples::Narrow(samples)).unwrap()
}

fn wide_plane(width: usize, height: usize, samples: Vec<u16>) -> Plane {
    Plane::packed(width, height, Samples::Wide(samples)).unwrap()
}

/// Width and height of the chroma planes a decoder hands out for a layout.
fn chroma_size(layout: ChromaLayout, width: usize, height: usize) -> (usize, usize) {
    match layout {
        ChromaLayout::Mono => (0, 0),
        ChromaLayout::Cs420 => ((width + 1) / 2, (height + 1) / 2),
        ChromaLayout::Cs422 => ((width + 1) / 2, height),
        ChromaLayout::Cs444 => (width, height),
    }
}

/// A frame in which every luma sample is `y` and every chroma sample `u` or `v`.
fn uniform(layout: ChromaLayout, bits: usize, width: usize, height: usize, y: u16, u: u16, v: u16) -> (DecodedFrame, StreamDescriptor) {
    let plane = |w: usize, h: usize, value: u16| {
        if bits == 8 {
            narrow_plane(w, h, vec![value as u8; w * h])
        } else {
            wide_plane(w, h, vec![value; w * h])
        }
    };
    let chroma = match layout {
        ChromaLayout::Mono => None,
        _ => {
            let (cw, ch) = chroma_size(layout, width, height);
            Some((plane(cw, ch, u), plane(cw, ch, v)))
        }
    };
    let frame = DecodedFrame { luma: plane(width, height, y), chroma };
    (frame, StreamDescriptor::new(width, height, bits, layout).unwrap())
}

const LAYOUTS: [ChromaLayout; 4] = [ChromaLayout::Mono, ChromaLayout::Cs420, ChromaLayout::Cs422, ChromaLayout::Cs444];

#[test]
fn heights_above_576_are_high_definition() {
    assert_eq!(select_colorimetry(577), Colorimetry::Bt709);
    assert_eq!(select_colorimetry(720), Colorimetry::Bt709);
    assert_eq!(select_colorimetry(1080), Colorimetry::Bt709);
    assert_eq!(select_colorimetry(usize::MAX), Colorimetry::Bt709);
}

#[test]
fn heights_up_to_576_are_standard_definition() {
    assert_eq!(select_colorimetry(0), Colorimetry::Bt601);
    assert_eq!(select_colorimetry(480), Colorimetry::Bt601);
    assert_eq!(select_colorimetry(575), Colorimetry::Bt601);
    assert_eq!(select_colorimetry(576), Colorimetry::Bt601);
}

#[test]
fn narrow_samples_are_kept_and_wide_samples_shifted() {
    assert_eq!(narrow(Reading { value: 200, width: SampleWidth::Narrow }, BitDepth::Depth8), 200);
    assert_eq!(narrow(Reading { value: 200, width: SampleWidth::Narrow }, BitDepth::Depth10), 200);
    assert_eq!(narrow(Reading { value: 200, width: SampleWidth::Wide }, BitDepth::Depth8), 200);
    assert_eq!(narrow(Reading { value: 1023, width: SampleWidth::Wide }, BitDepth::Depth10), 255);
    assert_eq!(narrow(Reading { value: 512, width: SampleWidth::Wide }, BitDepth::Depth10), 128);
    assert_eq!(narrow(Reading { value: 4095, width: SampleWidth::Wide }, BitDepth::Depth12), 255);
    assert_eq!(narrow(Reading { value: 2049, width: SampleWidth::Wide }, BitDepth::Depth12), 128);
    assert_eq!(narrow(Reading { value: 65535, width: SampleWidth::Wide }, BitDepth::Depth16), 255);
    assert_eq!(narrow(Reading { value: 0x1234, width: SampleWidth::Wide }, BitDepth::Depth16), 0x12);
}

#[test]
fn a_wide_sample_beyond_its_depth_wraps() {
    assert_eq!(narrow(Reading { value: 0xffff, width: SampleWidth::Wide }, BitDepth::Depth10), 0xff);
    assert_eq!(narrow(Reading { value: 1024, width: SampleWidth::Wide }, BitDepth::Depth10), 0);
    assert_eq!(narrow(Reading { value: 4096 + 16, width: SampleWidth::Wide }, BitDepth::Depth12), 1);
    assert_eq!(narrow(Reading { value: 256, width: SampleWidth::Wide }, BitDepth::Depth8), 0);
}

#[test]
fn a_pixel_is_appended_red_green_blue() {
    let mut raster = vec![9u8];
    push_rgb(&mut raster, (1, 2, 3));
    push_rgb(&mut raster, (4, 5, 6));
    assert_eq!(raster, vec![9, 1, 2, 3, 4, 5, 6]);
}

#[test]
fn the_matrix_is_applied_to_a_pixel_with_chroma() {
    let (frame, desc) = uniform(ChromaLayout::Cs444, 8, 1, 1, 128, 115, 90);
    assert_eq!(to_rgb_with::<u8>(&frame, &desc, Colorimetry::Bt601), vec![70, 167, 104]);
    assert_eq!(to_rgb_with::<u8>(&frame, &desc, Colorimetry::Bt709), vec![62, 154, 103]);
}

#[test]
fn limited_range_black_and_white() {
    let (black, desc) = uniform(ChromaLayout::Cs444, 8, 1, 1, 16, 128, 128);
    let (white, _) = uniform(ChromaLayout::Cs444, 8, 1, 1, 235, 128, 128);
    for standard in [Colorimetry::Bt601, Colorimetry::Bt709] {
        assert_eq!(to_rgb_with::<u8>(&black, &desc, standard), vec![0, 0, 0]);
        assert_eq!(to_rgb_with::<u8>(&white, &desc, standard), vec![255, 255, 255]);
    }
}

#[test]
fn the_two_standards_differ_on_saturated_colors() {
    let (red, desc) = uniform(ChromaLayout::Cs444, 8, 1, 1, 81, 90, 240);
    assert_eq!(to_rgb_with::<u8>(&red, &desc, Colorimetry::Bt601), vec![255, 0, 0]);
    assert_eq!(to_rgb_with::<u8>(&red, &desc, Colorimetry::Bt709), vec![255, 24, 0]);
    let (green, _) = uniform(ChromaLayout::Cs444, 8, 1, 1, 145, 54, 34);
    assert_eq!(to_rgb_with::<u8>(&green, &desc, Colorimetry::Bt601), vec![0, 255, 0]);
    assert_eq!(to_rgb_with::<u8>(&green, &desc, Colorimetry::Bt709), vec![0, 216, 0]);
    let (blue, _) = uniform(ChromaLayout::Cs444, 8, 1, 1, 41, 240, 110);
    assert_eq!(to_rgb_with::<u8>(&blue, &desc, Colorimetry::Bt601), vec![0, 0, 255]);
    assert_eq!(to_rgb_with::<u8>(&blue, &desc, Colorimetry::Bt709), vec![0, 14, 255]);
}

#[test]
fn the_wide_matrix_is_applied_at_the_depth_of_the_stream() {
    let (ten, ten_desc) = uniform(ChromaLayout::Cs444, 10, 1, 1, 512, 460, 360);
    assert_eq!(to_rgb_with::<u16>(&ten, &ten_desc, Colorimetry::Bt601), vec![17929, 42764, 26776]);
    assert_eq!(to_rgb_with::<u16>(&ten, &ten_desc, Colorimetry::Bt709), vec![16007, 39433, 26458]);
    let (twelve, twelve_desc) = uniform(ChromaLayout::Cs444, 12, 1, 1, 2048, 1840, 1440);
    assert_eq!(to_rgb_with::<u16>(&twelve, &twelve_desc, Colorimetry::Bt709), vec![16007, 39433, 26458]);
    let (sixteen, sixteen_desc) = uniform(ChromaLayout::Cs444, 16, 1, 1, 32768, 30000, 20000);
    assert_eq!(to_rgb_with::<u16>(&sixteen, &sixteen_desc, Colorimetry::Bt601), vec![12784, 44985, 27525]);
    assert_eq!(to_rgb_with::<u16>(&sixteen, &sixteen_desc, Colorimetry::Bt709), vec![10247, 40857, 27249]);
    let (eight, eight_desc) = uniform(ChromaLayout::Cs444, 8, 1, 1, 128, 115, 90);
    assert_eq!(to_rgb_with::<u16>(&eight, &eight_desc, Colorimetry::Bt709), vec![16007, 39433, 26458]);
}

#[test]
fn wide_limited_range_black_and_white() {
    let (black, desc) = uniform(ChromaLayout::Cs444, 10, 1, 1, 64, 512, 512);
    let (white, _) = uniform(ChromaLayout::Cs444, 10, 1, 1, 940, 512, 512);
    assert_eq!(yuv_to_rgb_u16(&black, &desc), vec![0, 0, 0]);
    assert_eq!(yuv_to_rgb_u16(&white, &desc), vec![65535, 65535, 65535]);
}

#[test]
fn a_uniform_frame_converts_to_a_uniform_raster_at_every_depth_and_layout() {
    let expected_601 = [70u8, 167, 104];
    for layout in LAYOUTS {
        for bits in [8usize, 10, 12, 16] {
            let scale = 1u16 << (bits - 8);
            let (frame, desc) = uniform(layout, bits, 5, 3, 128 * scale, 115 * scale, 90 * scale);
            assert!(frame_fits(&frame, &desc));
            let raster = yuv_to_rgb_u8(&frame, &desc);
            assert_eq!(raster.len(), 5 * 3 * 3);
            for pixel in raster.chunks(3) {
                if layout == ChromaLayout::Mono {
                    assert_eq!(pixel, [128, 128, 128]);
                } else {
                    assert_eq!(pixel, expected_601);
                }
            }
        }
    }
}

#[test]
fn a_uniform_frame_converts_to_a_uniform_wide_raster() {
    for layout in LAYOUTS {
        for (bits, scale) in [(10usize, 4u16), (12, 16)] {
            let (frame, desc) = uniform(layout, bits, 4, 2, 128 * scale, 115 * scale, 90 * scale);
            let raster = to_rgb_with::<u16>(&frame, &desc, Colorimetry::Bt709);
            assert_eq!(raster.len(), 4 * 2 * 3);
            for pixel in raster.chunks(3) {
                if layout == ChromaLayout::Mono {
                    assert_eq!(pixel, [128 * scale, 128 * scale, 128 * scale]);
                } else {
                    assert_eq!(pixel, [16007, 39433, 26458]);
                }
            }
        }
    }
}

#[test]
fn converting_twice_gives_the_same_raster() {
    let luma = narrow_plane(4, 2, vec![16, 40, 80, 120, 160, 200, 235, 255]);
    let u = narrow_plane(2, 1, vec![90, 200]);
    let v = narrow_plane(2, 1, vec![240, 30]);
    let frame = DecodedFrame { luma, chroma: Some((u, v)) };
    let desc = StreamDescriptor::new(4, 2, 8, ChromaLayout::Cs420).unwrap();
    let first = yuv_to_rgb_u8(&frame, &desc);
    let second = yuv_to_rgb_u8(&frame, &desc);
    assert_eq!(first, second);
    assert_eq!(to_rgb::<u16>(&frame, &desc), to_rgb::<u16>(&frame, &desc));
}

#[test]
fn a_monochrome_frame_is_gray_pixel_by_pixel() {
    let frame = DecodedFrame { luma: narrow_plane(3, 2, vec![0, 16, 100, 128, 235, 255]), chroma: None };
    let desc = StreamDescriptor::new(3, 2, 8, ChromaLayout::Mono).unwrap();
    let expected = vec![0, 0, 0, 16, 16, 16, 100, 100, 100, 128, 128, 128, 235, 235, 235, 255, 255, 255];
    assert_eq!(yuv_to_rgb_u8(&frame, &desc), expected);
    assert_eq!(to_rgb_with::<u8>(&frame, &desc, Colorimetry::Bt601), expected);
    assert_eq!(to_rgb_with::<u8>(&frame, &desc, Colorimetry::Bt709), expected);
}

#[test]
fn a_deep_monochrome_frame_is_gray_with_the_shifted_sample() {
    let frame = DecodedFrame { luma: wide_plane(2, 2, vec![0, 3, 4, 1023]), chroma: None };
    let desc = StreamDescriptor::new(2, 2, 10, ChromaLayout::Mono).unwrap();
    assert_eq!(yuv_to_rgb_u8(&frame, &desc), vec![0, 0, 0, 0, 0, 0, 1, 1, 1, 255, 255, 255]);
    let frame = DecodedFrame { luma: wide_plane(2, 1, vec![4095, 0x0800]), chroma: None };
    let desc = StreamDescriptor::new(2, 1, 12, ChromaLayout::Mono).unwrap();
    assert_eq!(yuv_to_rgb_u8(&frame, &desc), vec![255, 255, 255, 128, 128, 128]);
    let frame = DecodedFrame { luma: wide_plane(2, 1, vec![0xabcd, 0x0100]), chroma: None };
    let desc = StreamDescriptor::new(2, 1, 16, ChromaLayout::Mono).unwrap();
    assert_eq!(yuv_to_rgb_u8(&frame, &desc), vec![0xab, 0xab, 0xab, 1, 1, 1]);
}

#[test]
fn a_monochrome_frame_keeps_its_samples_in_wide_output() {
    let frame = DecodedFrame { luma: wide_plane(2, 1, vec![1023, 77]), chroma: None };
    let desc = StreamDescriptor::new(2, 1, 10, ChromaLayout::Mono).unwrap();
    assert_eq!(yuv_to_rgb_u16(&frame, &desc), vec![1023, 1023, 1023, 77, 77, 77]);
}

#[test]
fn a_monochrome_stream_ignores_chroma_planes_it_is_given() {
    let (frame, _) = uniform(ChromaLayout::Cs444, 8, 2, 2, 50, 200, 30);
    let desc = StreamDescriptor::new(2, 2, 8, ChromaLayout::Mono).unwrap();
    assert!(frame_fits(&frame, &desc));
    assert_eq!(yuv_to_rgb_u8(&frame, &desc), vec![50; 12]);
}

#[test]
fn narrow_samples_are_not_shifted_whatever_the_declared_depth() {
    let frame = DecodedFrame { luma: narrow_plane(1, 1, vec![200]), chroma: None };
    let desc = StreamDescriptor::new(1, 1, 10, ChromaLayout::Mono).unwrap();
    assert_eq!(yuv_to_rgb_u8(&frame, &desc), vec![200, 200, 200]);
}

#[test]
fn a_tall_frame_is_converted_with_the_high_definition_matrix() {
    let (tall, desc) = uniform(ChromaLayout::Cs444, 8, 1, 577, 128, 115, 90);
    let raster = yuv_to_rgb_u8(&tall, &desc);
    assert_eq!(raster.len(), 577 * 3);
    assert_eq!(raster[..3], [62, 154, 103]);
    assert_eq!(raster, to_rgb_with::<u8>(&tall, &desc, Colorimetry::Bt709));
    let (short, desc) = uniform(ChromaLayout::Cs444, 8, 1, 576, 128, 115, 90);
    let raster = yuv_to_rgb_u8(&short, &desc);
    assert_eq!(raster[..3], [70, 167, 104]);
    assert_eq!(raster, to_rgb_with::<u8>(&short, &desc, Colorimetry::Bt601));
}

#[test]
fn the_standard_follows_the_luma_plane_not_the_descriptor() {
    let (frame, _) = uniform(ChromaLayout::Cs444, 8, 1, 2, 128, 115, 90);
    let desc = StreamDescriptor::new(1, 1080, 8, ChromaLayout::Cs444).unwrap();
    assert_eq!(yuv_to_rgb_u8(&frame, &desc), vec![70, 167, 104, 70, 167, 104]);
}

/// Converts a frame whose chroma planes are already at luma resolution.
fn convert_444(luma: Vec<u8>, u: Vec<u8>, v: Vec<u8>, width: usize, height: usize) -> Vec<u8> {
    let frame = DecodedFrame {
        luma: narrow_plane(width, height, luma),
        chroma: Some((narrow_plane(width, height, u), narrow_plane(width, height, v))),
    };
    let desc = StreamDescriptor::new(width, height, 8, ChromaLayout::Cs444).unwrap();
    yuv_to_rgb_u8(&frame, &desc)
}

#[test]
fn four_two_zero_shares_a_chroma_sample_among_four_pixels() {
    let luma: Vec<u8> = vec![20, 40, 60, 80, 100, 120, 140, 160, 180, 200, 220, 235];
    let frame = DecodedFrame {
        luma: narrow_plane(4, 3, luma.clone()),
        chroma: Some((narrow_plane(2, 2, vec![90, 110, 130, 150]), narrow_plane(2, 2, vec![240, 200, 160, 120]))),
    };
    let desc = StreamDescriptor::new(4, 3, 8, ChromaLayout::Cs420).unwrap();
    assert!(frame_fits(&frame, &desc));
    let expected = convert_444(
        luma,
        vec![90, 90, 110, 110, 90, 90, 110, 110, 130, 130, 150, 150],
        vec![240, 240, 200, 200, 240, 240, 200, 200, 160, 160, 120, 120],
        4,
        3,
    );
    assert_eq!(yuv_to_rgb_u8(&frame, &desc), expected);
}

#[test]
fn four_two_two_reads_chroma_at_the_column_and_half_the_row() {
    let luma: Vec<u8> = vec![20, 40, 60, 80, 100, 120, 140, 160];
    let frame = DecodedFrame {
        luma: narrow_plane(2, 4, luma.clone()),
        chroma: Some((
            Plane::new(1, 4, 2, Samples::Narrow(vec![90, 91, 110, 111, 130, 131, 150, 151])).unwrap(),
            Plane::new(1, 4, 2, Samples::Narrow(vec![240, 241, 200, 201, 160, 161, 120, 121])).unwrap(),
        )),
    };
    let desc = StreamDescriptor::new(2, 4, 8, ChromaLayout::Cs422).unwrap();
    assert!(frame_fits(&frame, &desc));
    let expected = convert_444(
        luma,
        vec![90, 91, 90, 91, 110, 111, 110, 111],
        vec![240, 241, 240, 241, 200, 201, 200, 201],
        2,
        4,
    );
    assert_eq!(yuv_to_rgb_u8(&frame, &desc), expected);
}

#[test]
fn four_four_four_pairs_every_pixel_with_its_own_chroma() {
    let raster = convert_444(vec![128, 81], vec![115, 90], vec![90, 240], 2, 1);
    assert_eq!(raster, vec![70, 167, 104, 255, 0, 0]);
}

#[test]
fn mixed_sample_widths_are_narrowed_plane_by_plane() {
    let frame = DecodedFrame {
        luma: wide_plane(1, 1, vec![512]),
        chroma: Some((narrow_plane(1, 1, vec![115]), wide_plane(1, 1, vec![360]))),
    };
    let desc = StreamDescriptor::new(1, 1, 10, ChromaLayout::Cs444).unwrap();
    assert_eq!(yuv_to_rgb_u8(&frame, &desc), vec![70, 167, 104]);
}

#[test]
fn the_raster_has_the_dimensions_of_the_luma_plane() {
    let luma = Plane::new(3, 2, 8, Samples::Narrow(vec![1, 2, 3, 0, 0, 0, 0, 0, 4, 5, 6, 0, 0, 0, 0, 0])).unwrap();
    let frame = DecodedFrame { luma, chroma: None };
    let desc = StreamDescriptor::new(640, 480, 8, ChromaLayout::Mono).unwrap();
    assert_eq!(yuv_to_rgb_u8(&frame, &desc), vec![1, 1, 1, 2, 2, 2, 3, 3, 3, 4, 4, 4, 5, 5, 5, 6, 6, 6]);
}

#[test]
fn an_empty_frame_converts_to_an_empty_raster() {
    let frame = DecodedFrame { luma: narrow_plane(0, 0, Vec::new()), chroma: None };
    let desc = StreamDescriptor::new(0, 0, 8, ChromaLayout::Mono).unwrap();
    assert!(yuv_to_rgb_u8(&frame, &desc).is_empty());
    let frame = DecodedFrame { luma: narrow_plane(0, 4, Vec::new()), chroma: None };
    let desc = StreamDescriptor::new(0, 4, 8, ChromaLayout::Cs420).unwrap();
    assert!(!frame_fits(&frame, &desc));
}

#[test]
fn a_frame_without_chroma_fits_only_a_monochrome_stream() {
    let frame = DecodedFrame { luma: narrow_plane(2, 2, vec![0; 4]), chroma: None };
    assert!(frame_fits(&frame, &StreamDescriptor::new(2, 2, 8, ChromaLayout::Mono).unwrap()));
    for layout in [ChromaLayout::Cs420, ChromaLayout::Cs422, ChromaLayout::Cs444] {
        assert!(!frame_fits(&frame, &StreamDescriptor::new(2, 2, 8, layout).unwrap()));
    }
}

#[test]
fn chroma_planes_must_hold_a_sample_for_every_luma_pixel() {
    let frame = |cw: usize, ch: usize| DecodedFrame {
        luma: narrow_plane(4, 4, vec![0; 16]),
        chroma: Some((narrow_plane(cw, ch, vec![0; cw * ch]), narrow_plane(cw, ch, vec![0; cw * ch]))),
    };
    let desc = |layout| StreamDescriptor::new(4, 4, 8, layout).unwrap();
    assert!(frame_fits(&frame(2, 2), &desc(ChromaLayout::Cs420)));
    assert!(!frame_fits(&frame(2, 1), &desc(ChromaLayout::Cs420)));
    assert!(!frame_fits(&frame(1, 2), &desc(ChromaLayout::Cs420)));
    assert!(frame_fits(&frame(4, 4), &desc(ChromaLayout::Cs444)));
    assert!(!frame_fits(&frame(2, 2), &desc(ChromaLayout::Cs444)));
    assert!(!frame_fits(&frame(4, 3), &desc(ChromaLayout::Cs444)));
    assert!(frame_fits(&frame(4, 2), &desc(ChromaLayout::Cs422)));
    assert!(frame_fits(&frame(2, 4), &desc(ChromaLayout::Cs422)));
    assert!(!frame_fits(&frame(2, 2), &desc(ChromaLayout::Cs422)));
}

#[test]
fn both_chroma_planes_are_checked() {
    let frame = DecodedFrame {
        luma: narrow_plane(2, 2, vec![0; 4]),
        chroma: Some((narrow_plane(2, 2, vec![0; 4]), narrow_plane(1, 1, vec![0]))),
    };
    let desc = StreamDescriptor::new(2, 2, 8, ChromaLayout::Cs444).unwrap();
    assert!(!frame_fits(&frame, &desc));
    let plane = narrow_plane(1, 1, vec![0]);
    assert!(plane_covers(&plane, 2, 2, ChromaLayout::Cs420));
    assert!(!plane_covers(&plane, 3, 2, ChromaLayout::Cs420));
    assert!(plane_covers(&plane, 0, 7, ChromaLayout::Cs444));
    assert!(plane_covers(&plane, 1, 1, ChromaLayout::Mono));
}

#[test]
fn a_frame_that_does_not_fit_is_not_converted() {
    let frame = DecodedFrame { luma: narrow_plane(2, 2, vec![7; 4]), chroma: None };
    let color = StreamDescriptor::new(2, 2, 8, ChromaLayout::Cs420).unwrap();
    let mono = StreamDescriptor::new(2, 2, 8, ChromaLayout::Mono).unwrap();
    assert_eq!(to_rgb_checked::<u8>(&frame, &color), None);
    assert_eq!(to_rgb_checked::<u16>(&frame, &color), None);
    assert_eq!(to_rgb_checked::<u8>(&frame, &mono), Some(vec![7; 12]));
    assert_eq!(to_rgb_checked::<u16>(&frame, &mono), Some(vec![7; 12]));
}
