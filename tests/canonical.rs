use gifski_encoderust::frame::{canonicalize_palette, frame_descriptor, replace_index, GIFFrame};
use gifski_encoderust::image::IndexedImage;
use rgb::RGBA8;

fn rgba(r: u8, g: u8, b: u8, a: u8) -> RGBA8 {
    RGBA8 { r, g, b, a }
}

fn frame(pal: Vec<RGBA8>, buf: Vec<u8>, width: usize, height: usize) -> GIFFrame {
    GIFFrame {
        left: 0,
        top: 0,
        pal,
        image: IndexedImage::new(buf, width, height),
        screen_width: width as u16,
        screen_height: height as u16,
        dispose: gif::DisposalMethod::Keep,
    }
}

#[test]
fn two_transparent_entries_merge_into_first() {
    let pal = vec![rgba(255, 0, 0, 255), rgba(0, 255, 0, 0), rgba(0, 0, 255, 0)];
    let mut buffer = vec![0u8, 1, 2, 1];
    let (transparent, bytes) = canonicalize_palette(&mut buffer, &pal);
    assert_eq!(transparent, Some(1));
    assert_eq!(buffer, vec![0, 1, 1, 1]);
    assert_eq!(bytes, vec![255, 0, 0, 0, 255, 0, 0, 0, 255]);
}

#[test]
fn descriptor_of_two_transparent_entries() {
    let pal = vec![rgba(255, 0, 0, 255), rgba(0, 255, 0, 0), rgba(0, 0, 255, 0)];
    let d = frame_descriptor(frame(pal, vec![0, 1, 2, 1], 2, 2), 7);
    assert_eq!(d.transparent, Some(1));
    assert_eq!(d.buffer, vec![0, 1, 1, 1]);
    assert_eq!(d.palette, vec![255, 0, 0, 0, 255, 0, 0, 0, 255]);
    assert_eq!(d.delay, 7);
    assert_eq!((d.width, d.height), (2, 2));
    assert_eq!((d.left, d.top), (0, 0));
    assert!(!d.needs_user_input);
    assert!(!d.interlaced);
    assert_eq!(d.dispose, gif::DisposalMethod::Keep);
}

#[test]
fn no_transparent_entry_keeps_pixels() {
    let pal = vec![rgba(1, 2, 3, 255), rgba(4, 5, 6, 128)];
    let mut buffer = vec![1u8, 0, 1, 1, 0];
    let (transparent, bytes) = canonicalize_palette(&mut buffer, &pal);
    assert_eq!(transparent, None);
    assert_eq!(buffer, vec![1, 0, 1, 1, 0]);
    assert_eq!(bytes, vec![1, 2, 3, 4, 5, 6]);
}

#[test]
fn single_transparent_entry_keeps_pixels() {
    let pal = vec![rgba(1, 2, 3, 255), rgba(4, 5, 6, 255), rgba(7, 8, 9, 0)];
    let mut buffer = vec![2u8, 0, 1, 2];
    let (transparent, bytes) = canonicalize_palette(&mut buffer, &pal);
    assert_eq!(transparent, Some(2));
    assert_eq!(buffer, vec![2, 0, 1, 2]);
    assert_eq!(bytes, vec![1, 2, 3, 4, 5, 6, 7, 8, 9]);
}

#[test]
fn first_entry_transparent_is_canonical() {
    let pal = vec![rgba(0, 0, 0, 0), rgba(10, 20, 30, 255), rgba(40, 50, 60, 0), rgba(70, 80, 90, 0)];
    let mut buffer = vec![3u8, 2, 1, 0, 3, 9];
    let (transparent, bytes) = canonicalize_palette(&mut buffer, &pal);
    assert_eq!(transparent, Some(0));
    assert_eq!(buffer, vec![0, 0, 1, 0, 0, 9]);
    assert_eq!(bytes.len(), 12);
    assert_eq!(&bytes[6..9], &[40, 50, 60]);
}

#[test]
fn empty_palette_and_buffer() {
    let pal: Vec<RGBA8> = Vec::new();
    let mut buffer: Vec<u8> = Vec::new();
    let (transparent, bytes) = canonicalize_palette(&mut buffer, &pal);
    assert_eq!(transparent, None);
    assert!(buffer.is_empty());
    assert!(bytes.is_empty());
}

#[test]
fn full_palette_last_entries_transparent() {
    let mut pal: Vec<RGBA8> = (0..256).map(|i| rgba(i as u8, 0, 0, 255)).collect();
    pal[200].a = 0;
    pal[255].a = 0;
    let mut buffer = vec![255u8, 200, 199, 255];
    let (transparent, bytes) = canonicalize_palette(&mut buffer, &pal);
    assert_eq!(transparent, Some(200));
    assert_eq!(buffer, vec![200, 200, 199, 200]);
    assert_eq!(bytes.len(), 768);
    assert_eq!(bytes[3 * 255], 255);
}

#[test]
fn replace_index_rewrites_only_matches() {
    let mut buffer = vec![4u8, 5, 4, 6];
    replace_index(&mut buffer, 4, 9);
    assert_eq!(buffer, vec![9, 5, 9, 6]);
}

#[test]
fn contiguous_image_is_handed_back() {
    let img = IndexedImage::new(vec![1, 2, 3, 4, 5, 6], 3, 2);
    let (buf, w, h) = img.into_contiguous_buf();
    assert_eq!(buf, vec![1, 2, 3, 4, 5, 6]);
    assert_eq!((w, h), (3, 2));
}

#[test]
fn padded_rows_are_linearized() {
    let img = IndexedImage { buf: vec![1, 2, 0, 0, 3, 4, 0, 0], width: 2, height: 2, stride: 4 };
    let (buf, w, h) = img.into_contiguous_buf();
    assert_eq!(buf, vec![1, 2, 3, 4]);
    assert_eq!((w, h), (2, 2));
}

#[test]
fn strided_frame_descriptor() {
    let pal = vec![rgba(0, 0, 0, 0), rgba(9, 9, 9, 0)];
    let f = GIFFrame {
        left: 3,
        top: 4,
        pal,
        image: IndexedImage { buf: vec![1, 0, 7, 1, 1, 7], width: 2, height: 2, stride: 3 },
        screen_width: 10,
        screen_height: 10,
        dispose: gif::DisposalMethod::Background,
    };
    let d = frame_descriptor(f, 0);
    assert_eq!(d.buffer, vec![0, 0, 0, 0]);
    assert_eq!(d.transparent, Some(0));
    assert_eq!((d.left, d.top, d.width, d.height), (3, 4, 2, 2));
}
