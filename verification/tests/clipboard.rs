use crossdesk::clipboard::{
    downscale_2x, fingerprint_of, from_image, from_text, has_blocks, read, Clipboard, Fingerprint,
    MAX_IMAGE_BYTES,
};
use crossdesk::protocol::Clip;

#[test]
fn test_downscale_2x_halves_dimensions_and_averages_pixels() {
    // 4x4 image, RGBA
    let width = 4;
    let height = 4;
    let mut rgba = vec![0u8; (width * height * 4) as usize];
    // Fill top-left 2x2 with 100, top-right 2x2 with 200
    for ny in 0..2 {
        for nx in 0..2 {
            let idx = (ny * width + nx) as usize * 4;
            rgba[idx] = 100;
            rgba[idx + 1] = 100;
            rgba[idx + 2] = 100;
            rgba[idx + 3] = 255;
        }
    }
    for ny in 0..2 {
        for nx in 2..4 {
            let idx = (ny * width + nx) as usize * 4;
            rgba[idx] = 200;
            rgba[idx + 1] = 200;
            rgba[idx + 2] = 200;
            rgba[idx + 3] = 255;
        }
    }

    let (new_w, new_h, out) = downscale_2x(width, height, &rgba);
    assert_eq!(new_w, 2);
    assert_eq!(new_h, 2);
    assert_eq!(out.len(), 2 * 2 * 4);
    // Top-left pixel should be 100
    assert_eq!(out[0], 100);
    assert_eq!(out[1], 100);
    assert_eq!(out[2], 100);
    assert_eq!(out[3], 255);
    // Top-right pixel should be 200
    assert_eq!(out[4], 200);
    assert_eq!(out[5], 200);
    assert_eq!(out[6], 200);
    assert_eq!(out[7], 255);
}

#[test]
fn averages_round_to_the_nearest() {
    // One output pixel per channel rounding case: sums 1, 2, 3 and 1020.
    let rgba = [
        1, 1, 1, 255, 0, 1, 1, 255, //
        0, 0, 1, 255, 0, 0, 0, 255,
    ];
    let (w, h, out) = downscale_2x(2, 2, &rgba);
    assert_eq!((w, h), (1, 1));
    assert_eq!(out, vec![0, 1, 1, 255]);
}

#[test]
fn odd_edges_are_dropped_and_slivers_kept() {
    let rgba: Vec<u8> = (0..3 * 3 * 4).map(|i| i as u8).collect();
    let (w, h, out) = downscale_2x(3, 3, &rgba);
    assert_eq!((w, h, out.len()), (1, 1, 4));
    // Pixels 0, 1, 3 and 4: first channel 0, 4, 12, 16.
    assert_eq!(out[0], 8);
    let (w, h, out) = downscale_2x(1, 5, &rgba[..20]);
    assert_eq!((w, h), (1, 5));
    assert_eq!(out, rgba[..20]);
}

#[test]
fn small_images_are_shared_as_they_are() {
    let clip = from_image(2, 1, vec![9u8; 8]);
    assert!(matches!(
        clip,
        Some(Clip::Image { width: 2, height: 1, rgba }) if rgba == vec![9u8; 8]
    ));
    assert!(from_image(0, 5, vec![]).is_none());
}

#[test]
fn large_images_are_halved_until_they_fit() {
    let (w, h) = (4096u32, 2048u32);
    let rgba = vec![7u8; (w * h * 4) as usize];
    assert!(rgba.len() > MAX_IMAGE_BYTES);
    let clip = from_image(w, h, rgba);
    assert!(matches!(
        clip,
        Some(Clip::Image { width: 2048, height: 1024, rgba })
            if rgba.len() == 2048 * 1024 * 4 && rgba[12345] == 7
    ));
}

#[test]
fn a_sliver_is_halved_along_its_length() {
    let rgba: Vec<u8> = (0..28_000_000u32).map(|i| (i / 4 % 2 * 7 + i % 4) as u8).collect();
    for (width, height) in [(1, 7_000_000), (7_000_000, 1)] {
        let Some(Clip::Image { width: w, height: h, rgba: bytes }) =
            from_image(width, height, rgba.clone())
        else {
            panic!("the sliver was dropped");
        };
        assert_eq!((w, h), (width.div_ceil(2), height.div_ceil(2)));
        assert_eq!(bytes.len(), 14_000_000);
        // Pixels of c and 7 + c average to 4 + c, rounding up.
        assert_eq!(bytes[..8], [4, 5, 6, 7, 4, 5, 6, 7]);
        assert_eq!(bytes[13_999_996..], [4, 5, 6, 7]);
    }
}

#[test]
fn empty_text_is_not_shared() {
    assert!(from_text(String::new()).is_none());
    assert!(matches!(from_text("a".into()), Some(Clip::Text(t)) if t == "a"));
}

#[test]
fn fingerprints_follow_the_content() {
    let hash = |clip: &Clip| match fingerprint_of(clip) {
        Fingerprint::Hash(h) => h,
        Fingerprint::Nothing => panic!("no fingerprint"),
    };
    assert_eq!(hash(&Clip::Text("hi".into())), *blake3::hash(b"thi").as_bytes());
    let image = Clip::Image { width: 1, height: 2, rgba: vec![3; 8] };
    assert_eq!(
        hash(&image),
        *blake3::hash(&[b'i', 1, 0, 0, 0, 2, 0, 0, 0, 3, 3, 3, 3, 3, 3, 3, 3]).as_bytes()
    );
}

#[test]
fn only_news_is_announced() {
    let text = |s: &str| Some(Clip::Text(s.into()));
    let mut board = Clipboard::start();
    board.begin();
    assert!(board.reads());
    assert!(board.saw(text("a")).is_some());
    assert!(board.saw(text("a")).is_none());
    assert!(board.saw(None).is_none());
    assert!(board.saw(text("b")).is_some());
}

#[test]
fn what_a_peer_sent_is_not_echoed() {
    let mut board = Clipboard::start();
    board.begin();
    board.apply(&Clip::Text("theirs".into()));
    // The write may not be visible yet, so this tick reads nothing.
    assert!(!board.reads());
    board.begin();
    assert!(board.reads());
    assert!(board.saw(Some(Clip::Text("theirs".into()))).is_none());
    assert!(board.saw(Some(Clip::Text("mine".into()))).is_some());
}

#[test]
fn no_strip_is_dropped() {
    let shared = |width, height| {
        let clip = from_image(width, height, vec![1u8; width as usize * height as usize * 4]);
        match clip {
            Some(Clip::Image { width, height, rgba }) => {
                assert_eq!(rgba.len(), width as usize * height as usize * 4);
                assert!(rgba.len() <= MAX_IMAGE_BYTES);
                (width, height)
            }
            _ => panic!("dropped"),
        }
    };
    assert_eq!(shared(2, 7_000_000), (1, 3_500_000));
    assert_eq!(shared(1, 6_291_456), (1, 6_291_456));
    assert_eq!(shared(1, 6_291_457), (1, 3_145_728));
    assert_eq!(shared(3, 15_000_000), (1, 3_750_000));
}

#[test]
fn a_strip_without_its_bytes_is_not_shared() {
    assert!(from_image(1, 20_000_000, vec![1u8; 30_000_000]).is_none());
    assert!(from_image(0, 7_000_000, vec![1u8; 28_000_000]).is_none());
}

#[test]
fn a_strip_wins_over_its_caption() {
    let image = Some((1u32, 6_291_457u32, vec![5u8; 25_165_828]));
    let clip = read(true, image, Some("a picture".into()));
    assert!(matches!(clip, Some(Clip::Image { width: 1, height: 3_145_728, .. })));
}

#[test]
fn an_image_comes_before_its_caption() {
    let image = || Some((1u32, 1u32, vec![5u8; 4]));
    let caption = || Some(String::from("a picture"));
    assert!(matches!(read(true, image(), caption()), Some(Clip::Image { width: 1, .. })));
    assert!(matches!(read(false, image(), caption()), Some(Clip::Text(t)) if t == "a picture"));
    assert!(matches!(read(true, None, caption()), Some(Clip::Text(t)) if t == "a picture"));
    // An image that cannot be shared gives way to the text.
    assert!(matches!(read(true, Some((0, 0, vec![])), caption()), Some(Clip::Text(_))));
    assert!(read(true, None, Some(String::new())).is_none());
    assert!(read(true, None, None).is_none());
}

#[test]
fn images_shorter_than_their_size_are_told_apart() {
    assert!(has_blocks(4, 4, 64));
    assert!(!has_blocks(4, 4, 63));
    // The last row and column of an odd image are not looked at.
    assert!(has_blocks(3, 3, 20));
    assert!(!has_blocks(3, 3, 19));
    assert!(has_blocks(1, 100, 0));
}
