use cli_player::character_pallet::CharacterPallet;
use cli_player::config::Config;
use cli_player::frames::{Frames, FramesManager, NextFrame};
use cli_player::image::{Image, Pixel, PixelBuffer, TextImage};

fn numbered(n: usize) -> Frames {
    let frames = (0..n).map(|i| TextImage::new(format!("frame {}", i))).collect();
    Frames::Preprocessed { frames, next: 0 }
}

fn shown(manager: &mut FramesManager) -> Vec<String> {
    let mut out = Vec::new();
    loop {
        match manager.next_frame() {
            NextFrame::Ready(t) => out.push(t.as_text()),
            NextFrame::Exhausted => break,
            NextFrame::Decode(_) => panic!("preprocessed frames need no decoding"),
        }
    }
    out
}

fn config(frame_limit: u32) -> Config {
    let pallet = CharacterPallet::new("p".to_string(), vec![' ', '#']);
    Config::build("v".to_string(), "p".to_string(), vec![pallet], 10, frame_limit, false, true).unwrap()
}

#[test]
fn half_rate_shows_every_second_frame() {
    let mut manager = FramesManager::new(numbered(10), 30, 15);
    assert_eq!(15, manager.fps());
    let expected: Vec<String> = [1, 3, 5, 7, 9].iter().map(|i| format!("frame {}", i)).collect();
    assert_eq!(expected, shown(&mut manager));
}

#[test]
fn half_rate_streamed_drops_one_frame_per_tick() {
    let mut manager = FramesManager::new(Frames::build_streamed(), 30, 15);
    for _ in 0..50 {
        assert!(matches!(manager.next_frame(), NextFrame::Decode(1)));
    }
}

#[test]
fn target_above_source_is_clamped_and_drops_nothing() {
    let mut manager = FramesManager::new(numbered(6), 30, 60);
    assert_eq!(30, manager.fps());
    let expected: Vec<String> = (0..6).map(|i| format!("frame {}", i)).collect();
    assert_eq!(expected, shown(&mut manager));
    let mut streamed = FramesManager::new(Frames::build_streamed(), 24, 1000);
    for _ in 0..100 {
        assert!(matches!(streamed.next_frame(), NextFrame::Decode(0)));
    }
}

#[test]
fn equal_rates_drop_nothing() {
    let mut manager = FramesManager::new(numbered(4), 25, 25);
    let expected: Vec<String> = (0..4).map(|i| format!("frame {}", i)).collect();
    assert_eq!(expected, shown(&mut manager));
}

#[test]
fn drops_are_spread_evenly() {
    // 30 to 20 frames a second: the error grows by one half a tick.
    let mut manager = FramesManager::new(Frames::build_streamed(), 30, 20);
    let drops: Vec<u64> = (0..6)
        .map(|_| match manager.next_frame() {
            NextFrame::Decode(d) => d,
            _ => panic!("streamed frames are decoded"),
        })
        .collect();
    assert_eq!(vec![0, 1, 0, 1, 0, 1], drops);
    // 30 to 7: 30/7 - 1 = 23/7 frames dropped a tick on average.
    let mut manager = FramesManager::new(Frames::build_streamed(), 30, 7);
    let mut total = 0;
    for _ in 0..7 {
        if let NextFrame::Decode(d) = manager.next_frame() {
            total += d;
        }
    }
    assert_eq!(23, total);
}

#[test]
fn exhausted_source_stays_exhausted() {
    let mut manager = FramesManager::new(numbered(3), 30, 15);
    assert!(matches!(manager.next_frame(), NextFrame::Ready(_)));
    for _ in 0..5 {
        assert!(matches!(manager.next_frame(), NextFrame::Exhausted));
    }
    let mut streamed = FramesManager::new(Frames::build_streamed(), 30, 30);
    assert!(matches!(streamed.next_frame(), NextFrame::Decode(0)));
    streamed.end_stream();
    for _ in 0..5 {
        assert!(matches!(streamed.next_frame(), NextFrame::Exhausted));
    }
}

#[test]
fn empty_preprocessed_source_is_exhausted() {
    let mut manager = FramesManager::new(numbered(0), 30, 30);
    assert!(matches!(manager.next_frame(), NextFrame::Exhausted));
}

#[test]
fn zero_source_rate_drops_nothing() {
    let mut manager = FramesManager::new(numbered(3), 0, 15);
    assert_eq!(0, manager.fps());
    assert_eq!(3, shown(&mut manager).len());
}

#[test]
fn frame_limit_of_zero_means_none() {
    let manager = FramesManager::build(Vec::new(), 60, &config(0));
    assert_eq!(60, manager.fps());
    let manager = FramesManager::build(Vec::new(), 60, &config(15));
    assert_eq!(15, manager.fps());
    let manager = FramesManager::build(Vec::new(), 10, &config(15));
    assert_eq!(10, manager.fps());
}

fn synthetic_images(n: usize) -> Vec<Image> {
    (0..n)
        .map(|i| {
            let v = (i * 9) as u8;
            let row = vec![Pixel { blue: v, green: v, red: v }; 4];
            Image::new(PixelBuffer::from_rows(4, vec![row.clone(), row]).unwrap())
        })
        .collect()
}

fn default_config(frame_limit: u32, preprocessing: bool) -> Config {
    let ascii: Vec<char> = " `.-':_,^=;><+!rc*/z?sLTv)J7(|Fi{C}fI31tlu[neoZ5Yxjya]2ESwqkP6h9d4VpOGbUAKXHm8RD#$Bg0MNWQ%&@"
        .chars().collect();
    let pallet = CharacterPallet::new("ascii".to_string(), ascii);
    Config::build("video.mp4".to_string(), "ascii".to_string(), vec![pallet], 50, frame_limit, true, preprocessing)
        .unwrap()
}

#[test]
fn get_images_frames_manager_streamed() {
    let config = &default_config(15, false);
    let mut frames = FramesManager::build(Vec::new(), 30, config);
    assert!(matches!(frames.next_frame(), NextFrame::Decode(_)));
}

#[test]
fn get_images_frames_manager_preprocessed() {
    let config = &default_config(15, true);
    let mut frames = FramesManager::build(synthetic_images(30), 30, config);
    assert!(matches!(frames.next_frame(), NextFrame::Ready(_)));
}

#[test]
fn no_frame_limit() {
    let config = &default_config(0, true);
    let mut frames = FramesManager::build(synthetic_images(30), 30, config);
    assert_eq!(30, frames.fps());
    assert!(matches!(frames.next_frame(), NextFrame::Ready(_)));
}

#[test]
fn big_frame_limit() {
    let config = &default_config(1, true);
    let mut frames = FramesManager::build(synthetic_images(30), 30, config);
    assert_eq!(1, frames.fps());
    // One frame a second out of thirty: the thirtieth source frame is shown.
    match frames.next_frame() {
        NextFrame::Ready(t) => {
            let mut lazy = synthetic_images(30).pop().unwrap();
            assert_eq!(lazy.as_string(config), t.as_text());
        }
        _ => panic!("a frame is shown"),
    }
    assert!(matches!(frames.next_frame(), NextFrame::Exhausted));
}

#[test]
fn build_preprocesses_only_when_asked() {
    let preprocessed = default_config(0, true);
    let mut manager = FramesManager::build(synthetic_images(3), 30, &preprocessed);
    for i in 0..3 {
        match manager.next_frame() {
            NextFrame::Ready(t) => {
                let mut lazy = synthetic_images(3).remove(i);
                assert_eq!(lazy.as_string(&preprocessed), t.as_text());
            }
            _ => panic!("preprocessed frames are ready"),
        }
    }
    assert!(matches!(manager.next_frame(), NextFrame::Exhausted));

    let streamed = default_config(0, false);
    let mut manager = FramesManager::build(synthetic_images(3), 30, &streamed);
    assert!(matches!(manager.next_frame(), NextFrame::Decode(0)));
}
