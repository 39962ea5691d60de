use cli_player::character_pallet::{parse_pallets, CharacterPallet, CharacterPalletParsingError};
use cli_player::config::{Config, ConfigError, PalletDoesNotExistError};

fn new_ascii_pallet() -> CharacterPallet {
    let character = " `.-':_,^=;><+!rc*/z?sLTv)J7(|Fi{C}fI31tlu[neoZ5Yxjya]2ESwqkP6h9d4VpOGbUAKXHm8RD#$Bg0MNWQ%&@"
        .chars().collect();
    CharacterPallet::new("ascii".to_string(), character)
}

#[test]
fn character_for_luminosity_works() {
    let pallet = new_ascii_pallet();
    let empty_pallet = CharacterPallet::new("pallet".to_string(), Vec::new());

    assert_eq!(Some('@'), pallet.character_for_luminosity(255));
    assert_eq!(Some(':'), pallet.character_for_luminosity(15));
    assert_eq!(Some(' '), pallet.character_for_luminosity(0));
    assert_eq!(None, empty_pallet.character_for_luminosity(141))
}

#[test]
fn extremes_select_emptiest_and_densest() {
    for n in 2..40usize {
        let glyphs: Vec<char> = (0..n).map(|i| char::from_u32(0x41 + i as u32).unwrap()).collect();
        let pallet = CharacterPallet::new("p".to_string(), glyphs.clone());
        assert_eq!(Some(glyphs[0]), pallet.character_for_luminosity(0));
        assert_eq!(Some(glyphs[n - 1]), pallet.character_for_luminosity(255));
    }
}

#[test]
fn empty_pallet_has_no_glyph() {
    let pallet = CharacterPallet::new("empty".to_string(), Vec::new());
    for x in 0..=255u8 {
        assert_eq!(None, pallet.character_for_luminosity(x));
    }
}

#[test]
fn single_glyph_pallet_always_gives_it() {
    let pallet = CharacterPallet::new("one".to_string(), vec!['x']);
    assert_eq!(Some('x'), pallet.character_for_luminosity(0));
    assert_eq!(Some('x'), pallet.character_for_luminosity(128));
    assert_eq!(Some('x'), pallet.character_for_luminosity(255));
}

#[test]
fn slices_are_monotonic() {
    let pallet = new_ascii_pallet();
    let order: Vec<char> = " `.-':_,^=;><+!rc*/z?sLTv)J7(|Fi{C}fI31tlu[neoZ5Yxjya]2ESwqkP6h9d4VpOGbUAKXHm8RD#$Bg0MNWQ%&@"
        .chars().collect();
    let index = |x: u8| order.iter().position(|c| Some(*c) == pallet.character_for_luminosity(x)).unwrap();
    for a in 0..=255u8 {
        for b in a..=255u8 {
            assert!(index(a) <= index(b));
        }
    }
}

#[test]
fn four_glyph_pallet_maps_slice_boundaries() {
    let pallet = CharacterPallet::new("small".to_string(), vec![' ', '.', ':', '#']);
    assert_eq!(Some(' '), pallet.character_for_luminosity(0));
    assert_eq!(Some('.'), pallet.character_for_luminosity(85));
    assert_eq!(Some(':'), pallet.character_for_luminosity(170));
    assert_eq!(Some('#'), pallet.character_for_luminosity(255));
    assert_eq!(Some(' '), pallet.character_for_luminosity(84));
    assert_eq!(Some(':'), pallet.character_for_luminosity(254));
}

#[test]
fn parses_pallets_in_order_with_reversed_glyphs() {
    let pallets = parse_pallets("ascii:\n@#. \nblocks:\r\n#+ \r\n").unwrap();
    assert_eq!(2, pallets.len());
    assert_eq!("ascii", pallets[0].name);
    assert_eq!(Some(' '), pallets[0].character_for_luminosity(0));
    assert_eq!(Some('@'), pallets[0].character_for_luminosity(255));
    assert_eq!("blocks", pallets[1].name);
    assert_eq!(Some(' '), pallets[1].character_for_luminosity(0));
    assert_eq!(Some('+'), pallets[1].character_for_luminosity(128));
    assert_eq!(Some('#'), pallets[1].character_for_luminosity(255));
}

#[test]
fn parse_ignores_lines_that_name_nothing() {
    let pallets = parse_pallets("a comment\n\nonly:\nab").unwrap();
    assert_eq!(1, pallets.len());
    assert_eq!("only", pallets[0].name);
    assert_eq!(Some('b'), pallets[0].character_for_luminosity(0));
    assert!(parse_pallets("").unwrap().is_empty());
}

#[test]
fn parse_rejects_name_without_glyphs() {
    assert!(matches!(parse_pallets("ascii:\n@#\nlast:\n"), Err(CharacterPalletParsingError::FormattingError)));
    assert!(matches!(parse_pallets("last:"), Err(CharacterPalletParsingError::FormattingError)));
}

#[test]
fn config_takes_the_later_pallet_of_a_name() {
    let pallets = parse_pallets("p:\nab\nq:\nxy\np:\ncd\n").unwrap();
    let config = Config::build("video.mp4".to_string(), "p".to_string(), pallets, 50, 15, false, true).unwrap();
    assert_eq!("video.mp4", config.query());
    assert_eq!("p", config.pallet().name);
    assert_eq!(Some('d'), config.pallet().character_for_luminosity(0));
    assert_eq!(50, config.width());
    assert_eq!(15, config.frame_limit());
    assert!(!config.color());
    assert!(config.preprocessing());
}

#[test]
fn config_rejects_unknown_pallet() {
    let pallets = vec![new_ascii_pallet()];
    let r = Config::build("v".to_string(), "blocks".to_string(), pallets, 50, 15, true, false);
    assert!(matches!(r, Err(ConfigError::PalletDoesNotExist(PalletDoesNotExistError))));
}

#[test]
fn config_rejects_empty_pallet_and_zero_width() {
    let empty = CharacterPallet::new("empty".to_string(), Vec::new());
    let r = Config::build("v".to_string(), "empty".to_string(), vec![empty], 50, 15, true, false);
    assert!(matches!(r, Err(ConfigError::EmptyPallet)));
    let r = Config::build("v".to_string(), "ascii".to_string(), vec![new_ascii_pallet()], 0, 15, true, false);
    assert!(matches!(r, Err(ConfigError::ZeroWidth)));
    // The later palette of a name is the one checked.
    let first = CharacterPallet::new("p".to_string(), vec!['a']);
    let second = CharacterPallet::new("p".to_string(), Vec::new());
    let r = Config::build("v".to_string(), "p".to_string(), vec![first, second], 50, 15, true, false);
    assert!(matches!(r, Err(ConfigError::EmptyPallet)));
}
