//! The settings of a playback session.
use vstd::prelude::*;
use crate::character_pallet::CharacterPallet;

verus! {

/// The palette asked for is not among the palettes that were loaded.
#[derive(Debug, PartialEq, Eq, Structural)]
pub struct PalletDoesNotExistError;

/// Settings that cannot be played with, refused when they are built.
#[derive(Debug, PartialEq, Eq, Structural)]
pub enum ConfigError {
    PalletDoesNotExist(PalletDoesNotExistError),
    /// The palette asked for has no glyph.
    EmptyPallet,
    /// Frames would be drawn on no column.
    ZeroWidth,
}

/// `i` is the last position of `pallets` whose palette is called `name`:
/// when a name is defined twice, the later definition wins.
pub open spec fn is_last_named(pallets: Seq<CharacterPallet>, name: Seq<char>, i: int) -> bool {
    &&& 0 <= i < pallets.len()
    &&& pallets[i].label() == name
    &&& forall|j: int| i < j < pallets.len() ==> pallets[j].label() != name
}

/// A name has one last position.
proof fn lemma_last_named_unique(pallets: Seq<CharacterPallet>, name: Seq<char>, i: int)
    requires
        is_last_named(pallets, name, i),
    ensures
        forall|j: int| is_last_named(pallets, name, j) ==> j == i,
{
    assert forall|j: int| is_last_named(pallets, name, j) implies j == i by {
        if j < i {
            assert(pallets[i].label() == name);
        } else if j > i {
            assert(pallets[j].label() == name);
        }
    }
}

pub struct Config {
    query: String,
    pallet: CharacterPallet,
    width: u32,
    frame_limit: u32,
    color: bool,
    preprocessing: bool,
}

impl Config {
    pub closed spec fn spec_query(&self) -> Seq<char> {
        self.query@
    }

    pub closed spec fn spec_pallet(&self) -> CharacterPallet {
        self.pallet
    }

    pub closed spec fn spec_width(&self) -> u32 {
        self.width
    }

    pub closed spec fn spec_frame_limit(&self) -> u32 {
        self.frame_limit
    }

    pub closed spec fn spec_color(&self) -> bool {
        self.color
    }

    pub closed spec fn spec_preprocessing(&self) -> bool {
        self.preprocessing
    }

    /// Builds the settings, taking the palette called `pallet` out of the
    /// loaded `pallets` (the last one of that name). Refused when no palette
    /// has that name, when that palette is empty, or when the width is zero.
    pub fn build(
        query: String,
        pallet: String,
        pallets: Vec<CharacterPallet>,
        width: u32,
        frame_limit: u32,
        color: bool,
        preprocessing: bool,
    ) -> (r: Result<Config, ConfigError>)
        ensures
            (r == Err::<Config, ConfigError>(ConfigError::PalletDoesNotExist(PalletDoesNotExistError)))
                <==> forall|i: int| 0 <= i < pallets.len() ==> pallets@[i].label() != pallet@,
            (r == Err::<Config, ConfigError>(ConfigError::EmptyPallet)) <==> exists|i: int|
                is_last_named(pallets@, pallet@, i) && pallets@[i].glyphs().len() == 0,
            (r == Err::<Config, ConfigError>(ConfigError::ZeroWidth)) <==> width == 0 && exists|i: int|
                is_last_named(pallets@, pallet@, i) && pallets@[i].glyphs().len() > 0,
            r matches Ok(c) ==> {
                &&& exists|i: int| is_last_named(pallets@, pallet@, i) && c.spec_pallet() == pallets@[i]
                &&& c.spec_query() == query@
                &&& c.spec_width() == width
                &&& c.spec_frame_limit() == frame_limit
                &&& c.spec_color() == color
                &&& c.spec_preprocessing() == preprocessing
            },
    {
        let mut available = pallets;
        let mut i: usize = available.len();
        while i > 0
            invariant
                available@ == pallets@,
                i <= available.len(),
                forall|j: int| i <= j < available.len() ==> available@[j].label() != pallet@,
            decreases i,
        {
            i = i - 1;
            if available[i].is_named(&pallet) {
                let chosen = available.remove(i);
                assert(is_last_named(pallets@, pallet@, i as int));
                proof {
                    lemma_last_named_unique(pallets@, pallet@, i as int);
                }
                if chosen.is_empty() {
                    return Err(ConfigError::EmptyPallet);
                }
                if width == 0 {
                    return Err(ConfigError::ZeroWidth);
                }
                return Ok(Config { query, pallet: chosen, width, frame_limit, color, preprocessing });
            }
        }
        Err(ConfigError::PalletDoesNotExist(PalletDoesNotExistError))
    }

    pub fn query(&self) -> (r: &str)
        ensures
            r@ == self.spec_query(),
    {
        self.query.as_str()
    }

    pub fn pallet(&self) -> (r: &CharacterPallet)
        ensures
            *r == self.spec_pallet(),
    {
        &self.pallet
    }

    pub fn width(&self) -> (r: u32)
        ensures
            r == self.spec_width(),
    {
        self.width
    }

    pub fn frame_limit(&self) -> (r: u32)
        ensures
            r == self.spec_frame_limit(),
    {
        self.frame_limit
    }

    pub fn color(&self) -> (r: bool)
        ensures
            r == self.spec_color(),
    {
        self.color
    }

    pub fn preprocessing(&self) -> (r: bool)
        ensures
            r == self.spec_preprocessing(),
    {
        self.preprocessing
    }
}

} // verus!
