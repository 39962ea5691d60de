//! Palettes of glyphs, ordered from the emptiest to the densest, and the
//! text format they are loaded from.
use vstd::prelude::*;
use vstd::arithmetic::div_mod::{lemma_div_is_ordered, lemma_div_multiples_vanish};
use vstd::arithmetic::mul::{lemma_mul_inequality, lemma_mul_is_commutative};
use crate::text::{chars_of, push_char};

verus! {

/// std's `io::Error`, carried opaque in the error of a palette file that
/// could not be read.
#[verifier::external_type_specification]
#[verifier::external_body]
pub struct ExIoError(std::io::Error);

#[derive(Debug)]
pub enum CharacterPalletParsingError {
    IoError(std::io::Error),
    /// A palette name is not followed by a line of glyphs.
    FormattingError,
}

/// A line without the carriage return that ends it, if any.
pub open spec fn strip_cr(line: Seq<char>) -> Seq<char> {
    if line.len() > 0 && line.last() == '\r' {
        line.drop_last()
    } else {
        line
    }
}

/// The lines ended by a line feed so far, and the line being read.
pub open spec fn scan_lines(s: Seq<char>) -> (Seq<Seq<char>>, Seq<char>)
    decreases s.len(),
{
    if s.len() == 0 {
        (Seq::empty(), Seq::empty())
    } else {
        let (done, current) = scan_lines(s.drop_last());
        if s.last() == '\n' {
            (done.push(strip_cr(current)), Seq::empty())
        } else {
            (done, current.push(s.last()))
        }
    }
}

/// The lines of a text: split at each line feed, less a carriage return
/// just before it; a final line feed starts no further line.
pub open spec fn lines_of(s: Seq<char>) -> Seq<Seq<char>> {
    let (done, current) = scan_lines(s);
    if current.len() == 0 {
        done
    } else {
        done.push(current)
    }
}

/// A line that names a palette: it ends with a colon.
pub open spec fn is_header(line: Seq<char>) -> bool {
    line.len() > 0 && line.last() == ':'
}

/// The palettes named among the first `upto` lines, in order, as pairs of a
/// name (the header less its colon) and glyphs (the next line, reversed, so
/// that they go from the emptiest to the densest).
pub open spec fn entries(lines: Seq<Seq<char>>, upto: nat) -> Seq<(Seq<char>, Seq<char>)>
    decreases upto,
{
    if upto == 0 {
        Seq::empty()
    } else {
        let i = (upto - 1) as nat;
        let before = entries(lines, i);
        if i + 1 < lines.len() && is_header(lines[i as int]) {
            before.push((lines[i as int].drop_last(), lines[i + 1 as int].reverse()))
        } else {
            before
        }
    }
}

/// The text is malformed: its last line names a palette with no glyphs
/// after it.
pub open spec fn malformed(lines: Seq<Seq<char>>) -> bool {
    lines.len() > 0 && is_header(lines.last())
}

/// The lines of a text.
fn split_lines(s: &Vec<char>) -> (r: Vec<Vec<char>>)
    ensures
        r@.map_values(|l: Vec<char>| l@) == lines_of(s@),
{
    let mut done: Vec<Vec<char>> = Vec::new();
    let mut current: Vec<char> = Vec::new();
    let mut i: usize = 0;
    while i < s.len()
        invariant
            i <= s.len(),
            (done@.map_values(|l: Vec<char>| l@), current@) == scan_lines(s@.take(i as int)),
        decreases s.len() - i,
    {
        let c = s[i];
        assert(s@.take(i + 1).drop_last() == s@.take(i as int));
        if c == '\n' {
            let mut line = current;
            let n = line.len();
            if n > 0 && line[n - 1] == '\r' {
                line.pop();
            }
            done.push(line);
            current = Vec::new();
        } else {
            current.push(c);
        }
        assert(done@.map_values(|l: Vec<char>| l@) == scan_lines(s@.take(i + 1)).0);
        i = i + 1;
    }
    assert(s@.take(s.len() as int) == s@);
    if current.len() > 0 {
        done.push(current);
    }
    assert(done@.map_values(|l: Vec<char>| l@) =~= lines_of(s@));
    done
}

/// Parses palettes from text: each line that ends with a colon names a
/// palette, whose glyphs are on the next line from the densest to the
/// emptiest. Palettes come in the order of the text; where a name occurs
/// twice, the later palette is the one meant.
pub fn parse_pallets(input: &str) -> (r: Result<Vec<CharacterPallet>, CharacterPalletParsingError>)
    ensures
        r is Err <==> malformed(lines_of(input@)),
        r matches Err(e) ==> e is FormattingError,
        r matches Ok(v) ==> {
            let es = entries(lines_of(input@), lines_of(input@).len());
            &&& v.len() == es.len()
            &&& forall|k: int| 0 <= k < v.len() ==> (#[trigger] v@[k]).label() == es[k].0 && v@[k].glyphs() == es[k].1
        },
{
    let chars = chars_of(input);
    let lines = split_lines(&chars);
    let ghost ls = lines_of(input@);
    let mut pallets: Vec<CharacterPallet> = Vec::new();
    let mut i: usize = 0;
    while i < lines.len()
        invariant
            lines@.map_values(|l: Vec<char>| l@) == ls,
            ls == lines_of(input@),
            i <= lines.len(),
            pallets.len() == entries(ls, i as nat).len(),
            forall|j: int| 0 <= j < i && j + 1 >= ls.len() ==> !is_header(#[trigger] ls[j]),
            forall|k: int| 0 <= k < pallets.len() ==> (#[trigger] pallets@[k]).label() == entries(ls, i as nat)[k].0
                && pallets@[k].glyphs() == entries(ls, i as nat)[k].1,
        decreases lines.len() - i,
    {
        let line = &lines[i];
        assert(line@ == ls[i as int]);
        let n = line.len();
        if n > 0 && line[n - 1] == ':' {
            if i + 1 >= lines.len() {
                assert(ls.len() == lines.len());
                assert(ls.last() == ls[i as int]);
                assert(line@.last() == line@[n - 1]);
                assert(is_header(ls[i as int]));
                return Err(CharacterPalletParsingError::FormattingError);
            }
            let mut name = String::new();
            let mut k: usize = 0;
            while k < n - 1
                invariant
                    n == line.len(),
                    k <= n - 1,
                    name@ == line@.take(k as int),
                decreases n - 1 - k,
            {
                push_char(&mut name, line[k]);
                assert(line@.take(k + 1) == line@.take(k as int).push(line@[k as int]));
                k = k + 1;
            }
            let next = &lines[i + 1];
            assert(next@ == ls[i + 1]);
            let mut characters: Vec<char> = Vec::new();
            let mut k: usize = next.len();
            while k > 0
                invariant
                    k <= next.len(),
                    characters@ == next@.subrange(k as int, next.len() as int).reverse(),
                decreases k,
            {
                k = k - 1;
                characters.push(next[k]);
                assert(next@.subrange(k as int, next.len() as int) == seq![next@[k as int]] + next@.subrange(k + 1, next.len() as int));
                assert(characters@ =~= next@.subrange(k as int, next.len() as int).reverse());
            }
            assert(name@ == ls[i as int].drop_last());
            assert(characters@ == ls[i + 1].reverse());
            pallets.push(CharacterPallet::new(name, characters));
        }
        i = i + 1;
    }
    proof {
        if malformed(ls) {
            assert(ls.len() == lines.len());
            assert(is_header(ls[ls.len() - 1]));
        }
    }
    Ok(pallets)
}

/// Index of the glyph that a luminosity selects in a palette of `n >= 1`
/// glyphs: the range 0..=255 is cut into `n - 1` slices of width
/// `255 / (n - 1)`, and the index is the luminosity divided by that width,
/// rounded down.
pub open spec fn glyph_index(n: nat, luminosity: u8) -> nat {
    (luminosity as nat * (n - 1) as nat) / 255
}

/// What `character_for_luminosity` returns for a palette holding `glyphs`.
pub open spec fn glyph_for(glyphs: Seq<char>, luminosity: u8) -> Option<char> {
    if glyphs.len() == 0 {
        None
    } else {
        Some(glyphs[glyph_index(glyphs.len(), luminosity) as int])
    }
}

/// The index a luminosity selects never leaves the palette.
pub proof fn lemma_glyph_index_bounded(n: nat, luminosity: u8)
    requires
        n >= 1,
    ensures
        glyph_index(n, luminosity) <= n - 1,
{
    let m = (n - 1) as nat;
    lemma_mul_inequality(luminosity as int, 255, m as int);
    lemma_mul_is_commutative(255, m as int);
    lemma_div_is_ordered(luminosity as int * m, (m * 255) as int, 255);
    lemma_div_multiples_vanish(m as int, 255);
}

/// In a palette of two glyphs or more, the darkest luminosity selects the
/// emptiest glyph and the brightest luminosity the densest one.
pub proof fn law_extremes(glyphs: Seq<char>)
    requires
        glyphs.len() >= 2,
    ensures
        glyph_for(glyphs, 0) == Some(glyphs[0]),
        glyph_for(glyphs, 255) == Some(glyphs[glyphs.len() - 1]),
{
    let m = (glyphs.len() - 1) as nat;
    assert(0 * m == 0) by (nonlinear_arith);
    lemma_mul_is_commutative(255, m as int);
    lemma_div_multiples_vanish(m as int, 255);
}

/// An empty palette has no glyph for any luminosity.
pub proof fn law_empty_palette(glyphs: Seq<char>, luminosity: u8)
    requires
        glyphs.len() == 0,
    ensures
        glyph_for(glyphs, luminosity) is None,
{
}

/// A brighter luminosity never selects an emptier glyph.
pub proof fn law_monotonic(n: nat, a: u8, b: u8)
    requires
        n >= 1,
        a <= b,
    ensures
        glyph_index(n, a) <= glyph_index(n, b),
{
    let m = (n - 1) as nat;
    lemma_mul_inequality(a as int, b as int, m as int);
    lemma_div_is_ordered(a as int * m, b as int * m, 255);
}

/// Stores a palette of characters of differing luminosity values.
#[derive(Clone)]
pub struct CharacterPallet {
    pub name: String,
    characters: Vec<char>,
}

impl CharacterPallet {
    /// The glyphs, from the emptiest to the densest.
    pub closed spec fn glyphs(&self) -> Seq<char> {
        self.characters@
    }

    /// The name the palette is known by.
    pub closed spec fn label(&self) -> Seq<char> {
        self.name@
    }

    pub fn new(name: String, characters: Vec<char>) -> (r: CharacterPallet)
        ensures
            r.label() == name@,
            r.glyphs() == characters@,
    {
        CharacterPallet { name, characters }
    }

    /// Whether the palette has no glyph.
    pub fn is_empty(&self) -> (r: bool)
        ensures
            r == (self.glyphs().len() == 0),
    {
        self.characters.len() == 0
    }

    /// Whether the palette is called `name`.
    pub fn is_named(&self, name: &String) -> (r: bool)
        ensures
            r == (self.label() == name@),
    {
        self.name == *name
    }

    /// Gives the character that corresponds best to the luminosity within
    /// the palette, assuming that the luminosity of the characters grows
    /// linearly; `None` for an empty palette.
    pub fn character_for_luminosity(&self, luminosity: u8) -> (r: Option<char>)
        ensures
            r == glyph_for(self.glyphs(), luminosity),
    {
        let n = self.characters.len();
        if n == 0 {
            return None;
        }
        let slices = (n - 1) as u128;
        assert(luminosity as u128 * slices <= 255 * (usize::MAX as u128)) by (nonlinear_arith)
            requires
                luminosity <= 255,
                slices <= usize::MAX,
        ;
        let index = (luminosity as u128) * slices / 255;
        proof {
            lemma_glyph_index_bounded(n as nat, luminosity);
        }
        Some(self.characters[index as usize])
    }
}

} // verus!
