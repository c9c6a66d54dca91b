//! Contains everything related to colors.
//!
//! Colors follow the ANSI 8-bit standard: each is a number from `0` to `255`, some
//! of which have names.

use crate::num::{parse_unsigned, parse_u8};
use crate::strings::to_string;
use vstd::prelude::*;

verus! {

/// A combination of _foreground_ and _background_ color.
#[derive(Copy, Clone, Eq, PartialEq, Debug, Structural)]
pub struct Color {
    pub fg: u8,
    pub bg: u8,
}

/// A collection of color mappings from names to color values.
pub struct Colors {
    color_map: Vec<(String, u8)>,
}

/// A color value given either as a _number_ in the range of `0` to `255`, or as a
/// _string_ that refers to a named color.
pub enum ColorValue {
    Number(u8),
    Name(String),
}

/// Accepts color values given either as numbers in the range of `0` to `255` or as
/// strings, which are names or numbers.
pub struct ColorVisitor;

impl Color {
    /// The color whose `fg` and `bg` are `0`.
    pub fn zero() -> (c: Color)
        ensures
            c.fg == 0 && c.bg == 0,
    {
        Color { fg: 0, bg: 0 }
    }

    pub fn new(fg: u8, bg: u8) -> (c: Color)
        ensures
            c.fg == fg && c.bg == bg,
    {
        Color { fg, bg }
    }
}

impl Default for Color {
    fn default() -> (c: Color)
        ensures
            c.fg == 0 && c.bg == 0,
    {
        Color::zero()
    }
}

/// The map denoted by a list of name/value entries, where later entries take
/// precedence.
pub open spec fn map_of(entries: Seq<(String, u8)>) -> Map<Seq<char>, u8>
    decreases entries.len(),
{
    if entries.len() == 0 {
        Map::empty()
    } else {
        map_of(entries.drop_last()).insert(entries.last().0@, entries.last().1)
    }
}

/// The map `m` with the entries applied in order, later ones taking precedence.
pub open spec fn apply_entries(m: Map<Seq<char>, u8>, entries: Seq<(String, u8)>) -> Map<Seq<char>, u8>
    decreases entries.len(),
{
    if entries.len() == 0 {
        m
    } else {
        apply_entries(m, entries.drop_last()).insert(entries.last().0@, entries.last().1)
    }
}

/// No two entries share a name.
pub open spec fn distinct_names(entries: Seq<(String, u8)>) -> bool {
    forall|i: int, j: int|
        0 <= i < entries.len() && 0 <= j < entries.len() && i != j ==> entries[i].0@
            != entries[j].0@
}

proof fn lemma_map_of_entry(entries: Seq<(String, u8)>, i: int)
    requires
        distinct_names(entries),
        0 <= i < entries.len(),
    ensures
        map_of(entries).contains_key(entries[i].0@),
        map_of(entries)[entries[i].0@] == entries[i].1,
    decreases entries.len(),
{
    if i < entries.len() - 1 {
        let d = entries.drop_last();
        assert(d[i] == entries[i]);
        lemma_map_of_entry(d, i);
    }
}

proof fn lemma_map_of_absent(entries: Seq<(String, u8)>, name: Seq<char>)
    requires
        forall|i: int| 0 <= i < entries.len() ==> entries[i].0@ != name,
    ensures
        !map_of(entries).contains_key(name),
    decreases entries.len(),
{
    if entries.len() > 0 {
        lemma_map_of_absent(entries.drop_last(), name);
    }
}

proof fn lemma_map_of_update(entries: Seq<(String, u8)>, i: int, e: (String, u8))
    requires
        distinct_names(entries),
        0 <= i < entries.len(),
        entries[i].0@ == e.0@,
    ensures
        map_of(entries.update(i, e)) == map_of(entries).insert(e.0@, e.1),
    decreases entries.len(),
{
    let u = entries.update(i, e);
    if i == entries.len() - 1 {
        assert(u.drop_last() =~= entries.drop_last());
        assert(map_of(u) =~= map_of(entries).insert(e.0@, e.1));
    } else {
        let d = entries.drop_last();
        assert(u.drop_last() =~= d.update(i, e));
        lemma_map_of_update(d, i, e);
        assert(map_of(u) =~= map_of(entries).insert(e.0@, e.1));
    }
}

impl Colors {
    /// The colors' consistency: no name occurs twice.
    pub closed spec fn wf(&self) -> bool {
        distinct_names(self.color_map@)
    }

    /// The mapping of names to color values.
    pub closed spec fn map(&self) -> Map<Seq<char>, u8> {
        map_of(self.color_map@)
    }

    /// The mappings of names to color values, in the order in which the names
    /// were first mapped.
    pub closed spec fn color_list(&self) -> Seq<(String, u8)> {
        self.color_map@
    }

    /// Creates a collection with no named colors.
    pub fn empty() -> (c: Colors)
        ensures
            c.wf(),
            c.map() == Map::<Seq<char>, u8>::empty(),
    {
        Colors { color_map: Vec::new() }
    }

    /// Maps `name` to `color`, replacing any previous mapping of `name`.
    pub fn insert(&mut self, name: String, color: u8)
        requires
            old(self).wf(),
        ensures
            final(self).wf(),
            final(self).map() == old(self).map().insert(name@, color),
    {
        let mut i: usize = 0;
        while i < self.color_map.len()
            invariant
                self.wf(),
                self.color_map@ == old(self).color_map@,
                0 <= i <= self.color_map@.len(),
                forall|k: int| 0 <= k < i ==> self.color_map@[k].0@ != name@,
            decreases self.color_map@.len() - i,
        {
            if self.color_map[i].0 == name {
                proof {
                    lemma_map_of_update(self.color_map@, i as int, (name, color));
                }
                self.color_map.set(i, (name, color));
                return;
            }
            i = i + 1;
        }
        let ghost before = self.color_map@;
        self.color_map.push((name, color));
        assert(self.color_map@.drop_last() =~= before);
    }

    /// Applies the mappings in `colors` on top of this collection, in order.
    pub fn apply(&mut self, colors: &Vec<(String, u8)>)
        requires
            old(self).wf(),
        ensures
            final(self).wf(),
            final(self).map() == apply_entries(old(self).map(), colors@),
    {
        let mut i: usize = 0;
        while i < colors.len()
            invariant
                self.wf(),
                0 <= i <= colors@.len(),
                self.map() == apply_entries(old(self).map(), colors@.take(i as int)),
            decreases colors@.len() - i,
        {
            let (name, color) = (colors[i].0.clone(), colors[i].1);
            self.insert(name, color);
            proof {
                let t = colors@.take(i + 1);
                assert(t.drop_last() =~= colors@.take(i as int));
                assert(t.last() == colors@[i as int]);
            }
            i = i + 1;
        }
        assert(colors@.take(colors@.len() as int) =~= colors@);
    }

    /// Returns the color mapped to `name`, or else the value of `name` read as a
    /// decimal number in the range of `0` to `255`, or `None`.
    pub fn lookup(&self, name: &str) -> (r: Option<u8>)
        requires
            self.wf(),
        ensures
            r == (if self.map().contains_key(name@) {
                Some(self.map()[name@])
            } else {
                match parse_unsigned(name@, 10, 255) {
                    Some(v) => Some(v as u8),
                    None => None::<u8>,
                }
            }),
    {
        let key = to_string(name);
        let mut i: usize = 0;
        while i < self.color_map.len()
            invariant
                self.wf(),
                key@ == name@,
                0 <= i <= self.color_map@.len(),
                forall|k: int| 0 <= k < i ==> self.color_map@[k].0@ != name@,
            decreases self.color_map@.len() - i,
        {
            if self.color_map[i].0 == key {
                proof {
                    lemma_map_of_entry(self.color_map@, i as int);
                }
                return Some(self.color_map[i].1);
            }
            i = i + 1;
        }
        proof {
            lemma_map_of_absent(self.color_map@, name@);
        }
        parse_u8(name)
    }

    /// Returns the color denoted by `value`: a number as it is, or a name as
    /// [`lookup`](Self::lookup) finds it.
    pub fn lookup_value(&self, value: &ColorValue) -> (r: Option<u8>)
        requires
            self.wf(),
        ensures
            value matches ColorValue::Number(n) ==> r == Some(*n),
            value matches ColorValue::Name(name) ==> r == (if self.map().contains_key(name@) {
                Some(self.map()[name@])
            } else {
                match parse_unsigned(name@, 10, 255) {
                    Some(v) => Some(v as u8),
                    None => None::<u8>,
                }
            }),
    {
        match value {
            ColorValue::Name(name) => self.lookup(name.as_str()),
            ColorValue::Number(color) => Some(*color),
        }
    }

    /// Returns the mappings of names to color values.
    pub fn colors(&self) -> (m: &Vec<(String, u8)>)
        requires
            self.wf(),
        ensures
            m@ == self.color_list(),
            map_of(m@) == self.map(),
            distinct_names(m@),
    {
        &self.color_map
    }
}

/// The predefined ANSI standard and extended color names.
pub open spec fn default_color_map() -> Map<Seq<char>, u8> {
    Map::empty()
        .insert("black"@, 0u8).insert("red"@, 1u8).insert("green"@, 2u8).insert("yellow"@, 3u8)
        .insert("blue"@, 4u8).insert("magenta"@, 5u8).insert("cyan"@, 6u8).insert("white"@, 7u8)
        .insert("gray"@, 8u8).insert("bright-red"@, 9u8).insert("bright-green"@, 10u8)
        .insert("bright-yellow"@, 11u8).insert("bright-blue"@, 12u8)
        .insert("bright-magenta"@, 13u8).insert("bright-cyan"@, 14u8)
        .insert("bright-white"@, 15u8).insert("pale-green"@, 30u8)
        .insert("charcoal-mist"@, 60u8).insert("slate-frost"@, 61u8)
        .insert("deep-sapphire"@, 69u8).insert("verdant-spring"@, 79u8)
        .insert("crimson-ember"@, 88u8).insert("sage-green"@, 102u8)
        .insert("misty-aqua"@, 109u8).insert("crystal-cyan"@, 111u8)
        .insert("twilight-blue"@, 117u8).insert("lavender-haze"@, 136u8)
        .insert("seafoam-mist"@, 147u8).insert("burnt-orange"@, 166u8)
        .insert("orchid-bloom"@, 175u8).insert("amber-dusk"@, 180u8)
        .insert("copper-flame"@, 208u8).insert("peachy-orange"@, 216u8)
        .insert("golden-glow"@, 223u8)
}

impl Default for Colors {
    /// The predefined color names.
    fn default() -> (c: Colors)
        ensures
            c.wf(),
            c.map() == default_color_map(),
    {
        let mut c = Colors::empty();
        c.insert(to_string("black"), 0);
        c.insert(to_string("red"), 1);
        c.insert(to_string("green"), 2);
        c.insert(to_string("yellow"), 3);
        c.insert(to_string("blue"), 4);
        c.insert(to_string("magenta"), 5);
        c.insert(to_string("cyan"), 6);
        c.insert(to_string("white"), 7);
        c.insert(to_string("gray"), 8);
        c.insert(to_string("bright-red"), 9);
        c.insert(to_string("bright-green"), 10);
        c.insert(to_string("bright-yellow"), 11);
        c.insert(to_string("bright-blue"), 12);
        c.insert(to_string("bright-magenta"), 13);
        c.insert(to_string("bright-cyan"), 14);
        c.insert(to_string("bright-white"), 15);
        c.insert(to_string("pale-green"), 30);
        c.insert(to_string("charcoal-mist"), 60);
        c.insert(to_string("slate-frost"), 61);
        c.insert(to_string("deep-sapphire"), 69);
        c.insert(to_string("verdant-spring"), 79);
        c.insert(to_string("crimson-ember"), 88);
        c.insert(to_string("sage-green"), 102);
        c.insert(to_string("misty-aqua"), 109);
        c.insert(to_string("crystal-cyan"), 111);
        c.insert(to_string("twilight-blue"), 117);
        c.insert(to_string("lavender-haze"), 136);
        c.insert(to_string("seafoam-mist"), 147);
        c.insert(to_string("burnt-orange"), 166);
        c.insert(to_string("orchid-bloom"), 175);
        c.insert(to_string("amber-dusk"), 180);
        c.insert(to_string("copper-flame"), 208);
        c.insert(to_string("peachy-orange"), 216);
        c.insert(to_string("golden-glow"), 223);
        c
    }
}

/// The description of what a color value may be.
pub const EXPECT_MSG: &'static str = "a number in the range of [0, 255] or a string";

/// The error reported for a number out of the color range.
pub const ERROR_MSG: &'static str = "color values must be in the range of [0, 255]";

impl ColorVisitor {
    /// Accepts a signed number in the range of `0` to `255`.
    pub fn visit_i64(&self, value: i64) -> (r: core::result::Result<ColorValue, &'static str>)
        ensures
            0 <= value <= 255 ==> (r matches Ok(ColorValue::Number(n)) && n == value),
            !(0 <= value <= 255) ==> (r matches Err(m) && m@ == ERROR_MSG@),
    {
        if value >= 0 && value <= 255 {
            Ok(ColorValue::Number(value as u8))
        } else {
            Err(ERROR_MSG)
        }
    }

    /// Accepts an unsigned number no larger than `255`.
    pub fn visit_u64(&self, value: u64) -> (r: core::result::Result<ColorValue, &'static str>)
        ensures
            value <= 255 ==> (r matches Ok(ColorValue::Number(n)) && n == value),
            value > 255 ==> (r matches Err(m) && m@ == ERROR_MSG@),
    {
        if value <= 255 {
            Ok(ColorValue::Number(value as u8))
        } else {
            Err(ERROR_MSG)
        }
    }

    /// Accepts any string as a color name.
    pub fn visit_str(&self, value: &str) -> (r: ColorValue)
        ensures
            r matches ColorValue::Name(n) && n@ == value@,
    {
        ColorValue::Name(to_string(value))
    }
}

} // verus!
