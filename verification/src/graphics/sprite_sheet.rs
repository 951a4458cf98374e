use vstd::prelude::*;

use crate::i18n::{decimal_end, dec_value, parse_u32};
use crate::text::str_chars;
use crate::time::Duration;

verus! {

broadcast use {vstd::seq_lib::group_to_multiset_ensures, vstd::multiset::group_multiset_axioms};

/// The number that a string denotes as a decimal `u32`, as `str::parse` reads it: an optional
/// `+`, then at least one ASCII digit and nothing else, the value fitting in a `u32`.
pub open spec fn spec_parse_u32(s: Seq<char>) -> Option<u32> {
    let start: int = if s.len() > 0 && s[0] == '+' {
        1
    } else {
        0
    };
    if start < s.len() && decimal_end(s, start) == s.len() && dec_value(s.subrange(start, s.len() as int)) <= u32::MAX {
        Some(dec_value(s.subrange(start, s.len() as int)) as u32)
    } else {
        None
    }
}

/// Reads a decimal `u32` as `str::parse` does.
pub fn parse_u32_decimal(s: &str) -> (r: Option<u32>)
    ensures
        r == spec_parse_u32(s@),
{
    let chars = str_chars(s);
    let start: usize = if chars.len() > 0 && chars[0] == '+' {
        1
    } else {
        0
    };
    match parse_u32(&chars, start) {
        Some((v, e)) => {
            if e == chars.len() {
                Some(v)
            } else {
                proof {
                    assert(decimal_end(chars@, start as int) == e);
                }
                None
            }
        },
        None => None,
    }
}

/// A rectangle given by its corner and size, as a sprite sheet's description gives it.
#[derive(Debug, Clone, Copy, PartialEq, Eq, Structural)]
pub struct Xywh {
    pub x: u32,
    pub y: u32,
    pub w: u32,
    pub h: u32,
}

/// A size, as a sprite sheet's description gives it.
#[derive(Debug, Clone, Copy, PartialEq, Eq, Structural)]
pub struct Wh {
    pub w: u32,
    pub h: u32,
}

/// A frame of a sprite sheet as its description gives it.
#[derive(Debug, Clone, PartialEq, Eq)]
pub struct SheetFrame {
    /// The frame's number (`{frame}`), which orders the frames.
    pub filename: String,
    /// Where the frame lies within the sheet's image.
    pub frame: Xywh,
    /// Where the trimmed frame lies within the source frame.
    pub sprite_source_size: Xywh,
    /// The size of the source frame.
    pub source_size: Wh,
    /// How long the frame shows, in milliseconds.
    pub duration: u32,
}

/// A named run of frames of a sprite sheet, from `from` to `to` (exclusive).
#[derive(Debug, Clone, PartialEq, Eq)]
pub struct SheetTag {
    pub name: String,
    pub from: usize,
    pub to: usize,
}

/// The direction in which an animation plays its frames.
#[derive(Debug, Clone, Copy, PartialEq, Eq, Structural, Default)]
pub enum Direction {
    #[default]
    Forward,
}

/// A fraction `num / den`.
#[derive(Debug, Clone, Copy, PartialEq, Eq, Structural)]
pub struct Ratio {
    pub num: i64,
    pub den: u64,
}

/// Where a sprite is anchored, relative to its size: at its center, or at a point given by
/// two fractions of its width and height from the center (up is positive).
#[derive(Debug, Clone, Copy, PartialEq, Eq, Structural)]
pub enum SectionAnchor {
    Center,
    Custom { x: Ratio, y: Ratio },
}

/// A section of a sprite page: the page, the layout and index of the page's sprite, the
/// rectangle within it (all of it when `None`), its anchor and its size.
#[derive(Debug, Clone, Copy, PartialEq, Eq, Structural)]
pub struct SpriteSection {
    pub page: u64,
    pub layout: u64,
    pub index: usize,
    pub rect: Option<Xywh>,
    pub center_anchor: SectionAnchor,
    pub size: Wh,
}

/// A color given by its linear channels, each a fraction `num / 255` of full.
#[derive(Debug, Clone, Copy, PartialEq, Eq, Structural)]
pub struct SpriteTint {
    pub red: u8,
    pub green: u8,
    pub blue: u8,
    pub alpha: u8,
}

/// A sprite to draw: a section of a page, its tint, whether it is flipped, and its size.
#[derive(Debug, Clone, Copy, PartialEq, Eq, Structural)]
pub struct SpriteDesc {
    pub page: u64,
    pub layout: u64,
    pub index: usize,
    pub tint: SpriteTint,
    pub flip_x: bool,
    pub flip_y: bool,
    pub custom_size: Wh,
    pub rect: Option<Xywh>,
    pub anchor: SectionAnchor,
}

impl SpriteSection {
    /// A whole sprite image packed as the sprite `index` of `layout` on `page`, anchored at its
    /// center.
    pub fn whole(page: u64, layout: u64, index: usize, size: Wh) -> (s: SpriteSection)
        ensures
            s == (SpriteSection { page, layout, index, rect: None, center_anchor: SectionAnchor::Center, size }),
    {
        SpriteSection { page, layout, index, rect: None, center_anchor: SectionAnchor::Center, size }
    }

    /// The section drawn plainly: white, unflipped, at its own size, rectangle and anchor.
    pub fn sprite(&self) -> (d: SpriteDesc)
        ensures
            d == (SpriteDesc {
                page: self.page,
                layout: self.layout,
                index: self.index,
                tint: SpriteTint { red: 255, green: 255, blue: 255, alpha: 255 },
                flip_x: false,
                flip_y: false,
                custom_size: self.size,
                rect: self.rect,
                anchor: self.center_anchor,
            }),
    {
        SpriteDesc {
            page: self.page,
            layout: self.layout,
            index: self.index,
            tint: SpriteTint { red: 255, green: 255, blue: 255, alpha: 255 },
            flip_x: false,
            flip_y: false,
            custom_size: self.size,
            rect: self.rect,
            anchor: self.center_anchor,
        }
    }
}

/// The key that orders a frame: its number, or 0 when its name is no number.
pub open spec fn frame_key(f: SheetFrame) -> u32 {
    match spec_parse_u32(f.filename@) {
        Some(v) => v,
        None => 0,
    }
}

/// Whether frames are in the order of their keys.
pub open spec fn sorted_by_key(s: Seq<SheetFrame>) -> bool {
    forall|i: int, j: int| 0 <= i < j < s.len() ==> frame_key(#[trigger] s[i]) <= frame_key(#[trigger] s[j])
}

/// The anchor of a trimmed frame: the center of the source frame, seen from the center of the
/// trimmed sprite, in sprite sizes (up is positive).
pub open spec fn spec_frame_anchor(f: SheetFrame) -> SectionAnchor {
    SectionAnchor::Custom {
        x: Ratio {
            num: (f.source_size.w - 2 * f.sprite_source_size.x - f.sprite_source_size.w) as i64,
            den: (2 * f.sprite_source_size.w) as u64,
        },
        y: Ratio {
            num: (2 * f.sprite_source_size.y + f.sprite_source_size.h - f.source_size.h) as i64,
            den: (2 * f.sprite_source_size.h) as u64,
        },
    }
}

/// The section of a frame, on the page's sprite.
pub open spec fn spec_frame_section(page: u64, layout: u64, index: usize, f: SheetFrame) -> SpriteSection {
    SpriteSection {
        page,
        layout,
        index,
        rect: Some(f.frame),
        center_anchor: spec_frame_anchor(f),
        size: Wh { w: f.sprite_source_size.w, h: f.sprite_source_size.h },
    }
}

/// A sprite sheet laid out: its frames in order, how long each shows, and its tags.
#[derive(Debug)]
pub struct SpriteSheetLayout {
    pub frames: Vec<SpriteSection>,
    pub durations: Vec<Duration>,
    pub tags: Vec<(String, (usize, usize))>,
}

impl SpriteSheetLayout {
    /// The tags as a map from name to range of frames, a later tag replacing an earlier one of
    /// the same name.
    pub open spec fn tags_map(&self) -> Map<Seq<char>, (usize, usize)> {
        crate::logic::level::pairs_map(self.tags@)
    }

    /// The range of frames of the tag `key`.
    pub fn tag(&self, key: &str) -> (r: Option<(usize, usize)>)
        ensures
            r == (if self.tags_map().contains_key(key@) { Some(self.tags_map()[key@]) } else { None }),
    {
        match crate::logic::level::last_index_of(&self.tags, key) {
            Some(i) => Some(self.tags[i].1),
            None => None,
        }
    }
}

fn frame_anchor(f: &SheetFrame) -> (a: SectionAnchor)
    ensures
        a == spec_frame_anchor(*f),
{
    let x_num: i64 = f.source_size.w as i64 - 2 * (f.sprite_source_size.x as i64) - f.sprite_source_size.w as i64;
    let y_num: i64 = 2 * (f.sprite_source_size.y as i64) + f.sprite_source_size.h as i64 - f.source_size.h as i64;
    SectionAnchor::Custom {
        x: Ratio { num: x_num, den: 2 * (f.sprite_source_size.w as u64) },
        y: Ratio { num: y_num, den: 2 * (f.sprite_source_size.h as u64) },
    }
}

/// The frames in the order of their keys (frames of equal keys in some order).
pub fn sort_frames(frames: Vec<SheetFrame>) -> (r: Vec<SheetFrame>)
    ensures
        r@.to_multiset() == frames@.to_multiset(),
        sorted_by_key(r@),
{
    let ghost orig = frames@;
    let mut rest = frames;
    let mut out: Vec<SheetFrame> = Vec::new();
    let mut keys: Vec<u32> = Vec::new();
    while rest.len() > 0
        invariant
            out@.to_multiset().add(rest@.to_multiset()) == orig.to_multiset(),
            keys@.len() == out@.len(),
            forall|k: int| 0 <= k < out@.len() ==> keys@[k] == frame_key(#[trigger] out@[k]),
            sorted_by_key(out@),
        decreases rest.len(),
    {
        let ghost before = rest@;
        let f = rest.pop().unwrap();
        proof {
            assert(before =~= rest@.push(f));
        }
        let key = match parse_u32_decimal(f.filename.as_str()) {
            Some(v) => v,
            None => 0,
        };
        let mut pos: usize = 0;
        while pos < keys.len() && keys[pos] <= key
            invariant
                pos <= keys@.len(),
                keys@.len() == out@.len(),
                forall|k: int| 0 <= k < pos ==> keys@[k] <= key,
            decreases keys.len() - pos,
        {
            pos = pos + 1;
        }
        let ghost prev = out@;
        let ghost prev_keys = keys@;
        out.insert(pos, f);
        keys.insert(pos, key);
        proof {
            assert forall|k: int| 0 <= k < out@.len() implies keys@[k] == frame_key(#[trigger] out@[k]) by {
                if k < pos {
                    assert(out@[k] == prev[k]);
                } else if k > pos {
                    assert(out@[k] == prev[k - 1]);
                }
            }
            assert forall|i: int, j: int| 0 <= i < j < out@.len() implies frame_key(#[trigger] out@[i])
                <= frame_key(#[trigger] out@[j]) by {
                assert(keys@[i] == frame_key(out@[i]));
                assert(keys@[j] == frame_key(out@[j]));
                if i < pos && j < pos {
                    assert(out@[i] == prev[i] && out@[j] == prev[j]);
                    assert(prev_keys[i] == frame_key(prev[i]));
                    assert(prev_keys[j] == frame_key(prev[j]));
                } else if i < pos && j == pos {
                    assert(prev_keys[i] <= key);
                } else if i < pos && j > pos {
                    assert(keys@[i] == prev_keys[i] && keys@[j] == prev_keys[j - 1]);
                    assert(frame_key(prev[i]) <= frame_key(prev[j - 1]));
                    assert(prev_keys[i] == frame_key(prev[i]));
                    assert(prev_keys[j - 1] == frame_key(prev[j - 1]));
                } else if i == pos {
                    assert(keys@[j] == prev_keys[j - 1]);
                    assert(!(pos < prev_keys.len() && prev_keys[pos as int] <= key));
                    if j - 1 > pos {
                        assert(frame_key(prev[pos as int]) <= frame_key(prev[j - 1]));
                        assert(prev_keys[pos as int] == frame_key(prev[pos as int]));
                        assert(prev_keys[j - 1] == frame_key(prev[j - 1]));
                    }
                } else {
                    assert(out@[i] == prev[i - 1] && out@[j] == prev[j - 1]);
                    assert(prev_keys[i - 1] == frame_key(prev[i - 1]));
                    assert(prev_keys[j - 1] == frame_key(prev[j - 1]));
                }
            }
            assert(out@.to_multiset() == prev.to_multiset().insert(f));
            assert(before.to_multiset() == rest@.to_multiset().insert(f));
            assert(out@.to_multiset().add(rest@.to_multiset()) =~= prev.to_multiset().add(before.to_multiset()));
        }
    }
    proof {
        assert(rest@.to_multiset() =~= vstd::multiset::Multiset::<SheetFrame>::empty());
        assert(out@.to_multiset() =~= out@.to_multiset().add(rest@.to_multiset()));
    }
    out
}

/// Lays out a sprite sheet whose image was packed as the sprite `index` of `layout` on `page`:
/// its frames ordered by their numbers (frames whose name is no number count as 0), each the
/// section of the sheet that it occupies, anchored where the center of its untrimmed frame
/// lies; the time each frame shows; and each tag as its range of frames.
pub fn sprite_sheet_layout(page: u64, layout: u64, index: usize, frames: Vec<SheetFrame>, tags: Vec<SheetTag>) -> (r: SpriteSheetLayout)
    ensures
        exists|sorted: Seq<SheetFrame>| {
            &&& sorted.to_multiset() == frames@.to_multiset()
            &&& sorted_by_key(sorted)
            &&& r.frames@ == sorted.map_values(|f: SheetFrame| spec_frame_section(page, layout, index, f))
            &&& r.durations@ == sorted.map_values(|f: SheetFrame| (f.duration as int * 1_000_000) as Duration)
        },
        r.tags@.len() == tags@.len(),
        forall|i: int| 0 <= i < tags@.len() ==> (#[trigger] r.tags@[i]).0@ == tags@[i].name@
            && r.tags@[i].1 == (tags@[i].from, tags@[i].to),
{
    let sorted = sort_frames(frames);
    let mut sections: Vec<SpriteSection> = Vec::new();
    let mut durations: Vec<Duration> = Vec::new();
    let mut i: usize = 0;
    while i < sorted.len()
        invariant
            i <= sorted@.len(),
            sections@ == sorted@.take(i as int).map_values(|f: SheetFrame| spec_frame_section(page, layout, index, f)),
            durations@ == sorted@.take(i as int).map_values(|f: SheetFrame| (f.duration as int * 1_000_000) as Duration),
        decreases sorted.len() - i,
    {
        let f = &sorted[i];
        let section = SpriteSection {
            page,
            layout,
            index,
            rect: Some(f.frame),
            center_anchor: frame_anchor(f),
            size: Wh { w: f.sprite_source_size.w, h: f.sprite_source_size.h },
        };
        sections.push(section);
        durations.push(f.duration as u128 * 1_000_000);
        proof {
            assert(sorted@.take(i + 1) =~= sorted@.take(i as int).push(sorted@[i as int]));
        }
        i = i + 1;
    }
    proof {
        assert(sorted@.take(i as int) =~= sorted@);
    }
    let mut tags_out: Vec<(String, (usize, usize))> = Vec::new();
    let mut j: usize = 0;
    while j < tags.len()
        invariant
            j <= tags@.len(),
            tags_out@.len() == j,
            forall|k: int| 0 <= k < j ==> (#[trigger] tags_out@[k]).0@ == tags@[k].name@
                && tags_out@[k].1 == (tags@[k].from, tags@[k].to),
        decreases tags.len() - j,
    {
        let t = &tags[j];
        tags_out.push((t.name.clone(), (t.from, t.to)));
        j = j + 1;
    }
    SpriteSheetLayout { frames: sections, durations, tags: tags_out }
}

} // verus!
