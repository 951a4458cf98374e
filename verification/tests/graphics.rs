use bevy_color::ColorToPacked;
use centripetal::color::{srgba_hex, HexColorError, Rgba8};
use centripetal::graphics::animation::{
    update_animation, AnimationData, AnimationHooks, AnimationMode, HookAction, HookEvent,
};
use centripetal::graphics::fbo::{FboFetcher, TextureFormat};
use centripetal::graphics::sprite_alloc::{PixelSize, SpriteAllocator, SpriteError};
use centripetal::graphics::sprite_sheet::{
    parse_u32_decimal, sprite_sheet_layout, Ratio, SectionAnchor, SheetFrame, SheetTag, SpriteSection,
    SpriteTint, Wh, Xywh,
};

// ---- Colors ----

fn rgba(red: u8, green: u8, blue: u8, alpha: u8) -> Rgba8 {
    Rgba8 { red, green, blue, alpha }
}

#[test]
fn hex_colors_of_every_length() {
    assert_eq!(srgba_hex("#ABCDEF"), Ok(rgba(0xAB, 0xCD, 0xEF, 255)));
    assert_eq!(srgba_hex("ABCDEF"), Ok(rgba(0xAB, 0xCD, 0xEF, 255)));
    assert_eq!(srgba_hex("#abc"), Ok(rgba(0xAA, 0xBB, 0xCC, 255)));
    assert_eq!(srgba_hex("#abcd"), Ok(rgba(0xAA, 0xBB, 0xCC, 0xDD)));
    assert_eq!(srgba_hex("12345678"), Ok(rgba(0x12, 0x34, 0x56, 0x78)));
    assert_eq!(srgba_hex("#12345"), Err(HexColorError::Length));
    assert_eq!(srgba_hex(""), Err(HexColorError::Length));
    assert_eq!(srgba_hex("#GGG"), Err(HexColorError::Parse));
    assert_eq!(srgba_hex("+FF"), Ok(rgba(0, 0xFF, 0xFF, 255)));
}

#[test]
fn hex_colors_agree_with_bevy() {
    let samples = [
        "#000", "#fff", "#0f0f", "123", "#1234", "#123456", "#12345678", "abcdef", "#ABCDEF12", "+12", "+1234",
        "#+123", "-12", "#12", "#1234567", "zzz", "#é1", "é12", "1é", "", "#",
    ];
    for s in samples {
        let ours = srgba_hex(s);
        let theirs = bevy_color::Srgba::hex(s);
        match (ours, theirs) {
            (Ok(c), Ok(b)) => {
                let [red, green, blue, alpha] = b.to_u8_array();
                assert_eq!(c, rgba(red, green, blue, alpha), "input {:?}", s);
            },
            (Err(HexColorError::Length), Err(bevy_color::HexColorError::Length)) => {},
            (Err(HexColorError::Parse), Err(bevy_color::HexColorError::Parse(_))) => {},
            (a, b) => panic!("input {:?}: {:?} vs {:?}", s, a, b),
        }
    }
}

// ---- Animations ----

fn data(frame: usize, time: u128) -> AnimationData {
    AnimationData { time, frame, finished: false }
}

#[test]
fn animation_advances_through_frames() {
    let durations = vec![100, 100, 100];
    let mut d = data(0, 0);
    let done = update_animation(&mut d, Some((0, 2)), &durations, AnimationMode::Repeat, 250);
    assert!(!done);
    assert_eq!(d.frame, 2);
    assert_eq!(d.time, 50);
}

#[test]
fn repeating_animation_wraps() {
    let durations = vec![100, 100];
    let mut d = data(1, 90);
    update_animation(&mut d, Some((0, 1)), &durations, AnimationMode::Repeat, 20);
    assert_eq!(d.frame, 0);
    assert_eq!(d.time, 10);
}

#[test]
fn finishing_animation_reports_once() {
    let durations = vec![100, 100];
    let mut d = data(0, 0);
    assert!(update_animation(&mut d, Some((0, 1)), &durations, AnimationMode::Finish, 250));
    assert!(d.finished);
    assert_eq!(d.frame, 1);
    assert_eq!(d.time, 50);
    assert!(!update_animation(&mut d, Some((0, 1)), &durations, AnimationMode::Finish, 500));
    assert_eq!(d.frame, 1);
}

#[test]
fn frame_is_brought_within_the_tag() {
    let durations = vec![100, 100, 100, 100];
    let mut d = data(0, 0);
    update_animation(&mut d, Some((2, 3)), &durations, AnimationMode::Repeat, 10);
    assert_eq!(d.frame, 2);
    let mut d = data(3, 0);
    update_animation(&mut d, None, &durations, AnimationMode::Repeat, 10);
    assert_eq!(d.frame, 3);
    assert_eq!(d.time, 10);
}

#[test]
fn hooks_run_in_order_per_tag() {
    let hooks = AnimationHooks::<u32>::new()
        .on_done("in".to_string(), 1)
        .on_done("in".to_string(), 2)
        .on_enter("out".to_string(), 3)
        .on_done("out".to_string(), 4);
    assert_eq!(hooks.hooks(HookEvent::Done, "in"), Some(&vec![1, 2]));
    assert_eq!(hooks.hooks(HookEvent::Done, "out"), Some(&vec![4]));
    assert_eq!(hooks.hooks(HookEvent::Enter, "out"), Some(&vec![3]));
    assert_eq!(hooks.hooks(HookEvent::Exit, "out"), None);
    assert!(hooks.has_hooks(HookEvent::Enter));
    assert!(!hooks.has_hooks(HookEvent::Exit));
}

#[test]
fn despawn_on_done_hooks() {
    let hooks = AnimationHooks::despawn_on_done("anim".to_string());
    assert_eq!(hooks.hooks(HookEvent::Done, "anim"), Some(&vec![HookAction::Despawn]));
    assert!(hooks.hooks(HookEvent::Done, "other").is_none());
    match AnimationHooks::<u32>::set("out".to_string(), false) {
        HookAction::SetKey(k) => {
            assert_eq!(k.key, "out");
            assert!(!k.reset_duration());
            assert!(k.fire_exit());
        },
        HookAction::Despawn => panic!("expected a key"),
    }
}

// ---- Sprite packing ----

#[test]
fn sprites_pack_apart_on_a_page() {
    let mut a = SpriteAllocator::new(64, 100, 200);
    let (page, layout, first) = a.pack(1, 10, 10, 101, 201).unwrap();
    assert_eq!((page, layout, first), (100, 200, 0));
    let (page2, _, second) = a.pack(2, 10, 10, 101, 201).unwrap();
    assert_eq!((page2, second), (100, 1));
    let pending = a.take_pending();
    assert_eq!(pending.len(), 2);
    let (r1, r2) = (pending[0].rect, pending[1].rect);
    assert_eq!((r1.max_x - r1.min_x, r1.max_y - r1.min_y), (10, 10));
    assert!(r1.min_x >= 1 && r1.min_y >= 1 && r1.max_x <= 63 && r1.max_y <= 63);
    let apart = r1.max_x + 2 <= r2.min_x || r2.max_x + 2 <= r1.min_x || r1.max_y + 2 <= r2.min_y || r2.max_y + 2 <= r1.min_y;
    assert!(apart);
    assert_eq!(pending[0].image, 1);
    assert!(a.take_pending().is_empty());
}

#[test]
fn a_full_page_opens_another() {
    let mut a = SpriteAllocator::new(16, 100, 200);
    assert_eq!(a.pack(1, 14, 14, 101, 201).unwrap(), (100, 200, 0));
    assert_eq!(a.pack(2, 14, 14, 101, 201).unwrap(), (101, 201, 0));
}

#[test]
fn a_sprite_too_large_is_refused() {
    let mut a = SpriteAllocator::new(4096, 100, 200);
    let err = a.pack(1, 2047, 3, 101, 201).unwrap_err();
    assert_eq!(
        err,
        SpriteError::SpriteTooLarge {
            requested_size: PixelSize { width: 2047, height: 3 },
            max_size: PixelSize { width: 2048, height: 2048 },
        }
    );
    assert!(a.take_pending().is_empty());
    assert!(a.pack(1, 2046, 2046, 101, 201).is_ok());
}

// ---- Sprite sheets ----

#[test]
fn decimal_parsing_agrees_with_std() {
    let samples = [
        "0", "7", "+7", "+", "", "-1", "007", "4294967295", "4294967296", "99999999999", "12a", " 1", "1 ", "٣", "+0",
    ];
    for s in samples {
        assert_eq!(parse_u32_decimal(s), s.parse::<u32>().ok(), "input {:?}", s);
    }
}

fn frame(name: &str, x: u32, duration: u32) -> SheetFrame {
    SheetFrame {
        filename: name.to_string(),
        frame: Xywh { x, y: 0, w: 8, h: 8 },
        sprite_source_size: Xywh { x: 2, y: 3, w: 8, h: 8 },
        source_size: Wh { w: 16, h: 16 },
        duration,
    }
}

#[test]
fn sheet_frames_are_ordered_by_number() {
    let frames = vec![frame("2", 16, 30), frame("0", 0, 10), frame("x", 99, 5), frame("1", 8, 20)];
    let tags = vec![SheetTag { name: "anim".to_string(), from: 0, to: 2 }];
    let layout = sprite_sheet_layout(7, 8, 9, frames, tags);
    let xs: Vec<u32> = layout.frames.iter().map(|f| f.rect.unwrap().x).collect();
    assert!(xs == vec![0, 99, 8, 16] || xs == vec![99, 0, 8, 16]);
    let ds: Vec<u128> = layout.durations.clone();
    assert_eq!(ds.len(), 4);
    assert_eq!(ds[2], 20_000_000);
    assert_eq!(ds[3], 30_000_000);
    assert_eq!(layout.tags, vec![("anim".to_string(), (0, 2))]);
    let f = layout.frames[3];
    assert_eq!((f.page, f.layout, f.index), (7, 8, 9));
    assert_eq!(f.size, Wh { w: 8, h: 8 });
    // Source center (8, 8); sprite center (6, 7); anchor ((8-6)/8, -(8-7)/8).
    assert_eq!(
        f.center_anchor,
        SectionAnchor::Custom { x: Ratio { num: 4, den: 16 }, y: Ratio { num: -2, den: 16 } }
    );
}

#[test]
fn whole_sections_draw_plainly() {
    let s = SpriteSection::whole(1, 2, 3, Wh { w: 5, h: 6 });
    let d = s.sprite();
    assert_eq!(d.tint, SpriteTint { red: 255, green: 255, blue: 255, alpha: 255 });
    assert_eq!(d.custom_size, Wh { w: 5, h: 6 });
    assert_eq!(d.anchor, SectionAnchor::Center);
    assert!(!d.flip_x && !d.flip_y);
    assert_eq!(d.rect, None);
}

// ---- Framebuffers ----

#[test]
fn framebuffer_plans() {
    let p = FboFetcher.fetch(None, false, 1);
    assert_eq!((p.texture.width, p.texture.height), (2, 2));
    assert_eq!(p.texture_format, TextureFormat::Rgba8UnormSrgb);
    assert!(p.sampled_texture.is_none());
    assert_eq!(p.depth_texture.format, TextureFormat::Depth32Float);
    assert_eq!(p.texture.label, "centripetal_fbo");

    let p = FboFetcher.fetch(Some((1280, 800)), true, 4);
    assert_eq!(p.texture_format, TextureFormat::Rgba16Float);
    let s = p.sampled_texture.unwrap();
    assert_eq!((s.width, s.height, s.sample_count), (1280, 800, 4));
    assert_eq!(p.depth_texture.sample_count, 4);
    assert!(p.texture.view_formats.is_empty());
}

#[test]
fn sprites_go_to_the_first_page_with_room() {
    // Pages of side 16: a 10 by 14 sprite leaves a strip 4 pixels wide on its page.
    let mut a = SpriteAllocator::new(16, 100, 200);
    assert_eq!(a.pack(1, 10, 14, 101, 201).unwrap(), (100, 200, 0));
    assert_eq!(a.pack(2, 10, 14, 102, 202).unwrap(), (102, 202, 0));
    // A 2 by 2 sprite (4 by 4 with its margin) fits in the strip of the first page.
    assert_eq!(a.pack(3, 2, 2, 103, 203).unwrap(), (100, 200, 1));
    // A 3 by 3 sprite does not fit in either strip, so a third page opens.
    assert_eq!(a.pack(4, 3, 3, 104, 204).unwrap(), (104, 204, 0));
}
