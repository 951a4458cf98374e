use vstd::prelude::*;

verus! {

/// A texture format.
#[derive(Debug, Clone, Copy, PartialEq, Eq, Structural)]
pub enum TextureFormat {
    /// The default format of the game's textures.
    Rgba8UnormSrgb,
    /// The format of high-dynamic-range views.
    Rgba16Float,
    Rgba8Unorm,
    Bgra8Unorm,
    Bgra8UnormSrgb,
    /// The depth format of 2D views.
    Depth32Float,
}

/// What a texture is used for.
#[derive(Debug, Clone, Copy, PartialEq, Eq, Structural)]
pub struct TextureUsages {
    pub render_attachment: bool,
    pub texture_binding: bool,
}

/// A texture to get from the texture cache.
#[derive(Debug, Clone)]
pub struct TextureDesc {
    pub label: &'static str,
    pub width: u32,
    pub height: u32,
    pub sample_count: u32,
    pub format: TextureFormat,
    pub usage: TextureUsages,
    pub view_formats: Vec<TextureFormat>,
}

/// The textures of a framebuffer: the color texture, the multisampled one when the view is
/// multisampled, the depth texture, and the color format.
#[derive(Debug, Clone)]
pub struct Fbo<T> {
    pub texture: T,
    pub sampled_texture: Option<T>,
    pub depth_texture: T,
    pub texture_format: TextureFormat,
}

/// The textures to get for a camera's framebuffer.
#[derive(Debug, Clone)]
pub struct FboPlan {
    pub texture: TextureDesc,
    pub sampled_texture: Option<TextureDesc>,
    pub depth_texture: TextureDesc,
    pub texture_format: TextureFormat,
}

/// The formats a color texture may also be viewed in: its sRGB form for the plain 8-bit
/// formats, none otherwise.
pub open spec fn spec_view_formats(f: TextureFormat) -> Seq<TextureFormat> {
    match f {
        TextureFormat::Bgra8Unorm => seq![TextureFormat::Bgra8UnormSrgb],
        TextureFormat::Rgba8Unorm => seq![TextureFormat::Rgba8UnormSrgb],
        _ => Seq::empty(),
    }
}

fn view_formats(f: TextureFormat) -> (v: Vec<TextureFormat>)
    ensures
        v@ == spec_view_formats(f),
{
    let mut v: Vec<TextureFormat> = Vec::new();
    match f {
        TextureFormat::Bgra8Unorm => {
            v.push(TextureFormat::Bgra8UnormSrgb);
        },
        TextureFormat::Rgba8Unorm => {
            v.push(TextureFormat::Rgba8UnormSrgb);
        },
        _ => {},
    }
    proof {
        assert(v@ =~= spec_view_formats(f));
    }
    v
}

/// Works out the framebuffer of a camera.
#[derive(Debug, Clone, Copy, PartialEq, Eq, Structural, Default)]
pub struct FboFetcher;

impl FboFetcher {

/// The textures of a camera's framebuffer: the size of its target (2 by 2 when unknown); a
/// high-dynamic-range or default color format; a color texture that is rendered to and
/// sampled; a multisampled color texture when the view takes more than one sample; and a depth
/// texture with the view's samples.
pub fn fetch(&self, target_size: Option<(u32, u32)>, hdr: bool, msaa_samples: u32) -> (p: FboPlan)
    ensures
        ({
            let (w, h) = match target_size {
                Some(s) => s,
                None => (2u32, 2u32),
            };
            let format = if hdr { TextureFormat::Rgba16Float } else { TextureFormat::Rgba8UnormSrgb };
            &&& p.texture_format == format
            &&& p.texture.label@ == "centripetal_fbo"@
            &&& p.texture.width == w && p.texture.height == h
            &&& p.texture.sample_count == 1
            &&& p.texture.format == format
            &&& p.texture.usage == (TextureUsages { render_attachment: true, texture_binding: true })
            &&& p.texture.view_formats@ == spec_view_formats(format)
            &&& (msaa_samples > 1) == (p.sampled_texture is Some)
            &&& p.sampled_texture matches Some(s) ==> {
                &&& s.label@ == "centripetal_fbo_sampled"@
                &&& s.width == w && s.height == h
                &&& s.sample_count == msaa_samples
                &&& s.format == format
                &&& s.usage == (TextureUsages { render_attachment: true, texture_binding: false })
                &&& s.view_formats@ == spec_view_formats(format)
            }
            &&& p.depth_texture.label@ == "centripetal_fbo_depth"@
            &&& p.depth_texture.width == w && p.depth_texture.height == h
            &&& p.depth_texture.sample_count == msaa_samples
            &&& p.depth_texture.format == TextureFormat::Depth32Float
            &&& p.depth_texture.usage == (TextureUsages { render_attachment: true, texture_binding: false })
            &&& p.depth_texture.view_formats@ == Seq::<TextureFormat>::empty()
        }),
{
    let (w, h) = match target_size {
        Some(s) => s,
        None => (2, 2),
    };
    let format = if hdr { TextureFormat::Rgba16Float } else { TextureFormat::Rgba8UnormSrgb };
    let texture = TextureDesc {
        label: "centripetal_fbo",
        width: w,
        height: h,
        sample_count: 1,
        format,
        usage: TextureUsages { render_attachment: true, texture_binding: true },
        view_formats: view_formats(format),
    };
    let sampled_texture = if msaa_samples > 1 {
        Some(
            TextureDesc {
                label: "centripetal_fbo_sampled",
                width: w,
                height: h,
                sample_count: msaa_samples,
                format,
                usage: TextureUsages { render_attachment: true, texture_binding: false },
                view_formats: view_formats(format),
            },
        )
    } else {
        None
    };
    let depth_texture = TextureDesc {
        label: "centripetal_fbo_depth",
        width: w,
        height: h,
        sample_count: msaa_samples,
        format: TextureFormat::Depth32Float,
        usage: TextureUsages { render_attachment: true, texture_binding: false },
        view_formats: Vec::new(),
    };
    FboPlan { texture, sampled_texture, depth_texture, texture_format: format }
}

}

} // verus!
